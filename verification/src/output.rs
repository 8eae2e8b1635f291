//! Structured output: JSON, CSV (generic and with fixed schemas) and NDJSON
//! renderings of a JSON value.

use vstd::prelude::*;
use crate::csv::{
    insert_sorted, lemma_sorted_unique, records_csv, render_records, render_records_csv,
    row_texts, str_texts, strictly_sorted, texts,
};
use crate::cli::OutputFormat;
use crate::error::SkyTabError;
use crate::json::{
    as_array, as_i64, as_str, compact, depth, get_member, is_object, member, number_as_i64,
    path_value, pretty, to_compact_string, value_at_path, write_compact, write_pretty, Json,
};
use crate::text::{
    append_chars, chars_of, i64_text, int_text, join, join_chars, nat_text, string_of, trim,
    trim_chars, usize_text, views,
};

verus! {

/// Column layouts for CSV output that stay fixed whatever the API returns.
pub enum CsvSchema {
    HourlySales,
    Payroll,
    TimeclockShifts,
    PaymentsTransactions,
    InsightsDailyBrief,
    InsightsLaborVsSales,
    InsightsPaymentMix,
}

/// A row of cells, or nothing when the source item is skipped.
pub type RowFn = spec_fn(Json) -> Option<Seq<Seq<char>>>;

/// The rows produced from a list of items, in order, skipping the items
/// for which `f` gives nothing.
pub open spec fn filter_rows(items: Seq<Json>, f: RowFn) -> Seq<Seq<Seq<char>>>
    decreases items.len(),
{
    if items.len() == 0 {
        seq![]
    } else {
        let prev = filter_rows(items.drop_last(), f);
        match f(items.last()) {
            Some(r) => prev.push(r),
            None => prev,
        }
    }
}

/// How a JSON value appears in a CSV cell: nothing for `null`, the text of
/// strings, numbers and booleans, compact JSON for arrays and objects.
pub open spec fn cell_text(j: Json) -> Seq<char> {
    match j {
        Json::Null => seq![],
        Json::Bool(b) => if b {
            "true"@
        } else {
            "false"@
        },
        Json::Number(t) => t@,
        Json::Str(s) => s@,
        _ => compact(j),
    }
}

/// The cell of the first path that holds a non-null value; empty otherwise.
pub open spec fn cell_of_paths(v: Json, paths: Seq<Seq<char>>) -> Seq<char>
    decreases paths.len(),
{
    if paths.len() == 0 {
        seq![]
    } else {
        match value_at_path(v, paths[0]) {
            Some(found) => cell_text(found),
            None => cell_of_paths(v, paths.drop_first()),
        }
    }
}

/// The cell for an object member, empty when it is absent.
pub open spec fn member_cell(v: Json, key: Seq<char>) -> Seq<char> {
    match member(v, key) {
        Some(x) => cell_text(x),
        None => seq![],
    }
}

/// The array under `key`, or the value itself when that is an array.
pub open spec fn array_at_or_root(v: Json, key: Seq<char>) -> Option<Seq<Json>> {
    match member(v, key) {
        Some(Json::Array(a)) => Some(a@),
        _ => match v {
            Json::Array(a) => Some(a@),
            _ => None,
        },
    }
}

/// Rows produced from the array under `key` (or the root array).
pub open spec fn rows_from(v: Json, key: Seq<char>, f: RowFn) -> Seq<Seq<Seq<char>>> {
    match array_at_or_root(v, key) {
        Some(items) => filter_rows(items, f),
        None => seq![],
    }
}

/// `json_value_to_cell`.
pub fn json_value_to_cell(j: &Json) -> (r: String)
    ensures
        r@ == cell_text(*j),
{
    match j {
        Json::Null => String::new(),
        Json::Bool(b) => if *b {
            String::from_str("true")
        } else {
            String::from_str("false")
        },
        Json::Number(t) => t.clone(),
        Json::Str(s) => s.clone(),
        _ => to_compact_string(j),
    }
}

/// The cell of the first of `paths` that holds a non-null value.
pub fn cell_from_paths(v: &Json, paths: &[&str]) -> (r: String)
    ensures
        r@ == cell_of_paths(*v, str_texts(paths@)),
{
    let ghost ps = str_texts(paths@);
    assert(ps.skip(0) =~= ps);
    let mut i: usize = 0;
    while i < paths.len()
        invariant
            i <= paths@.len(),
            ps == str_texts(paths@),
            cell_of_paths(*v, ps) == cell_of_paths(*v, ps.skip(i as int)),
        decreases paths@.len() - i,
    {
        proof {
            assert(ps.skip(i as int)[0] == paths@[i as int]@);
            assert(ps.skip(i as int).drop_first() =~= ps.skip(i + 1));
        }
        if let Some(found) = path_value(v, paths[i]) {
            return json_value_to_cell(found);
        }
        i = i + 1;
    }
    assert(ps.skip(i as int).len() == 0);
    String::new()
}

/// The cell for an object member, empty when absent.
pub fn member_cell_of(v: &Json, key: &str) -> (r: String)
    ensures
        r@ == member_cell(*v, key@),
{
    match get_member(v, key) {
        Some(x) => json_value_to_cell(x),
        None => String::new(),
    }
}

/// Executable [`array_at_or_root`].
pub fn array_or_root<'a>(v: &'a Json, key: &str) -> (r: Option<&'a Vec<Json>>)
    ensures
        match array_at_or_root(*v, key@) {
            Some(items) => r matches Some(a) && a@ == items,
            None => r is None,
        },
{
    if let Some(x) = get_member(v, key) {
        if let Json::Array(a) = x {
            return Some(a);
        }
    }
    as_array(v)
}

/// The hourly sales row of one report row (an array of columns).
pub open spec fn hourly_row(row: Json) -> Option<Seq<Seq<char>>> {
    match row {
        Json::Array(c) => Some(
            seq![
                column_cell(c@, 0),
                column_cell(c@, 1),
                column_cell(c@, 2),
                column_cell(c@, 3),
            ],
        ),
        _ => None,
    }
}

/// The cell for column `i`, empty past the end.
pub open spec fn column_cell(cols: Seq<Json>, i: int) -> Seq<char> {
    if 0 <= i < cols.len() {
        cell_text(cols[i])
    } else {
        seq![]
    }
}

fn column_cell_of(cols: &Vec<Json>, i: usize) -> (r: String)
    ensures
        r@ == column_cell(cols@, i as int),
{
    if i < cols.len() {
        json_value_to_cell(&cols[i])
    } else {
        String::new()
    }
}

/// Headers of the hourly sales schema.
pub open spec fn hourly_headers() -> Seq<Seq<char>> {
    seq!["date"@, "hour"@, "gross"@, "net"@]
}

/// CSV of the hourly sales schema.
pub open spec fn hourly_sales_csv(v: Json) -> Seq<char> {
    records_csv(hourly_headers(), rows_from(v, "rows"@, |r: Json| hourly_row(r)))
}

/// `render_hourly_sales_csv`.
pub fn render_hourly_sales_csv(value: &Json) -> (r: String)
    ensures
        r@ == hourly_sales_csv(*value),
{
    let headers: &[&str] = &["date", "hour", "gross", "net"];
    let ghost f: RowFn = |r: Json| hourly_row(r);
    let mut rows: Vec<Vec<String>> = Vec::new();
    if let Some(items) = array_or_root(value, "rows") {
        let mut i: usize = 0;
        while i < items.len()
            invariant
                i <= items@.len(),
                f == (|r: Json| hourly_row(r)),
                row_texts(rows@) == filter_rows(items@.take(i as int), f),
            decreases items@.len() - i,
        {
            let ghost prev = rows@;
            proof {
                assert(f(items@[i as int]) == hourly_row(items@[i as int]));
            }
            if let Json::Array(cols) = &items[i] {
                let mut row: Vec<String> = Vec::new();
                row.push(column_cell_of(cols, 0));
                row.push(column_cell_of(cols, 1));
                row.push(column_cell_of(cols, 2));
                row.push(column_cell_of(cols, 3));
                let ghost rv = texts(row@);
                rows.push(row);
                proof {
                    assert(items@[i as int] == Json::Array(*cols));
                    assert(rv =~= hourly_row(items@[i as int])->0);
                    assert(row_texts(rows@) =~= row_texts(prev).push(rv));
                }
            } else {
                assert(hourly_row(items@[i as int]) is None);
            }
            i = i + 1;
            proof {
                assert(items@.take(i as int).drop_last() =~= items@.take(i - 1));
                assert(items@.take(i as int).last() == items@[i - 1]);
            }
        }
        assert(items@.take(items@.len() as int) =~= items@);
    }
    assert(str_texts(headers@) =~= hourly_headers());
    render_records_csv(headers, &rows)
}

/// Headers of the payroll schema, after `row_type`.
pub open spec fn payroll_keys() -> Seq<Seq<char>> {
    seq![
        "employee_id"@,
        "employee_name"@,
        "normal_hours"@,
        "overtime_hours"@,
        "double_overtime_hours"@,
        "normal_pay"@,
        "overtime_pay"@,
        "double_overtime_pay"@,
        "total_gratuity"@,
        "total_pay"@,
        "adjusted_tips"@,
        "tip_reduction"@,
        "declared_tips"@,
        "gross_tips"@,
        "tip_share"@,
        "net_tips"@,
    ]
}

/// One payroll row: its type, then the member cells in [`payroll_keys`] order.
pub open spec fn payroll_row(e: Json, row_type: Seq<char>) -> Seq<Seq<char>> {
    seq![row_type] + payroll_keys().map_values(|k: Seq<char>| member_cell(e, k))
}

/// The totals row, present when `totals` is an object.
pub open spec fn payroll_totals(v: Json) -> Seq<Seq<Seq<char>>> {
    match member(v, "totals"@) {
        Some(t) => if t is Object {
            seq![payroll_row(t, "total"@)]
        } else {
            seq![]
        },
        None => seq![],
    }
}

/// CSV of the payroll schema: one row per employee, then the totals row.
pub open spec fn payroll_csv(v: Json) -> Seq<char> {
    records_csv(
        seq!["row_type"@] + payroll_keys(),
        rows_from(v, "employees"@, |e: Json| Some(payroll_row(e, "employee"@))) + payroll_totals(
            v,
        ),
    )
}

/// `build_payroll_csv_row`.
fn build_payroll_csv_row(value: &Json, row_type: &str) -> (r: Vec<String>)
    ensures
        texts(r@) == payroll_row(*value, row_type@),
{
    let keys: &[&str] = &[
        "employee_id",
        "employee_name",
        "normal_hours",
        "overtime_hours",
        "double_overtime_hours",
        "normal_pay",
        "overtime_pay",
        "double_overtime_pay",
        "total_gratuity",
        "total_pay",
        "adjusted_tips",
        "tip_reduction",
        "declared_tips",
        "gross_tips",
        "tip_share",
        "net_tips",
    ];
    proof {
        assert(str_texts(keys@) =~= payroll_keys());
    }
    let mut row: Vec<String> = Vec::new();
    row.push(String::from_str(row_type));
    let mut i: usize = 0;
    while i < keys.len()
        invariant
            i <= keys@.len(),
            str_texts(keys@) == payroll_keys(),
            texts(row@) == seq![row_type@] + payroll_keys().take(i as int).map_values(
                |k: Seq<char>| member_cell(*value, k),
            ),
        decreases keys@.len() - i,
    {
        let ghost prev_row = row@;
        let cell = member_cell_of(value, keys[i]);
        row.push(cell);
        i = i + 1;
        proof {
            assert(texts(row@) =~= texts(prev_row).push(cell@));
            assert(payroll_keys()[i - 1] == keys@[i - 1]@);
            assert(payroll_keys().take(i as int).map_values(|k: Seq<char>| member_cell(*value, k))
                =~= payroll_keys().take(i - 1).map_values(|k: Seq<char>| member_cell(*value, k)).push(
                member_cell(*value, keys@[i - 1]@),
            ));
            assert(texts(row@) =~= seq![row_type@] + payroll_keys().take(i as int).map_values(
                |k: Seq<char>| member_cell(*value, k),
            ));
        }
    }
    assert(payroll_keys().take(16) =~= payroll_keys());
    row
}

/// `render_payroll_csv`.
pub fn render_payroll_csv(value: &Json) -> (r: String)
    ensures
        r@ == payroll_csv(*value),
{
    let headers: &[&str] = &[
        "row_type",
        "employee_id",
        "employee_name",
        "normal_hours",
        "overtime_hours",
        "double_overtime_hours",
        "normal_pay",
        "overtime_pay",
        "double_overtime_pay",
        "total_gratuity",
        "total_pay",
        "adjusted_tips",
        "tip_reduction",
        "declared_tips",
        "gross_tips",
        "tip_share",
        "net_tips",
    ];
    let ghost f: RowFn = |e: Json| Some(payroll_row(e, "employee"@));
    let mut rows: Vec<Vec<String>> = Vec::new();
    if let Some(items) = array_or_root(value, "employees") {
        let mut i: usize = 0;
        while i < items.len()
            invariant
                i <= items@.len(),
                f == (|e: Json| Some(payroll_row(e, "employee"@))),
                row_texts(rows@) == filter_rows(items@.take(i as int), f),
            decreases items@.len() - i,
        {
            let ghost prev = rows@;
            let row = build_payroll_csv_row(&items[i], "employee");
            rows.push(row);
            proof {
                assert(row_texts(rows@) =~= row_texts(prev).push(texts(row@)));
            }
            i = i + 1;
            proof {
                assert(items@.take(i as int).drop_last() =~= items@.take(i - 1));
                assert(items@.take(i as int).last() == items@[i - 1]);
            }
        }
        assert(items@.take(items@.len() as int) =~= items@);
    }
    let ghost before = rows@;
    if let Some(totals) = get_member(value, "totals") {
        if is_object(totals) {
            let row = build_payroll_csv_row(totals, "total");
            rows.push(row);
            proof {
                assert(row_texts(rows@) =~= row_texts(before) + seq![texts(row@)]);
            }
        } else {
            assert(row_texts(rows@) =~= row_texts(before) + seq![]);
        }
    } else {
        assert(row_texts(rows@) =~= row_texts(before) + seq![]);
    }
    assert(str_texts(headers@) =~= seq!["row_type"@] + payroll_keys());
    render_records_csv(headers, &rows)
}

/// Whether a shift is still open: its `clockedOutAt` is not a non-empty text.
pub open spec fn shift_is_open(shift: Json) -> bool {
    match value_at_path(shift, "clockedOutAt"@) {
        Some(Json::Str(s)) => s@.len() == 0,
        _ => true,
    }
}

/// The timeclock row of one shift object; `hours` is the hours cell.
pub open spec fn timeclock_row(shift: Json, hours: Seq<char>) -> Seq<Seq<char>> {
    seq![
        cell_of_paths(shift, seq!["guid"@, "id"@]),
        cell_of_paths(shift, seq!["employee.name"@, "employeeName"@, "employee"@]),
        cell_of_paths(shift, seq!["clockedInAt"@]),
        cell_of_paths(shift, seq!["clockedOutAt"@]),
        hours,
        cell_of_paths(shift, seq!["payRate"@]),
        cell_of_paths(shift, seq!["job.name"@, "jobName"@]),
        if shift_is_open(shift) {
            "open"@
        } else {
            "closed"@
        },
        cell_of_paths(shift, seq!["locationId"@, "location.id"@]),
    ]
}

/// The hours cell for shift number `i`, empty when none was supplied.
pub open spec fn hours_cell(hours: Seq<Seq<char>>, i: int) -> Seq<char> {
    if 0 <= i < hours.len() {
        hours[i]
    } else {
        seq![]
    }
}

/// Timeclock rows of the first `n` items; item `i` takes `hours[i]`.
pub open spec fn timeclock_rows(items: Seq<Json>, hours: Seq<Seq<char>>, n: int) -> Seq<
    Seq<Seq<char>>,
>
    decreases n,
{
    if n <= 0 {
        seq![]
    } else {
        let prev = timeclock_rows(items, hours, n - 1);
        if items[n - 1] is Object {
            prev.push(timeclock_row(items[n - 1], hours_cell(hours, n - 1)))
        } else {
            prev
        }
    }
}

/// Headers of the timeclock schema.
pub open spec fn timeclock_headers() -> Seq<Seq<char>> {
    seq![
        "shift_guid"@,
        "employee_name"@,
        "clocked_in_at"@,
        "clocked_out_at"@,
        "hours"@,
        "pay_rate"@,
        "job_name"@,
        "status"@,
        "location_id"@,
    ]
}

/// CSV of the timeclock schema; `hours[i]` is the hours cell of the shift at
/// position `i` of the shift list.
pub open spec fn timeclock_csv(v: Json, hours: Seq<Seq<char>>) -> Seq<char> {
    records_csv(
        timeclock_headers(),
        match array_at_or_root(v, "timeClockShifts"@) {
            Some(items) => timeclock_rows(items, hours, items.len() as int),
            None => seq![],
        },
    )
}

proof fn lemma_rows_of_shift_objects(items: Seq<Json>, hours: Seq<Seq<char>>, n: int)
    requires
        0 <= n <= items.len(),
        forall|j: int| 0 <= j < items.len() ==> (#[trigger] items[j]) is Object,
    ensures
        timeclock_rows(items, hours, n).len() == n,
        forall|i: int|
            0 <= i < n ==> #[trigger] timeclock_rows(items, hours, n)[i] == timeclock_row(
                items[i],
                hours_cell(hours, i),
            ),
    decreases n,
{
    if n > 0 {
        lemma_rows_of_shift_objects(items, hours, n - 1);
        assert(items[n - 1] is Object);
    }
}

/// In the timeclock CSV of a list of shift objects, row `i` is shift `i`,
/// and its `status` cell is `closed` exactly when the shift's
/// `clockedOutAt` is a non-empty text: a missing, null or non-text
/// `clockedOutAt`, or an empty one, gives `open`.
pub proof fn law_timeclock_status(items: Seq<Json>, hours: Seq<Seq<char>>, i: int)
    requires
        0 <= i < items.len(),
        forall|j: int| 0 <= j < items.len() ==> (#[trigger] items[j]) is Object,
    ensures
        timeclock_headers()[7] == "status"@,
        timeclock_rows(items, hours, items.len() as int).len() == items.len(),
        timeclock_rows(items, hours, items.len() as int)[i][7] == match value_at_path(
            items[i],
            "clockedOutAt"@,
        ) {
            Some(Json::Str(s)) => if s@.len() > 0 {
                "closed"@
            } else {
                "open"@
            },
            _ => "open"@,
        },
        timeclock_rows(items, hours, items.len() as int)[i].len() == timeclock_headers().len(),
        timeclock_rows(items, hours, items.len() as int)[i][0] == cell_of_paths(
            items[i],
            seq!["guid"@, "id"@],
        ),
        timeclock_rows(items, hours, items.len() as int)[i][1] == cell_of_paths(
            items[i],
            seq!["employee.name"@, "employeeName"@, "employee"@],
        ),
        timeclock_rows(items, hours, items.len() as int)[i][2] == cell_of_paths(
            items[i],
            seq!["clockedInAt"@],
        ),
        timeclock_rows(items, hours, items.len() as int)[i][3] == cell_of_paths(
            items[i],
            seq!["clockedOutAt"@],
        ),
        timeclock_rows(items, hours, items.len() as int)[i][4] == (if i < hours.len() {
            hours[i]
        } else {
            seq![]
        }),
        timeclock_rows(items, hours, items.len() as int)[i][5] == cell_of_paths(
            items[i],
            seq!["payRate"@],
        ),
        timeclock_rows(items, hours, items.len() as int)[i][6] == cell_of_paths(
            items[i],
            seq!["job.name"@, "jobName"@],
        ),
        timeclock_rows(items, hours, items.len() as int)[i][8] == cell_of_paths(
            items[i],
            seq!["locationId"@, "location.id"@],
        ),
{
    lemma_rows_of_shift_objects(items, hours, items.len() as int);
}

/// The list of shifts that the timeclock schema renders.
pub fn timeclock_shift_list(value: &Json) -> (r: Option<&Vec<Json>>)
    ensures
        match array_at_or_root(*value, "timeClockShifts"@) {
            Some(items) => r matches Some(a) && a@ == items,
            None => r is None,
        },
{
    array_or_root(value, "timeClockShifts")
}

fn shift_open(shift: &Json) -> (r: bool)
    ensures
        r == shift_is_open(*shift),
{
    match path_value(shift, "clockedOutAt") {
        Some(Json::Str(s)) => chars_of(s.as_str()).len() == 0,
        _ => true,
    }
}

/// `render_timeclock_shifts_csv`. The hours of each shift are computed by the
/// caller from its clock times (`hours[i]` for the shift at position `i` of
/// the list that [`timeclock_shift_list`] returns).
pub fn render_timeclock_shifts_csv(value: &Json, hours: &Vec<String>) -> (r: String)
    ensures
        r@ == timeclock_csv(*value, texts(hours@)),
{
    let headers: &[&str] = &[
        "shift_guid",
        "employee_name",
        "clocked_in_at",
        "clocked_out_at",
        "hours",
        "pay_rate",
        "job_name",
        "status",
        "location_id",
    ];
    let ghost hs = texts(hours@);
    let mut rows: Vec<Vec<String>> = Vec::new();
    if let Some(items) = timeclock_shift_list(value) {
        let mut i: usize = 0;
        while i < items.len()
            invariant
                i <= items@.len(),
                hs == texts(hours@),
                row_texts(rows@) == timeclock_rows(items@, hs, i as int),
            decreases items@.len() - i,
        {
            let shift = &items[i];
            let ghost prev = rows@;
            if is_object(shift) {
                let open = shift_open(shift);
                let p_id: &[&str] = &["guid", "id"];
                let p_emp: &[&str] = &["employee.name", "employeeName", "employee"];
                let p_in: &[&str] = &["clockedInAt"];
                let p_out: &[&str] = &["clockedOutAt"];
                let p_rate: &[&str] = &["payRate"];
                let p_job: &[&str] = &["job.name", "jobName"];
                let p_loc: &[&str] = &["locationId", "location.id"];
                proof {
                    assert(str_texts(p_id@) =~= seq!["guid"@, "id"@]);
                    assert(str_texts(p_emp@) =~= seq![
                        "employee.name"@,
                        "employeeName"@,
                        "employee"@,
                    ]);
                    assert(str_texts(p_in@) =~= seq!["clockedInAt"@]);
                    assert(str_texts(p_out@) =~= seq!["clockedOutAt"@]);
                    assert(str_texts(p_rate@) =~= seq!["payRate"@]);
                    assert(str_texts(p_job@) =~= seq!["job.name"@, "jobName"@]);
                    assert(str_texts(p_loc@) =~= seq!["locationId"@, "location.id"@]);
                }
                let c0 = cell_from_paths(shift, p_id);
                let c1 = cell_from_paths(shift, p_emp);
                let c2 = cell_from_paths(shift, p_in);
                let c3 = cell_from_paths(shift, p_out);
                let c4 = if i < hours.len() {
                    hours[i].clone()
                } else {
                    String::new()
                };
                let c5 = cell_from_paths(shift, p_rate);
                let c6 = cell_from_paths(shift, p_job);
                let c7 = if open {
                    String::from_str("open")
                } else {
                    String::from_str("closed")
                };
                let c8 = cell_from_paths(shift, p_loc);
                let mut row: Vec<String> = Vec::new();
                row.push(c0);
                row.push(c1);
                row.push(c2);
                row.push(c3);
                row.push(c4);
                row.push(c5);
                row.push(c6);
                row.push(c7);
                row.push(c8);
                rows.push(row);
                proof {
                    assert(c4@ == hours_cell(hs, i as int));
                    assert(texts(row@) =~= timeclock_row(*shift, hours_cell(hs, i as int)));
                    assert(row_texts(rows@) =~= row_texts(prev).push(texts(row@)));
                }
            }
            i = i + 1;
        }
    }
    assert(str_texts(headers@) =~= timeclock_headers());
    render_records_csv(headers, &rows)
}

/// The path lists of the payments schema, one per column before `raw_json`.
pub open spec fn payment_paths() -> Seq<Seq<Seq<char>>> {
    seq![
        seq!["id"@, "guid"@, "transactionId"@, "transactionGuid"@],
        seq!["date"@, "createdAt"@, "created_at"@, "processedAt"@, "timestamp"@],
        seq!["type"@, "orderType"@, "transactionType"@],
        seq!["status"@, "state"@, "paymentStatus"@],
        seq!["amount"@, "paymentAmount"@, "netAmount"@, "totals.amount"@],
        seq!["tipAmount"@, "tip"@, "totals.tipAmount"@],
        seq!["taxAmount"@, "tax"@, "totals.taxAmount"@],
        seq!["totalAmount"@, "total"@, "totals.total"@],
        seq!["currency"@, "currencyCode"@, "totals.currency"@],
        seq!["locationId"@, "location.id"@, "location.guid"@],
        seq!["orderId"@, "ticketId"@, "checkId"@, "order.id"@],
        seq![
            "reference"@,
            "referenceNumber"@,
            "authCode"@,
            "authorizationCode"@,
            "approvalCode"@,
        ],
        seq![
            "cardBrand"@,
            "cardType"@,
            "card.brand"@,
            "paymentMethod.cardBrand"@,
            "paymentMethod.cardType"@,
        ],
        seq![
            "cardLast4"@,
            "last4"@,
            "lastFour"@,
            "card.last4"@,
            "paymentMethod.last4"@,
            "paymentMethod.lastFour"@,
        ],
    ]
}

/// The payments row of one transaction object: the first value found along
/// each path list, then the transaction's compact JSON.
pub open spec fn payment_row(t: Json) -> Option<Seq<Seq<char>>> {
    if t is Object {
        Some(
            payment_paths().map_values(|ps: Seq<Seq<char>>| cell_of_paths(t, ps)) + seq![
                compact(t),
            ],
        )
    } else {
        None
    }
}

/// Headers of the payments schema.
pub open spec fn payment_headers() -> Seq<Seq<char>> {
    seq![
        "transaction_id"@,
        "date"@,
        "type"@,
        "status"@,
        "amount"@,
        "tip_amount"@,
        "tax_amount"@,
        "total_amount"@,
        "currency"@,
        "location_id"@,
        "order_id"@,
        "reference"@,
        "card_brand"@,
        "card_last4"@,
        "raw_json"@,
    ]
}

/// CSV of the payments schema.
pub open spec fn payments_csv(v: Json) -> Seq<char> {
    records_csv(payment_headers(), rows_from(v, "transactions"@, |t: Json| payment_row(t)))
}

/// A transaction object's payments row has one cell per header: the id, date,
/// type, status, amount, tip, tax and total cells come from their own keys
/// (`tip_amount` from `tipAmount`, `tip` or `totals.tipAmount`; `tax_amount`
/// from `taxAmount`, `tax` or `totals.taxAmount`), and the last cell is the
/// transaction's compact JSON.
pub proof fn law_payment_columns(t: Json)
    requires
        t is Object,
    ensures
        payment_row(t) is Some,
        payment_row(t).unwrap().len() == payment_headers().len(),
        payment_headers()[0] == "transaction_id"@ && payment_row(t).unwrap()[0] == cell_of_paths(
            t,
            seq!["id"@, "guid"@, "transactionId"@, "transactionGuid"@],
        ),
        payment_headers()[1] == "date"@ && payment_row(t).unwrap()[1] == cell_of_paths(
            t,
            seq!["date"@, "createdAt"@, "created_at"@, "processedAt"@, "timestamp"@],
        ),
        payment_headers()[2] == "type"@ && payment_row(t).unwrap()[2] == cell_of_paths(
            t,
            seq!["type"@, "orderType"@, "transactionType"@],
        ),
        payment_headers()[3] == "status"@ && payment_row(t).unwrap()[3] == cell_of_paths(
            t,
            seq!["status"@, "state"@, "paymentStatus"@],
        ),
        payment_headers()[4] == "amount"@ && payment_row(t).unwrap()[4] == cell_of_paths(
            t,
            seq!["amount"@, "paymentAmount"@, "netAmount"@, "totals.amount"@],
        ),
        payment_headers()[5] == "tip_amount"@ && payment_row(t).unwrap()[5] == cell_of_paths(
            t,
            seq!["tipAmount"@, "tip"@, "totals.tipAmount"@],
        ),
        payment_headers()[6] == "tax_amount"@ && payment_row(t).unwrap()[6] == cell_of_paths(
            t,
            seq!["taxAmount"@, "tax"@, "totals.taxAmount"@],
        ),
        payment_headers()[7] == "total_amount"@ && payment_row(t).unwrap()[7] == cell_of_paths(
            t,
            seq!["totalAmount"@, "total"@, "totals.total"@],
        ),
        payment_headers()[8] == "currency"@ && payment_row(t).unwrap()[8] == cell_of_paths(
            t,
            seq!["currency"@, "currencyCode"@, "totals.currency"@],
        ),
        payment_headers()[9] == "location_id"@ && payment_row(t).unwrap()[9] == cell_of_paths(
            t,
            seq!["locationId"@, "location.id"@, "location.guid"@],
        ),
        payment_headers()[10] == "order_id"@ && payment_row(t).unwrap()[10] == cell_of_paths(
            t,
            seq!["orderId"@, "ticketId"@, "checkId"@, "order.id"@],
        ),
        payment_headers()[14] == "raw_json"@ && payment_row(t).unwrap()[14] == compact(t),
{
    let ps = payment_paths();
    let cells = ps.map_values(|p: Seq<Seq<char>>| cell_of_paths(t, p));
    assert(cells.len() == 14);
    assert(payment_row(t).unwrap() == cells + seq![compact(t)]);
}

/// The texts of a list of path lists.
pub open spec fn path_lists(p: Seq<&[&str]>) -> Seq<Seq<Seq<char>>> {
    p.map_values(|x: &[&str]| str_texts(x@))
}

/// One cell per path list, in order.
fn cells_for_path_lists(v: &Json, lists: &[&[&str]], row: &mut Vec<String>)
    ensures
        texts(final(row)@) == texts(old(row)@) + path_lists(lists@).map_values(
            |ps: Seq<Seq<char>>| cell_of_paths(*v, ps),
        ),
{
    let ghost start = texts(row@);
    let ghost pl = path_lists(lists@);
    let mut i: usize = 0;
    while i < lists.len()
        invariant
            i <= lists@.len(),
            pl == path_lists(lists@),
            texts(row@) == start + pl.take(i as int).map_values(
                |ps: Seq<Seq<char>>| cell_of_paths(*v, ps),
            ),
        decreases lists@.len() - i,
    {
        let ghost prev = row@;
        let c = cell_from_paths(v, lists[i]);
        row.push(c);
        i = i + 1;
        proof {
            assert(pl[i - 1] == str_texts(lists@[i - 1]@));
            assert(pl.take(i as int).map_values(|ps: Seq<Seq<char>>| cell_of_paths(*v, ps))
                =~= pl.take(i - 1).map_values(|ps: Seq<Seq<char>>| cell_of_paths(*v, ps)).push(
                c@,
            ));
            assert(texts(row@) =~= texts(prev).push(c@));
        }
    }
    assert(pl.take(lists@.len() as int) =~= pl);
}

/// `render_payments_transactions_csv`.
pub fn render_payments_transactions_csv(value: &Json) -> (r: String)
    ensures
        r@ == payments_csv(*value),
{
    let headers: &[&str] = &[
        "transaction_id",
        "date",
        "type",
        "status",
        "amount",
        "tip_amount",
        "tax_amount",
        "total_amount",
        "currency",
        "location_id",
        "order_id",
        "reference",
        "card_brand",
        "card_last4",
        "raw_json",
    ];
    let mut list_vec: Vec<&[&str]> = Vec::new();
    let l0: &[&str] = &["id", "guid", "transactionId", "transactionGuid"];
    assert(str_texts(l0@) =~= payment_paths()[0]);
    list_vec.push(l0);
    let l1: &[&str] = &["date", "createdAt", "created_at", "processedAt", "timestamp"];
    assert(str_texts(l1@) =~= payment_paths()[1]);
    list_vec.push(l1);
    let l2: &[&str] = &["type", "orderType", "transactionType"];
    assert(str_texts(l2@) =~= payment_paths()[2]);
    list_vec.push(l2);
    let l3: &[&str] = &["status", "state", "paymentStatus"];
    assert(str_texts(l3@) =~= payment_paths()[3]);
    list_vec.push(l3);
    let l4: &[&str] = &["amount", "paymentAmount", "netAmount", "totals.amount"];
    assert(str_texts(l4@) =~= payment_paths()[4]);
    list_vec.push(l4);
    let l5: &[&str] = &["tipAmount", "tip", "totals.tipAmount"];
    assert(str_texts(l5@) =~= payment_paths()[5]);
    list_vec.push(l5);
    let l6: &[&str] = &["taxAmount", "tax", "totals.taxAmount"];
    assert(str_texts(l6@) =~= payment_paths()[6]);
    list_vec.push(l6);
    let l7: &[&str] = &["totalAmount", "total", "totals.total"];
    assert(str_texts(l7@) =~= payment_paths()[7]);
    list_vec.push(l7);
    let l8: &[&str] = &["currency", "currencyCode", "totals.currency"];
    assert(str_texts(l8@) =~= payment_paths()[8]);
    list_vec.push(l8);
    let l9: &[&str] = &["locationId", "location.id", "location.guid"];
    assert(str_texts(l9@) =~= payment_paths()[9]);
    list_vec.push(l9);
    let l10: &[&str] = &["orderId", "ticketId", "checkId", "order.id"];
    assert(str_texts(l10@) =~= payment_paths()[10]);
    list_vec.push(l10);
    let l11: &[&str] = &["reference", "referenceNumber", "authCode", "authorizationCode", "approvalCode"];
    assert(str_texts(l11@) =~= payment_paths()[11]);
    list_vec.push(l11);
    let l12: &[&str] = &["cardBrand", "cardType", "card.brand", "paymentMethod.cardBrand", "paymentMethod.cardType"];
    assert(str_texts(l12@) =~= payment_paths()[12]);
    list_vec.push(l12);
    let l13: &[&str] = &["cardLast4", "last4", "lastFour", "card.last4", "paymentMethod.last4", "paymentMethod.lastFour"];
    assert(str_texts(l13@) =~= payment_paths()[13]);
    list_vec.push(l13);
    let lists = list_vec.as_slice();
    proof {
        assert(path_lists(lists@) =~= payment_paths());
    }
    let ghost f: RowFn = |t: Json| payment_row(t);
    let mut rows: Vec<Vec<String>> = Vec::new();
    if let Some(items) = array_or_root(value, "transactions") {
        let mut i: usize = 0;
        while i < items.len()
            invariant
                i <= items@.len(),
                f == (|t: Json| payment_row(t)),
                path_lists(lists@) == payment_paths(),
                row_texts(rows@) == filter_rows(items@.take(i as int), f),
            decreases items@.len() - i,
        {
            let ghost prev = rows@;
            let t = &items[i];
            proof {
                assert(f(items@[i as int]) == payment_row(items@[i as int]));
            }
            if is_object(t) {
                let mut row: Vec<String> = Vec::new();
                cells_for_path_lists(t, lists, &mut row);
                let raw = to_compact_string(t);
                let ghost before_raw = row@;
                row.push(raw);
                let ghost rv = texts(row@);
                rows.push(row);
                proof {
                    assert(rv =~= texts(before_raw).push(raw@));
                    assert(texts(Seq::<String>::empty()) =~= Seq::<Seq<char>>::empty());
                    assert(rv =~= payment_row(*t)->0);
                    assert(row_texts(rows@) =~= row_texts(prev).push(rv));
                }
            }
            i = i + 1;
            proof {
                assert(items@.take(i as int).drop_last() =~= items@.take(i - 1));
                assert(items@.take(i as int).last() == items@[i - 1]);
            }
        }
        assert(items@.take(items@.len() as int) =~= items@);
    }
    assert(str_texts(headers@) =~= payment_headers());
    render_records_csv(headers, &rows)
}

/// Integer texts of the integer elements, in order.
pub open spec fn integer_texts(items: Seq<Json>) -> Seq<Seq<char>>
    decreases items.len(),
{
    if items.len() == 0 {
        seq![]
    } else {
        let prev = integer_texts(items.drop_last());
        match number_as_i64(items.last()) {
            Some(n) => prev.push(int_text(n as int)),
            None => prev,
        }
    }
}

/// Trimmed non-empty texts of the string elements, in order.
pub open spec fn highlight_texts(items: Seq<Json>) -> Seq<Seq<char>>
    decreases items.len(),
{
    if items.len() == 0 {
        seq![]
    } else {
        let prev = highlight_texts(items.drop_last());
        match items.last() {
            Json::Str(s) => if trim(s@).len() > 0 {
                prev.push(trim(s@))
            } else {
                prev
            },
            _ => prev,
        }
    }
}

/// `join_numeric_array`: the integers of an array joined with `|`.
pub open spec fn joined_integers(v: Option<Json>) -> Seq<char> {
    match v {
        Some(Json::Array(a)) => join(integer_texts(a@), "|"@),
        _ => seq![],
    }
}

/// `join_string_array`: the trimmed non-empty strings joined with ` | `.
pub open spec fn joined_strings(v: Option<Json>) -> Seq<char> {
    match v {
        Some(Json::Array(a)) => join(highlight_texts(a@), " | "@),
        _ => seq![],
    }
}

/// Executable [`joined_integers`].
pub fn join_numeric_array(v: Option<&Json>) -> (r: String)
    ensures
        r@ == joined_integers(
            match v {
                Some(x) => Some(*x),
                None => None,
            },
        ),
{
    match v {
        Some(Json::Array(a)) => {
            let mut parts: Vec<Vec<char>> = Vec::new();
            let mut i: usize = 0;
            while i < a.len()
                invariant
                    i <= a@.len(),
                    views(parts@) == integer_texts(a@.take(i as int)),
                decreases a@.len() - i,
            {
                let ghost prev = parts@;
                if let Some(n) = as_i64(&a[i]) {
                    let t = i64_text(n);
                    parts.push(t);
                    assert(views(parts@) =~= views(prev).push(t@));
                }
                i = i + 1;
                assert(a@.take(i as int).drop_last() =~= a@.take(i - 1));
            }
            assert(a@.take(a@.len() as int) =~= a@);
            let sep = chars_of("|");
            let joined = join_chars(&parts, &sep);
            string_of(&joined)
        },
        _ => String::new(),
    }
}

/// Executable [`joined_strings`].
pub fn join_string_array(v: Option<&Json>) -> (r: String)
    ensures
        r@ == joined_strings(
            match v {
                Some(x) => Some(*x),
                None => None,
            },
        ),
{
    match v {
        Some(Json::Array(a)) => {
            let mut parts: Vec<Vec<char>> = Vec::new();
            let mut i: usize = 0;
            while i < a.len()
                invariant
                    i <= a@.len(),
                    views(parts@) == highlight_texts(a@.take(i as int)),
                decreases a@.len() - i,
            {
                let ghost prev = parts@;
                if let Some(s) = as_str(&a[i]) {
                    let cs = chars_of(s.as_str());
                    let t = trim_chars(&cs);
                    if t.len() > 0 {
                        parts.push(t);
                        assert(views(parts@) =~= views(prev).push(t@));
                    }
                }
                i = i + 1;
                assert(a@.take(i as int).drop_last() =~= a@.take(i - 1));
            }
            assert(a@.take(a@.len() as int) =~= a@);
            let sep = chars_of(" | ");
            let joined = join_chars(&parts, &sep);
            string_of(&joined)
        },
        _ => String::new(),
    }
}

/// The single-path cell for a top-level key.
pub open spec fn key_cell(v: Json, k: Seq<char>) -> Seq<char> {
    cell_of_paths(v, seq![k])
}

/// The one row of an insight summary: period, locations, the listed
/// metrics, then the highlights.
pub open spec fn insight_row(v: Json, keys: Seq<Seq<char>>) -> Seq<Seq<char>> {
    seq![
        key_cell(v, "period_start"@),
        key_cell(v, "period_end"@),
        joined_integers(member(v, "location_ids"@)),
    ] + keys.map_values(|k: Seq<char>| key_cell(v, k)) + seq![
        joined_strings(member(v, "highlights"@)),
    ]
}

/// Metrics of the daily brief schema.
pub open spec fn daily_brief_keys() -> Seq<Seq<char>> {
    seq![
        "gross_sales"@,
        "net_sales"@,
        "labor_hours"@,
        "labor_pay"@,
        "labor_percent_of_net_sales"@,
        "sales_per_labor_hour"@,
        "transaction_count"@,
        "settled_count"@,
        "settled_amount"@,
        "settled_rate_percent"@,
        "top_payment_type"@,
        "top_payment_type_amount"@,
    ]
}

/// Metrics of the labor-vs-sales schema.
pub open spec fn labor_vs_sales_keys() -> Seq<Seq<char>> {
    seq![
        "gross_sales"@,
        "net_sales"@,
        "labor_hours"@,
        "labor_pay"@,
        "labor_percent_of_net_sales"@,
        "sales_per_labor_hour"@,
        "labor_pay_per_labor_hour"@,
        "employee_count"@,
    ]
}

/// Headers of an insight summary schema.
pub open spec fn insight_headers(keys: Seq<Seq<char>>) -> Seq<Seq<char>> {
    seq!["period_start"@, "period_end"@, "location_ids"@] + keys + seq!["highlights"@]
}

/// CSV of an insight summary: a header line and one row.
pub open spec fn insight_csv(v: Json, keys: Seq<Seq<char>>) -> Seq<char> {
    records_csv(insight_headers(keys), seq![insight_row(v, keys)])
}

/// An insight summary row lines up with its header: the first cell is the
/// `period_start` value, the second the `period_end` value, each metric
/// cell the value of the key in the header above it, and the last cell the
/// highlights.
pub proof fn law_insight_columns(v: Json, keys: Seq<Seq<char>>)
    ensures
        insight_row(v, keys).len() == insight_headers(keys).len(),
        insight_headers(keys)[0] == "period_start"@,
        insight_row(v, keys)[0] == cell_of_paths(v, seq!["period_start"@]),
        insight_headers(keys)[1] == "period_end"@,
        insight_row(v, keys)[1] == cell_of_paths(v, seq!["period_end"@]),
        insight_headers(keys)[2] == "location_ids"@,
        forall|m: int|
            0 <= m < keys.len() ==> insight_headers(keys)[3 + m] == keys[m] && #[trigger] insight_row(
                v,
                keys,
            )[3 + m] == cell_of_paths(v, seq![keys[m]]),
        insight_headers(keys)[3 + keys.len() as int] == "highlights"@,
{
}

fn insight_row_of(v: &Json, keys: &[&str]) -> (r: Vec<String>)
    ensures
        texts(r@) == insight_row(*v, str_texts(keys@)),
{
    let p_start: &[&str] = &["period_start"];
    let p_end: &[&str] = &["period_end"];
    proof {
        assert(str_texts(p_start@) =~= seq!["period_start"@]);
        assert(str_texts(p_end@) =~= seq!["period_end"@]);
    }
    let mut row: Vec<String> = Vec::new();
    row.push(cell_from_paths(v, p_start));
    row.push(cell_from_paths(v, p_end));
    row.push(join_numeric_array(get_member(v, "location_ids")));
    let ghost ks = str_texts(keys@);
    let ghost head = texts(row@);
    let mut i: usize = 0;
    while i < keys.len()
        invariant
            i <= keys@.len(),
            ks == str_texts(keys@),
            texts(row@) == head + ks.take(i as int).map_values(|k: Seq<char>| key_cell(*v, k)),
        decreases keys@.len() - i,
    {
        let one: [&str; 1] = [keys[i]];
        let ghost prev = row@;
        let c = cell_from_paths(v, &one);
        row.push(c);
        i = i + 1;
        proof {
            assert(str_texts(one@) =~= seq![ks[i - 1]]);
            assert(ks.take(i as int).map_values(|k: Seq<char>| key_cell(*v, k)) =~= ks.take(
                i - 1,
            ).map_values(|k: Seq<char>| key_cell(*v, k)).push(c@));
            assert(texts(row@) =~= texts(prev).push(c@));
        }
    }
    assert(ks.take(keys@.len() as int) =~= ks);
    let ghost mid = row@;
    let h = join_string_array(get_member(v, "highlights"));
    row.push(h);
    assert(texts(row@) =~= texts(mid).push(h@));
    assert(texts(row@) =~= insight_row(*v, ks));
    row
}

fn insight_headers_of<'a>(keys: &[&'a str]) -> (r: Vec<&'a str>)
    ensures
        str_texts(r@) == insight_headers(str_texts(keys@)),
{
    let mut h: Vec<&str> = Vec::new();
    h.push("period_start");
    h.push("period_end");
    h.push("location_ids");
    let ghost head = h@;
    let mut i: usize = 0;
    while i < keys.len()
        invariant
            i <= keys@.len(),
            h@ == head + keys@.take(i as int),
            head == seq!["period_start", "period_end", "location_ids"],
        decreases keys@.len() - i,
    {
        h.push(keys[i]);
        i = i + 1;
        assert(keys@.take(i as int) =~= keys@.take(i - 1).push(keys@[i - 1]));
    }
    assert(keys@.take(keys@.len() as int) =~= keys@);
    h.push("highlights");
    assert(str_texts(h@) =~= insight_headers(str_texts(keys@)));
    h
}

fn render_insight_csv(value: &Json, keys: &[&str]) -> (r: String)
    ensures
        r@ == insight_csv(*value, str_texts(keys@)),
{
    let headers = insight_headers_of(keys);
    let row = insight_row_of(value, keys);
    let mut rows: Vec<Vec<String>> = Vec::new();
    rows.push(row);
    assert(row_texts(rows@) =~= seq![insight_row(*value, str_texts(keys@))]);
    render_records_csv(headers.as_slice(), &rows)
}

/// `render_insights_daily_brief_csv`.
pub fn render_insights_daily_brief_csv(value: &Json) -> (r: String)
    ensures
        r@ == insight_csv(*value, daily_brief_keys()),
{
    let keys: &[&str] = &[
        "gross_sales",
        "net_sales",
        "labor_hours",
        "labor_pay",
        "labor_percent_of_net_sales",
        "sales_per_labor_hour",
        "transaction_count",
        "settled_count",
        "settled_amount",
        "settled_rate_percent",
        "top_payment_type",
        "top_payment_type_amount",
    ];
    assert(str_texts(keys@) =~= daily_brief_keys());
    render_insight_csv(value, keys)
}

/// `render_insights_labor_vs_sales_csv`.
pub fn render_insights_labor_vs_sales_csv(value: &Json) -> (r: String)
    ensures
        r@ == insight_csv(*value, labor_vs_sales_keys()),
{
    let keys: &[&str] = &[
        "gross_sales",
        "net_sales",
        "labor_hours",
        "labor_pay",
        "labor_percent_of_net_sales",
        "sales_per_labor_hour",
        "labor_pay_per_labor_hour",
        "employee_count",
    ];
    assert(str_texts(keys@) =~= labor_vs_sales_keys());
    render_insight_csv(value, keys)
}

/// The summary cells shared by every payment mix row.
pub open spec fn mix_tail(v: Json) -> Seq<Seq<char>> {
    seq![
        key_cell(v, "period_start"@),
        key_cell(v, "period_end"@),
        joined_integers(member(v, "location_ids"@)),
        key_cell(v, "transaction_count"@),
        key_cell(v, "total_amount"@),
        joined_strings(member(v, "highlights"@)),
    ]
}

/// One payment mix bucket row.
pub open spec fn mix_item_row(item: Json, row_type: Seq<char>, tail: Seq<Seq<char>>) -> Seq<
    Seq<char>,
> {
    seq![
        row_type,
        key_cell(item, "key"@),
        key_cell(item, "count"@),
        key_cell(item, "amount"@),
        key_cell(item, "share_of_count"@),
        key_cell(item, "share_of_amount"@),
    ] + tail
}

/// Rows of one bucket list (`by_type` or `by_tender`).
pub open spec fn mix_section(v: Json, key: Seq<char>, row_type: Seq<char>) -> Seq<
    Seq<Seq<char>>,
> {
    match member(v, key) {
        Some(Json::Array(a)) => a@.map_values(|it: Json| mix_item_row(it, row_type, mix_tail(v))),
        _ => seq![],
    }
}

/// All payment mix rows; a lone summary row when there are no buckets.
pub open spec fn mix_rows(v: Json) -> Seq<Seq<Seq<char>>> {
    let r = mix_section(v, "by_type"@, "type"@) + mix_section(v, "by_tender"@, "tender"@);
    if r.len() == 0 {
        seq![seq!["summary"@, seq![], seq![], seq![], seq![], seq![]] + mix_tail(v)]
    } else {
        r
    }
}

/// Headers of the payment mix schema.
pub open spec fn mix_headers() -> Seq<Seq<char>> {
    seq![
        "row_type"@,
        "key"@,
        "count"@,
        "amount"@,
        "share_of_count"@,
        "share_of_amount"@,
        "period_start"@,
        "period_end"@,
        "location_ids"@,
        "transaction_count"@,
        "total_amount"@,
        "highlights"@,
    ]
}

/// CSV of the payment mix schema.
pub open spec fn payment_mix_csv(v: Json) -> Seq<char> {
    records_csv(mix_headers(), mix_rows(v))
}

fn single_cell(v: &Json, key: &str) -> (r: String)
    ensures
        r@ == key_cell(*v, key@),
{
    let one: [&str; 1] = [key];
    assert(str_texts(one@) =~= seq![key@]);
    cell_from_paths(v, &one)
}

fn mix_tail_of(v: &Json) -> (r: Vec<String>)
    ensures
        texts(r@) == mix_tail(*v),
{
    let mut t: Vec<String> = Vec::new();
    t.push(single_cell(v, "period_start"));
    t.push(single_cell(v, "period_end"));
    t.push(join_numeric_array(get_member(v, "location_ids")));
    t.push(single_cell(v, "transaction_count"));
    t.push(single_cell(v, "total_amount"));
    t.push(join_string_array(get_member(v, "highlights")));
    assert(texts(t@) =~= mix_tail(*v));
    t
}

fn push_mix_section(
    rows: &mut Vec<Vec<String>>,
    v: &Json,
    key: &str,
    row_type: &str,
    tail: &Vec<String>,
)
    requires
        texts(tail@) == mix_tail(*v),
    ensures
        row_texts(final(rows)@) == row_texts(old(rows)@) + mix_section(*v, key@, row_type@),
{
    let ghost start = row_texts(rows@);
    match get_member(v, key) {
        Some(Json::Array(a)) => {
            let ghost sec = a@.map_values(|it: Json| mix_item_row(it, row_type@, mix_tail(*v)));
            let mut i: usize = 0;
            while i < a.len()
                invariant
                    i <= a@.len(),
                    texts(tail@) == mix_tail(*v),
                    sec == a@.map_values(|it: Json| mix_item_row(it, row_type@, mix_tail(*v))),
                    row_texts(rows@) == start + sec.take(i as int),
                decreases a@.len() - i,
            {
                let item = &a[i];
                let mut row: Vec<String> = Vec::new();
                row.push(String::from_str(row_type));
                row.push(single_cell(item, "key"));
                row.push(single_cell(item, "count"));
                row.push(single_cell(item, "amount"));
                row.push(single_cell(item, "share_of_count"));
                row.push(single_cell(item, "share_of_amount"));
                let ghost head = row@;
                let mut k: usize = 0;
                while k < tail.len()
                    invariant
                        k <= tail@.len(),
                        row@ == head + tail@.take(k as int),
                    decreases tail@.len() - k,
                {
                    row.push(tail[k].clone());
                    k = k + 1;
                    proof {
                        assert(tail@.take(k as int) =~= tail@.take(k - 1).push(tail@[k - 1]));
                    }
                }
                proof {
                    assert(tail@.take(tail@.len() as int) =~= tail@);
                    assert(texts(row@) =~= texts(head) + texts(tail@));
                    assert(texts(row@) =~= sec[i as int]);
                }
                let ghost prev = rows@;
                let ghost rv = texts(row@);
                rows.push(row);
                i = i + 1;
                proof {
                    assert(row_texts(rows@) =~= row_texts(prev).push(rv));
                    assert(sec.take(i as int) =~= sec.take(i - 1).push(sec[i - 1]));
                }
            }
            assert(sec.take(a@.len() as int) =~= sec);
        },
        _ => {
            assert(row_texts(rows@) =~= start + Seq::<Seq<Seq<char>>>::empty());
        },
    }
}

/// `render_insights_payment_mix_csv`.
pub fn render_insights_payment_mix_csv(value: &Json) -> (r: String)
    ensures
        r@ == payment_mix_csv(*value),
{
    let headers: &[&str] = &[
        "row_type",
        "key",
        "count",
        "amount",
        "share_of_count",
        "share_of_amount",
        "period_start",
        "period_end",
        "location_ids",
        "transaction_count",
        "total_amount",
        "highlights",
    ];
    let tail = mix_tail_of(value);
    let mut rows: Vec<Vec<String>> = Vec::new();
    assert(row_texts(rows@) =~= Seq::<Seq<Seq<char>>>::empty());
    push_mix_section(&mut rows, value, "by_type", "type", &tail);
    push_mix_section(&mut rows, value, "by_tender", "tender", &tail);
    let ghost all = row_texts(rows@);
    assert(all =~= mix_section(*value, "by_type"@, "type"@) + mix_section(
        *value,
        "by_tender"@,
        "tender"@,
    ));
    assert(all.len() == rows@.len());
    if rows.len() == 0 {
        let mut row: Vec<String> = Vec::new();
        row.push(String::from_str("summary"));
        row.push(String::new());
        row.push(String::new());
        row.push(String::new());
        row.push(String::new());
        row.push(String::new());
        let mut k: usize = 0;
        let ghost head = row@;
        while k < tail.len()
            invariant
                k <= tail@.len(),
                row@ == head + tail@.take(k as int),
            decreases tail@.len() - k,
        {
            row.push(tail[k].clone());
            k = k + 1;
            proof {
                assert(tail@.take(k as int) =~= tail@.take(k - 1).push(tail@[k - 1]));
            }
        }
        proof {
            assert(tail@.take(tail@.len() as int) =~= tail@);
            assert(texts(row@) =~= texts(head) + texts(tail@));
        }
        let ghost rv = texts(row@);
        assert(rv =~= seq!["summary"@, seq![], seq![], seq![], seq![], seq![]] + mix_tail(*value));
        rows.push(row);
        assert(row_texts(rows@) =~= seq![rv]);
        assert(row_texts(rows@) == mix_rows(*value));
    } else {
        assert(row_texts(rows@) == mix_rows(*value));
    }
    assert(str_texts(headers@) =~= mix_headers());
    render_records_csv(headers, &rows)
}

/// Keys of object members under which the rows of a wrapped response are
/// looked for first, in this order.
pub open spec fn preferred_keys() -> Seq<Seq<char>> {
    seq![
        "rows"@,
        "transactions"@,
        "timeClockShifts"@,
        "buckets"@,
        "employees"@,
        "items"@,
        "checks"@,
    ]
}

/// The first of `keys` whose member is an array.
pub open spec fn first_preferred_array(v: Json, keys: Seq<Seq<char>>) -> Option<Seq<Json>>
    decreases keys.len(),
{
    if keys.len() == 0 {
        None
    } else {
        match member(v, keys[0]) {
            Some(Json::Array(a)) => Some(a@),
            _ => first_preferred_array(v, keys.drop_first()),
        }
    }
}

/// The first member value that is an array, in member order.
pub open spec fn first_array_member(m: Seq<(String, Json)>) -> Option<Seq<Json>>
    decreases m.len(),
{
    if m.len() == 0 {
        None
    } else {
        match m[0].1 {
            Json::Array(a) => Some(a@),
            _ => first_array_member(m.drop_first()),
        }
    }
}

/// `extract_rows`: the value itself when it is an array; for an object the
/// array under a preferred key, else its first array member.
pub open spec fn extracted_rows(v: Json) -> Option<Seq<Json>> {
    match v {
        Json::Array(a) => Some(a@),
        Json::Object(m) => match first_preferred_array(v, preferred_keys()) {
            Some(rows) => Some(rows),
            None => first_array_member(m@),
        },
        _ => None,
    }
}

/// Executable [`extracted_rows`].
pub fn extract_rows(value: &Json) -> (r: Option<&Vec<Json>>)
    ensures
        match extracted_rows(*value) {
            Some(rows) => r matches Some(a) && a@ == rows,
            None => r is None,
        },
{
    match value {
        Json::Array(rows) => Some(rows),
        Json::Object(m) => {
            let keys: &[&str] = &[
                "rows",
                "transactions",
                "timeClockShifts",
                "buckets",
                "employees",
                "items",
                "checks",
            ];
            let ghost ks = str_texts(keys@);
            assert(ks =~= preferred_keys());
            assert(ks.skip(0) =~= ks);
            let mut i: usize = 0;
            while i < keys.len()
                invariant
                    i <= keys@.len(),
                    ks == str_texts(keys@),
                    ks == preferred_keys(),
                    first_preferred_array(*value, ks) == first_preferred_array(
                        *value,
                        ks.skip(i as int),
                    ),
                decreases keys@.len() - i,
            {
                proof {
                    assert(ks.skip(i as int)[0] == keys@[i as int]@);
                    assert(ks.skip(i as int).drop_first() =~= ks.skip(i + 1));
                }
                if let Some(Json::Array(rows)) = get_member(value, keys[i]) {
                    return Some(rows);
                }
                i = i + 1;
            }
            assert(ks.skip(i as int).len() == 0);
            let mut k: usize = 0;
            assert(m@.skip(0) =~= m@);
            while k < m.len()
                invariant
                    k <= m@.len(),
                    *value == Json::Object(*m),
                    first_preferred_array(*value, preferred_keys()) is None,
                    first_array_member(m@) == first_array_member(m@.skip(k as int)),
                decreases m@.len() - k,
            {
                proof {
                    assert(m@.skip(k as int)[0] == m@[k as int]);
                    assert(m@.skip(k as int).drop_first() =~= m@.skip(k + 1));
                }
                if let Json::Array(rows) = &m[k].1 {
                    return Some(rows);
                }
                k = k + 1;
            }
            assert(m@.skip(k as int).len() == 0);
            None
        },
        _ => None,
    }
}

/// The member keys of an object (none for other values).
pub open spec fn object_keys(j: Json) -> Set<Seq<char>> {
    match j {
        Json::Object(m) => m@.map_values(|p: (String, Json)| p.0@).to_set(),
        _ => Set::empty(),
    }
}

/// All member keys over a list of rows.
pub open spec fn keys_of_rows(rows: Seq<Json>) -> Set<Seq<char>>
    decreases rows.len(),
{
    if rows.len() == 0 {
        Set::empty()
    } else {
        keys_of_rows(rows.drop_last()).union(object_keys(rows.last()))
    }
}

/// The column headers for object rows: every key that occurs, sorted, once.
pub open spec fn header_keys(rows: Seq<Json>) -> Seq<Seq<char>> {
    choose|h: Seq<Seq<char>>| strictly_sorted(h) && h.to_set() == keys_of_rows(rows)
}

/// The cells of an object row under the given headers.
pub open spec fn object_row(row: Json, headers: Seq<Seq<char>>) -> Seq<Seq<char>> {
    headers.map_values(|h: Seq<char>| member_cell(row, h))
}

/// The largest array length among the rows.
pub open spec fn max_width(rows: Seq<Json>) -> nat
    decreases rows.len(),
{
    if rows.len() == 0 {
        0
    } else {
        let a = max_width(rows.drop_last());
        let b = match rows.last() {
            Json::Array(v) => v@.len(),
            _ => 0,
        };
        if a < b {
            b
        } else {
            a
        }
    }
}

/// `col_1`, `col_2`, ... up to `w`.
pub open spec fn column_headers(w: nat) -> Seq<Seq<char>> {
    Seq::new(w, |i: int| "col_"@ + nat_text((i + 1) as nat))
}

/// The cells of an array row, padded with empty cells to width `w`.
pub open spec fn array_row(row: Json, w: nat) -> Seq<Seq<char>> {
    match row {
        Json::Array(v) => v@.map_values(|c: Json| cell_text(c)) + Seq::new(
            (w - v@.len()) as nat,
            |i: int| Seq::<char>::empty(),
        ),
        _ => seq![],
    }
}

/// `rows_to_csv`: object rows under their sorted keys, array rows under
/// `col_N` headers, anything else (or a mix) under a single `value` column.
pub open spec fn rows_csv(rows: Seq<Json>) -> Seq<char> {
    if rows.len() == 0 {
        seq![]
    } else if forall|i: int| 0 <= i < rows.len() ==> (#[trigger] rows[i]) is Object {
        let h = header_keys(rows);
        if h.len() == 0 {
            seq![]
        } else {
            records_csv(h, rows.map_values(|r: Json| object_row(r, h)))
        }
    } else if forall|i: int| 0 <= i < rows.len() ==> (#[trigger] rows[i]) is Array {
        let w = max_width(rows);
        if w == 0 {
            seq![]
        } else {
            records_csv(column_headers(w), rows.map_values(|r: Json| array_row(r, w)))
        }
    } else {
        records_csv(seq!["value"@], rows.map_values(|r: Json| seq![cell_text(r)]))
    }
}

fn sorted_keys_of(rows: &Vec<&Json>) -> (r: Vec<Vec<char>>)
    ensures
        strictly_sorted(views(r@)),
        views(r@).to_set() == keys_of_rows(refs(rows@)),
{
    let mut set: Vec<Vec<char>> = Vec::new();
    assert(views(set@).to_set() =~= Set::<Seq<char>>::empty());
    let mut i: usize = 0;
    while i < rows.len()
        invariant
            i <= refs(rows@).len(),
            strictly_sorted(views(set@)),
            views(set@).to_set() == keys_of_rows(refs(rows@).take(i as int)),
        decreases refs(rows@).len() - i,
    {
        let ghost before_row = views(set@).to_set();
        if let Json::Object(m) = rows[i] {
            let mut k: usize = 0;
            while k < m.len()
                invariant
                    k <= m@.len(),
                    strictly_sorted(views(set@)),
                    views(set@).to_set() == before_row.union(
                        m@.take(k as int).map_values(|p: (String, Json)| p.0@).to_set(),
                    ),
                decreases m@.len() - k,
            {
                let ghost prev = views(set@);
                let key = chars_of(m[k].0.as_str());
                insert_sorted(&mut set, key);
                k = k + 1;
                proof {
                    assert(m@.take(k as int).map_values(|p: (String, Json)| p.0@) =~= m@.take(
                        k - 1,
                    ).map_values(|p: (String, Json)| p.0@).push(m@[k - 1].0@));
                    let ks_new = m@.take(k as int).map_values(|p: (String, Json)| p.0@);
                    let ks_old = m@.take(k - 1).map_values(|p: (String, Json)| p.0@);
                    assert forall|t: Seq<char>| #[trigger] views(set@).to_set().contains(t) <==> before_row.union(
                        ks_new.to_set(),
                    ).contains(t) by {
                        assert(views(set@).to_set().contains(t) <==> views(set@).contains(t));
                        assert(prev.to_set().contains(t) <==> prev.contains(t));
                        assert(ks_new.to_set().contains(t) <==> ks_new.contains(t));
                        assert(ks_old.to_set().contains(t) <==> ks_old.contains(t));
                        if ks_new.contains(t) {
                            let q = choose|q: int| 0 <= q < ks_new.len() && ks_new[q] == t;
                            if q < k - 1 {
                                assert(ks_old[q] == t);
                            }
                        }
                        if ks_old.contains(t) {
                            let q = choose|q: int| 0 <= q < ks_old.len() && ks_old[q] == t;
                            assert(ks_new[q] == t);
                        }
                        if t == key@ {
                            assert(ks_new[k - 1] == t);
                        }
                    }
                    assert(views(set@).to_set() =~= before_row.union(ks_new.to_set()));
                }
            }
            assert(m@.take(m@.len() as int) =~= m@);
            assert(refs(rows@)[i as int] == Json::Object(*m));
        } else {
            assert(object_keys(refs(rows@)[i as int]) =~= Set::<Seq<char>>::empty());
        }
        i = i + 1;
        proof {
            assert(refs(rows@).take(i as int).drop_last() =~= refs(rows@).take(i - 1));
            assert(views(set@).to_set() =~= keys_of_rows(refs(rows@).take(i as int)));
        }
    }
    assert(refs(rows@).take(refs(rows@).len() as int) =~= refs(rows@));
    set
}

fn object_rows_to_csv(rows: &Vec<&Json>) -> (r: String)
    requires
        forall|i: int| 0 <= i < refs(rows@).len() ==> (#[trigger] refs(rows@)[i]) is Object,
    ensures
        r@ == (if header_keys(refs(rows@)).len() == 0 {
            seq![]
        } else {
            records_csv(
                header_keys(refs(rows@)),
                refs(rows@).map_values(|r: Json| object_row(r, header_keys(refs(rows@)))),
            )
        }),
{
    let keys = sorted_keys_of(rows);
    proof {
        let h = header_keys(refs(rows@));
        assert(strictly_sorted(views(keys@)) && views(keys@).to_set() == keys_of_rows(refs(rows@)));
        lemma_sorted_unique(views(keys@), h);
    }
    if keys.len() == 0 {
        return String::new();
    }
    let mut headers: Vec<String> = Vec::new();
    let mut i: usize = 0;
    while i < keys.len()
        invariant
            i <= keys@.len(),
            headers@.len() == i,
            forall|k: int| 0 <= k < i ==> (#[trigger] headers@[k])@ == keys@[k]@,
        decreases keys@.len() - i,
    {
        headers.push(string_of(&keys[i]));
        i = i + 1;
    }
    let ghost h = header_keys(refs(rows@));
    assert(texts(headers@) =~= h);
    let mut out_rows: Vec<Vec<String>> = Vec::new();
    let mut j: usize = 0;
    while j < rows.len()
        invariant
            j <= refs(rows@).len(),
            texts(headers@) == h,
            out_rows@.len() == j,
            forall|q: int| 0 <= q < j ==> texts((#[trigger] out_rows@[q])@) == object_row(
                refs(rows@)[q],
                h,
            ),
        decreases refs(rows@).len() - j,
    {
        let mut row: Vec<String> = Vec::new();
        let mut c: usize = 0;
        while c < headers.len()
            invariant
                c <= headers@.len(),
                j < refs(rows@).len(),
                texts(headers@) == h,
                texts(row@) == h.take(c as int).map_values(|k: Seq<char>| member_cell(refs(rows@)[j as int], k)),
            decreases headers@.len() - c,
        {
            let ghost prev = row@;
            let cell = member_cell_of(rows[j], headers[c].as_str());
            row.push(cell);
            c = c + 1;
            proof {
                assert(h[c - 1] == headers@[c - 1]@);
                assert(h.take(c as int).map_values(|k: Seq<char>| member_cell(refs(rows@)[j as int], k))
                    =~= h.take(c - 1).map_values(|k: Seq<char>| member_cell(refs(rows@)[j as int], k)).push(
                    cell@,
                ));
                assert(texts(row@) =~= texts(prev).push(cell@));
            }
        }
        assert(h.take(h.len() as int) =~= h);
        out_rows.push(row);
        j = j + 1;
    }
    assert(row_texts(out_rows@) =~= refs(rows@).map_values(|r: Json| object_row(r, h)));
    render_records(&headers, &out_rows)
}

fn max_width_of(rows: &Vec<&Json>) -> (r: usize)
    ensures
        r == max_width(refs(rows@)),
{
    let mut w: usize = 0;
    let mut i: usize = 0;
    while i < rows.len()
        invariant
            i <= refs(rows@).len(),
            w == max_width(refs(rows@).take(i as int)),
        decreases refs(rows@).len() - i,
    {
        if let Json::Array(v) = rows[i] {
            if w < v.len() {
                w = v.len();
            }
        }
        i = i + 1;
        assert(refs(rows@).take(i as int).drop_last() =~= refs(rows@).take(i - 1));
    }
    assert(refs(rows@).take(refs(rows@).len() as int) =~= refs(rows@));
    w
}

fn array_rows_to_csv(rows: &Vec<&Json>) -> (r: String)
    requires
        forall|i: int| 0 <= i < refs(rows@).len() ==> (#[trigger] refs(rows@)[i]) is Array,
    ensures
        r@ == (if max_width(refs(rows@)) == 0 {
            seq![]
        } else {
            records_csv(
                column_headers(max_width(refs(rows@))),
                refs(rows@).map_values(|r: Json| array_row(r, max_width(refs(rows@)))),
            )
        }),
{
    let w = max_width_of(rows);
    if w == 0 {
        return String::new();
    }
    let mut headers: Vec<String> = Vec::new();
    let mut i: usize = 0;
    while i < w
        invariant
            i <= w,
            w == max_width(refs(rows@)),
            texts(headers@) == column_headers(w as nat).take(i as int),
        decreases w - i,
    {
        let mut h = chars_of("col_");
        let n = usize_text(i + 1);
        append_chars(&mut h, &n);
        let ghost prev = headers@;
        let hs = string_of(&h);
        headers.push(hs);
        i = i + 1;
        proof {
            assert(column_headers(w as nat).take(i as int) =~= column_headers(w as nat).take(
                i - 1,
            ).push(hs@));
            assert(texts(headers@) =~= texts(prev).push(hs@));
        }
    }
    assert(column_headers(w as nat).take(w as int) =~= column_headers(w as nat));
    let mut out_rows: Vec<Vec<String>> = Vec::new();
    let mut j: usize = 0;
    while j < rows.len()
        invariant
            j <= refs(rows@).len(),
            w == max_width(refs(rows@)),
            out_rows@.len() == j,
            forall|i: int| 0 <= i < refs(rows@).len() ==> (#[trigger] refs(rows@)[i]) is Array,
            forall|q: int| 0 <= q < j ==> texts((#[trigger] out_rows@[q])@) == array_row(
                refs(rows@)[q],
                w as nat,
            ),
        decreases refs(rows@).len() - j,
    {
        let mut row: Vec<String> = Vec::new();
        if let Json::Array(v) = rows[j] {
            proof {
                lemma_max_width(refs(rows@));
            }
            let mut c: usize = 0;
            while c < v.len()
                invariant
                    c <= v@.len(),
                    texts(row@) == v@.take(c as int).map_values(|x: Json| cell_text(x)),
                decreases v@.len() - c,
            {
                let ghost prev = row@;
                let cell = json_value_to_cell(&v[c]);
                row.push(cell);
                c = c + 1;
                proof {
                    assert(v@.take(c as int).map_values(|x: Json| cell_text(x)) =~= v@.take(
                        c - 1,
                    ).map_values(|x: Json| cell_text(x)).push(cell@));
                    assert(texts(row@) =~= texts(prev).push(cell@));
                }
            }
            assert(v@.take(v@.len() as int) =~= v@);
            let ghost base = texts(row@);
            let mut p: usize = v.len();
            while p < w
                invariant
                    v@.len() <= p <= w,
                    texts(row@) == base + Seq::new((p - v@.len()) as nat, |i: int| Seq::<char>::empty()),
                decreases w - p,
            {
                let ghost prev = row@;
                row.push(String::new());
                p = p + 1;
                proof {
                    assert(texts(row@) =~= texts(prev).push(Seq::<char>::empty()));
                    assert(base + Seq::new((p - v@.len()) as nat, |i: int| Seq::<char>::empty())
                        =~= (base + Seq::new((p - 1 - v@.len()) as nat, |i: int| Seq::<char>::empty())).push(
                        Seq::<char>::empty(),
                    ));
                }
            }
            assert(refs(rows@)[j as int] == Json::Array(*v));
        }
        out_rows.push(row);
        j = j + 1;
    }
    assert(row_texts(out_rows@) =~= refs(rows@).map_values(|r: Json| array_row(r, w as nat)));
    render_records(&headers, &out_rows)
}

proof fn lemma_max_width(rows: Seq<Json>)
    ensures
        forall|i: int| 0 <= i < rows.len() ==> (match #[trigger] rows[i] {
            Json::Array(v) => v@.len() <= max_width(rows),
            _ => true,
        }),
    decreases rows.len(),
{
    if rows.len() > 0 {
        let p = rows.drop_last();
        lemma_max_width(p);
        assert forall|i: int| 0 <= i < rows.len() implies (match #[trigger] rows[i] {
            Json::Array(v) => v@.len() <= max_width(rows),
            _ => true,
        }) by {
            if i < rows.len() - 1 {
                assert(rows[i] == p[i]);
            }
        }
    }
}

fn scalar_rows_to_csv(rows: &Vec<&Json>) -> (r: String)
    ensures
        r@ == records_csv(seq!["value"@], refs(rows@).map_values(|r: Json| seq![cell_text(r)])),
{
    let mut out_rows: Vec<Vec<String>> = Vec::new();
    let mut j: usize = 0;
    while j < rows.len()
        invariant
            j <= refs(rows@).len(),
            out_rows@.len() == j,
            forall|q: int| 0 <= q < j ==> texts((#[trigger] out_rows@[q])@) == seq![cell_text(refs(rows@)[q])],
        decreases refs(rows@).len() - j,
    {
        let mut row: Vec<String> = Vec::new();
        let cell = json_value_to_cell(rows[j]);
        row.push(cell);
        assert(texts(row@) =~= seq![cell@]);
        out_rows.push(row);
        j = j + 1;
    }
    let headers: &[&str] = &["value"];
    assert(str_texts(headers@) =~= seq!["value"@]);
    assert(row_texts(out_rows@) =~= refs(rows@).map_values(|r: Json| seq![cell_text(r)]));
    render_records_csv(headers, &out_rows)
}

/// `rows_to_csv` over borrowed rows.
fn rows_to_csv_refs(rows: &Vec<&Json>) -> (r: String)
    ensures
        r@ == rows_csv(refs(rows@)),
{
    if rows.len() == 0 {
        return String::new();
    }
    let mut all_objects = true;
    let mut all_arrays = true;
    let mut i: usize = 0;
    while i < rows.len()
        invariant
            i <= refs(rows@).len(),
            all_objects == (forall|k: int| 0 <= k < i ==> (#[trigger] refs(rows@)[k]) is Object),
            all_arrays == (forall|k: int| 0 <= k < i ==> (#[trigger] refs(rows@)[k]) is Array),
        decreases refs(rows@).len() - i,
    {
        let cur: &Json = rows[i];
        assert(*cur == refs(rows@)[i as int]);
        match cur {
            Json::Object(_) => {
                all_arrays = false;
            },
            Json::Array(_) => {
                all_objects = false;
            },
            _ => {
                all_objects = false;
                all_arrays = false;
            },
        }
        i = i + 1;
    }
    if all_objects {
        object_rows_to_csv(rows)
    } else if all_arrays {
        array_rows_to_csv(rows)
    } else {
        scalar_rows_to_csv(rows)
    }
}

/// `rows_to_csv`.
pub fn rows_to_csv(rows: &Vec<Json>) -> (r: String)
    ensures
        r@ == rows_csv(rows@),
{
    let mut rs: Vec<&Json> = Vec::new();
    let mut i: usize = 0;
    while i < rows.len()
        invariant
            i <= rows@.len(),
            refs(rs@) == rows@.take(i as int),
        decreases rows@.len() - i,
    {
        let ghost prev = rs@;
        let e: &Json = &rows[i];
        rs.push(e);
        assert(*e == rows@[i as int]);
        assert(refs(rs@) =~= refs(prev).push(*e));
        i = i + 1;
        assert(refs(rs@) =~= rows@.take(i as int));
    }
    assert(rows@.take(rows@.len() as int) =~= rows@);
    rows_to_csv_refs(&rs)
}

/// The values behind a sequence of references.
pub open spec fn refs(s: Seq<&Json>) -> Seq<Json> {
    s.map_values(|r: &Json| *r)
}

/// CSV under a fixed schema; `hours` feeds the timeclock hours column.
pub open spec fn schema_csv(v: Json, schema: CsvSchema, hours: Seq<Seq<char>>) -> Seq<char> {
    match schema {
        CsvSchema::HourlySales => hourly_sales_csv(v),
        CsvSchema::Payroll => payroll_csv(v),
        CsvSchema::TimeclockShifts => timeclock_csv(v, hours),
        CsvSchema::PaymentsTransactions => payments_csv(v),
        CsvSchema::InsightsDailyBrief => insight_csv(v, daily_brief_keys()),
        CsvSchema::InsightsLaborVsSales => insight_csv(v, labor_vs_sales_keys()),
        CsvSchema::InsightsPaymentMix => payment_mix_csv(v),
    }
}

/// `render_csv`: a fixed schema when one is given; otherwise the extracted
/// rows, or the value itself as a single row.
pub open spec fn csv_output(v: Json, schema: Option<CsvSchema>, hours: Seq<Seq<char>>) -> Seq<
    char,
> {
    match schema {
        Some(s) => schema_csv(v, s, hours),
        None => match extracted_rows(v) {
            Some(rows) => rows_csv(rows),
            None => rows_csv(seq![v]),
        },
    }
}

/// NDJSON: one compact JSON line per extracted row, or the whole value.
pub open spec fn ndjson_output(v: Json) -> Seq<char> {
    match extracted_rows(v) {
        Some(rows) => join(rows.map_values(|r: Json| compact(r)), seq!['\n']),
        None => compact(v),
    }
}

/// The text of a value in the chosen format.
pub open spec fn rendered(
    v: Json,
    format: OutputFormat,
    schema: Option<CsvSchema>,
    hours: Seq<Seq<char>>,
) -> Seq<char> {
    match format {
        OutputFormat::Json => pretty(v, 0),
        OutputFormat::Csv => csv_output(v, schema, hours),
        OutputFormat::Ndjson => ndjson_output(v),
    }
}

fn render_csv_with_schema(value: &Json, schema: CsvSchema, hours: &Vec<String>) -> (r: String)
    ensures
        r@ == schema_csv(*value, schema, texts(hours@)),
{
    match schema {
        CsvSchema::HourlySales => render_hourly_sales_csv(value),
        CsvSchema::Payroll => render_payroll_csv(value),
        CsvSchema::TimeclockShifts => render_timeclock_shifts_csv(value, hours),
        CsvSchema::PaymentsTransactions => render_payments_transactions_csv(value),
        CsvSchema::InsightsDailyBrief => render_insights_daily_brief_csv(value),
        CsvSchema::InsightsLaborVsSales => render_insights_labor_vs_sales_csv(value),
        CsvSchema::InsightsPaymentMix => render_insights_payment_mix_csv(value),
    }
}

/// `render_csv`.
pub fn render_csv(value: &Json, csv_schema: Option<CsvSchema>, hours: &Vec<String>) -> (r: String)
    ensures
        r@ == csv_output(*value, csv_schema, texts(hours@)),
{
    if let Some(schema) = csv_schema {
        return render_csv_with_schema(value, schema, hours);
    }
    if let Some(rows) = extract_rows(value) {
        return rows_to_csv(rows);
    }
    let mut one: Vec<&Json> = Vec::new();
    one.push(value);
    assert(refs(one@) =~= seq![*value]);
    rows_to_csv_refs(&one)
}

/// `render_ndjson`.
pub fn render_ndjson(value: &Json) -> (r: String)
    ensures
        r@ == ndjson_output(*value),
{
    if let Some(rows) = extract_rows(value) {
        let mut lines: Vec<Vec<char>> = Vec::new();
        let mut i: usize = 0;
        while i < rows.len()
            invariant
                i <= rows@.len(),
                lines@.len() == i,
                forall|k: int| 0 <= k < i ==> (#[trigger] lines@[k])@ == compact(rows@[k]),
            decreases rows@.len() - i,
        {
            let mut line: Vec<char> = Vec::new();
            write_compact(&mut line, &rows[i]);
            lines.push(line);
            i = i + 1;
        }
        let sep = chars_of("\n");
        proof {
            reveal_strlit("\n");
            assert(sep@ =~= seq!['\n']);
            assert(views(lines@) =~= rows@.map_values(|r: Json| compact(r)));
        }
        let joined = join_chars(&lines, &sep);
        return string_of(&joined);
    }
    to_compact_string(value)
}

/// `render_structured_value_with_schema`: the value as pretty JSON, as CSV
/// (under `csv_schema` when given) or as NDJSON. `shift_hours` holds the
/// hours cell of each shift for the timeclock schema.
pub fn render_structured_value_with_schema(
    value: &Json,
    format: OutputFormat,
    csv_schema: Option<CsvSchema>,
    shift_hours: &Vec<String>,
) -> (r: Result<String, SkyTabError>)
    requires
        2 * (depth(*value) + 1) <= usize::MAX,
    ensures
        r matches Ok(s) && s@ == rendered(*value, format, csv_schema, texts(shift_hours@)),
{
    match format {
        OutputFormat::Json => {
            let mut out: Vec<char> = Vec::new();
            write_pretty(&mut out, value, 0);
            assert(out@ =~= pretty(*value, 0));
            Ok(string_of(&out))
        },
        OutputFormat::Csv => Ok(render_csv(value, csv_schema, shift_hours)),
        OutputFormat::Ndjson => Ok(render_ndjson(value)),
    }
}

/// `render_structured_value`: as [`render_structured_value_with_schema`]
/// without a schema.
pub fn render_structured_value(value: &Json, format: OutputFormat) -> (r: Result<
    String,
    SkyTabError,
>)
    requires
        2 * (depth(*value) + 1) <= usize::MAX,
    ensures
        r matches Ok(s) && s@ == rendered(*value, format, None, seq![]),
{
    let none: Vec<String> = Vec::new();
    assert(texts(none@) =~= Seq::<Seq<char>>::empty());
    render_structured_value_with_schema(value, format, None, &none)
}

/// The text with a newline at the end (added unless already there).
pub open spec fn with_trailing_newline(s: Seq<char>) -> Seq<char> {
    if s.len() > 0 && s.last() == '\n' {
        s
    } else {
        s.push('\n')
    }
}

/// `ensure_trailing_newline`.
pub fn ensure_trailing_newline(value: &str) -> (r: String)
    ensures
        r@ == with_trailing_newline(value@),
{
    let mut v = chars_of(value);
    if v.len() > 0 && v[v.len() - 1] == '\n' {
        return string_of(&v);
    }
    v.push('\n');
    string_of(&v)
}

/// Output always ends with exactly the newline it needs: ensuring it twice
/// is ensuring it once, and the result ends with a newline.
pub proof fn law_trailing_newline_idempotent(s: Seq<char>)
    ensures
        with_trailing_newline(with_trailing_newline(s)) == with_trailing_newline(s),
        with_trailing_newline(s).len() > 0,
        with_trailing_newline(s).last() == '\n',
{
}

} // verus!
