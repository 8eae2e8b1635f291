//! Reading report responses: the cells of payroll and till rows, money
//! texts, the classification of payment transactions and the state of
//! time-clock shifts. Amounts themselves are decimal fractions and are
//! converted by the caller.

use vstd::prelude::*;
use crate::csv::texts;
use crate::json::{get_member, member, path_value, value_at_path, Json};
use crate::read_api::{
    bucket_key, first_string, first_string_at_paths, is_settled_status, normalize_bucket_key,
    settled_status,
};
use crate::text::{chars_of, lower, lower_chars, str_eq, string_of, trim, trim_chars};
use crate::time::{rfc3339_seconds_between, rfc3339_span};

verus! {

/// The trimmed text of a cell, or the empty text when it is not a string.
pub open spec fn cell_at(values: Seq<Json>, i: int) -> Seq<char> {
    match values[i] {
        Json::Str(s) => trim(s@),
        _ => seq![],
    }
}

/// The first `width` cells of a row that is an array of at least `width`
/// values.
pub open spec fn row_cells(row: Json, width: nat) -> Option<Seq<Seq<char>>> {
    match row {
        Json::Array(v) => if v@.len() >= width {
            Some(Seq::new(width, |i: int| cell_at(v@, i)))
        } else {
            None
        },
        _ => None,
    }
}

/// Executable [`row_cells`].
pub fn report_row_cells(row: &Json, width: usize) -> (r: Option<Vec<String>>)
    ensures
        match row_cells(*row, width as nat) {
            Some(c) => r matches Some(x) && texts(x@) == c,
            None => r is None,
        },
{
    match row {
        Json::Array(v) => {
            if v.len() < width {
                return None;
            }
            let mut out: Vec<String> = Vec::new();
            let mut i: usize = 0;
            while i < width
                invariant
                    i <= width <= v@.len(),
                    *row == Json::Array(*v),
                    out@.len() == i,
                    forall|k: int| 0 <= k < i ==> (#[trigger] out@[k])@ == cell_at(v@, k),
                decreases width - i,
            {
                let cell = match &v[i] {
                    Json::Str(s) => {
                        let c = chars_of(s.as_str());
                        let t = trim_chars(&c);
                        string_of(&t)
                    },
                    _ => String::new(),
                };
                out.push(cell);
                i = i + 1;
            }
            assert(texts(out@) =~= Seq::new(width as nat, |k: int| cell_at(v@, k)));
            Some(out)
        },
        _ => None,
    }
}

/// Number of cells in a payroll row.
pub const PAYROLL_ROW_WIDTH: usize = 16;

/// Number of cells in a till-transaction row.
pub const TILL_ROW_WIDTH: usize = 5;

/// `str::eq_ignore_ascii_case` with `"total"`.
pub open spec fn is_total_text(s: Seq<char>) -> bool {
    lower(s) == "total"@
}

/// A payroll row is the totals row when its id or its name is `total`, in
/// any ASCII case.
pub open spec fn is_totals_row(cells: Seq<Seq<char>>) -> bool {
    is_total_text(cells[0]) || is_total_text(cells[1])
}

/// The employee rows among the first `n` payroll rows.
pub open spec fn payroll_employee_rows(rows: Seq<Json>, n: int) -> Seq<Seq<Seq<char>>>
    decreases n,
{
    if n <= 0 {
        seq![]
    } else {
        let prev = payroll_employee_rows(rows, n - 1);
        match row_cells(rows[n - 1], PAYROLL_ROW_WIDTH as nat) {
            Some(c) => if is_totals_row(c) {
                prev
            } else {
                prev.push(c)
            },
            None => prev,
        }
    }
}

/// The last totals row among the first `n` payroll rows.
pub open spec fn payroll_total_row(rows: Seq<Json>, n: int) -> Option<Seq<Seq<char>>>
    decreases n,
{
    if n <= 0 {
        None
    } else {
        match row_cells(rows[n - 1], PAYROLL_ROW_WIDTH as nat) {
            Some(c) => if is_totals_row(c) {
                Some(c)
            } else {
                payroll_total_row(rows, n - 1)
            },
            None => payroll_total_row(rows, n - 1),
        }
    }
}

/// The cells of the payroll report: employee rows, and the totals row.
pub struct PayrollRows {
    pub employees: Vec<Vec<String>>,
    pub totals: Option<Vec<String>>,
}

/// The cell texts of rows.
pub open spec fn rows_of(rows: Seq<Vec<String>>) -> Seq<Seq<Seq<char>>> {
    rows.map_values(|r: Vec<String>| texts(r@))
}

fn is_total_cell(s: &String) -> (r: bool)
    ensures
        r == is_total_text(s@),
{
    let c = chars_of(s.as_str());
    let l = lower_chars(&c);
    let t = chars_of("total");
    crate::text::chars_eq(&l, &t)
}

/// The rows of a payroll report: rows that are arrays of at
/// least sixteen values, split into employee rows and the totals row (the
/// last one wins); other rows are skipped.
pub fn split_payroll_rows(rows: &Vec<Json>) -> (r: PayrollRows)
    ensures
        rows_of(r.employees@) == payroll_employee_rows(rows@, rows@.len() as int),
        match payroll_total_row(rows@, rows@.len() as int) {
            Some(c) => r.totals matches Some(t) && texts(t@) == c,
            None => r.totals is None,
        },
{
    let mut employees: Vec<Vec<String>> = Vec::new();
    let mut totals: Option<Vec<String>> = None;
    let mut i: usize = 0;
    while i < rows.len()
        invariant
            i <= rows@.len(),
            rows_of(employees@) == payroll_employee_rows(rows@, i as int),
            match payroll_total_row(rows@, i as int) {
                Some(c) => totals matches Some(t) && texts(t@) == c,
                None => totals is None,
            },
        decreases rows@.len() - i,
    {
        let ghost before = employees@;
        match report_row_cells(&rows[i], PAYROLL_ROW_WIDTH) {
            Some(cells) => {
                assert(texts(cells@).len() == cells@.len());
                if is_total_cell(&cells[0]) || is_total_cell(&cells[1]) {
                    totals = Some(cells);
                } else {
                    employees.push(cells);
                    assert(rows_of(employees@) =~= rows_of(before).push(texts(cells@)));
                }
            },
            None => {},
        }
        i = i + 1;
    }
    PayrollRows { employees, totals }
}

/// The till rows among the first `n` rows: those that are arrays of at least
/// five values.
pub open spec fn till_rows(rows: Seq<Json>, n: int) -> Seq<Seq<Seq<char>>>
    decreases n,
{
    if n <= 0 {
        seq![]
    } else {
        let prev = till_rows(rows, n - 1);
        match row_cells(rows[n - 1], TILL_ROW_WIDTH as nat) {
            Some(c) => prev.push(c),
            None => prev,
        }
    }
}

/// The rows of a till-transaction report: the five cells (till,
/// date-time, employee, drawer action, amount) of each row that has them.
pub fn till_transaction_rows(rows: &Vec<Json>) -> (r: Vec<Vec<String>>)
    ensures
        rows_of(r@) == till_rows(rows@, rows@.len() as int),
{
    let mut out: Vec<Vec<String>> = Vec::new();
    let mut i: usize = 0;
    while i < rows.len()
        invariant
            i <= rows@.len(),
            rows_of(out@) == till_rows(rows@, i as int),
        decreases rows@.len() - i,
    {
        let ghost before = out@;
        match report_row_cells(&rows[i], TILL_ROW_WIDTH) {
            Some(cells) => {
                out.push(cells);
                assert(rows_of(out@) =~= rows_of(before).push(texts(cells@)));
            },
            None => {},
        }
        i = i + 1;
    }
    out
}

/// The text with every `$` and `,` removed.
pub open spec fn strip_money(s: Seq<char>) -> Seq<char>
    decreases s.len(),
{
    if s.len() == 0 {
        seq![]
    } else if s.last() == '$' || s.last() == ',' {
        strip_money(s.drop_last())
    } else {
        strip_money(s.drop_last()).push(s.last())
    }
}

/// The money text of a report cell: `None` when it is blank; else whether
/// it is wrapped in parentheses (a negative amount) and the number inside,
/// without `$` and `,`.
pub open spec fn money_parts(s: Seq<char>) -> Option<(bool, Seq<char>)> {
    let t = trim(s);
    if t.len() == 0 {
        None
    } else {
        let neg = t[0] == '(' && t[t.len() - 1] == ')';
        let inner = if neg {
            t.subrange(1, t.len() - 1)
        } else {
            t
        };
        Some((neg, strip_money(inner)))
    }
}

/// A money text read from a report cell.
pub struct MoneyText {
    /// The amount was written in parentheses.
    pub negative: bool,
    /// The decimal number, without `$` and `,`.
    pub number: String,
}

/// The text part of reading a money amount: see [`money_parts`]. The
/// amount is the number (0 when it does not parse), negated when
/// `negative`.
pub fn money_text(input: &str) -> (r: Option<MoneyText>)
    ensures
        match money_parts(input@) {
            None => r is None,
            Some((neg, num)) => r matches Some(m) && m.negative == neg && m.number@ == num,
        },
{
    let v = chars_of(input);
    let t = trim_chars(&v);
    let n = t.len();
    if n == 0 {
        return None;
    }
    let neg = t[0] == '(' && t[n - 1] == ')';
    let (from, to) = if neg {
        (1usize, n - 1)
    } else {
        (0usize, n)
    };
    let ghost inner = t@.subrange(from as int, to as int);
    let mut out: Vec<char> = Vec::new();
    let mut i: usize = from;
    while i < to
        invariant
            from <= i <= to <= n == t@.len(),
            inner == t@.subrange(from as int, to as int),
            out@ == strip_money(inner.take(i - from)),
        decreases to - i,
    {
        let c = t[i];
        proof {
            assert(inner.take(i - from + 1).drop_last() =~= inner.take(i - from));
            assert(inner.take(i - from + 1).last() == c);
        }
        if c != '$' && c != ',' {
            out.push(c);
        }
        i = i + 1;
    }
    proof {
        assert(inner.take(to - from) =~= inner);
        if !neg {
            assert(inner =~= t@);
        }
    }
    Some(MoneyText { negative: neg, number: string_of(&out) })
}

/// Paths of a transaction's status.
pub open spec fn status_paths() -> Seq<Seq<char>> {
    seq!["status"@, "state"@, "paymentStatus"@]
}

/// Paths of a transaction's type.
pub open spec fn type_paths() -> Seq<Seq<char>> {
    seq!["type"@, "orderType"@, "transactionType"@]
}

/// Paths of a transaction's tender.
pub open spec fn tender_paths() -> Seq<Seq<char>> {
    seq![
        "cardBrand"@,
        "cardType"@,
        "card.brand"@,
        "paymentMethod.cardBrand"@,
        "paymentMethod.cardType"@,
        "paymentMethod.type"@,
        "method"@,
    ]
}

/// Paths of a transaction's amount.
pub open spec fn amount_paths() -> Seq<Seq<char>> {
    seq![
        "totalAmount"@,
        "totals.total"@,
        "amount"@,
        "paymentAmount"@,
        "netAmount"@,
        "totals.amount"@,
    ]
}

/// How one payment transaction is counted.
pub struct TransactionFacts {
    pub settled: bool,
    pub type_key: String,
    pub tender_key: String,
}

proof fn lemma_path_texts(paths: &[&str], expected: Seq<Seq<char>>)
    requires
        paths@.len() == expected.len(),
        forall|i: int| 0 <= i < expected.len() ==> (#[trigger] paths@[i])@ == expected[i],
    ensures
        paths@.map_values(|p: &str| p@) == expected,
{
    assert(paths@.map_values(|p: &str| p@) =~= expected);
}

/// How a transaction object counts in the payment summary: whether it is
/// settled, and its type and tender buckets (`UNKNOWN` when absent).
/// Values that are not objects are not transactions.
pub fn transaction_facts(t: &Json) -> (r: Option<TransactionFacts>)
    ensures
        (r is Some) == (*t is Object),
        r matches Some(f) ==> f.settled == settled_status(first_string(*t, status_paths()))
            && f.type_key@ == bucket_key(first_string(*t, type_paths()), "UNKNOWN"@)
            && f.tender_key@ == bucket_key(first_string(*t, tender_paths()), "UNKNOWN"@),
{
    match t {
        Json::Object(_) => {},
        _ => return None,
    }
    let sp: &[&str] = &["status", "state", "paymentStatus"];
    let tp: &[&str] = &["type", "orderType", "transactionType"];
    let cp: &[&str] = &[
        "cardBrand",
        "cardType",
        "card.brand",
        "paymentMethod.cardBrand",
        "paymentMethod.cardType",
        "paymentMethod.type",
        "method",
    ];
    proof {
        lemma_path_texts(sp, status_paths());
        lemma_path_texts(tp, type_paths());
        lemma_path_texts(cp, tender_paths());
    }
    let status = first_string_at_paths(t, sp);
    let settled = match &status {
        Some(s) => is_settled_status(Some(s.as_str())),
        None => is_settled_status(None),
    };
    let ty = first_string_at_paths(t, tp);
    let type_key = match &ty {
        Some(s) => normalize_bucket_key(Some(s.as_str()), "UNKNOWN"),
        None => normalize_bucket_key(None, "UNKNOWN"),
    };
    let tender = first_string_at_paths(t, cp);
    let tender_key = match &tender {
        Some(s) => normalize_bucket_key(Some(s.as_str()), "UNKNOWN"),
        None => normalize_bucket_key(None, "UNKNOWN"),
    };
    Some(TransactionFacts { settled, type_key, tender_key })
}

/// Number of transactions (objects) among the first `n` values.
pub open spec fn transaction_count(items: Seq<Json>, n: int) -> nat
    decreases n,
{
    if n <= 0 {
        0
    } else {
        transaction_count(items, n - 1) + if items[n - 1] is Object {
            1nat
        } else {
            0nat
        }
    }
}

/// Number of settled transactions among the first `n` values.
pub open spec fn settled_count(items: Seq<Json>, n: int) -> nat
    decreases n,
{
    if n <= 0 {
        0
    } else {
        settled_count(items, n - 1) + if items[n - 1] is Object && settled_status(
            first_string(items[n - 1], status_paths()),
        ) {
            1nat
        } else {
            0nat
        }
    }
}

proof fn lemma_counts_bounded(items: Seq<Json>, n: int)
    requires
        0 <= n <= items.len(),
    ensures
        settled_count(items, n) <= transaction_count(items, n) <= n,
    decreases n,
{
    if n > 0 {
        lemma_counts_bounded(items, n - 1);
    }
}

/// The transaction and settled counts of a list of payment values: the
/// integer part of the payment summary.
pub fn payment_counts(transactions: &Vec<Json>) -> (r: (usize, usize))
    ensures
        r.0 == transaction_count(transactions@, transactions@.len() as int),
        r.1 == settled_count(transactions@, transactions@.len() as int),
        r.1 <= r.0 <= transactions@.len(),
{
    let mut count: usize = 0;
    let mut settled: usize = 0;
    let mut i: usize = 0;
    while i < transactions.len()
        invariant
            i <= transactions@.len(),
            count == transaction_count(transactions@, i as int),
            settled == settled_count(transactions@, i as int),
        decreases transactions@.len() - i,
    {
        proof {
            lemma_counts_bounded(transactions@, i + 1);
        }
        match transaction_facts(&transactions[i]) {
            Some(f) => {
                count = count + 1;
                if f.settled {
                    settled = settled + 1;
                }
            },
            None => {},
        }
        i = i + 1;
    }
    proof {
        lemma_counts_bounded(transactions@, i as int);
    }
    (count, settled)
}

/// The payment-mix key of a transaction: its tender bucket, or its type
/// bucket.
pub open spec fn mix_key(t: Json, by_tender: bool) -> Seq<char> {
    if by_tender {
        bucket_key(first_string(t, tender_paths()), "UNKNOWN"@)
    } else {
        bucket_key(first_string(t, type_paths()), "UNKNOWN"@)
    }
}

/// The positions, among the first `n` values, of the transactions whose
/// payment-mix key is `k`, in order.
pub open spec fn mix_positions(ts: Seq<Json>, n: int, by_tender: bool, k: Seq<char>) -> Seq<int>
    decreases n,
{
    if n <= 0 {
        seq![]
    } else {
        let prev = mix_positions(ts, n - 1, by_tender, k);
        if ts[n - 1] is Object && mix_key(ts[n - 1], by_tender) == k {
            prev.push(n - 1)
        } else {
            prev
        }
    }
}

/// One bucket of the payment mix: its key and the positions of its
/// transactions.
pub struct MixBucket {
    pub key: String,
    pub members: Vec<usize>,
}

/// The member positions of a bucket, as integers.
pub open spec fn members_of(b: MixBucket) -> Seq<int> {
    b.members@.map_values(|i: usize| i as int)
}

/// The buckets of a list of transactions, `k` values in: each holds exactly
/// the transactions with its key, keys are distinct, and every transaction
/// has a bucket.
pub open spec fn buckets_of(ts: Seq<Json>, k: int, by_tender: bool, b: Seq<MixBucket>) -> bool {
    &&& forall|j: int|
        0 <= j < b.len() ==> members_of(#[trigger] b[j]) == mix_positions(
            ts,
            k,
            by_tender,
            b[j].key@,
        ) && b[j].members@.len() > 0
    &&& forall|j1: int, j2: int|
        0 <= j1 < j2 < b.len() ==> (#[trigger] b[j1]).key@ != (#[trigger] b[j2]).key@
    &&& forall|i: int|
        0 <= i < k && (#[trigger] ts[i]) is Object ==> exists|j: int|
            0 <= j < b.len() && (#[trigger] b[j]).key@ == mix_key(ts[i], by_tender)
}

proof fn lemma_no_positions(ts: Seq<Json>, n: int, by_tender: bool, k: Seq<char>)
    requires
        forall|i: int| 0 <= i < n && (#[trigger] ts[i]) is Object ==> mix_key(ts[i], by_tender) != k,
    ensures
        mix_positions(ts, n, by_tender, k) == Seq::<int>::empty(),
    decreases n,
{
    if n > 0 {
        lemma_no_positions(ts, n - 1, by_tender, k);
    }
}

/// The type buckets (`by_tender` false) or tender buckets (`by_tender`
/// true) of the payment mix: the grouping part of the payment summary;
/// amounts are added by the caller.
pub fn payment_mix_buckets(transactions: &Vec<Json>, by_tender: bool) -> (r: Vec<MixBucket>)
    ensures
        buckets_of(transactions@, transactions@.len() as int, by_tender, r@),
{
    let mut buckets: Vec<MixBucket> = Vec::new();
    let mut i: usize = 0;
    while i < transactions.len()
        invariant
            i <= transactions@.len(),
            buckets_of(transactions@, i as int, by_tender, buckets@),
        decreases transactions@.len() - i,
    {
        let ghost ts = transactions@;
        match transaction_facts(&transactions[i]) {
            None => {
                assert forall|j: int| 0 <= j < buckets@.len() implies members_of(
                    #[trigger] buckets@[j],
                ) == mix_positions(ts, i + 1, by_tender, buckets@[j].key@) by {}
                assert forall|m: int|
                    0 <= m < i + 1 && (#[trigger] ts[m]) is Object implies exists|j: int|
                    0 <= j < buckets@.len() && (#[trigger] buckets@[j]).key@ == mix_key(
                        ts[m],
                        by_tender,
                    ) by {}
            },
            Some(f) => {
                let key = if by_tender {
                    f.tender_key
                } else {
                    f.type_key
                };
                assert(key@ == mix_key(ts[i as int], by_tender));
                let mut j: usize = 0;
                let mut found = false;
                while j < buckets.len()
                    invariant
                        j <= buckets@.len(),
                        !found ==> forall|m: int| 0 <= m < j ==> (#[trigger] buckets@[m]).key@ != key@,
                        found ==> j < buckets@.len() && buckets@[j as int].key@ == key@,
                    ensures
                        found ==> j < buckets@.len() && buckets@[j as int].key@ == key@,
                        !found ==> forall|m: int|
                            0 <= m < buckets@.len() ==> (#[trigger] buckets@[m]).key@ != key@,
                    decreases buckets@.len() - j + if found { 0int } else { 1int },
                {
                    if str_eq(buckets[j].key.as_str(), key.as_str()) {
                        found = true;
                        break;
                    }
                    j = j + 1;
                }
                let ghost old_b = buckets@;
                if found {
                    let mut taken = MixBucket { key: String::new(), members: Vec::new() };
                    buckets.set_and_swap(j, &mut taken);
                    taken.members.push(i);
                    assert(members_of(taken) =~= members_of(old_b[j as int]).push(i as int));
                    buckets.set(j, taken);
                    assert forall|m: int| 0 <= m < buckets@.len() implies members_of(
                        #[trigger] buckets@[m],
                    ) == mix_positions(ts, i + 1, by_tender, buckets@[m].key@) && buckets@[m].members@.len() > 0 by {
                        if m != j {
                            assert(buckets@[m] == old_b[m]);
                            assert(old_b[m].key@ != old_b[j as int].key@);
                        }
                    }
                    assert forall|m1: int, m2: int|
                        0 <= m1 < m2 < buckets@.len() implies (#[trigger] buckets@[m1]).key@
                        != (#[trigger] buckets@[m2]).key@ by {
                        assert(old_b[m1].key@ != old_b[m2].key@);
                    }
                    assert forall|m: int|
                        0 <= m < i + 1 && (#[trigger] ts[m]) is Object implies exists|x: int|
                        0 <= x < buckets@.len() && (#[trigger] buckets@[x]).key@ == mix_key(
                            ts[m],
                            by_tender,
                        ) by {
                        if m == i {
                            assert(buckets@[j as int].key@ == mix_key(ts[m], by_tender));
                        } else {
                            let x = choose|x: int|
                                0 <= x < old_b.len() && (#[trigger] old_b[x]).key@ == mix_key(
                                    ts[m],
                                    by_tender,
                                );
                            assert(buckets@[x].key@ == old_b[x].key@);
                        }
                    }
                } else {
                    proof {
                        assert forall|m: int|
                            0 <= m < i && (#[trigger] ts[m]) is Object implies mix_key(
                            ts[m],
                            by_tender,
                        ) != key@ by {
                            let x = choose|x: int|
                                0 <= x < old_b.len() && (#[trigger] old_b[x]).key@ == mix_key(
                                    ts[m],
                                    by_tender,
                                );
                            assert(old_b[x].key@ != key@);
                        }
                        lemma_no_positions(ts, i as int, by_tender, key@);
                    }
                    let mut members: Vec<usize> = Vec::new();
                    members.push(i);
                    let bucket = MixBucket { key, members };
                    assert(members_of(bucket) =~= seq![i as int]);
                    buckets.push(bucket);
                    assert forall|m: int| 0 <= m < buckets@.len() implies members_of(
                        #[trigger] buckets@[m],
                    ) == mix_positions(ts, i + 1, by_tender, buckets@[m].key@) && buckets@[m].members@.len() > 0 by {
                        if m < old_b.len() {
                            assert(buckets@[m] == old_b[m]);
                            assert(old_b[m].key@ != mix_key(ts[i as int], by_tender));
                        }
                    }
                    assert forall|m1: int, m2: int|
                        0 <= m1 < m2 < buckets@.len() implies (#[trigger] buckets@[m1]).key@
                        != (#[trigger] buckets@[m2]).key@ by {
                        if m2 < old_b.len() {
                            assert(old_b[m1].key@ != old_b[m2].key@);
                        } else {
                            assert(old_b[m1].key@ != key@);
                        }
                    }
                    assert forall|m: int|
                        0 <= m < i + 1 && (#[trigger] ts[m]) is Object implies exists|x: int|
                        0 <= x < buckets@.len() && (#[trigger] buckets@[x]).key@ == mix_key(
                            ts[m],
                            by_tender,
                        ) by {
                        if m == i {
                            assert(buckets@[old_b.len() as int].key@ == mix_key(ts[m], by_tender));
                        } else {
                            let x = choose|x: int|
                                0 <= x < old_b.len() && (#[trigger] old_b[x]).key@ == mix_key(
                                    ts[m],
                                    by_tender,
                                );
                            assert(buckets@[x] == old_b[x]);
                        }
                    }
                }
            },
        }
        i = i + 1;
    }
    buckets
}

/// The value at the first path that holds a number
/// or a string (a string is read as a money text).
pub open spec fn first_amount(v: Json, paths: Seq<Seq<char>>) -> Option<Json>
    decreases paths.len(),
{
    if paths.len() == 0 {
        None
    } else {
        match value_at_path(v, paths[0]) {
            Some(Json::Number(t)) => Some(Json::Number(t)),
            Some(Json::Str(s)) => Some(Json::Str(s)),
            _ => first_amount(v, paths.drop_first()),
        }
    }
}

/// Executable [`first_amount`].
pub fn first_amount_at_paths<'a>(value: &'a Json, paths: &[&str]) -> (r: Option<&'a Json>)
    ensures
        match first_amount(*value, paths@.map_values(|p: &str| p@)) {
            Some(j) => r matches Some(x) && *x == j,
            None => r is None,
        },
{
    let ghost ps = paths@.map_values(|p: &str| p@);
    assert(ps.skip(0) =~= ps);
    let mut i: usize = 0;
    while i < paths.len()
        invariant
            i <= paths@.len(),
            ps == paths@.map_values(|p: &str| p@),
            first_amount(*value, ps) == first_amount(*value, ps.skip(i as int)),
        decreases paths@.len() - i,
    {
        proof {
            assert(ps.skip(i as int)[0] == paths@[i as int]@);
            assert(ps.skip(i as int).drop_first() =~= ps.skip(i + 1));
        }
        match path_value(value, paths[i]) {
            Some(found) => match found {
                Json::Number(_) => return Some(found),
                Json::Str(_) => return Some(found),
                _ => {},
            },
            None => {},
        }
        i = i + 1;
    }
    assert(ps.skip(i as int).len() == 0);
    None
}

/// A transaction's amount is its `totalAmount` whenever that member holds a
/// number or a text, whatever `amount` and the others hold; without one, and
/// without a `totals.total`, an `amount` number or text is used.
pub proof fn law_amount_prefers_total(t: Json)
    ensures
        match value_at_path(t, "totalAmount"@) {
            Some(Json::Number(x)) => first_amount(t, amount_paths()) == Some(Json::Number(x)),
            Some(Json::Str(x)) => first_amount(t, amount_paths()) == Some(Json::Str(x)),
            _ => true,
        },
        !(value_at_path(t, "totalAmount"@) matches Some(Json::Number(_)))
            && !(value_at_path(t, "totalAmount"@) matches Some(Json::Str(_)))
            && !(value_at_path(t, "totals.total"@) matches Some(Json::Number(_)))
            && !(value_at_path(t, "totals.total"@) matches Some(Json::Str(_))) ==> match value_at_path(
            t,
            "amount"@,
        ) {
            Some(Json::Number(x)) => first_amount(t, amount_paths()) == Some(Json::Number(x)),
            Some(Json::Str(x)) => first_amount(t, amount_paths()) == Some(Json::Str(x)),
            _ => true,
        },
{
    let ps = amount_paths();
    assert(ps[0] == "totalAmount"@);
    assert(ps.drop_first()[0] == "totals.total"@);
    assert(ps.drop_first().drop_first()[0] == "amount"@);
    reveal_with_fuel(first_amount, 3);
}

/// The value that gives a transaction's amount (none means an amount of
/// 0).
pub fn transaction_amount_value(t: &Json) -> (r: Option<&Json>)
    ensures
        match first_amount(*t, amount_paths()) {
            Some(j) => r matches Some(x) && *x == j,
            None => r is None,
        },
{
    let ap: &[&str] = &[
        "totalAmount",
        "totals.total",
        "amount",
        "paymentAmount",
        "netAmount",
        "totals.amount",
    ];
    proof {
        lemma_path_texts(ap, amount_paths());
    }
    first_amount_at_paths(t, ap)
}

/// The trimmed text of a member, or the empty text when it is absent or not
/// a string.
pub open spec fn member_text(v: Json, key: Seq<char>) -> Seq<char> {
    match member(v, key) {
        Some(Json::Str(s)) => trim(s@),
        _ => seq![],
    }
}

fn member_text_of(v: &Json, key: &str) -> (r: Vec<char>)
    ensures
        r@ == member_text(*v, key@),
{
    match get_member(v, key) {
        Some(Json::Str(s)) => {
            let c = chars_of(s.as_str());
            trim_chars(&c)
        },
        _ => Vec::new(),
    }
}

/// A shift counts as open when its trimmed `clockedOutAt` is empty.
pub open spec fn open_shift(shift: Json) -> bool {
    member_text(shift, "clockedOutAt"@).len() == 0
}

/// Number of open shifts among the first `n`.
pub open spec fn open_shift_count(shifts: Seq<Json>, n: int) -> nat
    decreases n,
{
    if n <= 0 {
        0
    } else {
        open_shift_count(shifts, n - 1) + if open_shift(shifts[n - 1]) {
            1nat
        } else {
            0nat
        }
    }
}

proof fn lemma_open_count_bounded(shifts: Seq<Json>, n: int)
    requires
        0 <= n <= shifts.len(),
    ensures
        open_shift_count(shifts, n) <= n,
    decreases n,
{
    if n > 0 {
        lemma_open_count_bounded(shifts, n - 1);
    }
}

/// The open-shift count of the time-clock summary.
pub fn count_open_shifts(shifts: &Vec<Json>) -> (r: usize)
    ensures
        r == open_shift_count(shifts@, shifts@.len() as int),
        r <= shifts@.len(),
{
    let mut n: usize = 0;
    let mut i: usize = 0;
    while i < shifts.len()
        invariant
            i <= shifts@.len(),
            n == open_shift_count(shifts@, i as int),
        decreases shifts@.len() - i,
    {
        proof {
            lemma_open_count_bounded(shifts@, i + 1);
        }
        let out = member_text_of(&shifts[i], "clockedOutAt");
        if out.len() == 0 {
            n = n + 1;
        }
        i = i + 1;
    }
    proof {
        lemma_open_count_bounded(shifts@, i as int);
    }
    n
}

/// How long a shift lasted, from its clock times.
pub enum ShiftSpan {
    /// Both times are present and the shift lasted this many whole seconds
    /// (more than zero).
    Seconds(i64),
    /// Both times are present but one of them is not RFC 3339.
    Unreadable,
    /// A time is missing or the span is not positive: the shift's
    /// `clockedInSeconds` decides.
    Fallback,
}

/// The span of a shift between two clock-time texts.
pub open spec fn span_between(clocked_in: Seq<char>, clocked_out: Seq<char>) -> ShiftSpan {
    if clocked_in.len() == 0 || clocked_out.len() == 0 {
        ShiftSpan::Fallback
    } else {
        match rfc3339_span(clocked_in, clocked_out) {
            None => ShiftSpan::Unreadable,
            Some(s) => if s > 0 {
                ShiftSpan::Seconds(s)
            } else {
                ShiftSpan::Fallback
            },
        }
    }
}

/// Executable [`span_between`].
pub fn shift_span(clocked_in: &str, clocked_out: &str) -> (r: ShiftSpan)
    ensures
        r == span_between(clocked_in@, clocked_out@),
{
    let a = chars_of(clocked_in);
    let b = chars_of(clocked_out);
    if a.len() == 0 || b.len() == 0 {
        return ShiftSpan::Fallback;
    }
    match rfc3339_seconds_between(clocked_in, clocked_out) {
        None => ShiftSpan::Unreadable,
        Some(s) => if s > 0 {
            ShiftSpan::Seconds(s)
        } else {
            ShiftSpan::Fallback
        },
    }
}

/// A shift's hours up to the division: the span between the trimmed
/// `clockedInAt` and `clockedOutAt` members of a shift.
pub fn timeclock_shift_span(shift: &Json) -> (r: ShiftSpan)
    ensures
        r == span_between(
            member_text(*shift, "clockedInAt"@),
            member_text(*shift, "clockedOutAt"@),
        ),
{
    let a = member_text_of(shift, "clockedInAt");
    let b = member_text_of(shift, "clockedOutAt");
    let sa = string_of(&a);
    let sb = string_of(&b);
    shift_span(sa.as_str(), sb.as_str())
}

/// The number read from a money text holds no `$` and no `,`.
pub proof fn law_money_number_is_bare(s: Seq<char>)
    ensures
        forall|i: int|
            0 <= i < strip_money(s).len() ==> #[trigger] strip_money(s)[i] != '$'
                && strip_money(s)[i] != ',',
    decreases s.len(),
{
    if s.len() > 0 {
        let prev = strip_money(s.drop_last());
        law_money_number_is_bare(s.drop_last());
        assert forall|i: int| 0 <= i < strip_money(s).len() implies #[trigger] strip_money(s)[i]
            != '$' && strip_money(s)[i] != ',' by {
            if i < prev.len() {
                assert(strip_money(s)[i] == prev[i]);
            }
        }
    }
}

/// The text at a path, or the empty text when it is absent or not a string.
pub open spec fn path_text(v: Json, path: Seq<char>) -> Seq<char> {
    match value_at_path(v, path) {
        Some(Json::Str(s)) => s@,
        _ => seq![],
    }
}

fn path_text_of(v: &Json, path: &str) -> (r: String)
    ensures
        r@ == path_text(*v, path@),
{
    match path_value(v, path) {
        Some(Json::Str(s)) => String::from_str(s.as_str()),
        _ => String::new(),
    }
}

/// The span that the timeclock CSV uses for a shift's hours: between its
/// `clockedInAt` and `clockedOutAt` texts, as they are.
pub fn csv_shift_span(shift: &Json) -> (r: ShiftSpan)
    ensures
        r == span_between(path_text(*shift, "clockedInAt"@), path_text(*shift, "clockedOutAt"@)),
{
    let a = path_text_of(shift, "clockedInAt");
    let b = path_text_of(shift, "clockedOutAt");
    shift_span(a.as_str(), b.as_str())
}

} // verus!
