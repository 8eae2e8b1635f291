use skytab_cli::cli::OutputFormat;
use skytab_cli::json::Json;
use skytab_cli::output::{
    ensure_trailing_newline, render_structured_value, render_structured_value_with_schema,
    timeclock_shift_list, CsvSchema,
};
use skytab_cli::reports::{csv_shift_span, ShiftSpan};

fn s(t: &str) -> Json {
    Json::Str(t.to_string())
}

fn n(t: &str) -> Json {
    Json::Number(t.to_string())
}

fn arr(items: Vec<Json>) -> Json {
    Json::Array(items)
}

fn obj(members: Vec<(&str, Json)>) -> Json {
    Json::Object(members.into_iter().map(|(k, v)| (k.to_string(), v)).collect())
}

fn render(value: &Json, format: OutputFormat) -> String {
    render_structured_value(value, format).ok().expect("rendering should succeed")
}

fn render_schema(value: &Json, schema: CsvSchema) -> String {
    let hours: Vec<String> = match timeclock_shift_list(value) {
        Some(shifts) => shifts
            .iter()
            .map(|shift| match csv_shift_span(shift) {
                ShiftSpan::Seconds(secs) => format!("{:.2}", secs as f64 / 3600.0),
                _ => String::new(),
            })
            .collect(),
        None => Vec::new(),
    };
    render_structured_value_with_schema(value, OutputFormat::Csv, Some(schema), &hours)
        .ok()
        .expect("csv should render")
}

fn payroll_entry(id: &str, name: &str) -> Json {
    obj(vec![
        ("employee_id", s(id)),
        ("employee_name", s(name)),
        ("normal_hours", n("8.0")),
        ("overtime_hours", n("1.0")),
        ("double_overtime_hours", n("0.0")),
        ("normal_pay", n("100.0")),
        ("overtime_pay", n("20.0")),
        ("double_overtime_pay", n("0.0")),
        ("total_gratuity", n("5.0")),
        ("total_pay", n("125.0")),
        ("adjusted_tips", n("2.0")),
        ("tip_reduction", n("0.0")),
        ("declared_tips", n("10.0")),
        ("gross_tips", n("12.0")),
        ("tip_share", n("1.0")),
        ("net_tips", n("11.0")),
    ])
}

#[test]
fn ndjson_prefers_rows_in_wrapped_objects() {
    let wrapped = obj(vec![
        ("count", n("2")),
        (
            "transactions",
            arr(vec![
                obj(vec![("id", n("1")), ("status", s("ok"))]),
                obj(vec![("id", n("2")), ("status", s("ok"))]),
            ]),
        ),
    ]);
    let rendered = render(&wrapped, OutputFormat::Ndjson);
    let lines = rendered.lines().collect::<Vec<_>>();
    assert_eq!(lines.len(), 2);
    assert!(lines[0].contains("\"id\":1"));
    assert!(lines[1].contains("\"id\":2"));
}

#[test]
fn csv_renders_object_rows() {
    let wrapped = obj(vec![(
        "rows",
        arr(vec![
            obj(vec![("name", s("Alice")), ("hours", n("8"))]),
            obj(vec![("name", s("Bob")), ("hours", n("6"))]),
        ]),
    )]);
    let rendered = render(&wrapped, OutputFormat::Csv);
    let lines = rendered.lines().collect::<Vec<_>>();
    assert_eq!(lines[0], "hours,name");
    assert_eq!(lines[1], "8,Alice");
    assert_eq!(lines[2], "6,Bob");
}

#[test]
fn csv_renders_array_rows() {
    let wrapped = obj(vec![(
        "rows",
        arr(vec![
            arr(vec![s("2026-03-01"), s("09"), s("100.00")]),
            arr(vec![s("2026-03-01"), s("10"), s("120.00")]),
        ]),
    )]);
    let rendered = render(&wrapped, OutputFormat::Csv);
    let lines = rendered.lines().collect::<Vec<_>>();
    assert_eq!(lines[0], "col_1,col_2,col_3");
    assert_eq!(lines[1], "2026-03-01,09,100.00");
    assert_eq!(lines[2], "2026-03-01,10,120.00");
}

#[test]
fn hourly_sales_schema_has_stable_columns() {
    let wrapped = obj(vec![(
        "rows",
        arr(vec![
            arr(vec![s("2026-03-01"), s("09"), s("100.00"), s("90.00")]),
            arr(vec![s("2026-03-01"), s("10"), s("120.00"), s("110.00")]),
        ]),
    )]);
    let rendered = render_schema(&wrapped, CsvSchema::HourlySales);
    let lines = rendered.lines().collect::<Vec<_>>();
    assert_eq!(lines[0], "date,hour,gross,net");
    assert_eq!(lines[1], "2026-03-01,09,100.00,90.00");
}

#[test]
fn payroll_schema_includes_row_type_and_totals() {
    let wrapped = obj(vec![
        ("employees", arr(vec![payroll_entry("1", "Alice")])),
        ("totals", payroll_entry("TOTAL", "TOTAL")),
    ]);
    let rendered = render_schema(&wrapped, CsvSchema::Payroll);
    let lines = rendered.lines().collect::<Vec<_>>();
    assert!(lines[0].starts_with("row_type,employee_id,employee_name"));
    assert!(lines[1].starts_with("employee,1,Alice"));
    assert!(lines[2].starts_with("total,TOTAL,TOTAL"));
}

#[test]
fn payroll_schema_skips_null_totals() {
    let wrapped = obj(vec![
        (
            "employees",
            arr(vec![obj(vec![("employee_id", s("1")), ("employee_name", s("Alice"))])]),
        ),
        ("totals", Json::Null),
    ]);
    let rendered = render_schema(&wrapped, CsvSchema::Payroll);
    let lines = rendered.lines().collect::<Vec<_>>();
    assert_eq!(lines.len(), 2);
    assert!(lines[1].starts_with("employee,1,Alice"));
}

#[test]
fn timeclock_schema_extracts_expected_columns() {
    let wrapped = obj(vec![(
        "timeClockShifts",
        arr(vec![obj(vec![
            ("guid", s("shift-1")),
            ("employee", obj(vec![("name", s("Alice"))])),
            ("clockedInAt", s("2026-03-01T09:00:00Z")),
            ("clockedOutAt", s("2026-03-01T11:00:00Z")),
            ("payRate", s("15.00")),
            ("job", obj(vec![("name", s("Server"))])),
            ("locationId", n("123")),
        ])]),
    )]);
    let rendered = render_schema(&wrapped, CsvSchema::TimeclockShifts);
    let lines = rendered.lines().collect::<Vec<_>>();
    assert_eq!(
        lines[0],
        "shift_guid,employee_name,clocked_in_at,clocked_out_at,hours,pay_rate,job_name,status,location_id"
    );
    assert!(lines[1].starts_with(
        "shift-1,Alice,2026-03-01T09:00:00Z,2026-03-01T11:00:00Z,2.00,15.00,Server,closed,123"
    ));
}

#[test]
fn payments_schema_uses_fixed_columns() {
    let wrapped = obj(vec![(
        "transactions",
        arr(vec![obj(vec![
            ("id", s("txn_1")),
            ("createdAt", s("2026-03-01T00:00:00Z")),
            ("type", s("SALE")),
            ("status", s("SETTLED")),
            ("amount", n("12.34")),
            ("locationId", n("456")),
            ("paymentMethod", obj(vec![("cardBrand", s("VISA")), ("last4", s("4242"))])),
        ])]),
    )]);
    let rendered = render_schema(&wrapped, CsvSchema::PaymentsTransactions);
    let lines = rendered.lines().collect::<Vec<_>>();
    assert_eq!(
        lines[0],
        "transaction_id,date,type,status,amount,tip_amount,tax_amount,total_amount,currency,location_id,order_id,reference,card_brand,card_last4,raw_json"
    );
    assert!(lines[1].starts_with("txn_1,2026-03-01T00:00:00Z,SALE,SETTLED,12.34"));
}

#[test]
fn insights_daily_brief_schema_has_fixed_columns() {
    let wrapped = obj(vec![
        ("period_start", s("2026-03-01T00:00:00Z")),
        ("period_end", s("2026-03-01T23:59:59Z")),
        ("location_ids", arr(vec![n("43101562")])),
        ("gross_sales", n("1200.0")),
        ("net_sales", n("1100.0")),
        ("labor_hours", n("45.5")),
        ("labor_pay", n("400.0")),
        ("labor_percent_of_net_sales", n("36.36")),
        ("sales_per_labor_hour", n("24.17")),
        ("transaction_count", n("80")),
        ("settled_count", n("76")),
        ("settled_amount", n("1040.0")),
        ("settled_rate_percent", n("95.0")),
        ("top_payment_type", s("SALE")),
        ("top_payment_type_amount", n("990.0")),
        ("highlights", arr(vec![s("Labor is high"), s("Settlement rate dipped")])),
    ]);
    let rendered = render_schema(&wrapped, CsvSchema::InsightsDailyBrief);
    let lines = rendered.lines().collect::<Vec<_>>();
    assert_eq!(
        lines[0],
        "period_start,period_end,location_ids,gross_sales,net_sales,labor_hours,labor_pay,labor_percent_of_net_sales,sales_per_labor_hour,transaction_count,settled_count,settled_amount,settled_rate_percent,top_payment_type,top_payment_type_amount,highlights"
    );
    assert!(lines[1].contains("43101562"));
    assert!(lines[1].contains("Labor is high | Settlement rate dipped"));
}

#[test]
fn insights_labor_vs_sales_schema_has_fixed_columns() {
    let wrapped = obj(vec![
        ("period_start", s("2026-03-01T00:00:00Z")),
        ("period_end", s("2026-03-01T23:59:59Z")),
        ("location_ids", arr(vec![n("43101562"), n("43101563")])),
        ("gross_sales", n("2200.0")),
        ("net_sales", n("2100.0")),
        ("labor_hours", n("85.0")),
        ("labor_pay", n("750.0")),
        ("labor_percent_of_net_sales", n("35.71")),
        ("sales_per_labor_hour", n("24.71")),
        ("labor_pay_per_labor_hour", n("8.82")),
        ("employee_count", n("11")),
        ("highlights", arr(vec![s("Labor is high")])),
    ]);
    let rendered = render_schema(&wrapped, CsvSchema::InsightsLaborVsSales);
    let lines = rendered.lines().collect::<Vec<_>>();
    assert_eq!(
        lines[0],
        "period_start,period_end,location_ids,gross_sales,net_sales,labor_hours,labor_pay,labor_percent_of_net_sales,sales_per_labor_hour,labor_pay_per_labor_hour,employee_count,highlights"
    );
    assert!(lines[1].contains("43101562|43101563"));
}

#[test]
fn insights_payment_mix_schema_has_fixed_columns() {
    let wrapped = obj(vec![
        ("period_start", s("2026-03-01T00:00:00Z")),
        ("period_end", s("2026-03-01T23:59:59Z")),
        ("location_ids", arr(vec![n("43101562")])),
        ("transaction_count", n("5")),
        ("total_amount", n("300.0")),
        ("highlights", arr(vec![s("SALE leads")])),
        (
            "by_type",
            arr(vec![obj(vec![
                ("key", s("SALE")),
                ("count", n("4")),
                ("amount", n("280.0")),
                ("share_of_count", n("80.0")),
                ("share_of_amount", n("93.33")),
            ])]),
        ),
        (
            "by_tender",
            arr(vec![obj(vec![
                ("key", s("VISA")),
                ("count", n("3")),
                ("amount", n("210.0")),
                ("share_of_count", n("60.0")),
                ("share_of_amount", n("70.0")),
            ])]),
        ),
    ]);
    let rendered = render_schema(&wrapped, CsvSchema::InsightsPaymentMix);
    let lines = rendered.lines().collect::<Vec<_>>();
    assert_eq!(
        lines[0],
        "row_type,key,count,amount,share_of_count,share_of_amount,period_start,period_end,location_ids,transaction_count,total_amount,highlights"
    );
    assert!(lines[1].starts_with("type,SALE,4,280.0,80.0,93.33"));
    assert!(lines[2].starts_with("tender,VISA,3,210.0,60.0,70.0"));
}

#[test]
fn pretty_json_matches_serde_layout() {
    let v = obj(vec![
        ("a", arr(vec![n("1"), obj(vec![])])),
        ("b", s("x\"y\n")),
        ("c", arr(vec![])),
        ("d", Json::Null),
        ("e", Json::Bool(true)),
    ]);
    let expected = "{\n  \"a\": [\n    1,\n    {}\n  ],\n  \"b\": \"x\\\"y\\n\",\n  \"c\": [],\n  \"d\": null,\n  \"e\": true\n}";
    assert_eq!(render(&v, OutputFormat::Json), expected);
    let sv: serde_json::Value = serde_json::from_str(expected).unwrap();
    assert_eq!(serde_json::to_string_pretty(&sv).unwrap(), expected);
}

#[test]
fn csv_quotes_cells_that_need_it() {
    let wrapped = obj(vec![(
        "rows",
        arr(vec![obj(vec![("note", s("a,\"b\"\nc")), ("n", Json::Null)])]),
    )]);
    let rendered = render(&wrapped, OutputFormat::Csv);
    assert_eq!(rendered, "n,note\n,\"a,\"\"b\"\"\nc\"");
}

#[test]
fn trailing_newline_is_added_once() {
    assert_eq!(ensure_trailing_newline("abc"), "abc\n");
    assert_eq!(ensure_trailing_newline("abc\n"), "abc\n");
    assert_eq!(ensure_trailing_newline(""), "\n");
    let once = ensure_trailing_newline("x");
    assert_eq!(ensure_trailing_newline(&once), once);
}
