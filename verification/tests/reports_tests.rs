use skytab_cli::json::Json;
use skytab_cli::reports::{
    count_open_shifts, money_text, payment_counts, payment_mix_buckets, shift_span, split_payroll_rows,
    till_transaction_rows, timeclock_shift_span, transaction_amount_value, transaction_facts,
    ShiftSpan,
};

fn s(t: &str) -> Json {
    Json::Str(t.to_string())
}

fn n(t: &str) -> Json {
    Json::Number(t.to_string())
}

fn obj(members: Vec<(&str, Json)>) -> Json {
    Json::Object(members.into_iter().map(|(k, v)| (k.to_string(), v)).collect())
}

#[test]
fn parse_currency_number_supports_negative_parentheses() {
    let m = money_text("($12.34)").expect("not blank");
    assert!(m.negative);
    assert_eq!(m.number, "12.34");
    let m = money_text("$1,234.50").expect("not blank");
    assert!(!m.negative);
    assert_eq!(m.number, "1234.50");
}

#[test]
fn money_texts() {
    let m = money_text(" ($1,2$3.5) ").expect("not blank");
    assert!(m.negative);
    assert_eq!(m.number, "123.5");
    let m = money_text("(12").expect("not blank");
    assert!(!m.negative);
    assert_eq!(m.number, "(12");
    let m = money_text("()").expect("not blank");
    assert!(m.negative);
    assert_eq!(m.number, "");
    assert!(money_text("   ").is_none());
}

#[test]
fn payment_transaction_summary_builds_mix_rows() {
    let transactions = vec![
        obj(vec![
            ("type", s("SALE")),
            ("status", s("SETTLED")),
            ("totalAmount", s("10.00")),
            ("paymentMethod", obj(vec![("cardBrand", s("VISA"))])),
        ]),
        obj(vec![
            ("type", s("SALE")),
            ("status", s("SETTLED")),
            ("totalAmount", s("5.00")),
            ("paymentMethod", obj(vec![("cardBrand", s("VISA"))])),
        ]),
        obj(vec![
            ("type", s("REFUND")),
            ("status", s("PENDING")),
            ("totalAmount", s("2.00")),
            ("paymentMethod", obj(vec![("cardBrand", s("MASTERCARD"))])),
        ]),
    ];
    let (count, settled) = payment_counts(&transactions);
    assert_eq!(count, 3);
    assert_eq!(settled, 2);
    let facts: Vec<_> = transactions.iter().map(|t| transaction_facts(t).unwrap()).collect();
    assert_eq!(facts[0].type_key, "SALE");
    assert_eq!(facts[2].type_key, "REFUND");
    assert_eq!(facts[0].tender_key, "VISA");
    assert_eq!(facts[2].tender_key, "MASTERCARD");
    let amount_text = |i: usize| match transaction_amount_value(&transactions[i]) {
        Some(Json::Str(text)) => text.clone(),
        _ => String::new(),
    };
    let by_type = payment_mix_buckets(&transactions, false);
    assert_eq!(by_type.len(), 2);
    assert_eq!(by_type[0].key, "SALE");
    assert_eq!(by_type[0].members, vec![0, 1]);
    assert_eq!(amount_text(0), "10.00");
    assert_eq!(amount_text(1), "5.00");
    assert_eq!(by_type[1].key, "REFUND");
    assert_eq!(by_type[1].members, vec![2]);
    let by_tender = payment_mix_buckets(&transactions, true);
    assert_eq!(by_tender.len(), 2);
    assert_eq!(by_tender[0].key, "VISA");
    assert_eq!(by_tender[0].members.len(), 2);
    assert_eq!(by_tender[1].key, "MASTERCARD");
    assert_eq!(by_tender[1].members, vec![2]);
}

#[test]
fn mix_buckets_skip_non_transactions_and_group_unknowns() {
    let transactions = vec![
        obj(vec![("amount", n("1"))]),
        s("not a transaction"),
        obj(vec![("type", s(" sale ")), ("method", s("cash"))]),
        obj(vec![("orderType", s("SALE"))]),
        obj(vec![]),
    ];
    let by_type = payment_mix_buckets(&transactions, false);
    assert_eq!(by_type.len(), 2);
    assert_eq!(by_type[0].key, "UNKNOWN");
    assert_eq!(by_type[0].members, vec![0, 4]);
    assert_eq!(by_type[1].key, "SALE");
    assert_eq!(by_type[1].members, vec![2, 3]);
    let by_tender = payment_mix_buckets(&transactions, true);
    assert_eq!(by_tender.len(), 2);
    assert_eq!(by_tender[0].key, "UNKNOWN");
    assert_eq!(by_tender[0].members, vec![0, 3, 4]);
    assert_eq!(by_tender[1].key, "CASH");
    assert_eq!(by_tender[1].members, vec![2]);
    assert!(payment_mix_buckets(&vec![], false).is_empty());
}

#[test]
fn transactions_without_fields_fall_back() {
    let t = obj(vec![("amount", n("3.5")), ("card", obj(vec![("brand", s(" amex "))]))]);
    let f = transaction_facts(&t).unwrap();
    assert_eq!(f.type_key, "UNKNOWN");
    assert_eq!(f.tender_key, "AMEX");
    assert!(!f.settled);
    assert!(matches!(transaction_amount_value(&t), Some(Json::Number(x)) if x == "3.5"));
    assert!(transaction_facts(&s("not a transaction")).is_none());
    assert_eq!(payment_counts(&vec![s("x"), t]), (1, 0));
}

fn payroll_row(id: &str, name: &str) -> Json {
    let mut cells = vec![s(id), s(name)];
    for k in 0..14 {
        cells.push(s(&format!(" {k} ")));
    }
    Json::Array(cells)
}

#[test]
fn payroll_rows_split_employees_and_totals() {
    let rows = vec![
        payroll_row("100", "Alice Smith"),
        Json::Array(vec![s("short")]),
        payroll_row("Total", ""),
        payroll_row("101", "Bob"),
        payroll_row("x", "TOTAL"),
        n("7"),
    ];
    let split = split_payroll_rows(&rows);
    assert_eq!(split.employees.len(), 2);
    assert_eq!(split.employees[0][0], "100");
    assert_eq!(split.employees[0][1], "Alice Smith");
    assert_eq!(split.employees[0][2], "0");
    assert_eq!(split.employees[1][1], "Bob");
    let totals = split.totals.expect("totals row should be detected");
    assert_eq!(totals[0], "x");
    assert_eq!(totals.len(), 16);
}

#[test]
fn till_rows_need_five_cells() {
    let rows = vec![
        Json::Array(vec![s("T1"), s("2026-03-01 09:00"), s(" Alice Smith "), s("Pay in"), s("$50.00")]),
        Json::Array(vec![s("T1"), s("x"), s("y")]),
        Json::Array(vec![s("T2"), n("1"), s("Bob Stone"), s("Pay out"), s("($10.50)"), s("extra")]),
    ];
    let items = till_transaction_rows(&rows);
    assert_eq!(items.len(), 2);
    assert_eq!(items[0][2], "Alice Smith");
    assert_eq!(items[0][4], "$50.00");
    assert_eq!(items[1][1], "");
    assert_eq!(items[1][2], "Bob Stone");
    assert_eq!(items[1][4], "($10.50)");
    let m = money_text(&items[1][4]).expect("not blank");
    assert!(m.negative);
    assert_eq!(m.number, "10.50");
}

#[test]
fn open_shifts_and_spans() {
    let shifts = vec![
        obj(vec![
            ("clockedInAt", s("2026-03-01T09:00:00Z")),
            ("clockedOutAt", s("2026-03-01T17:00:00Z")),
        ]),
        obj(vec![("clockedInAt", s("2026-03-01T09:00:00Z")), ("clockedOutAt", s("  "))]),
        obj(vec![("clockedInAt", s("2026-03-01T09:00:00Z")), ("clockedOutAt", Json::Null)]),
    ];
    assert_eq!(count_open_shifts(&shifts), 2);
    assert!(matches!(timeclock_shift_span(&shifts[0]), ShiftSpan::Seconds(28800)));
    assert!(matches!(timeclock_shift_span(&shifts[1]), ShiftSpan::Fallback));
    assert!(matches!(
        shift_span("2026-03-01T09:00:00+02:00", "2026-03-01T09:00:00Z"),
        ShiftSpan::Seconds(7200)
    ));
    assert!(matches!(
        shift_span("2026-03-01T10:00:00Z", "2026-03-01T09:00:00Z"),
        ShiftSpan::Fallback
    ));
    assert!(matches!(shift_span("yesterday", "2026-03-01T09:00:00Z"), ShiftSpan::Unreadable));
    assert!(matches!(shift_span("", "2026-03-01T09:00:00Z"), ShiftSpan::Fallback));
}

fn payroll_cells(cells: [&str; 16]) -> Json {
    Json::Array(cells.iter().map(|c| s(c)).collect())
}

#[test]
fn payroll_transform_parses_fixture_rows() {
    let rows = vec![
        payroll_cells([
            "100", "Alice Smith", "8", "1", "0", "$120.00", "$22.50", "$0.00", "$15.25",
            "$157.75", "$0.00", "$0.00", "$0.00", "$0.00", "$0.00", "$0.00",
        ]),
        payroll_cells([
            "TOTAL", "", "8", "1", "0", "$120.00", "$22.50", "$0.00", "$15.25", "$157.75",
            "$0.00", "$0.00", "$0.00", "$0.00", "$0.00", "$0.00",
        ]),
    ];
    let split = split_payroll_rows(&rows);
    assert_eq!(split.employees.len(), 1);
    assert_eq!(split.employees[0][0], "100");
    assert_eq!(split.employees[0][1], "Alice Smith");
    assert_eq!(money_text(&split.employees[0][9]).expect("not blank").number, "157.75");
    let totals = split.totals.expect("totals row should be detected");
    assert_eq!(totals[0], "TOTAL");
    assert_eq!(totals[2], "8");
    assert_eq!(totals[3], "1");
    assert_eq!(money_text(&totals[9]).expect("not blank").number, "157.75");
}

#[test]
fn till_transform_parses_fixture_rows() {
    let rows = vec![
        Json::Array(vec![s("Till 1"), s("2026-03-01 09:00"), s("Alice Smith"), s("Pay In"), s("$50.00")]),
        Json::Array(vec![s("Till 1"), s("2026-03-01 17:00"), s("Bob Stone"), s("Pay Out"), s("($10.50)")]),
    ];
    let items = till_transaction_rows(&rows);
    assert_eq!(items.len(), 2);
    assert_eq!(items[0][2], "Alice Smith");
    let m = money_text(&items[0][4]).expect("not blank");
    assert!(!m.negative);
    assert_eq!(m.number, "50.00");
    assert_eq!(items[1][2], "Bob Stone");
    let m = money_text(&items[1][4]).expect("not blank");
    assert!(m.negative);
    assert_eq!(m.number, "10.50");
}
