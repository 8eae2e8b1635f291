use skytab_cli::json::{to_compact_string, Json};
use skytab_cli::requests::{
    build_activity_summary_payload, build_report_payload, next_page_offset, timeclock_filter_text,
    timeclock_query, transactions_body, transactions_query, TRANSACTIONS_PAGE_SIZE,
};

fn reserialized(text: &str) -> String {
    let v: serde_json::Value = serde_json::from_str(text).expect("valid JSON");
    serde_json::to_string(&v).unwrap()
}

#[test]
fn report_payload_shape() {
    let p = build_report_payload("2026-03-01".into(), "2026-03-02".into(), vec![43101562, -1]);
    let text = to_compact_string(&p);
    assert_eq!(
        text,
        "{\"end\":\"2026-03-02\",\"intradayPeriodGroupGuids\":[],\"locale\":\"en-US\",\"locations\":[43101562,-1],\"revenueCenterGuids\":[],\"start\":\"2026-03-01\"}"
    );
    assert_eq!(reserialized(&text), text);
}

#[test]
fn activity_payload_sends_the_location_as_text() {
    let p = build_activity_summary_payload("s".into(), "e".into(), 7);
    assert_eq!(
        to_compact_string(&p),
        "{\"end\":\"e\",\"intradayPeriodGroupGuids\":[],\"locale\":\"en-US\",\"locations\":[\"7\"],\"revenueCenterGuids\":[],\"start\":\"s\"}"
    );
}

#[test]
fn timeclock_filter_is_serde_compact_json() {
    let f = timeclock_filter_text(42, "2026-03-01T00:00:00Z", "2026-03-01T23:59:59Z");
    assert_eq!(reserialized(&f), f);
    assert_eq!(
        f,
        "{\"$or\":[{\"$and\":[{\"clockedInAt\":{\"$gte\":\"2026-03-01T00:00:00Z\"}},{\"clockedInAt\":{\"$lte\":\"2026-03-01T23:59:59Z\"}}]},{\"$and\":[{\"clockedOutAt\":{\"$gte\":\"2026-03-01T00:00:00Z\"}},{\"clockedOutAt\":{\"$lte\":\"2026-03-01T23:59:59Z\"}}]}],\"isTracked\":{\"$eq\":true},\"locationId\":{\"$eq\":42},\"voided\":{\"$eq\":false}}"
    );
}

#[test]
fn timeclock_and_transaction_queries() {
    let q = timeclock_query(1, "a", "b", "clockedInAt asc", 100, 200);
    assert_eq!(q[0].0, "filter");
    assert_eq!(q[1], ("limit".to_string(), "100".to_string()));
    assert_eq!(q[2], ("offset".to_string(), "200".to_string()));
    assert_eq!(q[3], ("order".to_string(), "clockedInAt asc".to_string()));
    let q = transactions_query(400, "s", "e", Some("SALE"));
    let expected: Vec<(String, String)> = vec![
        ("limit", "200"),
        ("offset", "400"),
        ("start", "s"),
        ("end", "e"),
        ("searchTerm", ""),
        ("sortBy", "date"),
        ("sortDir", "DESC"),
        ("type[]", "SALE"),
    ]
    .into_iter()
    .map(|(k, v)| (k.to_string(), v.to_string()))
    .collect();
    assert_eq!(q, expected);
    assert_eq!(transactions_query(0, "s", "e", None).len(), 7);
    assert_eq!(TRANSACTIONS_PAGE_SIZE, 200);
    assert_eq!(to_compact_string(&transactions_body(&vec![1, 2])), "{\"locationIds\":[1,2]}");
    assert!(matches!(transactions_body(&vec![]), Json::Object(_)));
}

#[test]
fn paging_stops_at_the_reported_count() {
    assert_eq!(next_page_offset(100, 250, 0, 100), Some(100));
    assert_eq!(next_page_offset(200, 250, 100, 100), Some(200));
    assert_eq!(next_page_offset(250, 250, 200, 100), None);
    assert_eq!(next_page_offset(300, 250, 200, 100), None);
}
