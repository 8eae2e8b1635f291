use skytab_cli::error::SkyTabError;
use skytab_cli::json::Json;
use skytab_cli::read_api::{
    check_request_path, check_timeclock_limit, choose_locations, choose_single_location,
    date_only_to_utc_boundary, default_location_response, first_string_at_paths,
    is_date_only, is_settled_status, normalize_bucket_key, normalize_range_with_timezone,
    parse_query, range_needs_timezone, redact_username, shared_timezone, sole_location_id,
    account_preferences_path, Location, ReadApi,
};

fn s(t: &str) -> Json {
    Json::Str(t.to_string())
}

fn obj(members: Vec<(&str, Json)>) -> Json {
    Json::Object(members.into_iter().map(|(k, v)| (k.to_string(), v)).collect())
}

fn loc(id: i64, tz: Option<&str>) -> Location {
    Location {
        id,
        name: format!("loc-{id}"),
        timezone: tz.map(|t| t.to_string()),
        merchant_id: None,
    }
}

fn invalid_message(err: SkyTabError) -> String {
    match err {
        SkyTabError::InvalidArgument(message) => message,
        other => panic!("unexpected error: {}", other.message()),
    }
}

#[test]
fn parse_query_accepts_key_value_pairs() {
    let parts = vec!["a=1".to_string(), "b=two".to_string()];
    let parsed = parse_query(&parts).ok().expect("query should parse");
    assert_eq!(
        parsed,
        vec![
            ("a".to_string(), "1".to_string()),
            ("b".to_string(), "two".to_string())
        ]
    );
}

#[test]
fn parse_query_rejects_invalid_values() {
    let parts = vec!["missing_equals".to_string()];
    let err = parse_query(&parts).err().expect("invalid query should fail");
    match err {
        SkyTabError::InvalidArgument(message) => {
            assert!(message.contains("invalid --query value"));
        }
        other => panic!("unexpected error: {}", other.message()),
    }
}

#[test]
fn parse_query_splits_at_the_first_equals_sign() {
    let parts = vec!["filter=a=b".to_string(), "empty=".to_string(), "=v".to_string()];
    let parsed = parse_query(&parts).ok().expect("query should parse");
    assert_eq!(parsed[0], ("filter".to_string(), "a=b".to_string()));
    assert_eq!(parsed[1], ("empty".to_string(), "".to_string()));
    assert_eq!(parsed[2], ("".to_string(), "v".to_string()));
    for (part, (k, v)) in parts.iter().zip(parsed.iter()) {
        assert_eq!(&format!("{k}={v}"), part);
        assert!(!k.contains('='));
    }
    let bad = vec!["ok=1".to_string(), "nope".to_string()];
    assert_eq!(
        invalid_message(parse_query(&bad).err().unwrap()),
        "invalid --query value 'nope', expected key=value"
    );
    assert_eq!(parse_query(&Vec::new()).ok(), Some(Vec::new()));
}

#[test]
fn detects_date_only_values() {
    assert!(is_date_only("2026-03-28"));
    assert!(!is_date_only("2026-03-28T00:00:00Z"));
    assert!(!is_date_only("20260328"));
}

#[test]
fn date_only_needs_digits_and_dashes_in_place() {
    assert!(is_date_only("0000-00-00"));
    assert!(!is_date_only("2026/03/28"));
    assert!(!is_date_only("2026-3-28x"));
    assert!(!is_date_only("２０２６-03-28"));
    assert!(range_needs_timezone("2026-03-01", "2026-03-01T10:00:00Z"));
    assert!(!range_needs_timezone("2026-03-01T00:00:00Z", "2026-03-01T10:00:00Z"));
}

#[test]
fn request_get_requires_absolute_path() {
    let err = check_request_path("api/v2/locations").err().expect("relative path should fail");
    match err {
        SkyTabError::InvalidArgument(message) => {
            assert!(message.contains("path must start"));
        }
        other => panic!("unexpected error: {}", other.message()),
    }
    assert!(check_request_path("/api/v2/locations").is_ok());
    assert!(check_request_path("").is_err());
}

#[test]
fn timeclock_shifts_rejects_zero_limit() {
    let err = check_timeclock_limit(0).err().expect("zero limit should fail");
    match err {
        SkyTabError::InvalidArgument(message) => {
            assert!(message.contains("greater than zero"));
        }
        other => panic!("unexpected error: {}", other.message()),
    }
    assert!(check_timeclock_limit(1).is_ok());
}

#[test]
fn redaction_keeps_first_letter_and_domain() {
    assert_eq!(redact_username("alice@example.com"), "a***@example.com");
    assert_eq!(redact_username("@example.com"), "***@example.com");
    assert_eq!(redact_username("alice"), "***");
    assert_eq!(redact_username("é@x@y"), "é***@x@y");
}

#[test]
fn bucket_keys_are_trimmed_uppercase_with_fallback() {
    assert_eq!(normalize_bucket_key(Some("  visa "), "UNKNOWN"), "VISA");
    assert_eq!(normalize_bucket_key(Some("   "), "UNKNOWN"), "UNKNOWN");
    assert_eq!(normalize_bucket_key(None, "UNKNOWN"), "UNKNOWN");
    assert_eq!(normalize_bucket_key(Some("déjà"), "X"), "DéJà");
}

#[test]
fn settled_statuses() {
    for status in ["SETTLED", " captured ", "Succeeded", "success", "paid"] {
        assert!(is_settled_status(Some(status)), "{status}");
    }
    assert!(!is_settled_status(Some("PENDING")));
    assert!(!is_settled_status(Some("")));
    assert!(!is_settled_status(None));
}

#[test]
fn first_string_takes_the_first_non_blank_text() {
    let v = obj(vec![
        ("status", s("  ")),
        ("state", Json::Number("3".into())),
        ("payment", obj(vec![("status", s(" ok "))])),
    ]);
    assert_eq!(
        first_string_at_paths(&v, &["status", "state", "payment.status"]),
        Some("ok".to_string())
    );
    assert_eq!(first_string_at_paths(&v, &["status", "nope"]), None);
    assert_eq!(first_string_at_paths(&v, &[]), None);
}

#[test]
fn shared_timezone_of_locations() {
    let locations = vec![
        loc(1, Some("America/New_York")),
        loc(2, Some("America/New_York")),
        loc(3, Some("America/Chicago")),
        loc(4, None),
    ];
    assert_eq!(shared_timezone(&locations, &vec![1, 2]).ok(), Some("America/New_York".into()));
    assert_eq!(
        invalid_message(shared_timezone(&locations, &vec![3, 1, 2]).err().unwrap()),
        "date-only ranges across multiple timezones are ambiguous (America/Chicago, America/New_York); use RFC3339 timestamps instead"
    );
    assert_eq!(
        invalid_message(shared_timezone(&locations, &vec![1, 9]).err().unwrap()),
        "location 9 is not available for this account"
    );
    assert_eq!(
        invalid_message(shared_timezone(&locations, &vec![4]).err().unwrap()),
        "location 4 is missing timezone in SkyTab response"
    );
    assert_eq!(
        invalid_message(shared_timezone(&locations, &vec![]).err().unwrap()),
        "at least one location is required"
    );
}

#[test]
fn location_fallbacks() {
    assert_eq!(choose_single_location(Some(1), Some(2), Some(3)).ok(), Some(1));
    assert_eq!(choose_single_location(None, Some(2), Some(3)).ok(), Some(2));
    assert_eq!(choose_single_location(None, None, Some(3)).ok(), Some(3));
    assert!(invalid_message(choose_single_location(None, None, None).err().unwrap())
        .starts_with("location is required"));
    assert_eq!(choose_locations(vec![5, 6], Some(2), None).ok(), Some(vec![5, 6]));
    assert_eq!(choose_locations(vec![], Some(2), Some(3)).ok(), Some(vec![2]));
    assert_eq!(choose_locations(vec![], None, Some(3)).ok(), Some(vec![3]));
    assert!(invalid_message(choose_locations(vec![], None, None).err().unwrap())
        .starts_with("at least one location is required"));
    assert_eq!(sole_location_id(&vec![loc(8, None)]), Some(8));
    assert_eq!(sole_location_id(&vec![loc(8, None), loc(9, None)]), None);
    assert_eq!(sole_location_id(&vec![]), None);
}

#[test]
fn day_boundaries_in_a_time_zone() {
    assert_eq!(
        date_only_to_utc_boundary("2026-03-01", "America/New_York", true).ok(),
        Some("2026-03-01T05:00:00Z".to_string())
    );
    assert_eq!(
        date_only_to_utc_boundary("2026-03-01", "America/New_York", false).ok(),
        Some("2026-03-02T04:59:59Z".to_string())
    );
    assert_eq!(
        invalid_message(date_only_to_utc_boundary("2026-02-30", "UTC", true).err().unwrap()),
        "invalid date format: 2026-02-30"
    );
    assert_eq!(
        invalid_message(date_only_to_utc_boundary("2026-03-01", "Mars/Base", true).err().unwrap()),
        "invalid timezone: Mars/Base"
    );
}

#[test]
fn ranges_keep_timestamps_and_expand_dates() {
    let (start, end) =
        normalize_range_with_timezone("2026-03-01", "2026-03-01T12:00:00Z", "UTC").ok().unwrap();
    assert_eq!(start, "2026-03-01T00:00:00Z");
    assert_eq!(end, "2026-03-01T12:00:00Z");
    let (start, end) =
        normalize_range_with_timezone("2026-03-01T01:00:00Z", "2026-03-02", "UTC").ok().unwrap();
    assert_eq!(start, "2026-03-01T01:00:00Z");
    assert_eq!(end, "2026-03-02T23:59:59Z");
}

#[test]
fn small_constructors() {
    let api = ReadApi::new(Some("https://x.test".into()));
    assert_eq!(api.base_url.as_deref(), Some("https://x.test"));
    let d = default_location_response(Some(3));
    assert!(d.configured);
    assert_eq!(d.default_location_id, Some(3));
    assert!(!default_location_response(None).configured);
    assert_eq!(account_preferences_path("123"), "/api/v1/accounts/123/preferences");
}
