use skytab_cli::display::{
    pad_left, shift_shows_open, timeclock_human_line,
    default_log_filter, ensure_location_available, entered_password, pad_right,
    set_credentials_password_source, short_id, truncate_ellipsis, truncate_to, PasswordSource,
};
use skytab_cli::error::SkyTabError;
use skytab_cli::read_api::Location;

#[test]
fn truncation() {
    assert_eq!(truncate_to("short", 10), "short");
    assert_eq!(truncate_to("exactly10!", 10), "exactly10!");
    assert_eq!(truncate_to("this is too long", 10), "this is...");
    assert_eq!(truncate_to("abcdef", 2), "...");
    assert_eq!(truncate_to("ééééé", 4), "é...");
    assert_eq!(short_id("0123456789abcdef"), "01234567");
    assert_eq!(short_id("abc"), "abc");
    assert_eq!(truncate_ellipsis("a name that is far too long to show"), "a name that is far ...");
    assert_eq!(truncate_ellipsis("fits in twenty-two ch"), "fits in twenty-two ch");
}

#[test]
fn padding() {
    assert_eq!(pad_right("ok", 5), "ok   ");
    assert_eq!(pad_right("toolong", 3), "toolong");
    assert_eq!(format!("{:<22}", "é"), pad_right("é", 22));
}

#[test]
fn set_credentials_password_choices() {
    match set_credentials_password_source(Some("pw".into()), true) {
        Err(SkyTabError::InvalidArgument(m)) => {
            assert_eq!(m, "use either --password or --prompt-password, not both")
        }
        _ => panic!("both flags must be refused"),
    }
    assert!(matches!(
        set_credentials_password_source(Some("pw".into()), false),
        Ok(PasswordSource::Given(p)) if p == "pw"
    ));
    assert!(matches!(set_credentials_password_source(None, true), Ok(PasswordSource::Prompt)));
    assert!(matches!(set_credentials_password_source(None, false), Ok(PasswordSource::Prompt)));
    assert!(matches!(entered_password(String::new()), Err(SkyTabError::InvalidArgument(m)) if m == "password cannot be empty"));
    assert_eq!(entered_password("x".into()).ok(), Some("x".to_string()));
}

#[test]
fn default_location_must_belong_to_the_account() {
    let locations = vec![Location { id: 5, name: "A".into(), timezone: None, merchant_id: None }];
    assert!(ensure_location_available(&locations, 5).is_ok());
    match ensure_location_available(&locations, 6) {
        Err(SkyTabError::InvalidArgument(m)) => {
            assert_eq!(m, "location 6 is not available for this account")
        }
        _ => panic!("unknown location must be refused"),
    }
}

#[test]
fn log_filters() {
    assert_eq!(default_log_filter(0), "warn");
    assert_eq!(default_log_filter(1), "info");
    assert_eq!(default_log_filter(2), "debug");
    assert_eq!(default_log_filter(9), "debug");
}

fn shift(members: Vec<(&str, skytab_cli::json::Json)>) -> skytab_cli::json::Json {
    skytab_cli::json::Json::Object(members.into_iter().map(|(k, v)| (k.to_string(), v)).collect())
}

fn text(t: &str) -> skytab_cli::json::Json {
    skytab_cli::json::Json::Str(t.to_string())
}

#[test]
fn timeclock_table_lines_match_the_column_layout() {
    let closed = shift(vec![
        ("guid", text("0123456789abc")),
        ("employee", shift(vec![("name", text("Alice"))])),
        ("clockedInAt", text("2026-03-01T09:00:00+01:00")),
        ("clockedOutAt", text("2026-03-01T17:30:00Z")),
        ("payRate", text("15.00")),
        ("job", shift(vec![("name", text("Server"))])),
    ]);
    assert_eq!(
        timeclock_human_line(&closed, "8.50"),
        format!(
            "{:<10} {:<18} {:<17} {:<17} {:>7} {:>8} {:<22} {:<6}",
            "01234567", "Alice", "2026-03-01 08:00", "2026-03-01 17:30", "8.50", "$15.00", "Server", "CLOSED"
        )
    );
    assert!(!shift_shows_open(&closed));
    let open = shift(vec![("clockedInAt", text("not a time")), ("clockedOutAt", text(""))]);
    assert_eq!(
        timeclock_human_line(&open, "0.00"),
        format!(
            "{:<10} {:<18} {:<17} {:<17} {:>7} {:>8} {:<22} {:<6}",
            "-", "-", "-", "-", "0.00", "-", "-", "OPEN"
        )
    );
    assert!(shift_shows_open(&open));
    assert_eq!(pad_left("7", 3), "  7");
    assert_eq!(pad_left("1234", 3), "1234");
}
