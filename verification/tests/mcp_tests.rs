use skytab_cli::client::map_auth_resolution_error;
use skytab_cli::config::env_credentials;
use skytab_cli::error::SkyTabError;
use skytab_cli::json::{to_compact_string, Json};
use skytab_cli::mcp::{map_tool_error, read_only_tool_names};
use skytab_cli::read_api::{check_request_path, check_timeclock_limit};

fn member<'a>(j: &'a Json, key: &str) -> Option<&'a Json> {
    match j {
        Json::Object(m) => m.iter().find(|(k, _)| k == key).map(|(_, v)| v),
        _ => None,
    }
}

fn text<'a>(j: &'a Json, key: &str) -> &'a str {
    match member(j, key) {
        Some(Json::Str(s)) => s.as_str(),
        _ => panic!("expected text member {key}"),
    }
}

#[test]
fn request_get_returns_structured_error_for_invalid_path() {
    let err = check_request_path("api/v2/locations").err().expect("relative path should fail");
    let structured = map_tool_error(err);
    assert_eq!(text(&structured, "kind"), "invalid_argument");
    assert_eq!(text(&structured, "message"), "path must start with '/'");
}

#[test]
fn timeclock_shifts_returns_structured_error_for_zero_limit() {
    let err = check_timeclock_limit(0).err().expect("zero limit should fail");
    let structured = map_tool_error(err);
    assert_eq!(text(&structured, "kind"), "invalid_argument");
    assert_eq!(text(&structured, "message"), "limit must be greater than zero");
}

#[test]
fn auth_login_partial_env_error_is_contextual_and_compatible() {
    let err = env_credentials(Some("partial@example.com".to_string()), None)
        .err()
        .expect("partial environment should fail");
    let structured = map_tool_error(map_auth_resolution_error(err));
    assert_eq!(text(&structured, "kind"), "partial_env_credentials");
    assert_eq!(
        text(&structured, "message"),
        "cached auth token is missing or expired and env credentials are incomplete; set both SKYTAB_USERNAME and SKYTAB_PASSWORD"
    );
}

#[test]
fn api_errors_say_whether_they_can_be_retried() {
    let e = map_tool_error(SkyTabError::Api { status: 503, body: "down".into() });
    assert_eq!(
        to_compact_string(&e),
        "{\"kind\":\"api_error\",\"message\":\"SkyTab API request failed\",\"retryable\":true,\"status\":503}"
    );
    let e = map_tool_error(SkyTabError::Api { status: 404, body: String::new() });
    assert!(matches!(member(&e, "retryable"), Some(Json::Bool(false))));
    assert_eq!(to_compact_string(member(&e, "status").unwrap()), "404");
}

#[test]
fn every_error_has_a_kind_and_message() {
    let cases = vec![
        (SkyTabError::MissingCredentials, "missing_credentials"),
        (SkyTabError::MissingCredentialsForAuthRefresh, "missing_credentials"),
        (SkyTabError::PartialEnvCredentials, "partial_env_credentials"),
        (SkyTabError::CredentialStore("x".into()), "credential_store_error"),
        (SkyTabError::CredentialStoreForAuthRefresh("x".into()), "credential_store_error"),
        (SkyTabError::Io("x".into()), "io_error"),
        (SkyTabError::Http("x".into()), "http_error"),
        (SkyTabError::Json("x".into()), "json_error"),
        (SkyTabError::TomlDe("x".into()), "toml_decode_error"),
        (SkyTabError::TomlSer("x".into()), "toml_encode_error"),
    ];
    for (err, kind) in cases {
        let j = map_tool_error(err);
        assert_eq!(text(&j, "kind"), kind);
        assert!(!text(&j, "message").is_empty());
    }
    let j = map_tool_error(SkyTabError::CredentialStoreForAuthRefresh("locked".into()));
    assert_eq!(
        text(&j, "message"),
        "cached auth token is missing or expired and credential store lookup failed: locked"
    );
}

#[test]
fn read_only_tool_catalogue() {
    let names = read_only_tool_names();
    assert_eq!(names.len(), 20);
    assert_eq!(names[0], "skytab.accounts.preferences");
    assert_eq!(names[18], "skytab.request.get");
    let mut sorted = names.clone();
    sorted.sort();
    assert_eq!(sorted, names);
    assert!(names.iter().all(|n| n.starts_with("skytab.")));
}
