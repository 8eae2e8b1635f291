use skytab_cli::client::{
    auth_payload, auth_token, authed_step, is_retryable_status, is_unauthorized,
    map_auth_resolution_error, request_url, response_action, token_after_unauthorized,
    AuthedPhase, AuthedStep, ResponseAction,
};
use skytab_cli::error::SkyTabError;
use skytab_cli::json::{to_compact_string, Json};

#[test]
fn auth_resolution_errors_are_contextualized_for_refresh() {
    assert!(matches!(
        map_auth_resolution_error(SkyTabError::MissingCredentials),
        SkyTabError::MissingCredentialsForAuthRefresh
    ));
    assert!(matches!(
        map_auth_resolution_error(SkyTabError::PartialEnvCredentials),
        SkyTabError::PartialEnvCredentialsForAuthRefresh
    ));
    assert!(matches!(
        map_auth_resolution_error(SkyTabError::CredentialStore("locked".to_string())),
        SkyTabError::CredentialStoreForAuthRefresh(message) if message == "locked"
    ));
}

#[test]
fn other_errors_pass_through_and_mapping_is_idempotent() {
    assert!(matches!(
        map_auth_resolution_error(SkyTabError::InvalidArgument("x".into())),
        SkyTabError::InvalidArgument(m) if m == "x"
    ));
    let once = map_auth_resolution_error(SkyTabError::MissingCredentials);
    assert!(matches!(
        map_auth_resolution_error(once),
        SkyTabError::MissingCredentialsForAuthRefresh
    ));
}

#[test]
fn urls_join_base_and_path() {
    assert_eq!(request_url("https://a.test/", "/api/v2/locations"), "https://a.test/api/v2/locations");
    assert_eq!(request_url("https://a.test", "/x"), "https://a.test/x");
    assert_eq!(request_url("https://a.test//", "/x"), "https://a.test/x");
}

#[test]
fn retry_schedule() {
    assert!(matches!(response_action(200, 0), ResponseAction::Accept));
    assert!(matches!(response_action(204, 5), ResponseAction::Accept));
    let delays: Vec<u64> = (0..5)
        .map(|a| match response_action(503, a) {
            ResponseAction::RetryAfter(d) => d,
            _ => panic!("503 should be retried at attempt {a}"),
        })
        .collect();
    assert_eq!(delays, vec![500, 1000, 2000, 4000, 8000]);
    assert!(matches!(response_action(503, 5), ResponseAction::Fail));
    assert!(matches!(response_action(429, 0), ResponseAction::RetryAfter(500)));
    assert!(matches!(response_action(404, 0), ResponseAction::Fail));
    assert!(matches!(response_action(401, 0), ResponseAction::Fail));
    assert!(is_retryable_status(599) && !is_retryable_status(600) && !is_retryable_status(499));
}

#[test]
fn login_body_and_answer() {
    assert_eq!(
        to_compact_string(&auth_payload("a@b.c".into(), "p\"w".into())),
        "{\"email\":\"a@b.c\",\"password\":\"p\\\"w\"}"
    );
    let answer = Json::Object(vec![("token".to_string(), Json::Str("tok".to_string()))]);
    assert_eq!(auth_token(&answer).ok(), Some("tok".to_string()));
    let bad = Json::Object(vec![("token".to_string(), Json::Number("1".to_string()))]);
    match auth_token(&bad) {
        Err(SkyTabError::InvalidArgument(m)) => assert_eq!(m, "missing token in auth response"),
        _ => panic!("a token must be a string"),
    }
    assert!(auth_token(&Json::Null).is_err());
}

#[test]
fn unauthorized_answers_refresh_once() {
    let unauthorized: Result<(), SkyTabError> = Err(SkyTabError::Api { status: 401, body: String::new() });
    let other: Result<(), SkyTabError> = Err(SkyTabError::Api { status: 500, body: String::new() });
    let ok: Result<(), SkyTabError> = Ok(());
    assert!(is_unauthorized(unauthorized.as_ref().err().unwrap()));
    assert!(matches!(authed_step(AuthedPhase::First, &unauthorized), AuthedStep::RefreshAndRetry));
    assert!(matches!(authed_step(AuthedPhase::AfterRefresh, &unauthorized), AuthedStep::Finish));
    assert!(matches!(authed_step(AuthedPhase::First, &other), AuthedStep::Finish));
    assert!(matches!(authed_step(AuthedPhase::First, &ok), AuthedStep::Finish));
}

#[test]
fn unauthorized_retry_reuses_newer_cached_token() {
    assert_eq!(
        token_after_unauthorized(Some("new-token".to_string()), "old-token"),
        Some("new-token".to_string())
    );
    assert_eq!(token_after_unauthorized(Some("old-token".to_string()), "old-token"), None);
    assert_eq!(token_after_unauthorized(None, "old-token"), None);
}
