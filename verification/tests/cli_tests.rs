use skytab_cli::cli::{check_request_allowed, HttpMethod};
use skytab_cli::error::SkyTabError;

#[test]
fn get_requests_need_no_write_flag() {
    assert!(check_request_allowed(HttpMethod::Get, false).is_ok());
    assert!(check_request_allowed(HttpMethod::Get, true).is_ok());
}

#[test]
fn mutating_requests_are_blocked_without_allow_write() {
    for method in [HttpMethod::Post, HttpMethod::Put, HttpMethod::Patch, HttpMethod::Delete] {
        match check_request_allowed(method, false) {
            Err(SkyTabError::InvalidArgument(m)) => assert_eq!(
                m,
                "mutating request methods (post, put, patch, delete) require --allow-write"
            ),
            _ => panic!("a mutating request without --allow-write must be refused"),
        }
        assert!(check_request_allowed(method, true).is_ok());
    }
}
