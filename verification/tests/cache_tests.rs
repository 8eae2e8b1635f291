use skytab_cli::paths::located_path;
use skytab_cli::cache::{token_expiry, unexpired_token, TokenCache, TOKEN_TTL_HOURS};
use std::path::PathBuf;

#[test]
fn cache_keeps_its_path_and_lifetime() {
    let cache = TokenCache::with_path(PathBuf::from("/tmp/skytab-test/token.json"), 3);
    assert_eq!(cache.path(), PathBuf::from("/tmp/skytab-test/token.json"));
    assert_eq!(cache.ttl_hours(), 3);
    let default = TokenCache::new();
    assert_eq!(default.ttl_hours(), 24);
    assert_eq!(TOKEN_TTL_HOURS, 24);
    assert!(default.path().ends_with("skytab/token.json"));
    assert!(TokenCache::legacy_path().ends_with("skytab-cli/token.json"));
}

#[test]
fn tokens_expire_at_their_deadline() {
    assert_eq!(unexpired_token("t".into(), (100, 0), (99, 999)), Some("t".to_string()));
    assert_eq!(unexpired_token("t".into(), (100, 5), (100, 4)), Some("t".to_string()));
    assert_eq!(unexpired_token("t".into(), (100, 5), (100, 5)), None);
    assert_eq!(unexpired_token("t".into(), (99, 0), (100, 0)), None);
}

#[test]
fn token_expiry_adds_the_lifetime_in_hours() {
    assert_eq!(token_expiry((1_000, 42), 24), (1_000 + 86_400, 42));
    assert_eq!(token_expiry((1_000, 0), 0), (1_000, 0));
    assert_eq!(token_expiry((-7_200, 9), 2), (0, 9));
}

#[test]
fn saved_token_is_valid_until_its_lifetime_ends() {
    let saved = (1_700_000_000, 500);
    let expiry = token_expiry(saved, TOKEN_TTL_HOURS);
    assert_eq!(unexpired_token("t".into(), expiry, saved), Some("t".to_string()));
    assert_eq!(
        unexpired_token("t".into(), expiry, (saved.0 + 86_399, 999_999_999)),
        Some("t".to_string())
    );
    assert_eq!(unexpired_token("t".into(), expiry, (saved.0 + 86_400, 499)), Some("t".to_string()));
    assert_eq!(unexpired_token("t".into(), expiry, (saved.0 + 86_400, 500)), None);
    assert_eq!(unexpired_token("t".into(), expiry, (saved.0 + 90_000, 0)), None);
}

#[test]
fn located_path_falls_back_to_the_relative_directory() {
    assert_eq!(
        located_path(None, ".cache", "skytab", "token.json"),
        PathBuf::from(".cache").join("skytab").join("token.json")
    );
    assert_eq!(
        located_path(Some(PathBuf::from("/home/u/.cache")), ".cache", "skytab", "token.json"),
        PathBuf::from("/home/u/.cache/skytab/token.json")
    );
}
