use skytab_cli::config::{
    Config,
    credentials_file_update, credentials_with_storage, current_config_file_path, resolution_from_file, env_credentials, get_default_location_id,
    keyring_account, keyring_backend_supported, legacy_config_file_path, keyring_outcome, legacy_file_password,
    parse_credential_store_mode, resolve_base_url, resolve_persisted_password,
    storage_after_save, store_password, with_default_location, CredentialStoreMode, FileConfig,
    KeyringOutcome, PasswordStorage, DEFAULT_BASE_URL,
};
use skytab_cli::error::SkyTabError;

fn file(username: Option<&str>, password: Option<&str>, base_url: Option<&str>) -> FileConfig {
    FileConfig {
        base_url: base_url.map(|s| s.to_string()),
        username: username.map(|s| s.to_string()),
        password: password.map(|s| s.to_string()),
        default_location_id: Some(7),
    }
}

#[test]
fn parse_credential_store_mode_defaults_to_auto() {
    assert_eq!(parse_credential_store_mode(None), CredentialStoreMode::Auto);
    assert_eq!(parse_credential_store_mode(Some("")), CredentialStoreMode::Auto);
    assert_eq!(
        parse_credential_store_mode(Some("unexpected-value")),
        CredentialStoreMode::Auto
    );
}

#[test]
fn parse_credential_store_mode_recognizes_keyring_and_config() {
    assert_eq!(
        parse_credential_store_mode(Some("keyring")),
        CredentialStoreMode::Keyring
    );
    assert_eq!(
        parse_credential_store_mode(Some("CONFIG")),
        CredentialStoreMode::Config
    );
}

#[test]
fn keyring_account_uses_base_url_and_username() {
    assert_eq!(
        keyring_account("https://example.com/", "alice@example.com"),
        "https://example.com|alice@example.com"
    );
}

#[test]
fn keyring_account_strips_every_trailing_slash_and_trims_username() {
    assert_eq!(keyring_account("https://a.test///", "  bob  "), "https://a.test|bob");
    assert_eq!(keyring_account("", ""), "|");
}

#[test]
fn mode_names_read_back_as_the_same_mode() {
    for mode in [
        CredentialStoreMode::Auto,
        CredentialStoreMode::Keyring,
        CredentialStoreMode::Config,
    ] {
        assert_eq!(parse_credential_store_mode(Some(mode.as_str())), mode);
    }
    assert_eq!(parse_credential_store_mode(Some("  Keyring\n")), CredentialStoreMode::Keyring);
}

#[test]
fn base_url_precedence_is_override_env_file_default() {
    let f = file(None, None, Some("https://file.test"));
    assert_eq!(
        resolve_base_url(Some("https://o.test".into()), Some("https://e.test".into()), Some(&f)),
        "https://o.test"
    );
    assert_eq!(resolve_base_url(None, Some("https://e.test".into()), Some(&f)), "https://e.test");
    assert_eq!(resolve_base_url(None, None, Some(&f)), "https://file.test");
    assert_eq!(resolve_base_url(None, None, None), DEFAULT_BASE_URL);
    assert_eq!(DEFAULT_BASE_URL, "https://lighthouse-api.harbortouch.com");
}

#[test]
fn env_credentials_need_both_variables() {
    match env_credentials(Some("u".into()), Some("p".into())) {
        Ok(Some((u, p))) => {
            assert_eq!(u, "u");
            assert_eq!(p, "p");
        }
        _ => panic!("both variables should give credentials"),
    }
    assert!(matches!(env_credentials(None, None), Ok(None)));
    assert!(matches!(
        env_credentials(Some("u".into()), None),
        Err(SkyTabError::PartialEnvCredentials)
    ));
    assert!(matches!(
        env_credentials(None, Some("p".into())),
        Err(SkyTabError::PartialEnvCredentials)
    ));
}

#[test]
fn default_location_prefers_a_parsable_environment_value() {
    let f = file(None, None, None);
    assert_eq!(get_default_location_id(Some("43101562"), Some(&f)), Some(43101562));
    assert_eq!(get_default_location_id(Some("-5"), Some(&f)), Some(-5));
    assert_eq!(get_default_location_id(Some("abc"), Some(&f)), Some(7));
    assert_eq!(get_default_location_id(Some(""), Some(&f)), Some(7));
    assert_eq!(get_default_location_id(None, Some(&f)), Some(7));
    assert_eq!(get_default_location_id(None, None), None);
    assert_eq!(get_default_location_id(Some("99999999999999999999"), None), None);
}

#[test]
fn storage_after_save_follows_the_mode() {
    assert_eq!(
        storage_after_save(CredentialStoreMode::Config, Err("x".into())).ok(),
        Some(PasswordStorage::ConfigFile)
    );
    assert_eq!(
        storage_after_save(CredentialStoreMode::Auto, Ok(())).ok(),
        Some(PasswordStorage::Keyring)
    );
    assert_eq!(
        storage_after_save(CredentialStoreMode::Auto, Err("locked".into())).ok(),
        Some(PasswordStorage::ConfigFile)
    );
    match storage_after_save(CredentialStoreMode::Keyring, Err("locked".into())) {
        Err(SkyTabError::CredentialStore(m)) => assert_eq!(m, "locked"),
        _ => panic!("keyring mode should fail with the keyring's error"),
    }
}

#[test]
fn store_password_in_config_mode_never_uses_the_keyring() {
    assert_eq!(
        store_password("https://a.test", "u", "p", CredentialStoreMode::Config, true).ok(),
        Some(PasswordStorage::ConfigFile)
    );
}

#[test]
fn store_password_without_backend() {
    match store_password("https://a.test", "u", "p", CredentialStoreMode::Keyring, false) {
        Err(SkyTabError::CredentialStore(m)) => {
            assert_eq!(m, "keyring backend is unavailable for this build target")
        }
        _ => panic!("keyring mode without a backend should fail"),
    }
    assert_eq!(
        store_password("https://a.test", "u", "p", CredentialStoreMode::Auto, false).ok(),
        Some(PasswordStorage::ConfigFile)
    );
}

#[test]
fn keyring_backend_platforms() {
    assert!(keyring_backend_supported("macos", ""));
    assert!(keyring_backend_supported("linux", "gnu"));
    assert!(!keyring_backend_supported("linux", "musl"));
    assert!(!keyring_backend_supported("windows", "msvc"));
}

#[test]
fn keyring_outcome_reads_lookups() {
    assert!(matches!(
        keyring_outcome(CredentialStoreMode::Auto, Ok(Some("pw".into()))),
        KeyringOutcome::Password(p) if p == "pw"
    ));
    assert!(matches!(
        keyring_outcome(CredentialStoreMode::Auto, Ok(None)),
        KeyringOutcome::Continue
    ));
    assert!(matches!(
        keyring_outcome(CredentialStoreMode::Auto, Err("e".into())),
        KeyringOutcome::Continue
    ));
    assert!(matches!(
        keyring_outcome(CredentialStoreMode::Keyring, Err("e".into())),
        KeyringOutcome::Fail(SkyTabError::CredentialStore(m)) if m == "e"
    ));
}

#[test]
fn legacy_password_must_not_be_empty() {
    assert_eq!(legacy_file_password(Some(&file(None, Some("pw"), None))), Some("pw".to_string()));
    assert_eq!(legacy_file_password(Some(&file(None, Some(""), None))), None);
    assert_eq!(legacy_file_password(None), None);
}

#[test]
fn config_mode_reads_the_password_from_the_file() {
    let f = file(Some("alice"), Some("secret"), None);
    let r = resolve_persisted_password("https://a.test", "alice", Some(&f), CredentialStoreMode::Config, true);
    assert_eq!(r.password.ok(), Some("secret".to_string()));
    assert!(r.rewrite.is_none());
    let empty = file(Some("alice"), None, None);
    let r = resolve_persisted_password("https://a.test", "alice", Some(&empty), CredentialStoreMode::Config, true);
    assert!(matches!(r.password, Err(SkyTabError::MissingCredentials)));
}

#[test]
fn keyring_mode_without_backend_is_a_store_error() {
    let f = file(Some("alice"), Some("secret"), None);
    let r = resolve_persisted_password("https://a.test", "alice", Some(&f), CredentialStoreMode::Keyring, false);
    assert!(matches!(r.password, Err(SkyTabError::CredentialStore(_))));
}

#[test]
fn auto_mode_without_backend_falls_back_to_the_file() {
    let f = file(Some("alice"), Some("secret"), None);
    let r = resolve_persisted_password("https://a.test", "alice", Some(&f), CredentialStoreMode::Auto, false);
    assert_eq!(r.password.ok(), Some("secret".to_string()));
    assert!(r.rewrite.is_none());
}

#[test]
fn environment_credentials_take_precedence() {
    let f = file(Some("file-user"), Some("file-pw"), Some("https://file.test"));
    let (config, rewrite) = Config::from_sources(
        None,
        None,
        Some("env-user".into()),
        Some("env-pw".into()),
        Some(&f),
        CredentialStoreMode::Config,
        false,
    );
    let config = config.ok().expect("environment credentials should resolve");
    assert_eq!(config.username, "env-user");
    assert_eq!(config.password, "env-pw");
    assert_eq!(config.base_url, "https://file.test");
    assert!(rewrite.is_none());
}

#[test]
fn file_credentials_and_missing_credentials() {
    let f = file(Some("file-user"), Some("file-pw"), None);
    let (config, _) = Config::from_sources(None, None, None, None, Some(&f), CredentialStoreMode::Config, false);
    let config = config.ok().expect("file credentials should resolve");
    assert_eq!(config.username, "file-user");
    assert_eq!(config.password, "file-pw");
    assert_eq!(config.base_url, DEFAULT_BASE_URL);
    let (none, _) = Config::from_sources(None, None, None, None, None, CredentialStoreMode::Config, false);
    assert!(matches!(none, Err(SkyTabError::MissingCredentials)));
    let (partial, _) = Config::from_sources(None, None, Some("u".into()), None, Some(&f), CredentialStoreMode::Config, false);
    assert!(matches!(partial, Err(SkyTabError::PartialEnvCredentials)));
}

#[test]
fn saving_credentials_in_config_mode_keeps_the_password_in_the_file() {
    let existing = file(Some("old"), None, Some("https://file.test"));
    let updated = credentials_file_update(
        existing,
        "new".into(),
        "pw".into(),
        None,
        CredentialStoreMode::Config,
        true,
    )
    .ok()
    .expect("config mode should succeed");
    assert_eq!(updated.username.as_deref(), Some("new"));
    assert_eq!(updated.password.as_deref(), Some("pw"));
    assert_eq!(updated.base_url.as_deref(), Some("https://file.test"));
    assert_eq!(updated.default_location_id, Some(7));
}

#[test]
fn default_location_can_be_set_and_cleared() {
    let f = with_default_location(file(Some("u"), None, None), Some(42));
    assert_eq!(f.default_location_id, Some(42));
    assert_eq!(f.username.as_deref(), Some("u"));
    let f = with_default_location(f, None);
    assert_eq!(f.default_location_id, None);
}

#[test]
fn config_file_paths_end_in_app_dir_and_file_name() {
    let current = current_config_file_path();
    let legacy = legacy_config_file_path();
    assert!(current.ends_with(std::path::Path::new("skytab").join("config.toml")));
    assert!(legacy.ends_with(std::path::Path::new("skytab-cli").join("config.toml")));
    assert!(!legacy.ends_with(std::path::Path::new("skytab").join("config.toml")));
}

#[test]
fn file_password_is_migrated_only_after_a_successful_save() {
    let f = FileConfig {
        base_url: Some("https://a.test".into()),
        username: Some("alice".into()),
        password: Some("secret".into()),
        default_location_id: Some(7),
    };
    let moved = resolution_from_file(Some(&f), Some(Ok(())));
    assert_eq!(moved.password.ok(), Some("secret".to_string()));
    let rewrite = moved.rewrite.expect("the file is rewritten once the keyring holds the password");
    assert_eq!(rewrite.password, None);
    assert_eq!(rewrite.username.as_deref(), Some("alice"));
    assert_eq!(rewrite.base_url.as_deref(), Some("https://a.test"));
    assert_eq!(rewrite.default_location_id, Some(7));

    let failed = resolution_from_file(Some(&f), Some(Err("locked".into())));
    assert_eq!(failed.password.ok(), Some("secret".to_string()));
    assert!(failed.rewrite.is_none());

    let untried = resolution_from_file(Some(&f), None);
    assert_eq!(untried.password.ok(), Some("secret".to_string()));
    assert!(untried.rewrite.is_none());

    let no_password = file(Some("alice"), Some(""), None);
    let r = resolution_from_file(Some(&no_password), Some(Ok(())));
    assert!(matches!(r.password, Err(SkyTabError::MissingCredentials)));
    assert!(r.rewrite.is_none());
    let r = resolution_from_file(None, None);
    assert!(matches!(r.password, Err(SkyTabError::MissingCredentials)));
}

#[test]
fn password_leaves_the_file_when_the_keyring_holds_it() {
    let in_keyring = credentials_with_storage(
        file(Some("old"), Some("old-pw"), Some("https://a.test")),
        "new".into(),
        "pw".into(),
        None,
        PasswordStorage::Keyring,
    );
    assert_eq!(in_keyring.password, None);
    assert_eq!(in_keyring.username.as_deref(), Some("new"));
    assert_eq!(in_keyring.base_url.as_deref(), Some("https://a.test"));
    assert_eq!(in_keyring.default_location_id, Some(7));
    let in_file = credentials_with_storage(
        file(Some("old"), Some("old-pw"), Some("https://a.test")),
        "new".into(),
        "pw".into(),
        Some("https://b.test".into()),
        PasswordStorage::ConfigFile,
    );
    assert_eq!(in_file.password.as_deref(), Some("pw"));
    assert_eq!(in_file.base_url.as_deref(), Some("https://b.test"));
}

#[test]
fn auto_mode_without_a_keyring_backend_keeps_the_password_in_the_file() {
    let r = store_password("https://a.test", "alice", "pw", CredentialStoreMode::Auto, false);
    assert_eq!(r.ok(), Some(PasswordStorage::ConfigFile));
}

#[test]
fn saving_credentials_without_a_keyring_backend() {
    let auto = credentials_file_update(
        file(Some("old"), None, None),
        "new".into(),
        "pw".into(),
        Some("https://b.test".into()),
        CredentialStoreMode::Auto,
        false,
    )
    .ok()
    .expect("auto mode falls back to the file");
    assert_eq!(auto.password.as_deref(), Some("pw"));
    assert_eq!(auto.base_url.as_deref(), Some("https://b.test"));
    match credentials_file_update(
        file(Some("old"), None, None),
        "new".into(),
        "pw".into(),
        None,
        CredentialStoreMode::Keyring,
        false,
    ) {
        Err(SkyTabError::CredentialStore(m)) => {
            assert_eq!(m, "keyring backend is unavailable for this build target")
        }
        _ => panic!("keyring mode without a backend must fail"),
    }
}

#[test]
fn keyring_mode_without_backend_relays_the_unavailable_error() {
    let f = file(Some("alice"), Some("secret"), None);
    let (config, rewrite) =
        Config::from_sources(None, None, None, None, Some(&f), CredentialStoreMode::Keyring, false);
    match config {
        Err(SkyTabError::CredentialStore(m)) => {
            assert_eq!(m, "keyring backend is unavailable for this build target")
        }
        _ => panic!("keyring mode without a backend must fail"),
    }
    assert!(rewrite.is_none());
    let (config, rewrite) =
        Config::from_sources(None, None, None, None, Some(&f), CredentialStoreMode::Auto, false);
    assert_eq!(config.ok().map(|c| c.password), Some("secret".to_string()));
    assert!(rewrite.is_none());
}
