use skytab_cli::config::CredentialStorageDiagnostics;
use skytab_cli::display::doctor_report_text;
use skytab_cli::doctor::{doctor_report_from, CacheStatus, CredentialsCheck, DoctorInputs};

fn diagnostics(mode: &str, accessible: bool, keyring_pw: bool, config_pw: bool) -> CredentialStorageDiagnostics {
    CredentialStorageDiagnostics {
        mode: mode.to_string(),
        keyring_supported: true,
        keyring_accessible: accessible,
        keyring_password_present: keyring_pw,
        config_password_present: config_pw,
        username_present: true,
    }
}

fn inputs(credentials: CredentialsCheck) -> DoctorInputs {
    DoctorInputs {
        env_username_set: true,
        env_password_set: true,
        config_path: "/c/skytab/config.toml".into(),
        config_exists: true,
        legacy_config_path: "/c/skytab-cli/config.toml".into(),
        legacy_config_exists: false,
        diagnostics: diagnostics("auto", true, false, false),
        default_location: Some(43101562),
        cache_path: "/k/skytab/token.json".into(),
        cache_exists: false,
        legacy_cache_path: "/k/skytab-cli/token.json".into(),
        legacy_cache_exists: false,
        cache_status: CacheStatus::NoValidToken,
        credentials,
    }
}

#[test]
fn healthy_setup_passes_every_check() {
    let report = doctor_report_from(&inputs(CredentialsCheck::Resolved {
        username: "alice@example.com".into(),
        base_url: "https://a.test".into(),
        auth_error: None,
    }));
    assert!(report.ok);
    let names: Vec<&str> = report.checks.iter().map(|c| c.name.as_str()).collect();
    assert_eq!(
        names,
        vec![
            "config_file",
            "env_credentials",
            "credential_store",
            "default_location",
            "token_cache",
            "credentials_resolution",
            "auth"
        ]
    );
    assert_eq!(
        report.checks[0].detail,
        "current=/c/skytab/config.toml (exists) legacy=/c/skytab-cli/config.toml (missing)"
    );
    assert_eq!(
        report.checks[1].detail,
        "SKYTAB_USERNAME=set SKYTAB_PASSWORD=set (partial_env=no persisted_credentials=missing)"
    );
    assert_eq!(
        report.checks[2].detail,
        "mode=auto keyring_supported=true keyring_accessible=true keyring_password_present=false config_password_present=false"
    );
    assert_eq!(report.checks[3].detail, "43101562");
    assert_eq!(
        report.checks[4].detail,
        "no valid cached token; current=/k/skytab/token.json (missing) legacy=/k/skytab-cli/token.json (missing)"
    );
    assert_eq!(
        report.checks[5].detail,
        "resolved username=a***@example.com base_url=https://a.test"
    );
    assert_eq!(report.checks[6].detail, "authentication succeeded");
    let text = doctor_report_text(&report);
    assert!(text.starts_with("Doctor: OK\n[OK] config_file            current="));
    assert_eq!(text.lines().count(), 8);
}

#[test]
fn any_failing_check_fails_the_report() {
    let mut i = inputs(CredentialsCheck::Unresolved("missing SKYTAB_USERNAME or SKYTAB_PASSWORD".into()));
    i.env_password_set = false;
    i.diagnostics = diagnostics("keyring", false, false, true);
    i.cache_status = CacheStatus::Error("bad json".into());
    i.default_location = None;
    let report = doctor_report_from(&i);
    assert!(!report.ok);
    assert!(!report.checks[1].ok);
    assert_eq!(
        report.checks[1].detail,
        "SKYTAB_USERNAME=set SKYTAB_PASSWORD=missing (partial_env=yes persisted_credentials=available)"
    );
    assert!(!report.checks[2].ok);
    assert_eq!(report.checks[3].detail, "not set");
    assert!(!report.checks[4].ok);
    assert!(report.checks[4].detail.starts_with("error reading cache: bad json; "));
    assert_eq!(
        report.checks[5].detail,
        "unable to resolve credentials: missing SKYTAB_USERNAME or SKYTAB_PASSWORD"
    );
    assert_eq!(report.checks[6].detail, "skipped auth because credentials are unresolved");
    let text = doctor_report_text(&report);
    assert!(text.starts_with("Doctor: ISSUES FOUND\n"));
    assert!(text.contains("[FAIL] auth                   skipped auth"));
}

#[test]
fn failed_login_alone_fails_the_report() {
    let report = doctor_report_from(&inputs(CredentialsCheck::Resolved {
        username: "bob".into(),
        base_url: "https://a.test".into(),
        auth_error: Some("api error 401: nope".into()),
    }));
    assert!(!report.ok);
    assert_eq!(report.checks.iter().filter(|c| !c.ok).count(), 1);
    assert_eq!(report.checks[6].detail, "authentication failed: api error 401: nope");
    assert_eq!(report.checks[5].detail, "resolved username=*** base_url=https://a.test");
}
