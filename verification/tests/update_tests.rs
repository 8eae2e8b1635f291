use skytab_cli::error::SkyTabError;
use skytab_cli::update::{
    archive_asset_name, checksums_url, compare_versions, confirmation_accepted,
    confirmation_prompt, current_version_tag, is_update_available, latest_release_url,
    normalize_tag, parse_checksum_line, release_download_url, report_installed,
    report_without_install, strip_v_prefix, target_triple_for, update_step,
    verify_archive_checksum, Precedence, UpdateStep,
};

#[test]
fn normalize_tag_adds_prefix() {
    assert_eq!(normalize_tag("0.1.2"), "v0.1.2");
    assert_eq!(normalize_tag("v0.1.2"), "v0.1.2");
}

#[test]
fn normalize_tag_trims_and_is_idempotent() {
    assert_eq!(normalize_tag("  1.2.3\n"), "v1.2.3");
    assert_eq!(normalize_tag(""), "v");
    for raw in ["0.1.2", " v9 ", "", "vv1"] {
        let once = normalize_tag(raw);
        assert_eq!(normalize_tag(&once), once);
    }
}

#[test]
fn parse_checksum_line_finds_asset() {
    let data = "abc123  skytab-v0.1.2-aarch64-apple-darwin.tar.gz\n";
    let checksum = parse_checksum_line(data, "skytab-v0.1.2-aarch64-apple-darwin.tar.gz")
        .ok()
        .expect("checksum should parse");
    assert_eq!(checksum, "abc123");
}

#[test]
fn parse_checksum_line_errors_when_missing() {
    let err = parse_checksum_line("abc123  other.tar.gz", "missing.tar.gz")
        .err()
        .expect("missing asset should error");
    match err {
        SkyTabError::InvalidArgument(message) => {
            assert!(message.contains("checksum not found"));
        }
        other => panic!("unexpected error: {}", other.message()),
    }
}

#[test]
fn checksum_lists_with_crlf_tabs_and_extra_words() {
    let data = "\r\n  \n111 a.tar.gz\r\n222\tb.tar.gz extra\r\n333 b.tar.gz\n";
    assert_eq!(parse_checksum_line(data, "b.tar.gz").ok(), Some("222".to_string()));
    assert_eq!(parse_checksum_line(data, "a.tar.gz").ok(), Some("111".to_string()));
    assert_eq!(parse_checksum_line("", "a").err().map(|e| e.message()),
        Some("invalid argument: checksum not found for asset a".to_string()));
    assert!(parse_checksum_line("onlyone\n", "onlyone").is_err());
}

#[test]
fn is_update_available_uses_semver_for_latest() {
    assert!(is_update_available("v0.1.0", "v0.1.1", false));
    assert!(!is_update_available("v0.1.1", "v0.1.0", false));
    assert!(!is_update_available("v0.1.1", "v0.1.1", false));
}

#[test]
fn explicit_version_can_downgrade() {
    assert!(is_update_available("v0.1.1", "v0.1.0", true));
}

#[test]
fn semver_ordering_and_fallback() {
    assert!(is_update_available("v0.9.0", "v0.10.0", false));
    assert!(!is_update_available("v1.0.0", "v1.0.0-rc.1", false));
    assert!(is_update_available("v1.0.0-rc.1", "v1.0.0", false));
    assert!(is_update_available("vnext", "vother", false));
    assert!(!is_update_available("vnext", "vnext", false));
    assert!(!is_update_available("v1.0.0", "v1.0.0", true));
    assert!(matches!(compare_versions("v1.2.3", "1.2.4"), Some(Precedence::Lower)));
    assert!(matches!(compare_versions("2.0.0", "v1.9.9"), Some(Precedence::Higher)));
    assert!(matches!(compare_versions("v1.0.0", "1.0.0"), Some(Precedence::Equal)));
    assert!(compare_versions("x", "1.0.0").is_none());
}

#[test]
fn strip_v_prefix_removes_one_v() {
    assert_eq!(strip_v_prefix("v1.0.0"), "1.0.0");
    assert_eq!(strip_v_prefix("vv1"), "v1");
    assert_eq!(strip_v_prefix("1.0.0"), "1.0.0");
    assert_eq!(strip_v_prefix(""), "");
}

#[test]
fn archive_checksum_is_sha256() {
    let digest = "ba7816bf8f01cfea414140de5dae2223b00361a396177a9cb410ff61f20015ad";
    assert!(verify_archive_checksum(b"abc", digest).is_ok());
    match verify_archive_checksum(b"abd", digest) {
        Err(SkyTabError::InvalidArgument(m)) => {
            assert_eq!(m, "checksum verification failed for update archive")
        }
        _ => panic!("a different archive must be refused"),
    }
    assert!(verify_archive_checksum(
        b"",
        "e3b0c44298fc1c149afbf4c8996fb92427ae41e4649b934ca495991b7852b855"
    )
    .is_ok());
}

#[test]
fn target_triples() {
    assert_eq!(target_triple_for("macos", "aarch64").ok(), Some("aarch64-apple-darwin".into()));
    assert_eq!(target_triple_for("macos", "x86_64").ok(), Some("x86_64-apple-darwin".into()));
    assert_eq!(target_triple_for("linux", "x86_64").ok(), Some("x86_64-unknown-linux-musl".into()));
    match target_triple_for("windows", "x86_64") {
        Err(SkyTabError::InvalidArgument(m)) => {
            assert_eq!(m, "unsupported platform for self-update: windows/x86_64")
        }
        _ => panic!("windows is not a release target"),
    }
}

#[test]
fn release_urls() {
    assert_eq!(current_version_tag("0.1.5"), "v0.1.5");
    assert_eq!(
        archive_asset_name("v0.1.2", "x86_64-unknown-linux-musl"),
        "skytab-v0.1.2-x86_64-unknown-linux-musl.tar.gz"
    );
    assert_eq!(
        checksums_url("v0.1.2"),
        "https://github.com/LukasMurdock/skytab-cli/releases/download/v0.1.2/checksums.txt"
    );
    assert_eq!(
        release_download_url("v0.1.2", "a.tar.gz"),
        "https://github.com/LukasMurdock/skytab-cli/releases/download/v0.1.2/a.tar.gz"
    );
    assert_eq!(
        latest_release_url(),
        "https://api.github.com/repos/LukasMurdock/skytab-cli/releases/latest"
    );
    assert_eq!(
        confirmation_prompt("v1", "v2"),
        "Update skytab from v1 to v2? [y/N]: "
    );
}

#[test]
fn update_steps() {
    assert!(matches!(update_step(true, true, false, true), UpdateStep::CheckOnly));
    assert!(matches!(update_step(false, false, true, true), UpdateStep::UpToDate));
    assert!(matches!(update_step(false, true, false, true), UpdateStep::Confirm));
    assert!(matches!(update_step(false, true, true, true), UpdateStep::Install));
    assert!(matches!(update_step(false, true, false, false), UpdateStep::Install));
}

#[test]
fn confirmation_answers() {
    assert!(confirmation_accepted("y\n"));
    assert!(confirmation_accepted(" YES "));
    assert!(!confirmation_accepted("no"));
    assert!(!confirmation_accepted(""));
    assert!(!confirmation_accepted("yess"));
}

#[test]
fn update_reports() {
    let r = report_without_install("v1".into(), "v2".into(), true, true, "t".into());
    assert!(r.check_only && !r.updated && r.update_available);
    assert!(r.installed_paths.is_empty());
    let r = report_installed("v1".into(), "v2".into(), true, "t".into(), vec!["/bin/skytab".into()]);
    assert!(r.updated && !r.check_only);
    assert_eq!(r.installed_paths, vec!["/bin/skytab".to_string()]);
}
