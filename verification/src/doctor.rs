//! The `doctor` diagnostics: each check and its verdict, from facts that
//! the caller gathers (environment, files, keyring, a login attempt).

use vstd::prelude::*;
use crate::config::CredentialStorageDiagnostics;
use crate::json::push_str;
use crate::read_api::{redact_username, redacted, DoctorCheck, DoctorReport};
use crate::text::{append_chars, chars_of, i64_text, int_text, str_eq, string_of};

verus! {

/// How reading the token cache went.
pub enum CacheStatus {
    Valid,
    NoValidToken,
    Error(String),
}

/// Whether credentials resolved, and how the login with them went.
pub enum CredentialsCheck {
    /// Credentials resolved; `auth_error` is the error of the login, if it
    /// failed.
    Resolved { username: String, base_url: String, auth_error: Option<String> },
    /// Credentials did not resolve, with the error's text.
    Unresolved(String),
}

/// What `doctor` looks at.
pub struct DoctorInputs {
    pub env_username_set: bool,
    pub env_password_set: bool,
    pub config_path: String,
    pub config_exists: bool,
    pub legacy_config_path: String,
    pub legacy_config_exists: bool,
    pub diagnostics: CredentialStorageDiagnostics,
    pub default_location: Option<i64>,
    pub cache_path: String,
    pub cache_exists: bool,
    pub legacy_cache_path: String,
    pub legacy_cache_exists: bool,
    pub cache_status: CacheStatus,
    pub credentials: CredentialsCheck,
}

/// `exists` or `missing`.
pub open spec fn exists_text(b: bool) -> Seq<char> {
    if b {
        "exists"@
    } else {
        "missing"@
    }
}

/// `set` or `missing`.
pub open spec fn set_text(b: bool) -> Seq<char> {
    if b {
        "set"@
    } else {
        "missing"@
    }
}

/// `yes` or `no`.
pub open spec fn yes_no(b: bool) -> Seq<char> {
    if b {
        "yes"@
    } else {
        "no"@
    }
}

/// `available` or `missing`.
pub open spec fn available_text(b: bool) -> Seq<char> {
    if b {
        "available"@
    } else {
        "missing"@
    }
}

/// `true` or `false`, as `Display` prints a `bool`.
pub open spec fn bool_text(b: bool) -> Seq<char> {
    if b {
        "true"@
    } else {
        "false"@
    }
}

/// A current and a legacy file, and whether each exists.
pub open spec fn files_text(current: Seq<char>, c: bool, legacy: Seq<char>, l: bool) -> Seq<char> {
    "current="@ + current + " ("@ + exists_text(c) + ") legacy="@ + legacy + " ("@ + exists_text(l)
        + ")"@
}

/// Whether credentials can be had without the environment.
pub open spec fn persisted(d: CredentialStorageDiagnostics) -> bool {
    d.keyring_password_present || d.config_password_present
}

/// The verdict of the `env_credentials` check: never with only one of the
/// two variables; else with both, or with persisted credentials.
pub open spec fn env_check_ok(i: DoctorInputs) -> bool {
    if i.env_username_set != i.env_password_set {
        false
    } else {
        (i.env_username_set && i.env_password_set) || persisted(i.diagnostics)
    }
}

/// The detail of the `env_credentials` check.
pub open spec fn env_detail(i: DoctorInputs) -> Seq<char> {
    "SKYTAB_USERNAME="@ + set_text(i.env_username_set) + " SKYTAB_PASSWORD="@ + set_text(
        i.env_password_set,
    ) + " (partial_env="@ + yes_no(i.env_username_set != i.env_password_set)
        + " persisted_credentials="@ + available_text(persisted(i.diagnostics)) + ")"@
}

/// The detail of the `credential_store` check.
pub open spec fn store_detail(d: CredentialStorageDiagnostics) -> Seq<char> {
    "mode="@ + d.mode@ + " keyring_supported="@ + bool_text(d.keyring_supported)
        + " keyring_accessible="@ + bool_text(d.keyring_accessible)
        + " keyring_password_present="@ + bool_text(d.keyring_password_present)
        + " config_password_present="@ + bool_text(d.config_password_present)
}

/// The detail of the `default_location` check.
pub open spec fn default_location_detail(id: Option<i64>) -> Seq<char> {
    match id {
        Some(x) => int_text(x as int),
        None => "not set"@,
    }
}

/// The first part of the `token_cache` detail.
pub open spec fn cache_status_text(s: CacheStatus) -> Seq<char> {
    match s {
        CacheStatus::Valid => "valid cached token"@,
        CacheStatus::NoValidToken => "no valid cached token"@,
        CacheStatus::Error(e) => "error reading cache: "@ + e@,
    }
}

/// The verdict and detail of the `credentials_resolution` check.
pub open spec fn resolution_check(c: CredentialsCheck) -> (bool, Seq<char>) {
    match c {
        CredentialsCheck::Resolved { username, base_url, .. } => (
            true,
            "resolved username="@ + redacted(username@) + " base_url="@ + base_url@,
        ),
        CredentialsCheck::Unresolved(e) => (false, "unable to resolve credentials: "@ + e@),
    }
}

/// The verdict and detail of the `auth` check.
pub open spec fn auth_check(c: CredentialsCheck) -> (bool, Seq<char>) {
    match c {
        CredentialsCheck::Resolved { auth_error, .. } => match auth_error {
            None => (true, "authentication succeeded"@),
            Some(e) => (false, "authentication failed: "@ + e@),
        },
        CredentialsCheck::Unresolved(_) => (
            false,
            "skipped auth because credentials are unresolved"@,
        ),
    }
}

/// `c` is the check named `name` with this verdict and detail.
pub open spec fn check_is(c: DoctorCheck, name: Seq<char>, ok: bool, detail: Seq<char>) -> bool {
    c.name@ == name && c.ok == ok && c.detail@ == detail
}

/// The seven checks of `doctor`, in order.
pub open spec fn doctor_checks_ok(checks: Seq<DoctorCheck>, i: DoctorInputs) -> bool {
    &&& checks.len() == 7
    &&& check_is(
        checks[0],
        "config_file"@,
        i.config_exists || i.legacy_config_exists,
        files_text(
            i.config_path@,
            i.config_exists,
            i.legacy_config_path@,
            i.legacy_config_exists,
        ),
    )
    &&& check_is(checks[1], "env_credentials"@, env_check_ok(i), env_detail(i))
    &&& check_is(
        checks[2],
        "credential_store"@,
        i.diagnostics.mode@ != "keyring"@ || i.diagnostics.keyring_accessible,
        store_detail(i.diagnostics),
    )
    &&& check_is(checks[3], "default_location"@, true, default_location_detail(i.default_location))
    &&& check_is(
        checks[4],
        "token_cache"@,
        !(i.cache_status is Error),
        cache_status_text(i.cache_status) + "; "@ + files_text(
            i.cache_path@,
            i.cache_exists,
            i.legacy_cache_path@,
            i.legacy_cache_exists,
        ),
    )
    &&& check_is(
        checks[5],
        "credentials_resolution"@,
        resolution_check(i.credentials).0,
        resolution_check(i.credentials).1,
    )
    &&& check_is(checks[6], "auth"@, auth_check(i.credentials).0, auth_check(i.credentials).1)
}

/// Every check passed.
pub open spec fn all_ok(checks: Seq<DoctorCheck>) -> bool {
    forall|k: int| 0 <= k < checks.len() ==> (#[trigger] checks[k]).ok
}

fn check(name: &str, ok: bool, detail: Vec<char>) -> (r: DoctorCheck)
    ensures
        check_is(r, name@, ok, detail@),
{
    DoctorCheck { name: String::from_str(name), ok, detail: string_of(&detail) }
}

fn push_exists(out: &mut Vec<char>, b: bool)
    ensures
        final(out)@ == old(out)@ + exists_text(b),
{
    if b {
        push_str(out, "exists");
    } else {
        push_str(out, "missing");
    }
}

fn push_bool(out: &mut Vec<char>, b: bool)
    ensures
        final(out)@ == old(out)@ + bool_text(b),
{
    if b {
        push_str(out, "true");
    } else {
        push_str(out, "false");
    }
}

fn push_string(out: &mut Vec<char>, s: &String)
    ensures
        final(out)@ == old(out)@ + s@,
{
    push_str(out, s.as_str());
}

fn files_detail(out: &mut Vec<char>, current: &String, c: bool, legacy: &String, l: bool)
    ensures
        final(out)@ == old(out)@ + files_text(current@, c, legacy@, l),
{
    let ghost start = out@;
    push_str(out, "current=");
    push_string(out, current);
    push_str(out, " (");
    push_exists(out, c);
    push_str(out, ") legacy=");
    push_string(out, legacy);
    push_str(out, " (");
    push_exists(out, l);
    push_str(out, ")");
    assert(out@ =~= start + files_text(current@, c, legacy@, l));
}

fn env_check(i: &DoctorInputs) -> (r: DoctorCheck)
    ensures
        check_is(r, "env_credentials"@, env_check_ok(*i), env_detail(*i)),
{
    let u = i.env_username_set;
    let p = i.env_password_set;
    let partial = u != p;
    let persisted = i.diagnostics.keyring_password_present || i.diagnostics.config_password_present;
    let ok = if partial {
        false
    } else {
        (u && p) || persisted
    };
    let mut d: Vec<char> = Vec::new();
    push_str(&mut d, "SKYTAB_USERNAME=");
    if u {
        push_str(&mut d, "set");
    } else {
        push_str(&mut d, "missing");
    }
    push_str(&mut d, " SKYTAB_PASSWORD=");
    if p {
        push_str(&mut d, "set");
    } else {
        push_str(&mut d, "missing");
    }
    push_str(&mut d, " (partial_env=");
    if partial {
        push_str(&mut d, "yes");
    } else {
        push_str(&mut d, "no");
    }
    push_str(&mut d, " persisted_credentials=");
    if persisted {
        push_str(&mut d, "available");
    } else {
        push_str(&mut d, "missing");
    }
    push_str(&mut d, ")");
    assert(d@ =~= env_detail(*i));
    check("env_credentials", ok, d)
}

fn store_check(d: &CredentialStorageDiagnostics) -> (r: DoctorCheck)
    ensures
        check_is(
            r,
            "credential_store"@,
            d.mode@ != "keyring"@ || d.keyring_accessible,
            store_detail(*d),
        ),
{
    let ok = !str_eq(d.mode.as_str(), "keyring") || d.keyring_accessible;
    let mut t: Vec<char> = Vec::new();
    push_str(&mut t, "mode=");
    push_string(&mut t, &d.mode);
    push_str(&mut t, " keyring_supported=");
    push_bool(&mut t, d.keyring_supported);
    push_str(&mut t, " keyring_accessible=");
    push_bool(&mut t, d.keyring_accessible);
    push_str(&mut t, " keyring_password_present=");
    push_bool(&mut t, d.keyring_password_present);
    push_str(&mut t, " config_password_present=");
    push_bool(&mut t, d.config_password_present);
    assert(t@ =~= store_detail(*d));
    check("credential_store", ok, t)
}

fn cache_check(i: &DoctorInputs) -> (r: DoctorCheck)
    ensures
        check_is(
            r,
            "token_cache"@,
            !(i.cache_status is Error),
            cache_status_text(i.cache_status) + "; "@ + files_text(
                i.cache_path@,
                i.cache_exists,
                i.legacy_cache_path@,
                i.legacy_cache_exists,
            ),
        ),
{
    let mut t: Vec<char> = Vec::new();
    let ok = match &i.cache_status {
        CacheStatus::Valid => {
            push_str(&mut t, "valid cached token");
            true
        },
        CacheStatus::NoValidToken => {
            push_str(&mut t, "no valid cached token");
            true
        },
        CacheStatus::Error(e) => {
            push_str(&mut t, "error reading cache: ");
            push_string(&mut t, e);
            false
        },
    };
    push_str(&mut t, "; ");
    files_detail(&mut t, &i.cache_path, i.cache_exists, &i.legacy_cache_path, i.legacy_cache_exists);
    check("token_cache", ok, t)
}

fn credential_checks(c: &CredentialsCheck) -> (r: (DoctorCheck, DoctorCheck))
    ensures
        check_is(r.0, "credentials_resolution"@, resolution_check(*c).0, resolution_check(*c).1),
        check_is(r.1, "auth"@, auth_check(*c).0, auth_check(*c).1),
{
    match c {
        CredentialsCheck::Resolved { username, base_url, auth_error } => {
            let mut t: Vec<char> = Vec::new();
            push_str(&mut t, "resolved username=");
            let red = redact_username(username.as_str());
            push_string(&mut t, &red);
            push_str(&mut t, " base_url=");
            push_string(&mut t, base_url);
            let first = check("credentials_resolution", true, t);
            let second = match auth_error {
                None => check("auth", true, chars_of("authentication succeeded")),
                Some(e) => {
                    let mut a = chars_of("authentication failed: ");
                    let ev = chars_of(e.as_str());
                    append_chars(&mut a, &ev);
                    check("auth", false, a)
                },
            };
            (first, second)
        },
        CredentialsCheck::Unresolved(e) => {
            let mut t = chars_of("unable to resolve credentials: ");
            let ev = chars_of(e.as_str());
            append_chars(&mut t, &ev);
            let first = check("credentials_resolution", false, t);
            let second = check(
                "auth",
                false,
                chars_of("skipped auth because credentials are unresolved"),
            );
            (first, second)
        },
    }
}

/// The doctor report once its facts are gathered: the seven checks, and
/// whether all of them passed.
pub fn doctor_report_from(inputs: &DoctorInputs) -> (r: DoctorReport)
    ensures
        doctor_checks_ok(r.checks@, *inputs),
        r.ok == all_ok(r.checks@),
{
    let mut checks: Vec<DoctorCheck> = Vec::new();
    let mut d: Vec<char> = Vec::new();
    files_detail(
        &mut d,
        &inputs.config_path,
        inputs.config_exists,
        &inputs.legacy_config_path,
        inputs.legacy_config_exists,
    );
    assert(d@ =~= files_text(
        inputs.config_path@,
        inputs.config_exists,
        inputs.legacy_config_path@,
        inputs.legacy_config_exists,
    ));
    checks.push(check("config_file", inputs.config_exists || inputs.legacy_config_exists, d));
    checks.push(env_check(inputs));
    checks.push(store_check(&inputs.diagnostics));
    let loc = match inputs.default_location {
        Some(id) => i64_text(id),
        None => chars_of("not set"),
    };
    checks.push(check("default_location", true, loc));
    checks.push(cache_check(inputs));
    let (first, second) = credential_checks(&inputs.credentials);
    checks.push(first);
    checks.push(second);
    let mut ok = true;
    let mut k: usize = 0;
    while k < checks.len()
        invariant
            k <= checks@.len(),
            ok == forall|j: int| 0 <= j < k ==> (#[trigger] checks@[j]).ok,
        decreases checks@.len() - k,
    {
        ok = ok && checks[k].ok;
        k = k + 1;
    }
    DoctorReport { ok, checks }
}

/// The report is healthy exactly when every one of its checks passed.
pub proof fn law_doctor_ok_iff_all_checks_pass(r: DoctorReport, i: DoctorInputs)
    requires
        doctor_checks_ok(r.checks@, i),
        r.ok == all_ok(r.checks@),
    ensures
        r.ok <==> (i.config_exists || i.legacy_config_exists) && env_check_ok(i) && (
        i.diagnostics.mode@ != "keyring"@ || i.diagnostics.keyring_accessible) && !(
        i.cache_status is Error) && resolution_check(i.credentials).0 && auth_check(
            i.credentials,
        ).0,
{
    if !r.ok {
        let k = choose|k: int| 0 <= k < r.checks@.len() && !(#[trigger] r.checks@[k]).ok;
        assert(0 <= k < 7);
    }
}

} // verus!
