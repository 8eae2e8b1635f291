//! Configuration and credentials: where the base URL and the credentials
//! come from, where the password is kept (system keyring or config file),
//! and the default location.
//!
//! Reading the environment and the config file is done by the caller, which
//! hands the values in; the keyring is reached through the `keyring` crate.

use vstd::prelude::*;
use std::path::PathBuf;
use crate::error::SkyTabError;
use crate::paths::{ends_with_parts, located_parts, located_path, path_parts, plain_component};
use crate::text::{
    append_chars, chars_eq, chars_of, lower, lower_chars, parse_i64, parse_i64_chars, str_eq,
    string_of, trim, trim_chars, trim_end_char, trim_end_char_of,
};

verus! {

/// The API used when no other base URL is configured.
pub const DEFAULT_BASE_URL: &'static str = "https://lighthouse-api.harbortouch.com";

/// The text of [`DEFAULT_BASE_URL`].
pub open spec fn default_base_url() -> Seq<char> {
    "https://lighthouse-api.harbortouch.com"@
}

/// The keyring service under which passwords are stored.
pub const KEYRING_SERVICE_NAME: &'static str = "skytab-cli";

/// Resolved connection settings.
pub struct Config {
    pub base_url: String,
    pub username: String,
    pub password: String,
}

/// The contents of the config file.
pub struct FileConfig {
    pub base_url: Option<String>,
    pub username: Option<String>,
    pub password: Option<String>,
    pub default_location_id: Option<i64>,
}

impl FileConfig {
    /// An empty config file (`Default`).
    pub fn empty() -> (r: FileConfig)
        ensures
            r.base_url is None,
            r.username is None,
            r.password is None,
            r.default_location_id is None,
    {
        FileConfig { base_url: None, username: None, password: None, default_location_id: None }
    }
}

/// Where credentials can be found, as `doctor` reports it.
pub struct CredentialStorageDiagnostics {
    pub mode: String,
    pub keyring_supported: bool,
    pub keyring_accessible: bool,
    pub keyring_password_present: bool,
    pub config_password_present: bool,
    pub username_present: bool,
}

/// Where passwords are kept (`SKYTAB_CREDENTIAL_STORE`).
#[derive(Debug, Clone, Copy, PartialEq, Eq, Structural)]
pub enum CredentialStoreMode {
    /// The keyring, falling back to the config file.
    Auto,
    /// The keyring only.
    Keyring,
    /// The config file only.
    Config,
}

/// The name of a mode.
pub open spec fn mode_name(m: CredentialStoreMode) -> Seq<char> {
    match m {
        CredentialStoreMode::Auto => "auto"@,
        CredentialStoreMode::Keyring => "keyring"@,
        CredentialStoreMode::Config => "config"@,
    }
}

impl CredentialStoreMode {
    /// The name of the mode.
    pub fn as_str(self) -> (r: &'static str)
        ensures
            r@ == mode_name(self),
    {
        match self {
            CredentialStoreMode::Auto => "auto",
            CredentialStoreMode::Keyring => "keyring",
            CredentialStoreMode::Config => "config",
        }
    }
}

/// The mode a setting names: trimmed and in ASCII lowercase, `keyring` or
/// `config`; anything else, and no setting, is `auto`.
pub open spec fn mode_of(value: Option<Seq<char>>) -> CredentialStoreMode {
    let raw = match value {
        Some(v) => v,
        None => "auto"@,
    };
    let n = lower(trim(raw));
    if n == "keyring"@ {
        CredentialStoreMode::Keyring
    } else if n == "config"@ {
        CredentialStoreMode::Config
    } else {
        CredentialStoreMode::Auto
    }
}

/// Executable [`mode_of`].
pub fn parse_credential_store_mode(value: Option<&str>) -> (r: CredentialStoreMode)
    ensures
        r == mode_of(
            match value {
                Some(v) => Some(v@),
                None => None,
            },
        ),
{
    let raw = match value {
        Some(v) => chars_of(v),
        None => chars_of("auto"),
    };
    let t = trim_chars(&raw);
    let n = lower_chars(&t);
    let k = chars_of("keyring");
    let c = chars_of("config");
    if chars_eq(&n, &k) {
        CredentialStoreMode::Keyring
    } else if chars_eq(&n, &c) {
        CredentialStoreMode::Config
    } else {
        CredentialStoreMode::Auto
    }
}

/// Where a password ended up.
#[derive(Debug, Clone, Copy, PartialEq, Eq, Structural)]
pub enum PasswordStorage {
    Keyring,
    ConfigFile,
}

/// The keyring account of a user of an API: the base URL without trailing
/// slashes, `|`, and the trimmed username.
pub open spec fn account_of(base_url: Seq<char>, username: Seq<char>) -> Seq<char> {
    trim_end_char(base_url, '/') + seq!['|'] + trim(username)
}

/// Executable [`account_of`].
pub fn keyring_account(base_url: &str, username: &str) -> (r: String)
    ensures
        r@ == account_of(base_url@, username@),
{
    let b = chars_of(base_url);
    let mut out = trim_end_char_of(&b, '/');
    out.push('|');
    let u = chars_of(username);
    let t = trim_chars(&u);
    append_chars(&mut out, &t);
    string_of(&out)
}

/// The platforms with a keyring backend: macOS, and Linux other than musl.
pub open spec fn keyring_platform(target_os: Seq<char>, target_env: Seq<char>) -> bool {
    target_os == "macos"@ || (target_os == "linux"@ && target_env != "musl"@)
}

/// Whether the build target has a keyring backend, given
/// `std::env::consts::OS` and the target environment (`gnu`, `musl`, ...).
pub fn keyring_backend_supported(target_os: &str, target_env: &str) -> (r: bool)
    ensures
        r == keyring_platform(target_os@, target_env@),
{
    str_eq(target_os, "macos") || (str_eq(target_os, "linux") && !str_eq(target_env, "musl"))
}

/// The error of a target without a keyring backend.
pub open spec fn keyring_unavailable_message() -> Seq<char> {
    "keyring backend is unavailable for this build target"@
}

/// `keyring::Entry`, opaque to the library.
#[verifier::external_type_specification]
#[verifier::external_body]
pub struct ExKeyringEntry(keyring::Entry);

/// `keyring::Error`, opaque to the library.
#[verifier::external_type_specification]
#[verifier::external_body]
pub struct ExKeyringError(keyring::Error);

/// `keyring::Entry::new(service, account)`. Whether it succeeds depends on
/// the platform's credential store; nothing is stated of the result.
#[verifier::external_body]
fn keyring_entry(service: &str, account: &str) -> (r: Result<keyring::Entry, keyring::Error>) {
    keyring::Entry::new(service, account)
}

/// `keyring::Entry::get_password`. What it returns depends on the
/// credential store; nothing is stated of the result.
#[verifier::external_body]
fn keyring_get_password(entry: &keyring::Entry) -> (r: Result<String, keyring::Error>) {
    entry.get_password()
}

/// `keyring::Entry::set_password`. Whether it succeeds depends on the
/// credential store; nothing is stated of the result.
#[verifier::external_body]
fn keyring_set_password(entry: &keyring::Entry, password: &str) -> (r: Result<
    (),
    keyring::Error,
>) {
    entry.set_password(password)
}

/// Whether a keyring error is `keyring::Error::NoEntry`. The error is
/// opaque to the library, so nothing more is stated.
#[verifier::external_body]
fn keyring_error_is_no_entry(err: &keyring::Error) -> (r: bool) {
    match err {
        keyring::Error::NoEntry => true,
        _ => false,
    }
}

/// The `Display` text of a keyring error; nothing is stated of it.
#[verifier::external_body]
fn keyring_error_text(err: &keyring::Error) -> (r: String) {
    err.to_string()
}

/// `load_password_from_keyring`: the stored password of the user's keyring
/// entry (service [`KEYRING_SERVICE_NAME`], account [`keyring_account`]),
/// `None` when there is no entry, or the keyring's error text. What the
/// keyring holds is outside the library: only the refusal on targets
/// without a backend is stated.
pub fn load_password_from_keyring(base_url: &str, username: &str, backend_supported: bool) -> (r:
    Result<Option<String>, String>)
    ensures
        !backend_supported ==> (r matches Err(m) && m@ == keyring_unavailable_message()),
{
    if !backend_supported {
        return Err(String::from_str("keyring backend is unavailable for this build target"));
    }
    let account = keyring_account(base_url, username);
    let entry = match keyring_entry(KEYRING_SERVICE_NAME, account.as_str()) {
        Ok(e) => e,
        Err(e) => return Err(keyring_error_text(&e)),
    };
    match keyring_get_password(&entry) {
        Ok(p) => Ok(Some(p)),
        Err(e) => {
            if keyring_error_is_no_entry(&e) {
                Ok(None)
            } else {
                Err(keyring_error_text(&e))
            }
        },
    }
}

/// `save_password_to_keyring`: stores the password in the user's keyring
/// entry, or gives the keyring's error text. Only the refusal on targets
/// without a backend is stated.
pub fn save_password_to_keyring(
    base_url: &str,
    username: &str,
    password: &str,
    backend_supported: bool,
) -> (r: Result<(), String>)
    ensures
        !backend_supported ==> (r matches Err(m) && m@ == keyring_unavailable_message()),
{
    if !backend_supported {
        return Err(String::from_str("keyring backend is unavailable for this build target"));
    }
    let account = keyring_account(base_url, username);
    let entry = match keyring_entry(KEYRING_SERVICE_NAME, account.as_str()) {
        Ok(e) => e,
        Err(e) => return Err(keyring_error_text(&e)),
    };
    match keyring_set_password(&entry, password) {
        Ok(()) => Ok(()),
        Err(e) => Err(keyring_error_text(&e)),
    }
}

/// Where a password is kept after an attempt to save it in the keyring:
/// the config file in `config` mode (no attempt is made); the keyring when
/// the save worked; in `keyring` mode a failed save is an error, in `auto`
/// mode it falls back to the config file.
pub fn storage_after_save(mode: CredentialStoreMode, saved: Result<(), String>) -> (r: Result<
    PasswordStorage,
    SkyTabError,
>)
    ensures
        mode == CredentialStoreMode::Config ==> r == Ok::<PasswordStorage, SkyTabError>(
            PasswordStorage::ConfigFile,
        ),
        mode != CredentialStoreMode::Config ==> match saved {
            Ok(()) => r == Ok::<PasswordStorage, SkyTabError>(PasswordStorage::Keyring),
            Err(e) => if mode == CredentialStoreMode::Keyring {
                r matches Err(SkyTabError::CredentialStore(m)) && m@ == e@
            } else {
                r == Ok::<PasswordStorage, SkyTabError>(PasswordStorage::ConfigFile)
            },
        },
{
    match mode {
        CredentialStoreMode::Config => Ok(PasswordStorage::ConfigFile),
        CredentialStoreMode::Keyring => match saved {
            Ok(()) => Ok(PasswordStorage::Keyring),
            Err(e) => Err(SkyTabError::CredentialStore(e)),
        },
        CredentialStoreMode::Auto => match saved {
            Ok(()) => Ok(PasswordStorage::Keyring),
            Err(_) => Ok(PasswordStorage::ConfigFile),
        },
    }
}

/// `store_password`: in `config` mode the password goes to the config file
/// without touching the keyring; otherwise it is saved in the keyring and
/// [`storage_after_save`] decides on the outcome.
pub fn store_password(
    base_url: &str,
    username: &str,
    password: &str,
    mode: CredentialStoreMode,
    backend_supported: bool,
) -> (r: Result<PasswordStorage, SkyTabError>)
    ensures
        mode == CredentialStoreMode::Config ==> r == Ok::<PasswordStorage, SkyTabError>(
            PasswordStorage::ConfigFile,
        ),
        mode == CredentialStoreMode::Auto ==> r is Ok,
        mode == CredentialStoreMode::Auto && !backend_supported ==> r == Ok::<
            PasswordStorage,
            SkyTabError,
        >(PasswordStorage::ConfigFile),
        mode == CredentialStoreMode::Keyring ==> (r == Ok::<PasswordStorage, SkyTabError>(
            PasswordStorage::Keyring,
        ) || r matches Err(SkyTabError::CredentialStore(_))),
        mode == CredentialStoreMode::Keyring && !backend_supported ==> (r matches Err(
            SkyTabError::CredentialStore(m),
        ) && m@ == keyring_unavailable_message()),
{
    match mode {
        CredentialStoreMode::Config => Ok(PasswordStorage::ConfigFile),
        _ => {
            let saved = save_password_to_keyring(base_url, username, password, backend_supported);
            storage_after_save(mode, saved)
        },
    }
}

/// The base URL in force: the override, else `SKYTAB_BASE_URL`, else the
/// config file's, else the default.
pub open spec fn base_url_of(
    override_url: Option<Seq<char>>,
    env_url: Option<Seq<char>>,
    file_url: Option<Seq<char>>,
) -> Seq<char> {
    match override_url {
        Some(u) => u,
        None => match env_url {
            Some(u) => u,
            None => match file_url {
                Some(u) => u,
                None => default_base_url(),
            },
        },
    }
}

/// The text of an optional string.
pub open spec fn opt_text(s: Option<String>) -> Option<Seq<char>> {
    match s {
        Some(x) => Some(x@),
        None => None,
    }
}

/// The config file's value of a field, when there is a file.
pub open spec fn file_field(f: Option<&FileConfig>, pick: spec_fn(FileConfig) -> Option<String>) -> Option<
    Seq<char>,
> {
    match f {
        Some(c) => opt_text(pick(*c)),
        None => None,
    }
}

fn copy_string(s: &String) -> (r: String)
    ensures
        r@ == s@,
{
    String::from_str(s.as_str())
}

/// `resolve_base_url`, given the value of `SKYTAB_BASE_URL`.
pub fn resolve_base_url(
    base_url_override: Option<String>,
    env_base_url: Option<String>,
    from_file: Option<&FileConfig>,
) -> (r: String)
    ensures
        r@ == base_url_of(
            opt_text(base_url_override),
            opt_text(env_base_url),
            file_field(from_file, |c: FileConfig| c.base_url),
        ),
{
    if let Some(u) = base_url_override {
        return u;
    }
    if let Some(u) = env_base_url {
        return u;
    }
    if let Some(c) = from_file {
        if let Some(u) = &c.base_url {
            return copy_string(u);
        }
    }
    String::from_str(DEFAULT_BASE_URL)
}

/// Credentials from `SKYTAB_USERNAME` and `SKYTAB_PASSWORD`: both set gives
/// them, one alone is an error, neither gives none.
pub fn env_credentials(username: Option<String>, password: Option<String>) -> (r: Result<
    Option<(String, String)>,
    SkyTabError,
>)
    ensures
        match (username, password) {
            (Some(u), Some(p)) => r matches Ok(Some((a, b))) && a == u && b == p,
            (None, None) => r matches Ok(None),
            _ => r matches Err(SkyTabError::PartialEnvCredentials),
        },
{
    match (username, password) {
        (Some(u), Some(p)) => Ok(Some((u, p))),
        (None, None) => Ok(None),
        _ => Err(SkyTabError::PartialEnvCredentials),
    }
}

/// A non-empty password kept in the config file.
pub open spec fn file_password(f: Option<&FileConfig>) -> Option<Seq<char>> {
    match f {
        Some(c) => match c.password {
            Some(p) => if p@.len() > 0 {
                Some(p@)
            } else {
                None
            },
            None => None,
        },
        None => None,
    }
}

/// Executable [`file_password`].
pub fn legacy_file_password(from_file: Option<&FileConfig>) -> (r: Option<String>)
    ensures
        opt_text(r) == file_password(from_file),
{
    match from_file {
        Some(c) => match &c.password {
            Some(p) => {
                let v = chars_of(p.as_str());
                if v.len() > 0 {
                    Some(copy_string(p))
                } else {
                    None
                }
            },
            None => None,
        },
        None => None,
    }
}

/// What a keyring lookup means for password resolution: a stored password is
/// used; no entry, or an error outside `keyring` mode, moves on to the config
/// file; an error in `keyring` mode stops with that error.
pub enum KeyringOutcome {
    Password(String),
    Continue,
    Fail(SkyTabError),
}

/// Executable reading of a keyring lookup (see [`KeyringOutcome`]).
pub fn keyring_outcome(mode: CredentialStoreMode, lookup: Result<Option<String>, String>) -> (r:
    KeyringOutcome)
    ensures
        match lookup {
            Ok(Some(p)) => r matches KeyringOutcome::Password(x) && x == p,
            Ok(None) => r matches KeyringOutcome::Continue,
            Err(e) => if mode == CredentialStoreMode::Keyring {
                r matches KeyringOutcome::Fail(SkyTabError::CredentialStore(m)) && m@ == e@
            } else {
                r matches KeyringOutcome::Continue
            },
        },
{
    match lookup {
        Ok(Some(p)) => KeyringOutcome::Password(p),
        Ok(None) => KeyringOutcome::Continue,
        Err(e) => if mode == CredentialStoreMode::Keyring {
            KeyringOutcome::Fail(SkyTabError::CredentialStore(e))
        } else {
            KeyringOutcome::Continue
        },
    }
}

/// The config file without its password, written back once a plaintext
/// password has moved to the keyring.
pub fn without_password(c: &FileConfig) -> (r: FileConfig)
    ensures
        opt_text(r.base_url) == opt_text(c.base_url),
        opt_text(r.username) == opt_text(c.username),
        r.password is None,
        r.default_location_id == c.default_location_id,
{
    FileConfig {
        base_url: match &c.base_url {
            Some(u) => Some(copy_string(u)),
            None => None,
        },
        username: match &c.username {
            Some(u) => Some(copy_string(u)),
            None => None,
        },
        password: None,
        default_location_id: c.default_location_id,
    }
}

/// The outcome of password resolution, and the config file to write back
/// when a plaintext password was moved to the keyring.
pub struct PasswordResolution {
    pub password: Result<String, SkyTabError>,
    pub rewrite: Option<FileConfig>,
}

/// `c` is the config file `f` without its password.
pub open spec fn stripped_of_password(c: FileConfig, f: FileConfig) -> bool {
    &&& opt_text(c.base_url) == opt_text(f.base_url)
    &&& opt_text(c.username) == opt_text(f.username)
    &&& c.password is None
    &&& c.default_location_id == f.default_location_id
}

/// A resolution that took its password from the config file: the file's
/// non-empty password, else `MissingCredentials`; the file without its
/// password is handed back to be written exactly when `migrated` (that
/// password was saved in the keyring).
pub open spec fn from_file_password(
    r: PasswordResolution,
    from_file: Option<&FileConfig>,
    migrated: bool,
) -> bool {
    &&& match file_password(from_file) {
        Some(p) => r.password matches Ok(x) && x@ == p,
        None => r.password matches Err(SkyTabError::MissingCredentials),
    }
    &&& (r.rewrite is Some <==> (migrated && file_password(from_file) is Some))
    &&& (r.rewrite matches Some(c) ==> (from_file matches Some(f) && stripped_of_password(c, *f)))
}

/// The resolution that a keyring lookup leads to (see [`keyring_outcome`]):
/// the stored password; in `keyring` mode the lookup's error; otherwise the
/// config file's password, moved to the keyring or not.
pub open spec fn follows_lookup(
    mode: CredentialStoreMode,
    lookup: Result<Option<String>, String>,
    from_file: Option<&FileConfig>,
    r: PasswordResolution,
) -> bool {
    match lookup {
        Ok(Some(p)) => r.password == Ok::<String, SkyTabError>(p) && r.rewrite is None,
        Err(e) => if mode == CredentialStoreMode::Keyring {
            r.password matches Err(SkyTabError::CredentialStore(m)) && m@ == e@ && r.rewrite is None
        } else {
            from_file_password(r, from_file, true) || from_file_password(r, from_file, false)
        },
        Ok(None) => from_file_password(r, from_file, true) || from_file_password(
            r,
            from_file,
            false,
        ),
    }
}

/// What password resolution gives in `mode`: in `config` mode the config
/// file alone, with nothing migrated; otherwise what some keyring lookup
/// leads to.
pub open spec fn persisted_resolution(
    mode: CredentialStoreMode,
    from_file: Option<&FileConfig>,
    r: PasswordResolution,
) -> bool {
    if mode == CredentialStoreMode::Config {
        from_file_password(r, from_file, false)
    } else {
        exists|lookup: Result<Option<String>, String>| #[trigger]
            follows_lookup(mode, lookup, from_file, r)
    }
}

/// What password resolution gives on a target without a keyring backend,
/// where no keyring call is made: in `keyring` mode the unavailable error,
/// otherwise the config file's password with nothing migrated.
pub open spec fn resolution_without_backend(
    mode: CredentialStoreMode,
    from_file: Option<&FileConfig>,
    r: PasswordResolution,
) -> bool {
    if mode == CredentialStoreMode::Keyring {
        &&& r.password matches Err(SkyTabError::CredentialStore(m)) && m@
            == keyring_unavailable_message()
        &&& r.rewrite is None
    } else {
        from_file_password(r, from_file, false)
    }
}

/// Password resolution once the keyring had none to give: the config file's
/// password, with the file to rewrite when `saved` (the outcome of saving
/// that password in the keyring; `None` when no save was made) is `Ok`.
pub fn resolution_from_file(
    from_file: Option<&FileConfig>,
    saved: Option<Result<(), String>>,
) -> (r: PasswordResolution)
    ensures
        from_file_password(r, from_file, saved matches Some(Ok(_))),
{
    match legacy_file_password(from_file) {
        Some(legacy) => {
            let migrated = match saved {
                Some(Ok(())) => true,
                _ => false,
            };
            let rewrite = if migrated {
                match from_file {
                    Some(c) => Some(without_password(c)),
                    None => None,
                }
            } else {
                None
            };
            PasswordResolution { password: Ok(legacy), rewrite }
        },
        None => PasswordResolution { password: Err(SkyTabError::MissingCredentials), rewrite: None },
    }
}

/// `resolve_persisted_password`: outside `config` mode the keyring is asked
/// first and [`keyring_outcome`] decides; then a non-empty password in the
/// config file is used, and outside `config` mode it is saved in the keyring
/// and [`resolution_from_file`] decides on the rewrite. What the keyring
/// holds, and whether the save works, is outside the library.
pub fn resolve_persisted_password(
    base_url: &str,
    username: &str,
    from_file: Option<&FileConfig>,
    mode: CredentialStoreMode,
    backend_supported: bool,
) -> (r: PasswordResolution)
    ensures
        persisted_resolution(mode, from_file, r),
        !backend_supported ==> resolution_without_backend(mode, from_file, r),
{
    if mode == CredentialStoreMode::Config {
        return resolution_from_file(from_file, None);
    }
    let lookup = load_password_from_keyring(base_url, username, backend_supported);
    let ghost seen = lookup;
    match keyring_outcome(mode, lookup) {
        KeyringOutcome::Password(p) => {
            let r = PasswordResolution { password: Ok(p), rewrite: None };
            assert(follows_lookup(mode, seen, from_file, r));
            r
        },
        KeyringOutcome::Fail(e) => {
            let r = PasswordResolution { password: Err(e), rewrite: None };
            assert(follows_lookup(mode, seen, from_file, r));
            r
        },
        KeyringOutcome::Continue => {
            let saved = match legacy_file_password(from_file) {
                Some(legacy) => Some(
                    save_password_to_keyring(base_url, username, legacy.as_str(), backend_supported),
                ),
                None => None,
            };
            let r = resolution_from_file(from_file, saved);
            assert(follows_lookup(mode, seen, from_file, r));
            r
        },
    }
}

impl Config {
    /// `Config::from_sources` once the environment and the config file are read:
    /// environment credentials win (one of the two alone is an error); else the
    /// config file's username, with the password from
    /// [`resolve_persisted_password`].
    pub fn from_sources(
        base_url_override: Option<String>,
        env_base_url: Option<String>,
        env_username: Option<String>,
        env_password: Option<String>,
        from_file: Option<&FileConfig>,
        mode: CredentialStoreMode,
        backend_supported: bool,
    ) -> (r: (Result<Config, SkyTabError>, Option<FileConfig>))
        ensures
            r.0 matches Ok(c) ==> c.base_url@ == base_url_of(
                opt_text(base_url_override),
                opt_text(env_base_url),
                file_field(from_file, |f: FileConfig| f.base_url),
            ),
            match (env_username, env_password) {
                (Some(u), Some(p)) => r.0 matches Ok(c) && c.username == u && c.password == p
                    && r.1 is None,
                (None, None) => match file_field(from_file, |f: FileConfig| f.username) {
                    None => r.0 matches Err(SkyTabError::MissingCredentials) && r.1 is None,
                    Some(u) => (r.0 matches Ok(c) ==> c.username@ == u) && (mode
                        == CredentialStoreMode::Config ==> match file_password(from_file) {
                        Some(p) => r.0 matches Ok(c) && c.username@ == u && c.password@ == p,
                        None => r.0 matches Err(SkyTabError::MissingCredentials),
                    }) && exists|p: PasswordResolution| #[trigger]
                        persisted_resolution(mode, from_file, p) && r.1 == p.rewrite && match p.password {
                        Ok(x) => r.0 matches Ok(c) && c.password == x,
                        Err(e) => r.0 == Err::<Config, SkyTabError>(e),
                    } && (!backend_supported ==> exists|p: PasswordResolution| #[trigger]
                        resolution_without_backend(mode, from_file, p) && r.1 == p.rewrite
                        && match p.password {
                        Ok(x) => r.0 matches Ok(c) && c.password == x,
                        Err(e) => r.0 == Err::<Config, SkyTabError>(e),
                    }),
                },
                _ => r.0 matches Err(SkyTabError::PartialEnvCredentials) && r.1 is None,
            },
    {
        let base_url = resolve_base_url(base_url_override, env_base_url, from_file);
        match env_credentials(env_username, env_password) {
            Err(e) => return (Err(e), None),
            Ok(Some((username, password))) => {
                return (Ok(Config { base_url, username, password }), None);
            },
            Ok(None) => {},
        }
        let username = match from_file {
            Some(c) => match &c.username {
                Some(u) => copy_string(u),
                None => return (Err(SkyTabError::MissingCredentials), None),
            },
            None => return (Err(SkyTabError::MissingCredentials), None),
        };
        let resolved = resolve_persisted_password(
            base_url.as_str(),
            username.as_str(),
            from_file,
            mode,
            backend_supported,
        );
        let ghost res = resolved;
        assert(persisted_resolution(mode, from_file, res));
        assert(!backend_supported ==> resolution_without_backend(mode, from_file, res));
        match resolved.password {
            Ok(password) => (Ok(Config { base_url, username, password }), resolved.rewrite),
            Err(e) => (Err(e), resolved.rewrite),
        }
    }
}

/// The default location: `SKYTAB_DEFAULT_LOCATION_ID` when it parses as an
/// integer, else the config file's.
pub open spec fn default_location_of(env_value: Option<Seq<char>>, file_id: Option<i64>) -> Option<
    i64,
> {
    match env_value {
        Some(v) => match parse_i64(v) {
            Some(id) => Some(id),
            None => file_id,
        },
        None => file_id,
    }
}

/// `get_default_location_id`, given the environment value and the file.
pub fn get_default_location_id(env_value: Option<&str>, from_file: Option<&FileConfig>) -> (r:
    Option<i64>)
    ensures
        r == default_location_of(
            match env_value {
                Some(v) => Some(v@),
                None => None,
            },
            match from_file {
                Some(c) => c.default_location_id,
                None => None,
            },
        ),
{
    let file_id = match from_file {
        Some(c) => c.default_location_id,
        None => None,
    };
    match env_value {
        Some(v) => {
            let chars = chars_of(v);
            match parse_i64_chars(&chars) {
                Some(id) => Some(id),
                None => file_id,
            }
        },
        None => file_id,
    }
}

/// The config file with its default location set (or cleared).
pub fn with_default_location(existing: FileConfig, location_id: Option<i64>) -> (r: FileConfig)
    ensures
        r.default_location_id == location_id,
        r.base_url == existing.base_url,
        r.username == existing.username,
        r.password == existing.password,
{
    FileConfig { default_location_id: location_id, ..existing }
}

/// `c` is the config file `existing` with the username `username` (and the
/// base URL `base_url`, when given) recorded, and the password `password`
/// kept only when it was stored in the config file.
pub open spec fn records_credentials(
    c: FileConfig,
    existing: FileConfig,
    username: Seq<char>,
    password: Seq<char>,
    base_url: Option<Seq<char>>,
    storage: PasswordStorage,
) -> bool {
    &&& opt_text(c.username) == Some(username)
    &&& opt_text(c.base_url) == match base_url {
        Some(b) => Some(b),
        None => opt_text(existing.base_url),
    }
    &&& c.default_location_id == existing.default_location_id
    &&& match storage {
        PasswordStorage::Keyring => c.password is None,
        PasswordStorage::ConfigFile => opt_text(c.password) == Some(password),
    }
}

/// The config file once the password's storage is known (see
/// [`records_credentials`]).
pub fn credentials_with_storage(
    existing: FileConfig,
    username: String,
    password: String,
    base_url: Option<String>,
    storage: PasswordStorage,
) -> (r: FileConfig)
    ensures
        records_credentials(r, existing, username@, password@, opt_text(base_url), storage),
{
    let base = match base_url {
        Some(b) => Some(b),
        None => existing.base_url,
    };
    let kept = match storage {
        PasswordStorage::Keyring => None,
        PasswordStorage::ConfigFile => Some(password),
    };
    FileConfig {
        base_url: base,
        username: Some(username),
        password: kept,
        default_location_id: existing.default_location_id,
    }
}

/// Saving credentials, up to writing the file: the password stored by
/// [`store_password`] against the resulting base URL, then the file from
/// [`credentials_with_storage`]: in `config` mode the password stays in the
/// file, in `keyring` mode it leaves it (or the keyring's error is
/// returned), in `auto` mode it stays only when the keyring refused it.
pub fn credentials_file_update(
    existing: FileConfig,
    username: String,
    password: String,
    base_url: Option<String>,
    mode: CredentialStoreMode,
    backend_supported: bool,
) -> (r: Result<FileConfig, SkyTabError>)
    ensures
        r matches Ok(c) ==> exists|storage: PasswordStorage| #[trigger]
            records_credentials(c, existing, username@, password@, opt_text(base_url), storage)
            && (mode == CredentialStoreMode::Config ==> storage == PasswordStorage::ConfigFile)
            && (mode == CredentialStoreMode::Keyring ==> storage == PasswordStorage::Keyring),
        mode != CredentialStoreMode::Keyring ==> r is Ok,
        r matches Err(e) ==> mode == CredentialStoreMode::Keyring && e matches SkyTabError::CredentialStore(_),
        !backend_supported && mode == CredentialStoreMode::Auto ==> (r matches Ok(c)
            && records_credentials(
            c,
            existing,
            username@,
            password@,
            opt_text(base_url),
            PasswordStorage::ConfigFile,
        )),
        !backend_supported && mode == CredentialStoreMode::Keyring ==> (r matches Err(
            SkyTabError::CredentialStore(m),
        ) && m@ == keyring_unavailable_message()),
{
    let resolved = match &base_url {
        Some(b) => copy_string(b),
        None => match &existing.base_url {
            Some(b) => copy_string(b),
            None => String::from_str(DEFAULT_BASE_URL),
        },
    };
    let storage = match store_password(
        resolved.as_str(),
        username.as_str(),
        password.as_str(),
        mode,
        backend_supported,
    ) {
        Ok(s) => s,
        Err(e) => return Err(e),
    };
    let ghost (e0, u0, p0, b0) = (existing, username@, password@, opt_text(base_url));
    let c = credentials_with_storage(existing, username, password, base_url, storage);
    assert(records_credentials(c, e0, u0, p0, b0, storage));
    Ok(c)
}

/// Whether the keyring can be read, and whether it holds a password, as
/// `credential_storage_diagnostics` reports them: without a backend,
/// neither; without a username, readable and empty; else as the lookup
/// went.
pub fn keyring_state(
    backend_supported: bool,
    has_username: bool,
    lookup: Option<Result<Option<String>, String>>,
) -> (r: (bool, bool))
    ensures
        !backend_supported ==> r == (false, false),
        backend_supported && !has_username ==> r == (true, false),
        backend_supported && has_username ==> match lookup {
            Some(Ok(Some(_))) => r == (true, true),
            Some(Ok(None)) => r == (true, false),
            Some(Err(_)) => r == (false, false),
            None => r == (false, false),
        },
{
    if !backend_supported {
        (false, false)
    } else if !has_username {
        (true, false)
    } else {
        match lookup {
            Some(Ok(Some(_))) => (true, true),
            Some(Ok(None)) => (true, false),
            _ => (false, false),
        }
    }
}

/// `credential_storage_diagnostics`, given the environment values and the
/// config file; the keyring is asked for the username of the environment,
/// else the file's.
pub fn credential_storage_diagnostics(
    base_url_override: Option<String>,
    env_base_url: Option<String>,
    env_username: Option<String>,
    from_file: Option<&FileConfig>,
    mode: CredentialStoreMode,
    backend_supported: bool,
) -> (r: CredentialStorageDiagnostics)
    ensures
        r.mode@ == mode_name(mode),
        r.keyring_supported == backend_supported,
        r.username_present == (env_username is Some || file_field(
            from_file,
            |f: FileConfig| f.username,
        ) is Some),
        r.config_password_present == (file_password(from_file) is Some),
        !backend_supported ==> !r.keyring_accessible && !r.keyring_password_present,
        backend_supported && !r.username_present ==> r.keyring_accessible
            && !r.keyring_password_present,
        r.keyring_password_present ==> r.keyring_accessible,
{
    let base_url = resolve_base_url(base_url_override, env_base_url, from_file);
    let username: Option<String> = match env_username {
        Some(u) => Some(u),
        None => match from_file {
            Some(c) => match &c.username {
                Some(u) => Some(copy_string(u)),
                None => None,
            },
            None => None,
        },
    };
    let lookup = if backend_supported {
        match &username {
            Some(u) => Some(load_password_from_keyring(base_url.as_str(), u.as_str(), true)),
            None => None,
        }
    } else {
        None
    };
    let (accessible, present) = keyring_state(backend_supported, username.is_some(), lookup);
    let config_password_present = legacy_file_password(from_file).is_some();
    CredentialStorageDiagnostics {
        mode: String::from_str(mode.as_str()),
        keyring_supported: backend_supported,
        keyring_accessible: accessible,
        keyring_password_present: present,
        config_password_present,
        username_present: username.is_some(),
    }
}

/// `dirs::config_dir()`: the platform's configuration directory, which
/// depends on the environment; nothing is stated of it.
#[verifier::external_body]
fn platform_config_dir() -> (r: Option<PathBuf>) {
    dirs::config_dir()
}

/// `<config dir>/<app dir>/config.toml`, with `.config` when the platform
/// has no configuration directory.
fn config_path_in(app_dir: &str) -> (r: PathBuf)
    ensures
        plain_component(app_dir@) ==> exists|dir: Option<PathBuf>| #[trigger]
            located_parts(dir, ".config"@, app_dir@, "config.toml"@) == path_parts(r),
        plain_component(app_dir@) ==> ends_with_parts(
            path_parts(r),
            seq![app_dir@, "config.toml"@],
        ),
{
    let dir = platform_config_dir();
    let ghost d = dir;
    proof {
        reveal_strlit(".config");
        reveal_strlit("config.toml");
        assert(".config"@.len() == 7);
        assert("config.toml"@.len() == 11);
        assert(plain_component(".config"@));
        assert(plain_component("config.toml"@));
    }
    let r = located_path(dir, ".config", app_dir, "config.toml");
    proof {
        if plain_component(app_dir@) {
            let parts = path_parts(r);
            assert(located_parts(d, ".config"@, app_dir@, "config.toml"@) == parts);
            assert(parts.subrange(parts.len() - 2, parts.len() as int) =~= seq![
                app_dir@,
                "config.toml"@,
            ]);
        }
    }
    r
}

/// The config file: `<config dir>/skytab/config.toml`.
pub fn current_config_file_path() -> (r: PathBuf)
    ensures
        ends_with_parts(path_parts(r), seq!["skytab"@, "config.toml"@]),
        exists|dir: Option<PathBuf>| #[trigger]
            located_parts(dir, ".config"@, "skytab"@, "config.toml"@) == path_parts(r),
{
    proof {
        reveal_strlit("skytab");
        assert("skytab"@.len() == 6);
        assert(plain_component("skytab"@));
    }
    config_path_in("skytab")
}

/// The config file of earlier releases: `<config dir>/skytab-cli/config.toml`.
pub fn legacy_config_file_path() -> (r: PathBuf)
    ensures
        ends_with_parts(path_parts(r), seq!["skytab-cli"@, "config.toml"@]),
        exists|dir: Option<PathBuf>| #[trigger]
            located_parts(dir, ".config"@, "skytab-cli"@, "config.toml"@) == path_parts(r),
{
    proof {
        reveal_strlit("skytab-cli");
        assert("skytab-cli"@.len() == 10);
        assert(plain_component("skytab-cli"@));
    }
    config_path_in("skytab-cli")
}

proof fn lemma_word_is_own_setting(w: Seq<char>)
    requires
        w.len() > 0,
        forall|i: int| 0 <= i < w.len() ==> 'a' <= #[trigger] w[i] && w[i] <= 'z',
    ensures
        lower(trim(w)) == w,
{
    assert(!crate::text::is_ws(w[0]));
    assert(!crate::text::is_ws(w.last()));
    crate::text::lemma_trim_fixed(w);
    assert(lower(w) =~= w);
}

/// The name of a mode, read back as a setting, is that mode.
pub proof fn law_mode_name_round_trip(m: CredentialStoreMode)
    ensures
        mode_of(Some(mode_name(m))) == m,
{
    reveal_strlit("auto");
    reveal_strlit("keyring");
    reveal_strlit("config");
    lemma_word_is_own_setting(mode_name(m));
}

/// A trailing slash on the base URL does not change the keyring account.
pub proof fn law_account_ignores_trailing_slash(base_url: Seq<char>, username: Seq<char>)
    ensures
        account_of(base_url.push('/'), username) == account_of(base_url, username),
{
    crate::text::lemma_trim_end_char_push(base_url, '/');
}

} // verus!
