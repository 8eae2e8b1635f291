//! The library's error type and its messages.

use vstd::prelude::*;
use crate::text::{append_chars, chars_of, nat_text, string_of, u64_text};

verus! {

/// Everything that can go wrong in the client.
///
/// Errors raised by I/O, HTTP, JSON and TOML handling carry the message of
/// the underlying error.
pub enum SkyTabError {
    MissingCredentials,
    MissingCredentialsForAuthRefresh,
    PartialEnvCredentials,
    PartialEnvCredentialsForAuthRefresh,
    CredentialStore(String),
    CredentialStoreForAuthRefresh(String),
    Io(String),
    Http(String),
    Json(String),
    TomlDe(String),
    TomlSer(String),
    Api { status: u16, body: String },
    InvalidArgument(String),
}

/// The text of an error as it is shown to a user.
pub open spec fn error_message(e: SkyTabError) -> Seq<char> {
    match e {
        SkyTabError::MissingCredentials => "missing SKYTAB_USERNAME or SKYTAB_PASSWORD"@,
        SkyTabError::MissingCredentialsForAuthRefresh =>
            "cached auth token is missing or expired and credentials are unavailable"@,
        SkyTabError::PartialEnvCredentials => "set both SKYTAB_USERNAME and SKYTAB_PASSWORD"@,
        SkyTabError::PartialEnvCredentialsForAuthRefresh =>
            "cached auth token is missing or expired and env credentials are incomplete"@,
        SkyTabError::CredentialStore(m) => "credential store error: "@ + m@,
        SkyTabError::CredentialStoreForAuthRefresh(m) =>
            "cached auth token is missing or expired and credential store lookup failed: "@ + m@,
        SkyTabError::Io(m) => "io error: "@ + m@,
        SkyTabError::Http(m) => "http error: "@ + m@,
        SkyTabError::Json(m) => "json error: "@ + m@,
        SkyTabError::TomlDe(m) => "toml deserialize error: "@ + m@,
        SkyTabError::TomlSer(m) => "toml serialize error: "@ + m@,
        SkyTabError::Api { status, body } => "api error "@ + nat_text(status as nat) + ": "@
            + body@,
        SkyTabError::InvalidArgument(m) => "invalid argument: "@ + m@,
    }
}

/// Concatenation of a literal prefix and a text.
pub fn prefixed(prefix: &str, rest: &str) -> (r: String)
    ensures
        r@ == prefix@ + rest@,
{
    let mut out = chars_of(prefix);
    let tail = chars_of(rest);
    append_chars(&mut out, &tail);
    string_of(&out)
}

impl SkyTabError {
    /// The text of the error, as `Display` shows it.
    pub fn message(&self) -> (r: String)
        ensures
            r@ == error_message(*self),
    {
        match self {
            SkyTabError::MissingCredentials => String::from_str(
                "missing SKYTAB_USERNAME or SKYTAB_PASSWORD",
            ),
            SkyTabError::MissingCredentialsForAuthRefresh => String::from_str(
                "cached auth token is missing or expired and credentials are unavailable",
            ),
            SkyTabError::PartialEnvCredentials => String::from_str(
                "set both SKYTAB_USERNAME and SKYTAB_PASSWORD",
            ),
            SkyTabError::PartialEnvCredentialsForAuthRefresh => String::from_str(
                "cached auth token is missing or expired and env credentials are incomplete",
            ),
            SkyTabError::CredentialStore(m) => prefixed("credential store error: ", m.as_str()),
            SkyTabError::CredentialStoreForAuthRefresh(m) => prefixed(
                "cached auth token is missing or expired and credential store lookup failed: ",
                m.as_str(),
            ),
            SkyTabError::Io(m) => prefixed("io error: ", m.as_str()),
            SkyTabError::Http(m) => prefixed("http error: ", m.as_str()),
            SkyTabError::Json(m) => prefixed("json error: ", m.as_str()),
            SkyTabError::TomlDe(m) => prefixed("toml deserialize error: ", m.as_str()),
            SkyTabError::TomlSer(m) => prefixed("toml serialize error: ", m.as_str()),
            SkyTabError::Api { status, body } => {
                let mut out = chars_of("api error ");
                let digits = u64_text(*status as u64);
                append_chars(&mut out, &digits);
                let sep = chars_of(": ");
                append_chars(&mut out, &sep);
                let b = chars_of(body.as_str());
                append_chars(&mut out, &b);
                string_of(&out)
            },
            SkyTabError::InvalidArgument(m) => prefixed("invalid argument: ", m.as_str()),
        }
    }
}

} // verus!
