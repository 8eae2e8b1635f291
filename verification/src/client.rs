//! The decisions of the HTTP client: request URLs, the login body and its
//! answer, retries with exponential backoff, the one token refresh after a
//! `401`, and the errors of a refresh. The requests themselves are sent by
//! the caller.

use vstd::prelude::*;
use crate::error::SkyTabError;
use crate::json::{get_member, Json};
use crate::read_api::invalid_argument;
use crate::requests::is_text;
use crate::text::{append_chars, chars_of, str_eq, string_of, trim_end_char, trim_end_char_of};

verus! {

/// The URL of an API path: the base URL without trailing slashes, then the
/// path.
pub open spec fn url_of(base_url: Seq<char>, path: Seq<char>) -> Seq<char> {
    trim_end_char(base_url, '/') + path
}

/// Executable [`url_of`].
pub fn request_url(base_url: &str, path: &str) -> (r: String)
    ensures
        r@ == url_of(base_url@, path@),
{
    let b = chars_of(base_url);
    let mut out = trim_end_char_of(&b, '/');
    let p = chars_of(path);
    append_chars(&mut out, &p);
    string_of(&out)
}

/// The login endpoint.
pub open spec fn auth_path() -> Seq<char> {
    "/api/v1/auth/authenticate"@
}

/// The body of a login: `{"email": username, "password": password}`.
pub fn auth_payload(username: String, password: String) -> (r: Json)
    ensures
        match r {
            Json::Object(m) => m@.len() == 2 && m@[0].0@ == "email"@ && is_text(
                m@[0].1,
                username@,
            ) && m@[1].0@ == "password"@ && is_text(m@[1].1, password@),
            _ => false,
        },
{
    let mut m: Vec<(String, Json)> = Vec::new();
    m.push((String::from_str("email"), Json::Str(username)));
    m.push((String::from_str("password"), Json::Str(password)));
    proof {
        reveal_strlit("email");
        reveal_strlit("password");
    }
    Json::Object(m)
}

/// The token of a login answer: its `token` member, which must be a string.
pub fn auth_token(answer: &Json) -> (r: Result<String, SkyTabError>)
    ensures
        match crate::json::member(*answer, "token"@) {
            Some(Json::Str(t)) => r matches Ok(x) && x@ == t@,
            _ => r matches Err(SkyTabError::InvalidArgument(m)) && m@
                == "missing token in auth response"@,
        },
{
    match get_member(answer, "token") {
        Some(Json::Str(t)) => Ok(String::from_str(t.as_str())),
        _ => {
            let m = chars_of("missing token in auth response");
            Err(invalid_argument(&m))
        },
    }
}

/// Retries after the first attempt of a request.
pub const MAX_RETRIES: u32 = 5;

/// Statuses worth retrying: 429 and every 5xx.
pub open spec fn retryable(status: u16) -> bool {
    status == 429 || (500 <= status && status <= 599)
}

/// Executable [`retryable`].
pub fn is_retryable_status(status: u16) -> (r: bool)
    ensures
        r == retryable(status),
{
    status == 429 || (500 <= status && status <= 599)
}

/// 2 to the power `n`.
pub open spec fn pow2(n: nat) -> nat
    decreases n,
{
    if n == 0 {
        1
    } else {
        2 * pow2((n - 1) as nat)
    }
}

/// What to do with the answer to attempt `attempt` (from 0).
pub enum ResponseAction {
    /// A 2xx answer: read its body.
    Accept,
    /// Wait this many milliseconds, then try again.
    RetryAfter(u64),
    /// Give up with an API error.
    Fail,
}

/// The action for a status: 2xx is accepted; a retryable status before the
/// last attempt is retried after `500 * 2^attempt` ms; anything else fails.
pub open spec fn action_for(status: u16, attempt: u32) -> ResponseAction {
    if 200 <= status && status <= 299 {
        ResponseAction::Accept
    } else if retryable(status) && attempt < MAX_RETRIES {
        ResponseAction::RetryAfter((pow2(attempt as nat) * 500) as u64)
    } else {
        ResponseAction::Fail
    }
}

/// Executable [`action_for`].
pub fn response_action(status: u16, attempt: u32) -> (r: ResponseAction)
    ensures
        r == action_for(status, attempt),
{
    if 200 <= status && status <= 299 {
        ResponseAction::Accept
    } else if is_retryable_status(status) && attempt < MAX_RETRIES {
        let mut d: u64 = 500;
        let mut k: u32 = 0;
        while k < attempt
            invariant
                k <= attempt < MAX_RETRIES,
                d == pow2(k as nat) * 500,
            decreases attempt - k,
        {
            proof {
                assert(pow2((k + 1) as nat) == 2 * pow2(k as nat));
                assert(pow2(k as nat) <= 16) by {
                    lemma_pow2_small(k as nat);
                }
            }
            d = d * 2;
            k = k + 1;
        }
        ResponseAction::RetryAfter(d)
    } else {
        ResponseAction::Fail
    }
}

proof fn lemma_pow2_small(n: nat)
    requires
        n < 5,
    ensures
        pow2(n) <= 16,
{
    assert(pow2(0) == 1);
    assert(pow2(1) == 2);
    assert(pow2(2) == 4);
    assert(pow2(3) == 8);
    assert(pow2(4) == 16);
}

/// The error of a failed answer.
pub fn api_error(status: u16, body: String) -> (r: SkyTabError)
    ensures
        r matches SkyTabError::Api { status: s, body: b } && s == status && b == body,
{
    SkyTabError::Api { status, body }
}

/// Whether an error is the `401` after which the token is refreshed and the
/// request tried once more.
pub fn is_unauthorized(err: &SkyTabError) -> (r: bool)
    ensures
        r == (*err matches SkyTabError::Api { status, .. } && status == 401),
{
    match err {
        SkyTabError::Api { status, .. } => *status == 401,
        _ => false,
    }
}

/// After a `401`: a cached token other than the rejected one was refreshed
/// meanwhile and is used; else a new login is needed (`None`).
pub fn token_after_unauthorized(cached: Option<String>, rejected_token: &str) -> (r: Option<
    String,
>)
    ensures
        match cached {
            Some(t) => if t@ != rejected_token@ {
                r == Some(t)
            } else {
                r is None
            },
            None => r is None,
        },
{
    match cached {
        Some(t) => if str_eq(t.as_str(), rejected_token) {
            None
        } else {
            Some(t)
        },
        None => None,
    }
}

/// The error of a credentials lookup made to refresh a token, reworded to
/// say that the cached token could not be renewed; other errors are kept.
pub open spec fn auth_resolution_error(err: SkyTabError) -> SkyTabError {
    match err {
        SkyTabError::MissingCredentials => SkyTabError::MissingCredentialsForAuthRefresh,
        SkyTabError::PartialEnvCredentials => SkyTabError::PartialEnvCredentialsForAuthRefresh,
        SkyTabError::CredentialStore(m) => SkyTabError::CredentialStoreForAuthRefresh(m),
        other => other,
    }
}

/// Executable [`auth_resolution_error`].
pub fn map_auth_resolution_error(err: SkyTabError) -> (r: SkyTabError)
    ensures
        r == auth_resolution_error(err),
{
    match err {
        SkyTabError::MissingCredentials => SkyTabError::MissingCredentialsForAuthRefresh,
        SkyTabError::PartialEnvCredentials => SkyTabError::PartialEnvCredentialsForAuthRefresh,
        SkyTabError::CredentialStore(m) => SkyTabError::CredentialStoreForAuthRefresh(m),
        other => other,
    }
}

/// Rewording the error of a refresh twice gives the same error as once.
pub proof fn law_auth_resolution_error_idempotent(err: SkyTabError)
    ensures
        auth_resolution_error(auth_resolution_error(err)) == auth_resolution_error(err),
{
}

/// A request is tried at most `MAX_RETRIES + 1` times: the last attempt is
/// never retried, whatever the status.
pub proof fn law_retries_are_bounded(status: u16, attempt: u32)
    requires
        attempt >= MAX_RETRIES,
    ensures
        !(action_for(status, attempt) is RetryAfter),
{
}

/// The wait before each further attempt is twice the wait before the
/// previous one.
pub proof fn law_backoff_doubles(status: u16, attempt: u32)
    requires
        retryable(status),
        attempt + 1 < MAX_RETRIES,
    ensures
        action_for(status, attempt) matches ResponseAction::RetryAfter(a) && action_for(
            status,
            (attempt + 1) as u32,
        ) matches ResponseAction::RetryAfter(b) && b == 2 * a,
{
    lemma_pow2_small(attempt as nat);
    lemma_pow2_small((attempt + 1) as nat);
    assert(pow2((attempt + 1) as nat) == 2 * pow2(attempt as nat));
}

/// Where an authenticated request stands.
pub enum AuthedPhase {
    /// Sent with the token at hand.
    First,
    /// Sent again after a refresh of the token.
    AfterRefresh,
}

/// What to do after an authenticated request was answered.
pub enum AuthedStep {
    /// Hand the answer (or its error) to the caller.
    Finish,
    /// Refresh the token and send the request again.
    RefreshAndRetry,
}

/// An authenticated request: a `401` to the first attempt leads to one refresh
/// and one more attempt; every other answer, and any answer after the
/// refresh, is final.
pub open spec fn authed_step_of(phase: AuthedPhase, unauthorized: bool) -> AuthedStep {
    match phase {
        AuthedPhase::First => if unauthorized {
            AuthedStep::RefreshAndRetry
        } else {
            AuthedStep::Finish
        },
        AuthedPhase::AfterRefresh => AuthedStep::Finish,
    }
}

/// Executable [`authed_step_of`], given the outcome of the attempt.
pub fn authed_step<T>(phase: AuthedPhase, outcome: &Result<T, SkyTabError>) -> (r: AuthedStep)
    ensures
        r == authed_step_of(
            phase,
            outcome matches Err(SkyTabError::Api { status, .. }) && status == 401,
        ),
{
    let unauthorized = match outcome {
        Err(e) => is_unauthorized(e),
        Ok(_) => false,
    };
    match phase {
        AuthedPhase::First => if unauthorized {
            AuthedStep::RefreshAndRetry
        } else {
            AuthedStep::Finish
        },
        AuthedPhase::AfterRefresh => AuthedStep::Finish,
    }
}

/// The token is refreshed at most once per request: after a refresh every
/// answer is final.
pub proof fn law_single_refresh(unauthorized: bool)
    ensures
        authed_step_of(AuthedPhase::AfterRefresh, unauthorized) == AuthedStep::Finish,
        authed_step_of(AuthedPhase::First, unauthorized) == (if unauthorized {
            AuthedStep::RefreshAndRetry
        } else {
            AuthedStep::Finish
        }),
{
}

/// A trailing slash on the base URL does not change the URL of a request.
pub proof fn law_url_ignores_trailing_slash(base_url: Seq<char>, path: Seq<char>)
    ensures
        url_of(base_url.push('/'), path) == url_of(base_url, path),
{
    crate::text::lemma_trim_end_char_push(base_url, '/');
}

} // verus!
