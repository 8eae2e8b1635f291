//! The auth-token cache: where it lives and when a cached token is still
//! good. Reading and writing the cache file is done by the caller.

use vstd::prelude::*;
use std::path::PathBuf;
use crate::paths::{
    clone_path, ends_with_parts, located_parts, located_path, path_parts, plain_component,
};

verus! {

/// Hours a cached token stays valid.
pub const TOKEN_TTL_HOURS: i64 = 24;

/// Where the auth token is cached, and for how long.
pub struct TokenCache {
    path: PathBuf,
    ttl_hours: i64,
}

/// `dirs::cache_dir()`: the platform's cache directory, which depends on the
/// environment; nothing is stated of it.
#[verifier::external_body]
fn platform_cache_dir() -> (r: Option<PathBuf>) {
    dirs::cache_dir()
}

/// `<cache dir>/<app dir>/token.json`, with `.cache` when the platform has
/// no cache directory.
fn cache_path_in(app_dir: &str) -> (r: PathBuf)
    ensures
        plain_component(app_dir@) ==> exists|dir: Option<PathBuf>| #[trigger]
            located_parts(dir, ".cache"@, app_dir@, "token.json"@) == path_parts(r),
        plain_component(app_dir@) ==> ends_with_parts(
            path_parts(r),
            seq![app_dir@, "token.json"@],
        ),
{
    let dir = platform_cache_dir();
    let ghost d = dir;
    proof {
        reveal_strlit(".cache");
        reveal_strlit("token.json");
        assert(".cache"@.len() == 6);
        assert("token.json"@.len() == 10);
        assert(plain_component(".cache"@));
        assert(plain_component("token.json"@));
    }
    let r = located_path(dir, ".cache", app_dir, "token.json");
    proof {
        if plain_component(app_dir@) {
            let parts = path_parts(r);
            assert(located_parts(d, ".cache"@, app_dir@, "token.json"@) == parts);
            assert(parts.subrange(parts.len() - 2, parts.len() as int) =~= seq![
                app_dir@,
                "token.json"@,
            ]);
        }
    }
    r
}

impl TokenCache {
    /// The path of the cache file.
    pub closed spec fn file(self) -> PathBuf {
        self.path
    }

    /// Hours a token written now stays valid.
    pub closed spec fn ttl(self) -> i64 {
        self.ttl_hours
    }

    /// The cache at `<cache dir>/skytab/token.json`, valid for a day.
    pub fn new() -> (r: Self)
        ensures
            r.ttl() == TOKEN_TTL_HOURS,
            ends_with_parts(path_parts(r.file()), seq!["skytab"@, "token.json"@]),
            exists|dir: Option<PathBuf>| #[trigger]
                located_parts(dir, ".cache"@, "skytab"@, "token.json"@) == path_parts(r.file()),
    {
        proof {
            reveal_strlit("skytab");
            assert("skytab"@.len() == 6);
            assert(plain_component("skytab"@));
        }
        TokenCache { path: cache_path_in("skytab"), ttl_hours: TOKEN_TTL_HOURS }
    }

    /// A cache at a given path with a given lifetime.
    pub fn with_path(path: PathBuf, ttl_hours: i64) -> (r: Self)
        ensures
            r.file() == path,
            r.ttl() == ttl_hours,
    {
        TokenCache { path, ttl_hours }
    }

    /// The path of the cache file.
    pub fn path(&self) -> (r: PathBuf)
        ensures
            r == self.file(),
    {
        clone_path(&self.path)
    }

    /// Hours a token written now stays valid.
    pub fn ttl_hours(&self) -> (r: i64)
        ensures
            r == self.ttl(),
    {
        self.ttl_hours
    }

    /// The cache file of earlier releases: `<cache dir>/skytab-cli/token.json`.
    pub fn legacy_path() -> (r: PathBuf)
        ensures
            ends_with_parts(path_parts(r), seq!["skytab-cli"@, "token.json"@]),
            exists|dir: Option<PathBuf>| #[trigger]
                located_parts(dir, ".cache"@, "skytab-cli"@, "token.json"@) == path_parts(r),
    {
        proof {
            reveal_strlit("skytab-cli");
            assert("skytab-cli"@.len() == 10);
            assert(plain_component("skytab-cli"@));
        }
        cache_path_in("skytab-cli")
    }
}

/// An instant as whole seconds since the epoch and nanoseconds.
pub open spec fn instant_after(a: (i64, u32), b: (i64, u32)) -> bool {
    a.0 > b.0 || (a.0 == b.0 && a.1 > b.1)
}

/// A cached token once its record is read: the token while it has not
/// expired (`expires_at` later than `now`).
pub fn unexpired_token(token: String, expires_at: (i64, u32), now: (i64, u32)) -> (r: Option<
    String,
>)
    ensures
        instant_after(expires_at, now) ==> r == Some(token),
        !instant_after(expires_at, now) ==> r is None,
{
    if expires_at.0 > now.0 || (expires_at.0 == now.0 && expires_at.1 > now.1) {
        Some(token)
    } else {
        None
    }
}

/// The instant `ttl_hours` hours after `now`.
pub open spec fn expiry_of(now: (i64, u32), ttl_hours: i64) -> (int, u32) {
    (now.0 + ttl_hours * 3600, now.1)
}

/// An instant `a` (seconds, nanoseconds) strictly before `b`.
pub open spec fn earlier_than(a: (i64, u32), b: (int, u32)) -> bool {
    a.0 < b.0 || (a.0 == b.0 && a.1 < b.1)
}

/// The expiry stamped on a token saved at `now` into a cache whose tokens
/// live `ttl_hours` hours.
pub fn token_expiry(now: (i64, u32), ttl_hours: i64) -> (r: (i64, u32))
    requires
        i64::MIN <= ttl_hours * 3600 <= i64::MAX,
        i64::MIN <= now.0 + ttl_hours * 3600 <= i64::MAX,
    ensures
        r.0 == expiry_of(now, ttl_hours).0,
        r.1 == now.1,
{
    (now.0 + ttl_hours * 3600, now.1)
}

/// A token saved at `saved` into a cache whose tokens live `ttl_hours`
/// hours is handed back by [`unexpired_token`] at `later` exactly when
/// `later` comes before `saved` plus that many hours.
pub proof fn law_token_valid_for_ttl(saved: (i64, u32), ttl_hours: i64, later: (i64, u32))
    requires
        i64::MIN <= saved.0 + ttl_hours * 3600 <= i64::MAX,
    ensures
        instant_after(((saved.0 + ttl_hours * 3600) as i64, saved.1), later) <==> earlier_than(
            later,
            expiry_of(saved, ttl_hours),
        ),
{
}

} // verus!
