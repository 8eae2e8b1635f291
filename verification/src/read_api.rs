//! The read-only API core shared by the command-line tool and the MCP
//! server: argument checks, location and time-range resolution, request
//! payloads and pagination, and the reading of report rows.

use vstd::prelude::*;
use crate::csv::{insert_sorted, lemma_sorted_unique, strictly_sorted, texts};
use crate::error::SkyTabError;
use crate::json::{get_member, member, path_value, value_at_path, Json};
use crate::text::{
    append_chars, chars_eq, chars_of, contains_char, find_first, i64_text, int_text, is_digit,
    join, join_chars, lower, split_once, split_once_chars, string_of, trim, trim_chars, upper,
    upper_chars, views,
};
use crate::time::{
    calendar_date, local_time_to_utc, local_to_utc_text, parse_calendar_date, timezone_known,
    tz_known,
};

verus! {

/// The token returned by a login.
pub struct AuthLoginResponse {
    pub token: String,
}

/// A location of the account.
pub struct Location {
    pub id: i64,
    pub name: String,
    pub timezone: Option<String>,
    pub merchant_id: Option<String>,
}

/// The configured default location.
pub struct DefaultLocationResponse {
    pub default_location_id: Option<i64>,
    pub configured: bool,
}

/// Hourly sales rows: date, hour, gross, net.
pub struct HourlySalesResponse {
    pub rows: Vec<[String; 4]>,
}

/// Account preferences.
pub struct AccountPreferencesResponse {
    pub eod: String,
    pub time_zone: String,
    pub week_start: Option<i64>,
}

/// One diagnostic check.
pub struct DoctorCheck {
    pub name: String,
    pub ok: bool,
    pub detail: String,
}

/// All diagnostic checks, and whether every one passed.
pub struct DoctorReport {
    pub ok: bool,
    pub checks: Vec<DoctorCheck>,
}

/// Entry point of the read-only operations.
pub struct ReadApi {
    pub base_url: Option<String>,
}

impl ReadApi {
    /// A read API that talks to `base_url` (or the configured one when `None`).
    pub fn new(base_url: Option<String>) -> (r: Self)
        ensures
            r.base_url == base_url,
    {
        ReadApi { base_url }
    }
}

/// The answer to `locations show-default`.
pub fn default_location_response(default_location_id: Option<i64>) -> (r: DefaultLocationResponse)
    ensures
        r.default_location_id == default_location_id,
        r.configured == default_location_id is Some,
{
    DefaultLocationResponse { default_location_id, configured: default_location_id.is_some() }
}

/// An `InvalidArgument` error with the given text.
pub fn invalid_argument(message: &Vec<char>) -> (e: SkyTabError)
    ensures
        e matches SkyTabError::InvalidArgument(m) && m@ == message@,
{
    SkyTabError::InvalidArgument(string_of(message))
}

/// Index of the first text that lacks `c`.
pub open spec fn first_without(parts: Seq<Seq<char>>, c: char) -> Option<int>
    decreases parts.len(),
{
    if parts.len() == 0 {
        None
    } else if !parts[0].contains(c) {
        Some(0)
    } else {
        match first_without(parts.drop_first(), c) {
            Some(i) => Some(i + 1),
            None => None,
        }
    }
}

proof fn lemma_first_without(parts: Seq<Seq<char>>, c: char, i: int)
    requires
        0 <= i <= parts.len(),
        forall|k: int| 0 <= k < i ==> (#[trigger] parts[k]).contains(c),
    ensures
        i < parts.len() && !parts[i].contains(c) ==> first_without(parts, c) == Some(i),
        i == parts.len() ==> first_without(parts, c) is None,
    decreases i,
{
    if i > 0 {
        let t = parts.drop_first();
        assert forall|k: int| 0 <= k < i - 1 implies (#[trigger] t[k]).contains(c) by {
            assert(t[k] == parts[k + 1]);
        }
        if i < parts.len() {
            assert(t[i - 1] == parts[i]);
        }
        lemma_first_without(t, c, i - 1);
    }
}

/// The message for a `--query` value without `=`.
pub open spec fn bad_query_message(part: Seq<char>) -> Seq<char> {
    "invalid --query value '"@ + part + "', expected key=value"@
}

/// `parse_query`: each `key=value` split at its first `=`; the first value
/// without `=` is refused.
pub fn parse_query(parts: &Vec<String>) -> (r: Result<Vec<(String, String)>, SkyTabError>)
    ensures
        match first_without(texts(parts@), '=') {
            None => r matches Ok(pairs) && pairs@.len() == parts@.len() && forall|i: int|
                0 <= i < parts@.len() ==> split_once(#[trigger] parts@[i]@, '=') == Some(
                    (pairs@[i].0@, pairs@[i].1@),
                ),
            Some(i) => r matches Err(SkyTabError::InvalidArgument(m)) && m@ == bad_query_message(
                parts@[i]@,
            ),
        },
{
    let ghost ps = texts(parts@);
    let mut out: Vec<(String, String)> = Vec::new();
    let mut i: usize = 0;
    while i < parts.len()
        invariant
            i <= parts@.len(),
            ps == texts(parts@),
            out@.len() == i,
            forall|k: int| 0 <= k < i ==> (#[trigger] ps[k]).contains('='),
            forall|k: int|
                0 <= k < i ==> split_once(#[trigger] parts@[k]@, '=') == Some(
                    (out@[k].0@, out@[k].1@),
                ),
        decreases parts@.len() - i,
    {
        let v = chars_of(parts[i].as_str());
        match split_once_chars(&v, '=') {
            Some((k, val)) => {
                proof {
                    crate::text::lemma_find_first_range(v@, '=');
                    assert(ps[i as int].contains('='));
                }
                out.push((string_of(&k), string_of(&val)));
            },
            None => {
                proof {
                    crate::text::lemma_find_first_range(v@, '=');
                    lemma_first_without(ps, '=', i as int);
                }
                let mut msg = chars_of("invalid --query value '");
                append_chars(&mut msg, &v);
                let tail = chars_of("', expected key=value");
                append_chars(&mut msg, &tail);
                return Err(invalid_argument(&msg));
            },
        }
        i = i + 1;
    }
    proof {
        lemma_first_without(ps, '=', i as int);
    }
    Ok(out)
}

/// A date without time: exactly `YYYY-MM-DD` in ASCII digits.
pub open spec fn date_only(s: Seq<char>) -> bool {
    s.len() == 10 && forall|i: int|
        0 <= i < 10 ==> (if i == 4 || i == 7 {
            #[trigger] s[i] == '-'
        } else {
            is_digit(s[i])
        })
}

/// `is_date_only`.
pub fn is_date_only(value: &str) -> (r: bool)
    ensures
        r == date_only(value@),
{
    let v = chars_of(value);
    if v.len() != 10 {
        return false;
    }
    let mut i: usize = 0;
    while i < 10
        invariant
            i <= 10,
            v@.len() == 10,
            v@ == value@,
            forall|k: int|
                0 <= k < i ==> (if k == 4 || k == 7 {
                    #[trigger] v@[k] == '-'
                } else {
                    is_digit(v@[k])
                }),
        decreases 10 - i,
    {
        let c = v[i];
        assert(value@[i as int] == c);
        if i == 4 || i == 7 {
            if c != '-' {
                return false;
            }
        } else if !('0' <= c && c <= '9') {
            return false;
        }
        i = i + 1;
    }
    true
}

/// `redact_username`: the first character of the local part kept, the rest
/// of it masked, the domain kept; `***` without an `@`.
pub open spec fn redacted(u: Seq<char>) -> Seq<char> {
    match split_once(u, '@') {
        Some((local, domain)) => if local.len() == 0 {
            "***@"@ + domain
        } else {
            seq![local[0]] + "***@"@ + domain
        },
        None => "***"@,
    }
}

/// Executable [`redacted`].
pub fn redact_username(username: &str) -> (r: String)
    ensures
        r@ == redacted(username@),
{
    let v = chars_of(username);
    match split_once_chars(&v, '@') {
        Some((local, domain)) => {
            let mut out: Vec<char> = Vec::new();
            if local.len() > 0 {
                out.push(local[0]);
            }
            let mask = chars_of("***@");
            append_chars(&mut out, &mask);
            append_chars(&mut out, &domain);
            proof {
                if local@.len() > 0 {
                    assert(out@ =~= seq![local@[0]] + "***@"@ + domain@);
                } else {
                    assert(out@ =~= "***@"@ + domain@);
                }
            }
            string_of(&out)
        },
        None => String::from_str("***"),
    }
}

/// `normalize_bucket_key`: the trimmed text in ASCII uppercase, or the
/// fallback when it is absent or blank.
pub open spec fn bucket_key(value: Option<Seq<char>>, fallback: Seq<char>) -> Seq<char> {
    match value {
        Some(s) => if trim(s).len() == 0 {
            fallback
        } else {
            upper(trim(s))
        },
        None => fallback,
    }
}

/// Executable [`bucket_key`].
pub fn normalize_bucket_key(value: Option<&str>, fallback: &str) -> (r: String)
    ensures
        r@ == bucket_key(
            match value {
                Some(s) => Some(s@),
                None => None,
            },
            fallback@,
        ),
{
    match value {
        Some(s) => {
            let v = chars_of(s);
            let t = trim_chars(&v);
            if t.len() == 0 {
                String::from_str(fallback)
            } else {
                let u = upper_chars(&t);
                string_of(&u)
            }
        },
        None => String::from_str(fallback),
    }
}

/// Payment statuses that count as settled.
pub open spec fn settled_word(s: Seq<char>) -> bool {
    s == "SETTLED"@ || s == "CAPTURED"@ || s == "SUCCEEDED"@ || s == "SUCCESS"@ || s == "PAID"@
}

/// `is_settled_status`: the trimmed, uppercased status is a settled word.
pub open spec fn settled_status(status: Option<Seq<char>>) -> bool {
    match status {
        Some(s) => settled_word(upper(trim(s))),
        None => false,
    }
}

/// Executable [`settled_status`].
pub fn is_settled_status(status: Option<&str>) -> (r: bool)
    ensures
        r == settled_status(
            match status {
                Some(s) => Some(s@),
                None => None,
            },
        ),
{
    match status {
        Some(s) => {
            let v = chars_of(s);
            let t = trim_chars(&v);
            let u = upper_chars(&t);
            let w1 = chars_of("SETTLED");
            let w2 = chars_of("CAPTURED");
            let w3 = chars_of("SUCCEEDED");
            let w4 = chars_of("SUCCESS");
            let w5 = chars_of("PAID");
            chars_eq(&u, &w1) || chars_eq(&u, &w2) || chars_eq(&u, &w3) || chars_eq(&u, &w4)
                || chars_eq(&u, &w5)
        },
        None => false,
    }
}

/// `first_string_at_paths`: the trimmed text of the first path that holds a
/// string with non-blank content.
pub open spec fn first_string(v: Json, paths: Seq<Seq<char>>) -> Option<Seq<char>>
    decreases paths.len(),
{
    if paths.len() == 0 {
        None
    } else {
        match value_at_path(v, paths[0]) {
            Some(Json::Str(s)) => if trim(s@).len() > 0 {
                Some(trim(s@))
            } else {
                first_string(v, paths.drop_first())
            },
            _ => first_string(v, paths.drop_first()),
        }
    }
}

/// Executable [`first_string`].
pub fn first_string_at_paths(value: &Json, paths: &[&str]) -> (r: Option<String>)
    ensures
        match first_string(*value, paths@.map_values(|p: &str| p@)) {
            Some(t) => r matches Some(x) && x@ == t,
            None => r is None,
        },
{
    let ghost ps = paths@.map_values(|p: &str| p@);
    assert(ps.skip(0) =~= ps);
    let mut i: usize = 0;
    while i < paths.len()
        invariant
            i <= paths@.len(),
            ps == paths@.map_values(|p: &str| p@),
            first_string(*value, ps) == first_string(*value, ps.skip(i as int)),
        decreases paths@.len() - i,
    {
        proof {
            assert(ps.skip(i as int)[0] == paths@[i as int]@);
            assert(ps.skip(i as int).drop_first() =~= ps.skip(i + 1));
        }
        if let Some(Json::Str(s)) = path_value(value, paths[i]) {
            let v = chars_of(s.as_str());
            let t = trim_chars(&v);
            if t.len() > 0 {
                return Some(string_of(&t));
            }
        }
        i = i + 1;
    }
    assert(ps.skip(i as int).len() == 0);
    None
}

/// `date_only_to_utc_boundary`: the start (00:00:00) or end (23:59:59) of a
/// calendar day in a time zone, as RFC 3339 UTC text.
pub fn date_only_to_utc_boundary(date: &str, timezone: &str, is_start: bool) -> (r: Result<
    String,
    SkyTabError,
>)
    ensures
        match calendar_date(date@) {
            None => r matches Err(SkyTabError::InvalidArgument(m)) && m@ == "invalid date format: "@
                + date@,
            Some((y, mo, d)) => if !tz_known(timezone@) {
                r matches Err(SkyTabError::InvalidArgument(m)) && m@ == "invalid timezone: "@
                    + timezone@
            } else {
                match local_to_utc_text(
                    timezone@,
                    y,
                    mo,
                    d,
                    if is_start {
                        0
                    } else {
                        23
                    },
                    if is_start {
                        0
                    } else {
                        59
                    },
                    if is_start {
                        0
                    } else {
                        59
                    },
                ) {
                    Some(t) => r matches Ok(s) && s@ == t,
                    None => r matches Err(SkyTabError::InvalidArgument(m)) && m@
                        == "invalid local datetime for "@ + date@,
                }
            },
        },
{
    let parsed = parse_calendar_date(date);
    let (y, mo, d) = match parsed {
        Some(p) => p,
        None => {
            let mut msg = chars_of("invalid date format: ");
            let dv = chars_of(date);
            append_chars(&mut msg, &dv);
            return Err(invalid_argument(&msg));
        },
    };
    if !timezone_known(timezone) {
        let mut msg = chars_of("invalid timezone: ");
        let tv = chars_of(timezone);
        append_chars(&mut msg, &tv);
        return Err(invalid_argument(&msg));
    }
    let (h, mi, s) = if is_start {
        (0u32, 0u32, 0u32)
    } else {
        (23u32, 59u32, 59u32)
    };
    match local_time_to_utc(timezone, y, mo, d, h, mi, s) {
        Some(t) => Ok(t),
        None => {
            let mut msg = chars_of("invalid local datetime for ");
            let dv = chars_of(date);
            append_chars(&mut msg, &dv);
            Err(invalid_argument(&msg))
        },
    }
}

/// Whether a range needs the locations' time zone: either end is date-only.
pub fn range_needs_timezone(start: &str, end: &str) -> (r: bool)
    ensures
        r == (date_only(start@) || date_only(end@)),
{
    is_date_only(start) || is_date_only(end)
}

/// The range with each date-only end replaced by its UTC day boundary in
/// `timezone`; ends that are not date-only are kept.
pub fn normalize_range_with_timezone(start: &str, end: &str, timezone: &str) -> (r: Result<
    (String, String),
    SkyTabError,
>)
    ensures
        r matches Ok((s, e)) ==> (if date_only(start@) {
            date_only_to_utc_boundary_ok(start@, timezone@, true, s@)
        } else {
            s@ == start@
        }) && (if date_only(end@) {
            date_only_to_utc_boundary_ok(end@, timezone@, false, e@)
        } else {
            e@ == end@
        }),
        r is Err ==> (date_only(start@) && !boundary_exists(start@, timezone@, true)) || (
        date_only(end@) && !boundary_exists(end@, timezone@, false)),
{
    let s = if is_date_only(start) {
        match date_only_to_utc_boundary(start, timezone, true) {
            Ok(t) => t,
            Err(e) => return Err(e),
        }
    } else {
        String::from_str(start)
    };
    let e = if is_date_only(end) {
        match date_only_to_utc_boundary(end, timezone, false) {
            Ok(t) => t,
            Err(e) => return Err(e),
        }
    } else {
        String::from_str(end)
    };
    Ok((s, e))
}

/// The UTC boundary text of a calendar day, when one exists.
pub open spec fn boundary_text(date: Seq<char>, tz: Seq<char>, is_start: bool) -> Option<
    Seq<char>,
> {
    match calendar_date(date) {
        Some((y, mo, d)) => if tz_known(tz) {
            local_to_utc_text(
                tz,
                y,
                mo,
                d,
                if is_start {
                    0
                } else {
                    23
                },
                if is_start {
                    0
                } else {
                    59
                },
                if is_start {
                    0
                } else {
                    59
                },
            )
        } else {
            None
        },
        None => None,
    }
}

/// Whether the day boundary exists.
pub open spec fn boundary_exists(date: Seq<char>, tz: Seq<char>, is_start: bool) -> bool {
    boundary_text(date, tz, is_start) is Some
}

/// `t` is the day boundary of `date` in `tz`.
pub open spec fn date_only_to_utc_boundary_ok(
    date: Seq<char>,
    tz: Seq<char>,
    is_start: bool,
    t: Seq<char>,
) -> bool {
    boundary_text(date, tz, is_start) == Some(t)
}

/// Index of the first location with this id.
pub open spec fn location_index(locs: Seq<Location>, id: i64) -> Option<int>
    decreases locs.len(),
{
    if locs.len() == 0 {
        None
    } else if locs[0].id == id {
        Some(0)
    } else {
        match location_index(locs.drop_first(), id) {
            Some(i) => Some(i + 1),
            None => None,
        }
    }
}

proof fn lemma_location_index(locs: Seq<Location>, id: i64, i: int)
    requires
        0 <= i <= locs.len(),
        forall|k: int| 0 <= k < i ==> (#[trigger] locs[k]).id != id,
    ensures
        i < locs.len() && locs[i].id == id ==> location_index(locs, id) == Some(i),
        i == locs.len() ==> location_index(locs, id) is None,
    decreases i,
{
    if i > 0 {
        let t = locs.drop_first();
        assert forall|k: int| 0 <= k < i - 1 implies (#[trigger] t[k]).id != id by {
            assert(t[k] == locs[k + 1]);
        }
        if i < locs.len() {
            assert(t[i - 1] == locs[i]);
        }
        lemma_location_index(t, id, i - 1);
    }
}

/// Time zones of the requested locations, in request order, or the first
/// location that is unknown or has no time zone.
pub enum ZoneLookup {
    Found(Seq<Seq<char>>),
    NotAvailable(i64),
    MissingTimezone(i64),
}

/// Looks up the time zone of each id in turn.
pub open spec fn zones_for(locs: Seq<Location>, ids: Seq<i64>) -> ZoneLookup
    decreases ids.len(),
{
    if ids.len() == 0 {
        ZoneLookup::Found(seq![])
    } else {
        match location_index(locs, ids[0]) {
            None => ZoneLookup::NotAvailable(ids[0]),
            Some(i) => match locs[i].timezone {
                None => ZoneLookup::MissingTimezone(ids[0]),
                Some(tz) => match zones_for(locs, ids.drop_first()) {
                    ZoneLookup::Found(rest) => ZoneLookup::Found(seq![tz@] + rest),
                    other => other,
                },
            },
        }
    }
}

/// Prepends already found zones to a later lookup.
pub open spec fn after_zones(acc: Seq<Seq<char>>, later: ZoneLookup) -> ZoneLookup {
    match later {
        ZoneLookup::Found(rest) => ZoneLookup::Found(acc + rest),
        other => other,
    }
}

/// The distinct texts of a set, sorted.
pub open spec fn sorted_texts(s: Set<Seq<char>>) -> Seq<Seq<char>> {
    choose|h: Seq<Seq<char>>| strictly_sorted(h) && h.to_set() == s
}

/// The message for locations in different time zones.
pub open spec fn ambiguous_zones_message(zones: Seq<Seq<char>>) -> Seq<char> {
    "date-only ranges across multiple timezones are ambiguous ("@ + join(zones, ", "@)
        + "); use RFC3339 timestamps instead"@
}

/// The message for an id that is not among the account's locations.
pub open spec fn not_available_message(id: i64) -> Seq<char> {
    "location "@ + int_text(id as int) + " is not available for this account"@
}

/// The message for a location without a time zone.
pub open spec fn missing_timezone_message(id: i64) -> Seq<char> {
    "location "@ + int_text(id as int) + " is missing timezone in SkyTab response"@
}

fn location_message(prefix: &str, id: i64, suffix: &str) -> (r: Vec<char>)
    ensures
        r@ == prefix@ + int_text(id as int) + suffix@,
{
    let mut m = chars_of(prefix);
    let n = i64_text(id);
    append_chars(&mut m, &n);
    let t = chars_of(suffix);
    append_chars(&mut m, &t);
    m
}

/// Given the account's locations, the
/// one time zone that all requested locations share.
pub fn shared_timezone(locations: &Vec<Location>, location_ids: &Vec<i64>) -> (r: Result<
    String,
    SkyTabError,
>)
    ensures
        location_ids@.len() == 0 ==> (r matches Err(SkyTabError::InvalidArgument(m)) && m@
            == "at least one location is required"@),
        location_ids@.len() > 0 ==> match zones_for(locations@, location_ids@) {
            ZoneLookup::NotAvailable(id) => r matches Err(SkyTabError::InvalidArgument(m)) && m@
                == not_available_message(id),
            ZoneLookup::MissingTimezone(id) => r matches Err(SkyTabError::InvalidArgument(m))
                && m@ == missing_timezone_message(id),
            ZoneLookup::Found(zones) => {
                let sorted = sorted_texts(zones.to_set());
                if sorted.len() > 1 {
                    r matches Err(SkyTabError::InvalidArgument(m)) && m@
                        == ambiguous_zones_message(sorted)
                } else {
                    r matches Ok(tz) && sorted.len() == 1 && tz@ == sorted[0] && forall|i: int|
                        0 <= i < zones.len() ==> #[trigger] zones[i] == tz@
                }
            },
        },
{
    if location_ids.len() == 0 {
        let m = chars_of("at least one location is required");
        return Err(invalid_argument(&m));
    }
    let ghost locs = locations@;
    let ghost ids = location_ids@;
    let mut set: Vec<Vec<char>> = Vec::new();
    let ghost mut acc: Seq<Seq<char>> = seq![];
    assert(ids.skip(0) =~= ids);
    assert(acc + seq![] =~= acc);
    assert(views(set@).to_set() =~= acc.to_set());
    let mut i: usize = 0;
    while i < location_ids.len()
        invariant
            i <= ids.len(),
            ids == location_ids@,
            locs == locations@,
            acc.len() == i,
            strictly_sorted(views(set@)),
            views(set@).to_set() == acc.to_set(),
            zones_for(locs, ids) == after_zones(acc, zones_for(locs, ids.skip(i as int))),
        decreases ids.len() - i,
    {
        let id = location_ids[i];
        proof {
            assert(ids.skip(i as int)[0] == id);
            assert(ids.skip(i as int).drop_first() =~= ids.skip(i + 1));
        }
        let mut j: usize = 0;
        while j < locations.len() && locations[j].id != id
            invariant
                j <= locations@.len(),
                locs == locations@,
                forall|k: int| 0 <= k < j ==> (#[trigger] locs[k]).id != id,
            decreases locations@.len() - j,
        {
            j = j + 1;
        }
        proof {
            lemma_location_index(locs, id, j as int);
        }
        if j == locations.len() {
            let m = location_message("location ", id, " is not available for this account");
            return Err(invalid_argument(&m));
        }
        let tz = match &locations[j].timezone {
            Some(t) => t,
            None => {
                let m = location_message("location ", id, " is missing timezone in SkyTab response");
                return Err(invalid_argument(&m));
            },
        };
        let ghost prev_set = views(set@);
        let key = chars_of(tz.as_str());
        insert_sorted(&mut set, key);
        proof {
            let old_acc = acc;
            acc = acc.push(tz@);
            assert forall|t: Seq<char>| #[trigger] views(set@).to_set().contains(t)
                <==> acc.to_set().contains(t) by {
                assert(views(set@).to_set().contains(t) <==> views(set@).contains(t));
                assert(prev_set.to_set().contains(t) <==> prev_set.contains(t));
                assert(acc.to_set().contains(t) <==> acc.contains(t));
                assert(old_acc.to_set().contains(t) <==> old_acc.contains(t));
                if acc.contains(t) {
                    let q = choose|q: int| 0 <= q < acc.len() && acc[q] == t;
                    if q < old_acc.len() {
                        assert(old_acc[q] == t);
                    }
                }
                if old_acc.contains(t) {
                    let q = choose|q: int| 0 <= q < old_acc.len() && old_acc[q] == t;
                    assert(acc[q] == t);
                }
                if t == tz@ {
                    assert(acc[old_acc.len() as int] == t);
                }
            }
            assert(views(set@).to_set() =~= acc.to_set());
            match zones_for(locs, ids.skip(i + 1)) {
                ZoneLookup::Found(rest) => {
                    assert(old_acc + (seq![tz@] + rest) =~= acc + rest);
                },
                _ => {},
            }
        }
        i = i + 1;
    }
    proof {
        assert(ids.skip(i as int).len() == 0);
        assert(acc + seq![] =~= acc);
        lemma_sorted_unique(views(set@), sorted_texts(acc.to_set()));
        assert(acc.to_set().contains(acc[0]));
    }
    if set.len() > 1 {
        let mut msg = chars_of("date-only ranges across multiple timezones are ambiguous (");
        let sep = chars_of(", ");
        let joined = join_chars(&set, &sep);
        append_chars(&mut msg, &joined);
        let tail = chars_of("); use RFC3339 timestamps instead");
        append_chars(&mut msg, &tail);
        return Err(invalid_argument(&msg));
    }
    proof {
        if set@.len() == 0 {
            assert(views(set@).to_set().contains(acc[0]));
        }
        assert forall|k: int| 0 <= k < acc.len() implies #[trigger] acc[k] == set@[0]@ by {
            assert(acc.to_set().contains(acc[k]));
            assert(views(set@).to_set().contains(acc[k]));
            assert(views(set@).contains(acc[k]));
        }
    }
    Ok(string_of(&set[0]))
}

/// Whether the locations list has exactly one location, and its id.
pub open spec fn sole_location(locs: Seq<Location>) -> Option<i64> {
    if locs.len() == 1 {
        Some(locs[0].id)
    } else {
        None
    }
}

/// The id of the only location of the account, when it has exactly one.
pub fn sole_location_id(locations: &Vec<Location>) -> (r: Option<i64>)
    ensures
        r == sole_location(locations@),
{
    if locations.len() == 1 {
        Some(locations[0].id)
    } else {
        None
    }
}

/// The message when no single location can be determined.
pub open spec fn single_location_required_message() -> Seq<char> {
    "location is required; pass --location/--location-id, set a default with `locations set-default`, or rely on auto-selection when exactly one location is available"@
}

/// The message when no location list can be determined.
pub open spec fn locations_required_message() -> Seq<char> {
    "at least one location is required; pass --location, set a default with `locations set-default`, or rely on auto-selection when exactly one location is available"@
}

/// The location a command works on: the given location, else the default, else
/// the account's only location.
pub fn choose_single_location(
    location: Option<i64>,
    default_location_id: Option<i64>,
    sole_location_id: Option<i64>,
) -> (r: Result<i64, SkyTabError>)
    ensures
        match (location, default_location_id, sole_location_id) {
            (Some(l), _, _) => r == Ok::<i64, SkyTabError>(l),
            (None, Some(d), _) => r == Ok::<i64, SkyTabError>(d),
            (None, None, Some(s)) => r == Ok::<i64, SkyTabError>(s),
            (None, None, None) => r matches Err(SkyTabError::InvalidArgument(m)) && m@
                == single_location_required_message(),
        },
{
    if let Some(l) = location {
        return Ok(l);
    }
    if let Some(d) = default_location_id {
        return Ok(d);
    }
    if let Some(s) = sole_location_id {
        return Ok(s);
    }
    let m = chars_of(
        "location is required; pass --location/--location-id, set a default with `locations set-default`, or rely on auto-selection when exactly one location is available",
    );
    Err(invalid_argument(&m))
}

/// The locations a command works on: the given locations, else the default, else the
/// account's only location.
pub fn choose_locations(
    locations: Vec<i64>,
    default_location_id: Option<i64>,
    sole_location_id: Option<i64>,
) -> (r: Result<Vec<i64>, SkyTabError>)
    ensures
        locations@.len() > 0 ==> (r matches Ok(v) && v@ == locations@),
        locations@.len() == 0 ==> match (default_location_id, sole_location_id) {
            (Some(d), _) => r matches Ok(v) && v@ == seq![d],
            (None, Some(s)) => r matches Ok(v) && v@ == seq![s],
            (None, None) => r matches Err(SkyTabError::InvalidArgument(m)) && m@
                == locations_required_message(),
        },
{
    if locations.len() > 0 {
        return Ok(locations);
    }
    if let Some(d) = default_location_id {
        let mut v: Vec<i64> = Vec::new();
        v.push(d);
        return Ok(v);
    }
    if let Some(s) = sole_location_id {
        let mut v: Vec<i64> = Vec::new();
        v.push(s);
        return Ok(v);
    }
    let m = chars_of(
        "at least one location is required; pass --location, set a default with `locations set-default`, or rely on auto-selection when exactly one location is available",
    );
    Err(invalid_argument(&m))
}

/// The path check of `request get`: the path must start with `/`.
pub fn check_request_path(path: &str) -> (r: Result<(), SkyTabError>)
    ensures
        (path@.len() > 0 && path@[0] == '/') ==> r is Ok,
        !(path@.len() > 0 && path@[0] == '/') ==> (r matches Err(SkyTabError::InvalidArgument(m))
            && m@ == "path must start with '/'"@),
{
    let v = chars_of(path);
    if v.len() > 0 && v[0] == '/' {
        Ok(())
    } else {
        let m = chars_of("path must start with '/'");
        Err(invalid_argument(&m))
    }
}

/// The page-size check of `timeclock shifts`: the limit must be positive.
pub fn check_timeclock_limit(limit: usize) -> (r: Result<(), SkyTabError>)
    ensures
        limit > 0 ==> r is Ok,
        limit == 0 ==> (r matches Err(SkyTabError::InvalidArgument(m)) && m@
            == "limit must be greater than zero"@),
{
    if limit == 0 {
        let m = chars_of("limit must be greater than zero");
        Err(invalid_argument(&m))
    } else {
        Ok(())
    }
}

/// The API path of an account's preferences.
pub fn account_preferences_path(account_id: &str) -> (r: String)
    ensures
        r@ == "/api/v1/accounts/"@ + account_id@ + "/preferences"@,
{
    let mut p = chars_of("/api/v1/accounts/");
    let a = chars_of(account_id);
    append_chars(&mut p, &a);
    let t = chars_of("/preferences");
    append_chars(&mut p, &t);
    string_of(&p)
}

/// Each pair of `parse_query` rebuilds its argument: the key, `=`, the
/// value; and the key holds no `=` (the split is at the first one).
pub proof fn law_query_pair_rebuilds_part(part: Seq<char>, key: Seq<char>, value: Seq<char>)
    requires
        split_once(part, '=') == Some((key, value)),
    ensures
        key + seq!['='] + value == part,
        !key.contains('='),
{
    crate::text::lemma_find_first_range(part, '=');
    let i = find_first(part, '=').unwrap();
    assert(key + seq!['='] + value =~= part);
    assert forall|k: int| 0 <= k < key.len() implies key[k] != '=' by {
        assert(key[k] == part[k]);
    }
}

/// Redaction keeps the domain of an address: the text after its first `@`.
pub proof fn law_redacted_keeps_domain(u: Seq<char>, local: Seq<char>, domain: Seq<char>)
    requires
        split_once(u, '@') == Some((local, domain)),
    ensures
        redacted(u).len() >= domain.len() + 4,
        redacted(u).subrange(redacted(u).len() - domain.len() - 4, redacted(u).len() as int)
            == "***@"@ + domain,
{
    reveal_strlit("***@");
    let r = redacted(u);
    if local.len() == 0 {
        assert(r.subrange(r.len() - domain.len() - 4, r.len() as int) =~= "***@"@ + domain);
    } else {
        assert(r.subrange(r.len() - domain.len() - 4, r.len() as int) =~= "***@"@ + domain);
    }
}

/// A string found at the first matching path is trimmed and not empty.
pub proof fn law_first_string_trimmed(v: Json, paths: Seq<Seq<char>>)
    ensures
        first_string(v, paths) matches Some(t) ==> t.len() > 0 && trim(t) == t,
    decreases paths.len(),
{
    if paths.len() > 0 {
        match value_at_path(v, paths[0]) {
            Some(Json::Str(s)) => {
                crate::text::law_trim_idempotent(s@);
            },
            _ => {},
        }
        law_first_string_trimmed(v, paths.drop_first());
    }
}

} // verus!
