//! Calendar dates and time zones, through `chrono` and `chrono-tz`.

use vstd::prelude::*;
use chrono::{Datelike, TimeZone};

verus! {

/// The (year, month, day) that `chrono`'s `NaiveDate::parse_from_str` with
/// format `%Y-%m-%d` reads from a text, or `None` when it rejects it.
pub uninterp spec fn calendar_date(s: Seq<char>) -> Option<(i32, u32, u32)>;

/// Whether `chrono-tz` knows a time zone by this IANA name.
pub uninterp spec fn tz_known(name: Seq<char>) -> bool;

/// The RFC 3339 UTC text (whole seconds, `Z` suffix) of a local wall-clock
/// time in a named zone, or `None` when that local time does not map to
/// exactly one instant (a gap or a fold) or the zone is unknown.
pub uninterp spec fn local_to_utc_text(
    tz: Seq<char>,
    year: i32,
    month: u32,
    day: u32,
    hour: u32,
    min: u32,
    sec: u32,
) -> Option<Seq<char>>;

/// `NaiveDate::parse_from_str(s, "%Y-%m-%d")`, read back as its year, month
/// and day. The result is the named [`calendar_date`] of the text; chrono
/// documents months as 1 to 12 and days as 1 to 31.
#[verifier::external_body]
pub(crate) fn parse_calendar_date(s: &str) -> (r: Option<(i32, u32, u32)>)
    ensures
        r == calendar_date(s@),
        r matches Some((y, m, d)) ==> 1 <= m <= 12 && 1 <= d <= 31,
{
    chrono::NaiveDate::parse_from_str(s, "%Y-%m-%d").ok().map(|d| (d.year(), d.month(), d.day()))
}

/// Whether `name.parse::<chrono_tz::Tz>()` succeeds; the result is the named
/// [`tz_known`] of the name.
#[verifier::external_body]
pub(crate) fn timezone_known(name: &str) -> (r: bool)
    ensures
        r == tz_known(name@),
{
    name.parse::<chrono_tz::Tz>().is_ok()
}

/// In the zone `tz`, the local time `year-month-day hour:min:sec` mapped by
/// `TimeZone::with_ymd_and_hms(..).single()` to UTC and printed with
/// `to_rfc3339_opts(SecondsFormat::Secs, true)`. The result is the named
/// [`local_to_utc_text`] of the arguments.
#[verifier::external_body]
pub(crate) fn local_time_to_utc(
    tz: &str,
    year: i32,
    month: u32,
    day: u32,
    hour: u32,
    min: u32,
    sec: u32,
) -> (r: Option<String>)
    ensures
        r matches Some(t) ==> local_to_utc_text(tz@, year, month, day, hour, min, sec) == Some(t@),
        r is None ==> local_to_utc_text(tz@, year, month, day, hour, min, sec) is None,
{
    let zone: chrono_tz::Tz = tz.parse().ok()?;
    zone.with_ymd_and_hms(year, month, day, hour, min, sec).single().map(
        |dt| dt.with_timezone(&chrono::Utc).to_rfc3339_opts(chrono::SecondsFormat::Secs, true),
    )
}

/// The whole seconds from one RFC 3339 instant to another, when both texts
/// parse.
pub uninterp spec fn rfc3339_span(start: Seq<char>, end: Seq<char>) -> Option<i64>;

/// `DateTime::parse_from_rfc3339` on both texts, then
/// `(end - start).num_seconds()` (whole seconds, rounded toward zero); `None`
/// when either text does not parse. The result is the named
/// [`rfc3339_span`] of the two texts.
#[verifier::external_body]
pub(crate) fn rfc3339_seconds_between(start: &str, end: &str) -> (r: Option<i64>)
    ensures
        r == rfc3339_span(start@, end@),
{
    let a = chrono::DateTime::parse_from_rfc3339(start).ok()?;
    let b = chrono::DateTime::parse_from_rfc3339(end).ok()?;
    Some((b - a).num_seconds())
}

/// The UTC minute (`%Y-%m-%d %H:%M`) of an RFC 3339 instant, when the text
/// parses.
pub uninterp spec fn rfc3339_utc_minute(value: Seq<char>) -> Option<Seq<char>>;

/// `DateTime::parse_from_rfc3339`, moved to UTC and formatted with
/// `%Y-%m-%d %H:%M`; `None` when the text does not parse. The result is the
/// named [`rfc3339_utc_minute`] of the text.
#[verifier::external_body]
pub(crate) fn utc_minute_text(value: &str) -> (r: Option<String>)
    ensures
        match r {
            Some(t) => rfc3339_utc_minute(value@) == Some(t@),
            None => rfc3339_utc_minute(value@) is None,
        },
{
    let parsed = chrono::DateTime::parse_from_rfc3339(value).ok()?;
    Some(parsed.with_timezone(&chrono::Utc).format("%Y-%m-%d %H:%M").to_string())
}

} // verus!
