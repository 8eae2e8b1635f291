//! What the client sends: report payloads, the time-clock filter, query
//! strings and the paging of list endpoints.

use vstd::prelude::*;
use crate::json::{push_quoted, push_str, quoted, Json};
use crate::text::{chars_of, i64_text, int_text, nat_text, string_of, usize_text};

verus! {

/// `j` is the JSON string `s`.
pub open spec fn is_text(j: Json, s: Seq<char>) -> bool {
    match j {
        Json::Str(x) => x@ == s,
        _ => false,
    }
}

/// `j` is an empty JSON array.
pub open spec fn is_empty_array(j: Json) -> bool {
    match j {
        Json::Array(v) => v@.len() == 0,
        _ => false,
    }
}

/// `j` is the JSON number `n`.
pub open spec fn number_is(j: Json, n: i64) -> bool {
    match j {
        Json::Number(t) => t@ == int_text(n as int),
        _ => false,
    }
}

/// `j` is an array of the numbers `ids`, in order.
pub open spec fn is_number_array(j: Json, ids: Seq<i64>) -> bool {
    match j {
        Json::Array(v) => v@.len() == ids.len() && forall|i: int|
            0 <= i < ids.len() ==> number_is(#[trigger] v@[i], ids[i]),
        _ => false,
    }
}

/// `j` is an array of the decimal texts of `ids`, in order.
pub open spec fn is_id_text_array(j: Json, ids: Seq<i64>) -> bool {
    match j {
        Json::Array(v) => v@.len() == ids.len() && forall|i: int|
            0 <= i < ids.len() ==> is_text(#[trigger] v@[i], int_text(ids[i] as int)),
        _ => false,
    }
}

/// The members of a report payload, in key order as `serde_json` writes them.
pub open spec fn report_payload_keys() -> Seq<Seq<char>> {
    seq![
        "end"@,
        "intradayPeriodGroupGuids"@,
        "locale"@,
        "locations"@,
        "revenueCenterGuids"@,
        "start"@,
    ]
}

/// The members of a report payload other than `locations`.
pub open spec fn payload_members_ok(m: Seq<(String, Json)>, start: Seq<char>, end: Seq<char>) -> bool {
    &&& m.len() == 6
    &&& forall|i: int| 0 <= i < 6 ==> (#[trigger] m[i]).0@ == report_payload_keys()[i]
    &&& is_text(m[0].1, end)
    &&& is_empty_array(m[1].1)
    &&& is_text(m[2].1, "en-US"@)
    &&& is_empty_array(m[4].1)
    &&& is_text(m[5].1, start)
}

/// The body of a multi-location report request: the range, the location ids
/// as numbers, locale `en-US` and no period groups or revenue centers.
pub open spec fn report_payload(j: Json, start: Seq<char>, end: Seq<char>, ids: Seq<i64>) -> bool {
    match j {
        Json::Object(m) => payload_members_ok(m@, start, end) && is_number_array(m@[3].1, ids),
        _ => false,
    }
}

/// The body of the activity-summary request: as a report payload, with the
/// one location id as text.
pub open spec fn activity_payload(j: Json, start: Seq<char>, end: Seq<char>, id: i64) -> bool {
    match j {
        Json::Object(m) => payload_members_ok(m@, start, end) && is_id_text_array(
            m@[3].1,
            seq![id],
        ),
        _ => false,
    }
}

fn text_value(s: &str) -> (r: Json)
    ensures
        is_text(r, s@),
{
    Json::Str(String::from_str(s))
}

fn empty_array() -> (r: Json)
    ensures
        is_empty_array(r),
{
    Json::Array(Vec::new())
}

fn member_of(key: &str, value: Json) -> (r: (String, Json))
    ensures
        r.0@ == key@,
        r.1 == value,
{
    (String::from_str(key), value)
}

/// The ids as an array of JSON numbers.
pub fn id_numbers(ids: &Vec<i64>) -> (r: Json)
    ensures
        is_number_array(r, ids@),
{
    let mut out: Vec<Json> = Vec::new();
    let mut i: usize = 0;
    while i < ids.len()
        invariant
            i <= ids@.len(),
            out@.len() == i,
            forall|k: int| 0 <= k < i ==> number_is(#[trigger] out@[k], ids@[k]),
        decreases ids@.len() - i,
    {
        let t = i64_text(ids[i]);
        out.push(Json::Number(string_of(&t)));
        i = i + 1;
    }
    Json::Array(out)
}

fn payload_with(start: String, end: String, locations: Json) -> (r: Json)
    ensures
        match r {
            Json::Object(m) => payload_members_ok(m@, start@, end@) && m@[3].1 == locations,
            _ => false,
        },
{
    let mut m: Vec<(String, Json)> = Vec::new();
    m.push((String::from_str("end"), Json::Str(end)));
    m.push(member_of("intradayPeriodGroupGuids", empty_array()));
    m.push(member_of("locale", text_value("en-US")));
    m.push(member_of("locations", locations));
    m.push(member_of("revenueCenterGuids", empty_array()));
    m.push((String::from_str("start"), Json::Str(start)));
    proof {
        reveal_strlit("end");
        reveal_strlit("start");
        assert(m@[0].0@ == "end"@);
        assert(m@[5].0@ == "start"@);
    }
    Json::Object(m)
}

/// `build_report_payload`: the body of a multi-location report request.
pub fn build_report_payload(start: String, end: String, locations: Vec<i64>) -> (r: Json)
    ensures
        report_payload(r, start@, end@, locations@),
{
    let ids = id_numbers(&locations);
    payload_with(start, end, ids)
}

/// The body of the activity-summary request for one location.
pub fn build_activity_summary_payload(start: String, end: String, location: i64) -> (r: Json)
    ensures
        activity_payload(r, start@, end@, location),
{
    let t = i64_text(location);
    let mut items: Vec<Json> = Vec::new();
    items.push(Json::Str(string_of(&t)));
    payload_with(start, end, Json::Array(items))
}

/// The `filter` query value of a time-clock page: tracked, not voided shifts
/// of the location that were clocked in, or clocked out, within the range.
/// It is the compact JSON text with keys in sorted order, as `serde_json`
/// writes it.
pub open spec fn timeclock_filter(location_id: i64, start: Seq<char>, end: Seq<char>) -> Seq<char> {
    "{\"$or\":[{\"$and\":[{\"clockedInAt\":{\"$gte\":"@ + quoted(start)
        + "}},{\"clockedInAt\":{\"$lte\":"@ + quoted(end)
        + "}}]},{\"$and\":[{\"clockedOutAt\":{\"$gte\":"@ + quoted(start)
        + "}},{\"clockedOutAt\":{\"$lte\":"@ + quoted(end)
        + "}}]}],\"isTracked\":{\"$eq\":true},\"locationId\":{\"$eq\":"@ + int_text(
        location_id as int,
    ) + "},\"voided\":{\"$eq\":false}}"@
}

/// Executable [`timeclock_filter`].
pub fn timeclock_filter_text(location_id: i64, start: &str, end: &str) -> (r: String)
    ensures
        r@ == timeclock_filter(location_id, start@, end@),
{
    let mut out: Vec<char> = Vec::new();
    push_str(&mut out, "{\"$or\":[{\"$and\":[{\"clockedInAt\":{\"$gte\":");
    push_quoted(&mut out, start);
    push_str(&mut out, "}},{\"clockedInAt\":{\"$lte\":");
    push_quoted(&mut out, end);
    push_str(&mut out, "}}]},{\"$and\":[{\"clockedOutAt\":{\"$gte\":");
    push_quoted(&mut out, start);
    push_str(&mut out, "}},{\"clockedOutAt\":{\"$lte\":");
    push_quoted(&mut out, end);
    push_str(&mut out, "}}]}],\"isTracked\":{\"$eq\":true},\"locationId\":{\"$eq\":");
    let id = i64_text(location_id);
    let mut k: usize = 0;
    let ghost before = out@;
    while k < id.len()
        invariant
            k <= id@.len(),
            out@ == before + id@.take(k as int),
        decreases id@.len() - k,
    {
        out.push(id[k]);
        k = k + 1;
        assert(before + id@.take(k as int) =~= (before + id@.take(k - 1)).push(id@[k - 1]));
    }
    assert(id@.take(id@.len() as int) =~= id@);
    push_str(&mut out, "},\"voided\":{\"$eq\":false}}");
    string_of(&out)
}

/// `p` is the query pair `key=value`.
pub open spec fn pair_is(p: (String, String), key: Seq<char>, value: Seq<char>) -> bool {
    p.0@ == key && p.1@ == value
}

fn pair(key: &str, value: String) -> (r: (String, String))
    ensures
        r.0@ == key@,
        r.1@ == value@,
{
    (String::from_str(key), value)
}

/// The query of one time-clock page.
pub fn timeclock_query(
    location_id: i64,
    start: &str,
    end: &str,
    order: &str,
    limit: usize,
    offset: usize,
) -> (r: Vec<(String, String)>)
    ensures
        r@.len() == 4,
        pair_is(r@[0], "filter"@, timeclock_filter(location_id, start@, end@)),
        pair_is(r@[1], "limit"@, nat_text(limit as nat)),
        pair_is(r@[2], "offset"@, nat_text(offset as nat)),
        pair_is(r@[3], "order"@, order@),
{
    let mut q: Vec<(String, String)> = Vec::new();
    q.push(pair("filter", timeclock_filter_text(location_id, start, end)));
    q.push(pair("limit", string_of(&usize_text(limit))));
    q.push(pair("offset", string_of(&usize_text(offset))));
    q.push(pair("order", String::from_str(order)));
    proof {
        reveal_strlit("filter");
        reveal_strlit("limit");
        reveal_strlit("offset");
        reveal_strlit("order");
    }
    q
}

/// Page size of the transactions endpoint.
pub const TRANSACTIONS_PAGE_SIZE: usize = 200;

/// The query of one transactions page: newest first, an empty search term,
/// and the order type when one was asked for.
pub fn transactions_query(
    offset: usize,
    start: &str,
    end: &str,
    order_type: Option<&str>,
) -> (r: Vec<(String, String)>)
    ensures
        r@.len() == (if order_type is Some {
            8nat
        } else {
            7nat
        }),
        pair_is(r@[0], "limit"@, nat_text(TRANSACTIONS_PAGE_SIZE as nat)),
        pair_is(r@[1], "offset"@, nat_text(offset as nat)),
        pair_is(r@[2], "start"@, start@),
        pair_is(r@[3], "end"@, end@),
        pair_is(r@[4], "searchTerm"@, ""@),
        pair_is(r@[5], "sortBy"@, "date"@),
        pair_is(r@[6], "sortDir"@, "DESC"@),
        order_type matches Some(t) ==> pair_is(r@[7], "type[]"@, t@),
{
    let mut q: Vec<(String, String)> = Vec::new();
    q.push(pair("limit", string_of(&usize_text(TRANSACTIONS_PAGE_SIZE))));
    q.push(pair("offset", string_of(&usize_text(offset))));
    q.push(pair("start", String::from_str(start)));
    q.push(pair("end", String::from_str(end)));
    q.push(pair("searchTerm", String::from_str("")));
    q.push(pair("sortBy", String::from_str("date")));
    q.push(pair("sortDir", String::from_str("DESC")));
    if let Some(t) = order_type {
        q.push(pair("type[]", String::from_str(t)));
    }
    proof {
        reveal_strlit("limit");
        reveal_strlit("offset");
        reveal_strlit("start");
        reveal_strlit("end");
        reveal_strlit("searchTerm");
        reveal_strlit("sortBy");
        reveal_strlit("sortDir");
        reveal_strlit("type[]");
    }
    q
}

/// The body of a transactions request: `{"locationIds": [...]}`.
pub fn transactions_body(location_ids: &Vec<i64>) -> (r: Json)
    ensures
        match r {
            Json::Object(m) => m@.len() == 1 && m@[0].0@ == "locationIds"@ && is_number_array(
                m@[0].1,
                location_ids@,
            ),
            _ => false,
        },
{
    let mut m: Vec<(String, Json)> = Vec::new();
    m.push(member_of("locationIds", id_numbers(location_ids)));
    Json::Object(m)
}

/// After a page of a paged listing: `None` once the collected items reach
/// the count the server reported, else the offset of the next page.
pub fn next_page_offset(collected: usize, reported_count: usize, offset: usize, limit: usize) -> (r:
    Option<usize>)
    requires
        collected < reported_count ==> offset + limit <= usize::MAX,
    ensures
        collected >= reported_count ==> r is None,
        collected < reported_count ==> r == Some((offset + limit) as usize),
{
    if collected >= reported_count {
        None
    } else {
        Some(offset + limit)
    }
}

} // verus!
