//! Text for people: shortened cells, padded columns, the `doctor` summary,
//! and the checks the command line makes before acting.

use vstd::prelude::*;
use crate::error::SkyTabError;
use crate::json::{get_member, member, push_str, Json};
use crate::time::{rfc3339_utc_minute, utc_minute_text};
use crate::read_api::{invalid_argument, not_available_message, DoctorCheck, DoctorReport, Location};
use crate::text::{append_chars, chars_of, i64_text, string_of};

verus! {

/// `truncate_to`: texts of at most `max_width` characters are kept; longer
/// ones keep their first `max_width - 3` characters (none when the width is
/// under 3) followed by `...`.
pub open spec fn truncated(s: Seq<char>, max_width: nat) -> Seq<char> {
    if s.len() <= max_width {
        s
    } else {
        s.take(if max_width >= 3 {
            max_width - 3
        } else {
            0
        }) + "..."@
    }
}

fn take_chars(v: &Vec<char>, n: usize) -> (r: Vec<char>)
    requires
        n <= v@.len(),
    ensures
        r@ == v@.take(n as int),
{
    let mut out: Vec<char> = Vec::new();
    let mut i: usize = 0;
    while i < n
        invariant
            i <= n <= v@.len(),
            out@ == v@.take(i as int),
        decreases n - i,
    {
        out.push(v[i]);
        i = i + 1;
        assert(out@ =~= v@.take(i as int));
    }
    out
}

/// Executable [`truncated`].
pub fn truncate_to(input: &str, max_width: usize) -> (r: String)
    ensures
        r@ == truncated(input@, max_width as nat),
{
    let v = chars_of(input);
    if v.len() <= max_width {
        return String::from_str(input);
    }
    let keep = if max_width >= 3 {
        max_width - 3
    } else {
        0
    };
    let mut out = take_chars(&v, keep);
    push_str(&mut out, "...");
    string_of(&out)
}

/// `short_id`: the first eight characters.
pub fn short_id(value: &str) -> (r: String)
    ensures
        r@ == (if value@.len() <= 8 {
            value@
        } else {
            value@.take(8)
        }),
{
    let v = chars_of(value);
    if v.len() <= 8 {
        return String::from_str(value);
    }
    let out = take_chars(&v, 8);
    string_of(&out)
}

/// `truncate_ellipsis`: texts of at most 22 characters are kept; longer ones
/// keep 19 characters and end in `...`.
pub fn truncate_ellipsis(value: &str) -> (r: String)
    ensures
        r@ == truncated(value@, 22),
        r@.len() <= 22,
{
    proof {
        reveal_strlit("...");
    }
    truncate_to(value, 22)
}

/// A text padded with spaces on the right to `width` characters (`{:<w}`).
pub open spec fn padded(s: Seq<char>, width: nat) -> Seq<char> {
    if s.len() >= width {
        s
    } else {
        s + Seq::new((width - s.len()) as nat, |i: int| ' ')
    }
}

/// Executable [`padded`].
pub fn pad_right(s: &str, width: usize) -> (r: String)
    ensures
        r@ == padded(s@, width as nat),
{
    let mut out = chars_of(s);
    let n = out.len();
    if n >= width {
        return string_of(&out);
    }
    let ghost start = out@;
    let mut k: usize = n;
    while k < width
        invariant
            n <= k <= width,
            n == start.len(),
            out@ == start + Seq::new((k - n) as nat, |i: int| ' '),
        decreases width - k,
    {
        out.push(' ');
        k = k + 1;
        assert(out@ =~= start + Seq::new((k - n) as nat, |i: int| ' '));
    }
    string_of(&out)
}

/// One line of the human `doctor` output: `[OK] ` or `[FAIL] `, the name
/// padded to 22 characters, a space and the detail.
pub open spec fn check_line(c: DoctorCheck) -> Seq<char> {
    (if c.ok {
        "[OK] "@
    } else {
        "[FAIL] "@
    }) + padded(c.name@, 22) + " "@ + c.detail@
}

/// The human `doctor` output: a verdict line, then one line per check; each
/// line ends with a newline.
pub open spec fn doctor_text(verdict: bool, checks: Seq<DoctorCheck>) -> Seq<char>
    decreases checks.len(),
{
    if checks.len() == 0 {
        "Doctor: "@ + (if verdict {
            "OK"@
        } else {
            "ISSUES FOUND"@
        }) + "\n"@
    } else {
        doctor_text(verdict, checks.drop_last()) + check_line(checks.last()) + "\n"@
    }
}

/// The human-readable doctor report, as text.
pub fn doctor_report_text(report: &DoctorReport) -> (r: String)
    ensures
        r@ == doctor_text(report.ok, report.checks@),
{
    let mut out: Vec<char> = Vec::new();
    push_str(&mut out, "Doctor: ");
    if report.ok {
        push_str(&mut out, "OK");
    } else {
        push_str(&mut out, "ISSUES FOUND");
    }
    push_str(&mut out, "\n");
    let ghost checks = report.checks@;
    assert(checks.take(0) =~= seq![]);
    let mut i: usize = 0;
    while i < report.checks.len()
        invariant
            i <= checks.len(),
            checks == report.checks@,
            out@ == doctor_text(report.ok, checks.take(i as int)),
        decreases checks.len() - i,
    {
        let c = &report.checks[i];
        let ghost before = out@;
        if c.ok {
            push_str(&mut out, "[OK] ");
        } else {
            push_str(&mut out, "[FAIL] ");
        }
        let name = pad_right(c.name.as_str(), 22);
        push_str(&mut out, name.as_str());
        push_str(&mut out, " ");
        push_str(&mut out, c.detail.as_str());
        push_str(&mut out, "\n");
        proof {
            assert(checks.take(i + 1).drop_last() =~= checks.take(i as int));
            assert(checks.take(i + 1).last() == *c);
            assert(out@ =~= before + check_line(*c) + "\n"@);
        }
        i = i + 1;
    }
    assert(checks.take(checks.len() as int) =~= checks);
    string_of(&out)
}

/// Where the password of `auth set-credentials` comes from.
pub enum PasswordSource {
    /// Given on the command line.
    Given(String),
    /// To be asked for on the terminal.
    Prompt,
}

/// Where `auth set-credentials` takes the password from, before any prompt: `--password` and
/// `--prompt-password` together are refused; a given password is used;
/// otherwise it is asked for.
pub fn set_credentials_password_source(password: Option<String>, prompt_mode: bool) -> (r: Result<
    PasswordSource,
    SkyTabError,
>)
    ensures
        match (password, prompt_mode) {
            (Some(_), true) => r matches Err(SkyTabError::InvalidArgument(m)) && m@
                == "use either --password or --prompt-password, not both"@,
            (Some(p), false) => r matches Ok(PasswordSource::Given(x)) && x == p,
            (None, _) => r matches Ok(PasswordSource::Prompt),
        },
{
    match (password, prompt_mode) {
        (Some(_), true) => {
            let m = chars_of("use either --password or --prompt-password, not both");
            Err(invalid_argument(&m))
        },
        (Some(p), false) => Ok(PasswordSource::Given(p)),
        (None, _) => Ok(PasswordSource::Prompt),
    }
}

/// A password typed at the prompt: refused when empty.
pub fn entered_password(entered: String) -> (r: Result<String, SkyTabError>)
    ensures
        entered@.len() == 0 ==> (r matches Err(SkyTabError::InvalidArgument(m)) && m@
            == "password cannot be empty"@),
        entered@.len() > 0 ==> r == Ok::<String, SkyTabError>(entered),
{
    let v = chars_of(entered.as_str());
    if v.len() == 0 {
        let m = chars_of("password cannot be empty");
        Err(invalid_argument(&m))
    } else {
        Ok(entered)
    }
}

/// `locations set-default` accepts only a location of the account.
pub fn ensure_location_available(locations: &Vec<Location>, location_id: i64) -> (r: Result<
    (),
    SkyTabError,
>)
    ensures
        (exists|k: int| 0 <= k < locations@.len() && (#[trigger] locations@[k]).id == location_id)
            ==> r is Ok,
        !(exists|k: int| 0 <= k < locations@.len() && (#[trigger] locations@[k]).id
            == location_id) ==> (r matches Err(SkyTabError::InvalidArgument(m)) && m@
            == not_available_message(location_id)),
{
    let mut i: usize = 0;
    while i < locations.len()
        invariant
            i <= locations@.len(),
            forall|k: int| 0 <= k < i ==> (#[trigger] locations@[k]).id != location_id,
        decreases locations@.len() - i,
    {
        if locations[i].id == location_id {
            return Ok(());
        }
        i = i + 1;
    }
    let mut m = chars_of("location ");
    let n = i64_text(location_id);
    append_chars(&mut m, &n);
    let t = chars_of(" is not available for this account");
    append_chars(&mut m, &t);
    Err(invalid_argument(&m))
}

/// The log filter for a verbosity count: `warn`, `info` once, `debug` from
/// twice on.
pub fn default_log_filter(verbose: u8) -> (r: &'static str)
    ensures
        verbose == 0 ==> r@ == "warn"@,
        verbose == 1 ==> r@ == "info"@,
        verbose >= 2 ==> r@ == "debug"@,
{
    match verbose {
        0 => "warn",
        1 => "info",
        _ => "debug",
    }
}

/// A text padded with spaces on the left to `width` characters (`{:>w}`).
pub open spec fn left_padded(s: Seq<char>, width: nat) -> Seq<char> {
    if s.len() >= width {
        s
    } else {
        Seq::new((width - s.len()) as nat, |i: int| ' ') + s
    }
}

/// Executable [`left_padded`].
pub fn pad_left(s: &str, width: usize) -> (r: String)
    ensures
        r@ == left_padded(s@, width as nat),
{
    let v = chars_of(s);
    let n = v.len();
    if n >= width {
        return string_of(&v);
    }
    let mut out: Vec<char> = Vec::new();
    let mut k: usize = n;
    while k < width
        invariant
            n <= k <= width,
            out@ == Seq::new((k - n) as nat, |i: int| ' '),
        decreases width - k,
    {
        out.push(' ');
        k = k + 1;
        assert(out@ =~= Seq::new((k - n) as nat, |i: int| ' '));
    }
    append_chars(&mut out, &v);
    string_of(&out)
}

/// The text of a string member.
pub open spec fn member_str(v: Json, key: Seq<char>) -> Option<Seq<char>> {
    match member(v, key) {
        Some(Json::Str(s)) => Some(s@),
        _ => None,
    }
}

/// The text of a string member of an object member.
pub open spec fn nested_str(v: Json, outer: Seq<char>, inner: Seq<char>) -> Option<Seq<char>> {
    match member(v, outer) {
        Some(o) => member_str(o, inner),
        None => None,
    }
}

/// A text, or `-` when there is none.
pub open spec fn or_dash(t: Option<Seq<char>>) -> Seq<char> {
    match t {
        Some(x) => x,
        None => "-"@,
    }
}

/// A text member, or the empty text.
pub open spec fn raw_str(v: Json, key: Seq<char>) -> Seq<char> {
    match member_str(v, key) {
        Some(s) => s,
        None => seq![],
    }
}

/// The cells of one shift in the human time-clock table, before padding:
/// short id, employee, clock-in and clock-out minutes, rate, job, status.
pub open spec fn shift_cells(shift: Json) -> Seq<Seq<char>> {
    let out_raw = raw_str(shift, "clockedOutAt"@);
    seq![
        match member_str(shift, "guid"@) {
            Some(g) => if g.len() <= 8 {
                g
            } else {
                g.take(8)
            },
            None => "-"@,
        },
        match nested_str(shift, "employee"@, "name"@) {
            Some(n) => truncated(n, 22),
            None => "-"@,
        },
        or_dash(rfc3339_utc_minute(raw_str(shift, "clockedInAt"@))),
        if out_raw.len() == 0 {
            "-"@
        } else {
            or_dash(rfc3339_utc_minute(out_raw))
        },
        match member_str(shift, "payRate"@) {
            Some(r) => "$"@ + r,
            None => "-"@,
        },
        match nested_str(shift, "job"@, "name"@) {
            Some(n) => truncated(n, 22),
            None => "-"@,
        },
        if out_raw.len() == 0 {
            "OPEN"@
        } else {
            "CLOSED"@
        },
    ]
}

/// One line of the human time-clock table; `hours` is the hours column's
/// text, right-aligned to seven characters.
pub open spec fn shift_line(shift: Json, hours: Seq<char>) -> Seq<char> {
    let c = shift_cells(shift);
    padded(c[0], 10) + " "@ + padded(c[1], 18) + " "@ + padded(c[2], 17) + " "@ + padded(
        c[3],
        17,
    ) + " "@ + left_padded(hours, 7) + " "@ + left_padded(c[4], 8) + " "@ + padded(c[5], 22)
        + " "@ + padded(c[6], 6)
}

fn member_text(v: &Json, key: &str) -> (r: Option<String>)
    ensures
        match member_str(*v, key@) {
            Some(t) => r matches Some(x) && x@ == t,
            None => r is None,
        },
{
    match get_member(v, key) {
        Some(Json::Str(s)) => Some(String::from_str(s.as_str())),
        _ => None,
    }
}

fn nested_text(v: &Json, outer: &str, inner: &str) -> (r: Option<String>)
    ensures
        match nested_str(*v, outer@, inner@) {
            Some(t) => r matches Some(x) && x@ == t,
            None => r is None,
        },
{
    match get_member(v, outer) {
        Some(o) => member_text(o, inner),
        None => None,
    }
}

fn minute_or_dash(raw: &str) -> (r: String)
    ensures
        r@ == or_dash(rfc3339_utc_minute(raw@)),
{
    match utc_minute_text(raw) {
        Some(t) => t,
        None => String::from_str("-"),
    }
}

fn push_cell(out: &mut Vec<char>, s: &String)
    ensures
        final(out)@ == old(out)@ + s@,
{
    push_str(out, s.as_str());
}

/// Whether a shift shows as open in the human table: its `clockedOutAt` is
/// missing, not text, or empty.
pub fn shift_shows_open(shift: &Json) -> (r: bool)
    ensures
        r == (raw_str(*shift, "clockedOutAt"@).len() == 0),
{
    match member_text(shift, "clockedOutAt") {
        Some(t) => chars_of(t.as_str()).len() == 0,
        None => true,
    }
}

/// One line of the human time-clock shift listing (see [`shift_line`]).
pub fn timeclock_human_line(shift: &Json, hours: &str) -> (r: String)
    ensures
        r@ == shift_line(*shift, hours@),
{
    let id = match member_text(shift, "guid") {
        Some(g) => short_id(g.as_str()),
        None => String::from_str("-"),
    };
    let employee = match nested_text(shift, "employee", "name") {
        Some(n) => truncate_ellipsis(n.as_str()),
        None => String::from_str("-"),
    };
    let in_raw = match member_text(shift, "clockedInAt") {
        Some(t) => t,
        None => String::new(),
    };
    let out_raw = match member_text(shift, "clockedOutAt") {
        Some(t) => t,
        None => String::new(),
    };
    let clocked_in = minute_or_dash(in_raw.as_str());
    let out_empty = chars_of(out_raw.as_str()).len() == 0;
    let clocked_out = if out_empty {
        String::from_str("-")
    } else {
        minute_or_dash(out_raw.as_str())
    };
    let rate = match member_text(shift, "payRate") {
        Some(r) => {
            let mut t = chars_of("$");
            let rv = chars_of(r.as_str());
            append_chars(&mut t, &rv);
            string_of(&t)
        },
        None => String::from_str("-"),
    };
    let job = match nested_text(shift, "job", "name") {
        Some(n) => truncate_ellipsis(n.as_str()),
        None => String::from_str("-"),
    };
    let status = if out_empty {
        String::from_str("OPEN")
    } else {
        String::from_str("CLOSED")
    };
    let ghost cells = shift_cells(*shift);
    proof {
        reveal_strlit("-");
        assert(cells[0] == id@);
        assert(cells[1] == employee@);
        assert(cells[2] == clocked_in@);
        assert(cells[3] == clocked_out@);
        assert(cells[4] == rate@);
        assert(cells[5] == job@);
        assert(cells[6] == status@);
    }
    let mut out: Vec<char> = Vec::new();
    push_cell(&mut out, &pad_right(id.as_str(), 10));
    push_str(&mut out, " ");
    push_cell(&mut out, &pad_right(employee.as_str(), 18));
    push_str(&mut out, " ");
    push_cell(&mut out, &pad_right(clocked_in.as_str(), 17));
    push_str(&mut out, " ");
    push_cell(&mut out, &pad_right(clocked_out.as_str(), 17));
    push_str(&mut out, " ");
    push_cell(&mut out, &pad_left(hours, 7));
    push_str(&mut out, " ");
    push_cell(&mut out, &pad_left(rate.as_str(), 8));
    push_str(&mut out, " ");
    push_cell(&mut out, &pad_right(job.as_str(), 22));
    push_str(&mut out, " ");
    push_cell(&mut out, &pad_right(status.as_str(), 6));
    assert(out@ =~= shift_line(*shift, hours@));
    string_of(&out)
}

} // verus!
