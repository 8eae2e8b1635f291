//! The library's JSON value model and its text renderings.
//!
//! Numbers are held by their JSON text (as the API sent them and as they are
//! printed back), objects by their members in order.

use vstd::prelude::*;
use crate::text::{
    append_chars, chars_eq, chars_of, digit_char, digit_to_char, parse_i64, parse_i64_chars,
    split_chars, split_on, string_of,
};

verus! {

/// A JSON value.
pub enum Json {
    Null,
    Bool(bool),
    /// A number, held as its JSON text (for example `12.34` or `-7`).
    Number(String),
    Str(String),
    Array(Vec<Json>),
    /// Members in order; lookups take the first member with a given key.
    Object(Vec<(String, Json)>),
}

/// Index of the first member whose key is `key`.
pub open spec fn member_index(m: Seq<(String, Json)>, key: Seq<char>) -> Option<int>
    decreases m.len(),
{
    if m.len() == 0 {
        None
    } else if m[0].0@ == key {
        Some(0)
    } else {
        match member_index(m.drop_first(), key) {
            Some(i) => Some(i + 1),
            None => None,
        }
    }
}

/// `Value::get` with a string key: the member of an object, if present.
pub open spec fn member(j: Json, key: Seq<char>) -> Option<Json> {
    match j {
        Json::Object(m) => match member_index(m@, key) {
            Some(i) => Some(m@[i].1),
            None => None,
        },
        _ => None,
    }
}

proof fn lemma_member_index_is(m: Seq<(String, Json)>, key: Seq<char>, i: int)
    requires
        0 <= i <= m.len(),
        forall|k: int| 0 <= k < i ==> (#[trigger] m[k]).0@ != key,
    ensures
        i < m.len() && m[i].0@ == key ==> member_index(m, key) == Some(i),
        i == m.len() ==> member_index(m, key) is None,
    decreases i,
{
    if i > 0 {
        let t = m.drop_first();
        assert forall|k: int| 0 <= k < i - 1 implies (#[trigger] t[k]).0@ != key by {
            assert(t[k] == m[k + 1]);
        }
        if i < m.len() {
            assert(t[i - 1] == m[i]);
        }
        lemma_member_index_is(t, key, i - 1);
    }
}

pub proof fn lemma_member_index_range(m: Seq<(String, Json)>, key: Seq<char>)
    ensures
        member_index(m, key) matches Some(i) ==> 0 <= i < m.len() && m[i].0@ == key,
    decreases m.len(),
{
    if m.len() > 0 && m[0].0@ != key {
        lemma_member_index_range(m.drop_first(), key);
    }
}

/// Looks up an object member by key.
pub fn get_member<'a>(j: &'a Json, key: &str) -> (r: Option<&'a Json>)
    ensures
        match member(*j, key@) {
            Some(x) => r matches Some(y) && *y == x,
            None => r is None,
        },
{
    match j {
        Json::Object(m) => {
            let k = chars_of(key);
            let mut i: usize = 0;
            while i < m.len()
                invariant
                    i <= m@.len(),
                    k@ == key@,
                    *j == Json::Object(*m),
                    forall|q: int| 0 <= q < i ==> (#[trigger] m@[q]).0@ != key@,
                decreases m@.len() - i,
            {
                let name = chars_of(m[i].0.as_str());
                if chars_eq(&name, &k) {
                    proof {
                        assert(m@[i as int].0@ == key@);
                        assert(*j == Json::Object(*m));
                        lemma_member_index_is(m@, key@, i as int);
                    }
                    return Some(&m[i].1);
                }
                i = i + 1;
            }
            proof {
                lemma_member_index_is(m@, key@, i as int);
            }
            None
        },
        _ => None,
    }
}

/// Follows a chain of object keys.
pub open spec fn walk(j: Json, segs: Seq<Seq<char>>) -> Option<Json>
    decreases segs.len(),
{
    if segs.len() == 0 {
        Some(j)
    } else {
        match member(j, segs[0]) {
            Some(next) => walk(next, segs.drop_first()),
            None => None,
        }
    }
}

/// The value at a dotted path such as `employee.name`; a `null` there counts
/// as absent.
pub open spec fn value_at_path(j: Json, path: Seq<char>) -> Option<Json> {
    match walk(j, split_on(path, '.')) {
        Some(Json::Null) => None,
        other => other,
    }
}

/// Follows `segs[from..]` starting at `j`.
fn walk_exec<'a>(j: &'a Json, segs: &Vec<Vec<char>>, from: usize) -> (r: Option<&'a Json>)
    requires
        from <= segs@.len(),
    ensures
        match walk(*j, segs@.map_values(|x: Vec<char>| x@).skip(from as int)) {
            Some(x) => r matches Some(y) && *y == x,
            None => r is None,
        },
    decreases segs@.len() - from,
{
    let ghost views = segs@.map_values(|x: Vec<char>| x@);
    if from == segs.len() {
        assert(views.skip(from as int).len() == 0);
        return Some(j);
    }
    let key = string_of(&segs[from]);
    proof {
        assert(views.skip(from as int)[0] == segs@[from as int]@);
        assert(views.skip(from as int).drop_first() =~= views.skip(from + 1));
    }
    match get_member(j, key.as_str()) {
        Some(next) => walk_exec(next, segs, from + 1),
        None => None,
    }
}

/// Executable [`value_at_path`].
pub fn path_value<'a>(j: &'a Json, path: &str) -> (r: Option<&'a Json>)
    ensures
        match value_at_path(*j, path@) {
            Some(x) => r matches Some(y) && *y == x,
            None => r is None,
        },
{
    let p = chars_of(path);
    let segs = split_chars(&p, '.');
    proof {
        assert(segs@.map_values(|x: Vec<char>| x@).skip(0) =~= segs@.map_values(
            |x: Vec<char>| x@,
        ));
    }
    match walk_exec(j, &segs, 0) {
        Some(v) => match v {
            Json::Null => None,
            _ => Some(v),
        },
        None => None,
    }
}

/// The elements of an array value.
pub fn as_array(j: &Json) -> (r: Option<&Vec<Json>>)
    ensures
        match *j {
            Json::Array(v) => r matches Some(w) && *w == v,
            _ => r is None,
        },
{
    match j {
        Json::Array(v) => Some(v),
        _ => None,
    }
}

/// The text of a string value.
pub fn as_str(j: &Json) -> (r: Option<&String>)
    ensures
        match *j {
            Json::Str(s) => r matches Some(w) && *w == s,
            _ => r is None,
        },
{
    match j {
        Json::Str(s) => Some(s),
        _ => None,
    }
}

/// Whether a value is an object.
pub fn is_object(j: &Json) -> (r: bool)
    ensures
        r == (*j is Object),
{
    match j {
        Json::Object(_) => true,
        _ => false,
    }
}

/// `Value::as_i64`: a number whose text is an integer in the `i64` range.
pub open spec fn number_as_i64(j: Json) -> Option<i64> {
    match j {
        Json::Number(t) => parse_i64(t@),
        _ => None,
    }
}

/// Executable [`number_as_i64`].
pub fn as_i64(j: &Json) -> (r: Option<i64>)
    ensures
        r == number_as_i64(*j),
{
    match j {
        Json::Number(t) => {
            let v = chars_of(t.as_str());
            parse_i64_chars(&v)
        },
        _ => None,
    }
}

/// Lowercase hexadecimal digit.
pub open spec fn hex_char(d: int) -> char {
    if d < 10 {
        digit_char(d)
    } else {
        ((d - 10 + 97) as char)
    }
}

/// How one character of a string appears inside a JSON string literal.
pub open spec fn escape_char(c: char) -> Seq<char> {
    if c == '"' {
        seq!['\\', '"']
    } else if c == '\\' {
        seq!['\\', '\\']
    } else if c == '\n' {
        seq!['\\', 'n']
    } else if c == '\r' {
        seq!['\\', 'r']
    } else if c == '\t' {
        seq!['\\', 't']
    } else if c == '\u{8}' {
        seq!['\\', 'b']
    } else if c == '\u{c}' {
        seq!['\\', 'f']
    } else if (c as int) < 32 {
        seq!['\\', 'u', '0', '0', hex_char((c as int) / 16), hex_char((c as int) % 16)]
    } else {
        seq![c]
    }
}

/// The escaped body of a JSON string literal.
pub open spec fn escape_text(s: Seq<char>) -> Seq<char>
    decreases s.len(),
{
    if s.len() == 0 {
        seq![]
    } else {
        escape_text(s.drop_last()) + escape_char(s.last())
    }
}

/// A JSON string literal: quotes around the escaped text.
pub open spec fn quoted(s: Seq<char>) -> Seq<char> {
    seq!['"'] + escape_text(s) + seq!['"']
}

/// Compact JSON text of a value (no spaces or newlines), members in order.
pub open spec fn compact(j: Json) -> Seq<char>
    decreases j,
{
    match j {
        Json::Null => "null"@,
        Json::Bool(b) => if b {
            "true"@
        } else {
            "false"@
        },
        Json::Number(t) => t@,
        Json::Str(s) => quoted(s@),
        Json::Array(v) => seq!['['] + compact_list(v@) + seq![']'],
        Json::Object(m) => seq!['{'] + compact_members(m@) + seq!['}'],
    }
}

/// Compact texts of array elements, separated by commas.
pub open spec fn compact_list(items: Seq<Json>) -> Seq<char>
    decreases items,
{
    if items.len() == 0 {
        seq![]
    } else if items.len() == 1 {
        compact(items[0])
    } else {
        compact_list(items.subrange(0, items.len() - 1)) + seq![','] + compact(
            items[items.len() - 1],
        )
    }
}

/// Compact texts of object members (`"key":value`), separated by commas.
pub open spec fn compact_members(m: Seq<(String, Json)>) -> Seq<char>
    decreases m,
{
    if m.len() == 0 {
        seq![]
    } else if m.len() == 1 {
        quoted(m[0].0@) + seq![':'] + compact(m[0].1)
    } else {
        compact_members(m.subrange(0, m.len() - 1)) + seq![','] + quoted(m[m.len() - 1].0@)
            + seq![':'] + compact(m[m.len() - 1].1)
    }
}

/// Appends the characters of a string slice.
pub fn push_str(out: &mut Vec<char>, s: &str)
    ensures
        final(out)@ == old(out)@ + s@,
{
    let v = chars_of(s);
    append_chars(out, &v);
}

fn hex_digit(d: u32) -> (c: char)
    requires
        d < 16,
    ensures
        c == hex_char(d as int),
{
    if d < 10 {
        digit_to_char(d as u8)
    } else {
        match d {
            10 => 'a',
            11 => 'b',
            12 => 'c',
            13 => 'd',
            14 => 'e',
            _ => 'f',
        }
    }
}

/// Appends the escaped form of one character.
fn push_escaped_char(out: &mut Vec<char>, c: char)
    ensures
        final(out)@ == old(out)@ + escape_char(c),
{
    let ghost start = out@;
    if c == '"' {
        out.push('\\');
        out.push('"');
    } else if c == '\\' {
        out.push('\\');
        out.push('\\');
    } else if c == '\n' {
        out.push('\\');
        out.push('n');
    } else if c == '\r' {
        out.push('\\');
        out.push('r');
    } else if c == '\t' {
        out.push('\\');
        out.push('t');
    } else if c == '\u{8}' {
        out.push('\\');
        out.push('b');
    } else if c == '\u{c}' {
        out.push('\\');
        out.push('f');
    } else if (c as u32) < 32 {
        let n = c as u32;
        out.push('\\');
        out.push('u');
        out.push('0');
        out.push('0');
        out.push(hex_digit(n / 16));
        out.push(hex_digit(n % 16));
    } else {
        out.push(c);
    }
    assert(out@ =~= start + escape_char(c));
}

/// Appends a JSON string literal for `s`.
pub fn push_quoted(out: &mut Vec<char>, s: &str)
    ensures
        final(out)@ == old(out)@ + quoted(s@),
{
    let ghost start = out@;
    let v = chars_of(s);
    out.push('"');
    let mut i: usize = 0;
    while i < v.len()
        invariant
            i <= v@.len(),
            out@ == start + seq!['"'] + escape_text(v@.take(i as int)),
        decreases v@.len() - i,
    {
        push_escaped_char(out, v[i]);
        i = i + 1;
        assert(v@.take(i as int).drop_last() =~= v@.take(i - 1));
    }
    out.push('"');
    assert(v@.take(v@.len() as int) =~= v@);
    assert(out@ =~= start + quoted(s@));
}

/// Appends the compact JSON text of `j`.
pub fn write_compact(out: &mut Vec<char>, j: &Json)
    ensures
        final(out)@ == old(out)@ + compact(*j),
    decreases j,
{
    let ghost start = out@;
    match j {
        Json::Null => push_str(out, "null"),
        Json::Bool(b) => if *b {
            push_str(out, "true")
        } else {
            push_str(out, "false")
        },
        Json::Number(t) => push_str(out, t.as_str()),
        Json::Str(s) => push_quoted(out, s.as_str()),
        Json::Array(v) => {
            out.push('[');
            let mut i: usize = 0;
            while i < v.len()
                invariant
                    i <= v@.len(),
                    *j == Json::Array(*v),
                    out@ == start + seq!['['] + compact_list(v@.subrange(0, i as int)),
                decreases v@.len() - i,
            {
                if i > 0 {
                    out.push(',');
                }
                proof {
                    assert(decreases_to!(*j => (*j)->Array_0));
                    assert(decreases_to!(*v => v@));
                    assert(decreases_to!(v@ => v@[i as int]));
                }
                write_compact(out, &v[i]);
                i = i + 1;
                proof {
                    let p = v@.subrange(0, i as int);
                    assert(p.subrange(0, p.len() - 1) =~= v@.subrange(0, i - 1));
                    if i == 1 {
                        assert(compact_list(v@.subrange(0, 0)) =~= seq![]);
                    }
                }
            }
            out.push(']');
            assert(v@.subrange(0, v@.len() as int) =~= v@);
            assert(out@ =~= start + compact(*j));
        },
        Json::Object(m) => {
            out.push('{');
            let mut i: usize = 0;
            while i < m.len()
                invariant
                    i <= m@.len(),
                    *j == Json::Object(*m),
                    out@ == start + seq!['{'] + compact_members(m@.subrange(0, i as int)),
                decreases m@.len() - i,
            {
                if i > 0 {
                    out.push(',');
                }
                push_quoted(out, m[i].0.as_str());
                out.push(':');
                proof {
                    assert(decreases_to!(*j => (*j)->Object_0));
                    assert(decreases_to!(*m => m@));
                    assert(decreases_to!(m@ => m@[i as int]));
                    assert(decreases_to!(m@[i as int] => m@[i as int].1));
                }
                write_compact(out, &m[i].1);
                i = i + 1;
                proof {
                    let p = m@.subrange(0, i as int);
                    assert(p.subrange(0, p.len() - 1) =~= m@.subrange(0, i - 1));
                    if i == 1 {
                        assert(compact_members(m@.subrange(0, 0)) =~= seq![]);
                    }
                }
            }
            out.push('}');
            assert(m@.subrange(0, m@.len() as int) =~= m@);
            assert(out@ =~= start + compact(*j));
        },
    }
}

/// `serde_json::to_string`: compact JSON text.
pub fn to_compact_string(j: &Json) -> (r: String)
    ensures
        r@ == compact(*j),
{
    let mut out: Vec<char> = Vec::new();
    write_compact(&mut out, j);
    string_of(&out)
}

/// Nesting depth of a value: 0 for scalars, one more than the deepest
/// element for arrays and objects.
pub open spec fn depth(j: Json) -> nat
    decreases j,
{
    match j {
        Json::Array(v) => 1 + max_depth(v@),
        Json::Object(m) => 1 + max_depth_members(m@),
        _ => 0,
    }
}

/// The largest depth among array elements.
pub open spec fn max_depth(items: Seq<Json>) -> nat
    decreases items,
{
    if items.len() == 0 {
        0
    } else {
        let a = max_depth(items.subrange(0, items.len() - 1));
        let b = depth(items[items.len() - 1]);
        if a < b {
            b
        } else {
            a
        }
    }
}

/// The largest depth among member values.
pub open spec fn max_depth_members(m: Seq<(String, Json)>) -> nat
    decreases m,
{
    if m.len() == 0 {
        0
    } else {
        let a = max_depth_members(m.subrange(0, m.len() - 1));
        let b = depth(m[m.len() - 1].1);
        if a < b {
            b
        } else {
            a
        }
    }
}

proof fn lemma_max_depth(items: Seq<Json>)
    ensures
        forall|k: int| 0 <= k < items.len() ==> depth(#[trigger] items[k]) <= max_depth(items),
    decreases items.len(),
{
    if items.len() > 0 {
        let p = items.subrange(0, items.len() - 1);
        lemma_max_depth(p);
        assert forall|k: int| 0 <= k < items.len() implies depth(#[trigger] items[k])
            <= max_depth(items) by {
            if k < items.len() - 1 {
                assert(items[k] == p[k]);
            }
        }
    }
}

proof fn lemma_max_depth_members(m: Seq<(String, Json)>)
    ensures
        forall|k: int| 0 <= k < m.len() ==> depth(#[trigger] m[k].1) <= max_depth_members(m),
    decreases m.len(),
{
    if m.len() > 0 {
        let p = m.subrange(0, m.len() - 1);
        lemma_max_depth_members(p);
        assert forall|k: int| 0 <= k < m.len() implies depth(#[trigger] m[k].1)
            <= max_depth_members(m) by {
            if k < m.len() - 1 {
                assert(m[k] == p[k]);
            }
        }
    }
}

/// Two spaces per nesting level.
pub open spec fn indent(level: nat) -> Seq<char> {
    Seq::new(2 * level, |i: int| ' ')
}

/// Pretty JSON text (two-space indentation, `": "` after keys), as
/// `serde_json::to_string_pretty` lays it out; `level` is the nesting depth.
pub open spec fn pretty(j: Json, level: nat) -> Seq<char>
    decreases j,
{
    match j {
        Json::Array(v) => if v@.len() == 0 {
            "[]"@
        } else {
            seq!['['] + pretty_items(v@, level + 1) + seq!['\n'] + indent(level) + seq![']']
        },
        Json::Object(m) => if m@.len() == 0 {
            "{}"@
        } else {
            seq!['{'] + pretty_members(m@, level + 1) + seq!['\n'] + indent(level) + seq!['}']
        },
        _ => compact(j),
    }
}

/// Array elements, each on its own line at `level`.
pub open spec fn pretty_items(items: Seq<Json>, level: nat) -> Seq<char>
    decreases items,
{
    if items.len() == 0 {
        seq![]
    } else {
        pretty_items(items.subrange(0, items.len() - 1), level) + (if items.len() > 1 {
            seq![',']
        } else {
            seq![]
        }) + seq!['\n'] + indent(level) + pretty(items[items.len() - 1], level)
    }
}

/// Object members, each on its own line at `level`.
pub open spec fn pretty_members(m: Seq<(String, Json)>, level: nat) -> Seq<char>
    decreases m,
{
    if m.len() == 0 {
        seq![]
    } else {
        pretty_members(m.subrange(0, m.len() - 1), level) + (if m.len() > 1 {
            seq![',']
        } else {
            seq![]
        }) + seq!['\n'] + indent(level) + quoted(m[m.len() - 1].0@) + seq![':', ' '] + pretty(
            m[m.len() - 1].1,
            level,
        )
    }
}

fn push_indent(out: &mut Vec<char>, level: usize)
    requires
        2 * level <= usize::MAX,
    ensures
        final(out)@ == old(out)@ + indent(level as nat),
{
    let ghost start = out@;
    let mut i: usize = 0;
    while i < 2 * level
        invariant
            i <= 2 * level,
            2 * level <= usize::MAX,
            out@ == start + Seq::new(i as nat, |k: int| ' '),
        decreases 2 * level - i,
    {
        out.push(' ');
        i = i + 1;
        assert(out@ =~= start + Seq::new(i as nat, |k: int| ' '));
    }
}

/// Appends the pretty JSON text of `j` at nesting depth `level`.
#[verifier::rlimit(30)]
pub fn write_pretty(out: &mut Vec<char>, j: &Json, level: usize)
    requires
        2 * (level + depth(*j) + 1) <= usize::MAX,
    ensures
        final(out)@ == old(out)@ + pretty(*j, level as nat),
    decreases j,
{
    let ghost start = out@;
    match j {
        Json::Array(v) => {
            if v.len() == 0 {
                push_str(out, "[]");
                return;
            }
            proof {
                lemma_max_depth(v@);
            }
            out.push('[');
            let mut i: usize = 0;
            while i < v.len()
                invariant
                    i <= v@.len(),
                    v@.len() > 0,
                    *j == Json::Array(*v),
                    2 * (level + depth(*j) + 1) <= usize::MAX,
                    forall|k: int| 0 <= k < v@.len() ==> depth(#[trigger] v@[k]) < depth(*j),
                    out@ == start + seq!['['] + pretty_items(v@.subrange(0, i as int), (level + 1) as nat),
                decreases v@.len() - i,
            {
                if i > 0 {
                    out.push(',');
                }
                out.push('\n');
                push_indent(out, level + 1);
                proof {
                    assert(decreases_to!(*j => (*j)->Array_0));
                    assert(decreases_to!(*v => v@));
                    assert(decreases_to!(v@ => v@[i as int]));
                }
                write_pretty(out, &v[i], level + 1);
                i = i + 1;
                proof {
                    let p = v@.subrange(0, i as int);
                    assert(p.subrange(0, p.len() - 1) =~= v@.subrange(0, i - 1));
                    if i == 1 {
                        assert(pretty_items(v@.subrange(0, 0), (level + 1) as nat) =~= seq![]);
                    }
                }
            }
            out.push('\n');
            push_indent(out, level);
            out.push(']');
            assert(v@.subrange(0, v@.len() as int) =~= v@);
            assert(out@ =~= start + pretty(*j, level as nat));
        },
        Json::Object(m) => {
            if m.len() == 0 {
                push_str(out, "{}");
                return;
            }
            proof {
                lemma_max_depth_members(m@);
            }
            out.push('{');
            let mut i: usize = 0;
            while i < m.len()
                invariant
                    i <= m@.len(),
                    m@.len() > 0,
                    *j == Json::Object(*m),
                    2 * (level + depth(*j) + 1) <= usize::MAX,
                    forall|k: int| 0 <= k < m@.len() ==> depth(#[trigger] m@[k].1) < depth(*j),
                    out@ == start + seq!['{'] + pretty_members(m@.subrange(0, i as int), (level + 1) as nat),
                decreases m@.len() - i,
            {
                if i > 0 {
                    out.push(',');
                }
                out.push('\n');
                push_indent(out, level + 1);
                push_quoted(out, m[i].0.as_str());
                out.push(':');
                out.push(' ');
                proof {
                    assert(decreases_to!(*j => (*j)->Object_0));
                    assert(decreases_to!(*m => m@));
                    assert(decreases_to!(m@ => m@[i as int]));
                    assert(decreases_to!(m@[i as int] => m@[i as int].1));
                }
                write_pretty(out, &m[i].1, level + 1);
                i = i + 1;
                proof {
                    let p = m@.subrange(0, i as int);
                    assert(p.subrange(0, p.len() - 1) =~= m@.subrange(0, i - 1));
                    if i == 1 {
                        assert(pretty_members(m@.subrange(0, 0), (level + 1) as nat) =~= seq![]);
                    }
                }
            }
            out.push('\n');
            push_indent(out, level);
            out.push('}');
            assert(m@.subrange(0, m@.len() as int) =~= m@);
            assert(out@ =~= start + pretty(*j, level as nat));
        },
        _ => write_compact(out, j),
    }
}

proof fn lemma_max_depth_le(items: Seq<Json>, b: nat)
    requires
        forall|k: int| 0 <= k < items.len() ==> depth(#[trigger] items[k]) <= b,
    ensures
        max_depth(items) <= b,
    decreases items.len(),
{
    if items.len() > 0 {
        let p = items.subrange(0, items.len() - 1);
        assert forall|k: int| 0 <= k < p.len() implies depth(#[trigger] p[k]) <= b by {
            assert(p[k] == items[k]);
        }
        lemma_max_depth_le(p, b);
    }
}

proof fn lemma_max_depth_members_le(m: Seq<(String, Json)>, b: nat)
    requires
        forall|k: int| 0 <= k < m.len() ==> depth(#[trigger] m[k].1) <= b,
    ensures
        max_depth_members(m) <= b,
    decreases m.len(),
{
    if m.len() > 0 {
        let p = m.subrange(0, m.len() - 1);
        assert forall|k: int| 0 <= k < p.len() implies depth(#[trigger] p[k].1) <= b by {
            assert(p[k] == m[k]);
        }
        lemma_max_depth_members_le(p, b);
    }
}

/// Whether a value nests at most `limit` levels deep.
pub fn depth_at_most(j: &Json, limit: usize) -> (r: bool)
    ensures
        r == (depth(*j) <= limit),
    decreases j,
{
    match j {
        Json::Array(v) => {
            if limit == 0 {
                return false;
            }
            proof {
                lemma_max_depth(v@);
            }
            let mut i: usize = 0;
            while i < v.len()
                invariant
                    i <= v@.len(),
                    *j == Json::Array(*v),
                    limit > 0,
                    forall|k: int| 0 <= k < i ==> depth(#[trigger] v@[k]) <= limit - 1,
                    forall|k: int| 0 <= k < v@.len() ==> depth(#[trigger] v@[k]) <= max_depth(v@),
                decreases v@.len() - i,
            {
                assert(decreases_to!(*j => (*j)->Array_0));
                assert(decreases_to!(*v => v@));
                assert(decreases_to!(v@ => v@[i as int]));
                if !depth_at_most(&v[i], limit - 1) {
                    return false;
                }
                i = i + 1;
            }
            proof {
                lemma_max_depth_le(v@, (limit - 1) as nat);
            }
            true
        },
        Json::Object(m) => {
            if limit == 0 {
                return false;
            }
            proof {
                lemma_max_depth_members(m@);
            }
            let mut i: usize = 0;
            while i < m.len()
                invariant
                    i <= m@.len(),
                    *j == Json::Object(*m),
                    limit > 0,
                    forall|k: int| 0 <= k < i ==> depth(#[trigger] m@[k].1) <= limit - 1,
                    forall|k: int|
                        0 <= k < m@.len() ==> depth(#[trigger] m@[k].1) <= max_depth_members(m@),
                decreases m@.len() - i,
            {
                assert(decreases_to!(*j => (*j)->Object_0));
                assert(decreases_to!(*m => m@));
                assert(decreases_to!(m@ => m@[i as int]));
                assert(decreases_to!(m@[i as int] => m@[i as int].1));
                if !depth_at_most(&m[i].1, limit - 1) {
                    return false;
                }
                i = i + 1;
            }
            proof {
                lemma_max_depth_members_le(m@, (limit - 1) as nat);
            }
            true
        },
        _ => true,
    }
}

} // verus!
