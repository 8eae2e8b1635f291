//! CSV text: cell quoting, lines and records, and the ordering used for
//! column headers.

use vstd::prelude::*;
use crate::text::{append_chars, chars_of, join, join_chars, string_of, views};

verus! {

/// Whether a cell must be quoted: it holds a comma, a quote or a line break.
pub open spec fn needs_quoting(s: Seq<char>) -> bool {
    s.contains(',') || s.contains('"') || s.contains('\n') || s.contains('\r')
}

/// How one character appears inside a quoted cell.
pub open spec fn doubled_char(c: char) -> Seq<char> {
    if c == '"' {
        seq!['"', '"']
    } else {
        seq![c]
    }
}

/// The text with every quote doubled.
pub open spec fn double_quotes(s: Seq<char>) -> Seq<char>
    decreases s.len(),
{
    if s.len() == 0 {
        seq![]
    } else {
        doubled_char(s[0]) + double_quotes(s.drop_first())
    }
}

/// A cell as written to CSV: quoted, with quotes doubled, when it needs
/// quoting; unchanged otherwise.
pub open spec fn escape_cell(s: Seq<char>) -> Seq<char> {
    if needs_quoting(s) {
        seq!['"'] + double_quotes(s) + seq!['"']
    } else {
        s
    }
}

/// One CSV line: the escaped cells separated by commas.
pub open spec fn csv_line_text(cells: Seq<Seq<char>>) -> Seq<char> {
    join(cells.map_values(|c: Seq<char>| escape_cell(c)), seq![','])
}

/// Lines separated by newlines (no trailing newline).
pub open spec fn lines_text(lines: Seq<Seq<char>>) -> Seq<char> {
    join(lines, seq!['\n'])
}

/// A header line followed by one line per row.
pub open spec fn records_csv(headers: Seq<Seq<char>>, rows: Seq<Seq<Seq<char>>>) -> Seq<char> {
    lines_text(seq![csv_line_text(headers)] + rows.map_values(|r: Seq<Seq<char>>| csv_line_text(r)))
}

/// The texts of a sequence of strings.
pub open spec fn texts(v: Seq<String>) -> Seq<Seq<char>> {
    v.map_values(|s: String| s@)
}

/// The texts of a sequence of string slices.
pub open spec fn str_texts(v: Seq<&str>) -> Seq<Seq<char>> {
    v.map_values(|s: &str| s@)
}

/// The cell texts of each row.
pub open spec fn row_texts(rows: Seq<Vec<String>>) -> Seq<Seq<Seq<char>>> {
    rows.map_values(|r: Vec<String>| texts(r@))
}

pub proof fn lemma_double_quotes_append(a: Seq<char>, b: Seq<char>)
    ensures
        double_quotes(a + b) == double_quotes(a) + double_quotes(b),
    decreases a.len(),
{
    if a.len() > 0 {
        assert((a + b).drop_first() =~= a.drop_first() + b);
        lemma_double_quotes_append(a.drop_first(), b);
        assert(double_quotes(a + b) =~= doubled_char(a[0]) + double_quotes(a.drop_first() + b));
    } else {
        assert(a + b =~= b);
    }
}

proof fn lemma_double_quotes_one(c: char)
    ensures
        double_quotes(seq![c]) == doubled_char(c),
{
    let s = seq![c];
    assert(s.drop_first() =~= Seq::<char>::empty());
    assert(double_quotes(s.drop_first()) =~= Seq::<char>::empty());
    assert(s[0] == c);
    assert(double_quotes(s) == doubled_char(s[0]) + double_quotes(s.drop_first()));
    assert(doubled_char(c) + Seq::<char>::empty() =~= doubled_char(c));
}

/// Quotes a cell when it holds a comma, a quote or a line break.
pub fn escape_csv_cell(value: &str) -> (r: String)
    ensures
        r@ == escape_cell(value@),
{
    let v = chars_of(value);
    let mut special = false;
    let mut i: usize = 0;
    while i < v.len()
        invariant
            i <= v@.len(),
            special == (exists|k: int|
                0 <= k < i && (v@[k] == ',' || v@[k] == '"' || v@[k] == '\n' || v@[k] == '\r')),
        decreases v@.len() - i,
    {
        let c = v[i];
        if c == ',' || c == '"' || c == '\n' || c == '\r' {
            special = true;
        }
        i = i + 1;
    }
    proof {
        if special {
            let k = choose|k: int|
                0 <= k < v@.len() && (v@[k] == ',' || v@[k] == '"' || v@[k] == '\n' || v@[k]
                    == '\r');
            assert(v@.contains(v@[k]));
        } else {
            assert(!v@.contains(','));
            assert(!v@.contains('"'));
            assert(!v@.contains('\n'));
            assert(!v@.contains('\r'));
        }
    }
    if !special {
        return string_of(&v);
    }
    let mut out: Vec<char> = Vec::new();
    out.push('"');
    let mut j: usize = 0;
    while j < v.len()
        invariant
            j <= v@.len(),
            out@ == seq!['"'] + double_quotes(v@.take(j as int)),
        decreases v@.len() - j,
    {
        let c = v[j];
        proof {
            lemma_double_quotes_append(v@.take(j as int), seq![c]);
            lemma_double_quotes_one(c);
            assert(v@.take(j + 1) =~= v@.take(j as int) + seq![c]);
        }
        if c == '"' {
            out.push('"');
            out.push('"');
        } else {
            out.push(c);
        }
        j = j + 1;
        assert(out@ =~= seq!['"'] + double_quotes(v@.take(j as int)));
    }
    out.push('"');
    assert(v@.take(v@.len() as int) =~= v@);
    assert(out@ =~= escape_cell(value@));
    string_of(&out)
}

/// Writes one CSV line from cell texts.
pub fn csv_line(cells: &Vec<String>) -> (r: String)
    ensures
        r@ == csv_line_text(texts(cells@)),
{
    let mut escaped: Vec<Vec<char>> = Vec::new();
    let mut i: usize = 0;
    while i < cells.len()
        invariant
            i <= cells@.len(),
            escaped@.len() == i,
            forall|k: int| 0 <= k < i ==> (#[trigger] escaped@[k])@ == escape_cell(cells@[k]@),
        decreases cells@.len() - i,
    {
        let e = escape_csv_cell(cells[i].as_str());
        escaped.push(chars_of(e.as_str()));
        i = i + 1;
    }
    let sep = chars_of(",");
    proof {
        reveal_strlit(",");
        assert(sep@ =~= seq![',']);
        assert(escaped@.map_values(|x: Vec<char>| x@) =~= texts(cells@).map_values(
            |c: Seq<char>| escape_cell(c),
        ));
    }
    let joined = join_chars(&escaped, &sep);
    string_of(&joined)
}

/// Joins already formed lines with newlines.
pub fn lines_of(lines: &Vec<String>) -> (r: String)
    ensures
        r@ == lines_text(texts(lines@)),
{
    let mut parts: Vec<Vec<char>> = Vec::new();
    let mut i: usize = 0;
    while i < lines.len()
        invariant
            i <= lines@.len(),
            parts@.len() == i,
            forall|k: int| 0 <= k < i ==> (#[trigger] parts@[k])@ == lines@[k]@,
        decreases lines@.len() - i,
    {
        parts.push(chars_of(lines[i].as_str()));
        i = i + 1;
    }
    let sep = chars_of("\n");
    proof {
        reveal_strlit("\n");
        assert(sep@ =~= seq!['\n']);
        assert(parts@.map_values(|x: Vec<char>| x@) =~= texts(lines@));
    }
    let joined = join_chars(&parts, &sep);
    string_of(&joined)
}

/// A header line and one line per row, joined with newlines.
pub fn render_records_csv(headers: &[&str], rows: &Vec<Vec<String>>) -> (r: String)
    ensures
        r@ == records_csv(str_texts(headers@), row_texts(rows@)),
{
    let mut owned: Vec<String> = Vec::new();
    let mut i: usize = 0;
    while i < headers.len()
        invariant
            i <= headers@.len(),
            owned@.len() == i,
            forall|k: int| 0 <= k < i ==> (#[trigger] owned@[k])@ == headers@[k]@,
        decreases headers@.len() - i,
    {
        owned.push(String::from_str(headers[i]));
        i = i + 1;
    }
    assert(texts(owned@) =~= str_texts(headers@));
    render_records(&owned, rows)
}

/// A header line and one line per row, joined with newlines.
pub fn render_records(headers: &Vec<String>, rows: &Vec<Vec<String>>) -> (r: String)
    ensures
        r@ == records_csv(texts(headers@), row_texts(rows@)),
{
    let mut lines: Vec<String> = Vec::new();
    lines.push(csv_line(headers));
    let mut i: usize = 0;
    while i < rows.len()
        invariant
            i <= rows@.len(),
            lines@.len() == i + 1,
            lines@[0]@ == csv_line_text(texts(headers@)),
            forall|k: int| 1 <= k <= i ==> (#[trigger] lines@[k])@ == csv_line_text(texts(rows@[k - 1]@)),
        decreases rows@.len() - i,
    {
        lines.push(csv_line(&rows[i]));
        i = i + 1;
    }
    assert(texts(lines@) =~= seq![csv_line_text(texts(headers@))] + row_texts(rows@).map_values(
        |r: Seq<Seq<char>>| csv_line_text(r),
    ));
    lines_of(&lines)
}

/// Lexicographic order of texts by character code (the order of `String`).
pub open spec fn text_lt(a: Seq<char>, b: Seq<char>) -> bool
    decreases a.len(),
{
    if a.len() == 0 {
        b.len() > 0
    } else if b.len() == 0 {
        false
    } else if a[0] < b[0] {
        true
    } else if a[0] > b[0] {
        false
    } else {
        text_lt(a.drop_first(), b.drop_first())
    }
}

pub proof fn lemma_text_lt_irreflexive(a: Seq<char>)
    ensures
        !text_lt(a, a),
    decreases a.len(),
{
    if a.len() > 0 {
        lemma_text_lt_irreflexive(a.drop_first());
    }
}

pub proof fn lemma_text_lt_transitive(a: Seq<char>, b: Seq<char>, c: Seq<char>)
    requires
        text_lt(a, b),
        text_lt(b, c),
    ensures
        text_lt(a, c),
    decreases a.len(),
{
    if a.len() > 0 && b.len() > 0 && c.len() > 0 && a[0] == b[0] && b[0] == c[0] {
        lemma_text_lt_transitive(a.drop_first(), b.drop_first(), c.drop_first());
    }
}

pub proof fn lemma_text_lt_total(a: Seq<char>, b: Seq<char>)
    ensures
        text_lt(a, b) || a == b || text_lt(b, a),
    decreases a.len(),
{
    if a.len() > 0 && b.len() > 0 && a[0] == b[0] {
        lemma_text_lt_total(a.drop_first(), b.drop_first());
        if a.drop_first() == b.drop_first() {
            assert(a =~= seq![a[0]] + a.drop_first());
            assert(b =~= seq![b[0]] + b.drop_first());
        }
    } else if a.len() == 0 && b.len() == 0 {
        assert(a =~= b);
    }
}

/// Executable [`text_lt`] on the suffixes starting at `i`.
fn lt_from(a: &Vec<char>, b: &Vec<char>, i: usize) -> (r: bool)
    requires
        i <= a@.len(),
        i <= b@.len(),
    ensures
        r == text_lt(a@.skip(i as int), b@.skip(i as int)),
    decreases a@.len() - i,
{
    if i == a.len() {
        return i < b.len();
    }
    if i == b.len() {
        return false;
    }
    if a[i] < b[i] {
        return true;
    }
    if a[i] > b[i] {
        return false;
    }
    assert(a@.skip(i as int).drop_first() =~= a@.skip(i + 1));
    assert(b@.skip(i as int).drop_first() =~= b@.skip(i + 1));
    lt_from(a, b, i + 1)
}

/// Whether `a` sorts before `b`.
pub fn chars_lt(a: &Vec<char>, b: &Vec<char>) -> (r: bool)
    ensures
        r == text_lt(a@, b@),
{
    assert(a@.skip(0) =~= a@);
    assert(b@.skip(0) =~= b@);
    lt_from(a, b, 0)
}

/// Strictly increasing texts (sorted, no duplicates).
pub open spec fn strictly_sorted(s: Seq<Seq<char>>) -> bool {
    forall|i: int, j: int| 0 <= i < j < s.len() ==> text_lt(#[trigger] s[i], #[trigger] s[j])
}

/// Two strictly sorted lists with the same elements are equal.
pub proof fn lemma_sorted_unique(a: Seq<Seq<char>>, b: Seq<Seq<char>>)
    requires
        strictly_sorted(a),
        strictly_sorted(b),
        a.to_set() == b.to_set(),
    ensures
        a == b,
    decreases a.len(),
{
    if a.len() == 0 {
        if b.len() > 0 {
            assert(b.to_set().contains(b[0]));
        }
        assert(a =~= b);
        return;
    }
    assert(a.to_set().contains(a[0]));
    assert(b.len() > 0);
    assert(b.to_set().contains(b[0]));
    let i = choose|i: int| 0 <= i < a.len() && a[i] == b[0];
    let j = choose|j: int| 0 <= j < b.len() && b[j] == a[0];
    if i > 0 && j > 0 {
        lemma_text_lt_transitive(a[0], a[i], a[0]);
        lemma_text_lt_irreflexive(a[0]);
    } else if i > 0 {
        lemma_text_lt_irreflexive(a[0]);
    } else if j > 0 {
        lemma_text_lt_irreflexive(b[0]);
    }
    assert(a[0] == b[0]);
    let a1 = a.drop_first();
    let b1 = b.drop_first();
    assert forall|x: Seq<char>| a1.to_set().contains(x) <==> b1.to_set().contains(x) by {
        if a1.to_set().contains(x) {
            let k = choose|k: int| 0 <= k < a1.len() && a1[k] == x;
            assert(a[k + 1] == x);
            assert(a.to_set().contains(x));
            assert(b.to_set().contains(x));
            let q = choose|q: int| 0 <= q < b.len() && b[q] == x;
            if q == 0 {
                assert(text_lt(a[0], a[k + 1]));
                lemma_text_lt_irreflexive(a[0]);
            }
            assert(b1[q - 1] == x);
        }
        if b1.to_set().contains(x) {
            let k = choose|k: int| 0 <= k < b1.len() && b1[k] == x;
            assert(b[k + 1] == x);
            assert(b.to_set().contains(x));
            assert(a.to_set().contains(x));
            let q = choose|q: int| 0 <= q < a.len() && a[q] == x;
            if q == 0 {
                assert(text_lt(b[0], b[k + 1]));
                lemma_text_lt_irreflexive(b[0]);
            }
            assert(a1[q - 1] == x);
        }
    }
    assert(a1.to_set() =~= b1.to_set());
    assert(strictly_sorted(a1)) by {
        assert forall|p: int, q: int| 0 <= p < q < a1.len() implies text_lt(
            #[trigger] a1[p],
            #[trigger] a1[q],
        ) by {
            assert(a1[p] == a[p + 1] && a1[q] == a[q + 1]);
        }
    }
    assert(strictly_sorted(b1)) by {
        assert forall|p: int, q: int| 0 <= p < q < b1.len() implies text_lt(
            #[trigger] b1[p],
            #[trigger] b1[q],
        ) by {
            assert(b1[p] == b[p + 1] && b1[q] == b[q + 1]);
        }
    }
    lemma_sorted_unique(a1, b1);
    assert(a =~= seq![a[0]] + a1);
    assert(b =~= seq![b[0]] + b1);
}

/// Inserts `key` into a strictly sorted list unless it is already there.
pub fn insert_sorted(set: &mut Vec<Vec<char>>, key: Vec<char>)
    requires
        strictly_sorted(views(old(set)@)),
    ensures
        strictly_sorted(views(final(set)@)),
        forall|t: Seq<char>|
            #[trigger] views(final(set)@).contains(t) <==> (views(old(set)@).contains(t) || t == key@),
{
    let ghost before = views(set@);
    let mut p: usize = 0;
    while p < set.len() && chars_lt(&set[p], &key)
        invariant
            p <= set@.len(),
            views(set@) == before,
            forall|k: int| 0 <= k < p ==> text_lt(#[trigger] before[k], key@),
        decreases set@.len() - p,
    {
        p = p + 1;
    }
    if p < set.len() && chars_eq_local(&set[p], &key) {
        assert(before.contains(key@)) by {
            assert(before[p as int] == key@);
        }
        return;
    }
    proof {
        if p < before.len() {
            lemma_text_lt_total(before[p as int], key@);
            assert(text_lt(key@, before[p as int]));
        }
    }
    set.insert(p, key);
    let ghost after = views(set@);
    proof {
        assert(after =~= before.insert(p as int, key@));
        assert forall|i: int, j: int| 0 <= i < j < after.len() implies text_lt(
            #[trigger] after[i],
            #[trigger] after[j],
        ) by {
            if j < p {
                assert(after[i] == before[i] && after[j] == before[j]);
            } else if j == p {
                assert(after[i] == before[i]);
            } else if i == p {
                assert(after[j] == before[j - 1]);
                if j - 1 > p {
                    lemma_text_lt_transitive(key@, before[p as int], before[j - 1]);
                }
            } else if i < p {
                assert(after[i] == before[i] && after[j] == before[j - 1]);
            } else {
                assert(after[i] == before[i - 1] && after[j] == before[j - 1]);
            }
        }
        assert forall|t: Seq<char>| #[trigger] after.contains(t) <==> (before.contains(t) || t
            == key@) by {
            if after.contains(t) {
                let k = choose|k: int| 0 <= k < after.len() && after[k] == t;
                if k < p {
                    assert(before[k] == t);
                } else if k > p {
                    assert(before[k - 1] == t);
                }
            }
            if before.contains(t) {
                let k = choose|k: int| 0 <= k < before.len() && before[k] == t;
                if k < p {
                    assert(after[k] == t);
                } else {
                    assert(after[k + 1] == t);
                }
            }
            if t == key@ {
                assert(after[p as int] == t);
            }
        }
    }
}

fn chars_eq_local(a: &Vec<char>, b: &Vec<char>) -> (r: bool)
    ensures
        r == (a@ == b@),
{
    crate::text::chars_eq(a, b)
}

/// Reads back the inside of a quoted cell: each doubled quote becomes one.
pub open spec fn undouble_quotes(t: Seq<char>) -> Seq<char>
    decreases t.len(),
{
    if t.len() == 0 {
        seq![]
    } else if t.len() >= 2 && t[0] == '"' && t[1] == '"' {
        seq!['"'] + undouble_quotes(t.skip(2))
    } else {
        seq![t[0]] + undouble_quotes(t.skip(1))
    }
}

/// Reads back a cell as written to CSV: a quoted cell loses its quotes and
/// its doubled quotes; any other cell is kept.
pub open spec fn unescape_cell(t: Seq<char>) -> Seq<char> {
    if t.len() >= 2 && t[0] == '"' && t.last() == '"' {
        undouble_quotes(t.subrange(1, t.len() - 1))
    } else {
        t
    }
}

proof fn lemma_undouble_double(s: Seq<char>)
    ensures
        undouble_quotes(double_quotes(s)) == s,
    decreases s.len(),
{
    if s.len() > 0 {
        let rest = s.drop_first();
        lemma_undouble_double(rest);
        let t = double_quotes(s);
        assert(t == doubled_char(s[0]) + double_quotes(rest));
        if s[0] == '"' {
            assert(t.skip(2) =~= double_quotes(rest));
        } else {
            assert(t.skip(1) =~= double_quotes(rest));
        }
        assert(s =~= seq![s[0]] + rest);
    }
}

/// Writing a cell to CSV and reading it back gives the cell.
pub proof fn law_escape_cell_round_trip(s: Seq<char>)
    ensures
        unescape_cell(escape_cell(s)) == s,
{
    if needs_quoting(s) {
        let t = escape_cell(s);
        assert(t.subrange(1, t.len() - 1) =~= double_quotes(s));
        lemma_undouble_double(s);
    } else {
        if s.len() >= 2 && s[0] == '"' {
            assert(s.contains('"'));
        }
    }
}

} // verus!
