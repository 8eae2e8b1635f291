//! Self-update: release tags, the version comparison, release URLs, the
//! checksum list and the decisions of an update run.

use vstd::prelude::*;
use sha2::Digest;
use crate::error::SkyTabError;
use crate::read_api::invalid_argument;
use crate::text::{
    append_chars, chars_eq, chars_of, is_whitespace, is_ws, lead_ws, lemma_lead_ws_is, lower,
    lower_chars, split_chars, split_on, string_of, trim, trim_chars, trim_start, views,
};

verus! {

/// The repository that publishes releases.
pub open spec fn release_repo() -> Seq<char> {
    "LukasMurdock/skytab-cli"@
}

/// A release tag: the trimmed text with a leading `v` added when missing.
pub open spec fn tag_of(value: Seq<char>) -> Seq<char> {
    let t = trim(value);
    if t.len() > 0 && t[0] == 'v' {
        t
    } else {
        seq!['v'] + t
    }
}

/// `normalize_tag`.
pub fn normalize_tag(value: &str) -> (r: String)
    ensures
        r@ == tag_of(value@),
{
    let v = chars_of(value);
    let t = trim_chars(&v);
    if t.len() > 0 && t[0] == 'v' {
        string_of(&t)
    } else {
        let mut out: Vec<char> = Vec::new();
        out.push('v');
        append_chars(&mut out, &t);
        string_of(&out)
    }
}

/// A version text without its leading `v`, if it has one.
pub open spec fn without_v(value: Seq<char>) -> Seq<char> {
    if value.len() > 0 && value[0] == 'v' {
        value.skip(1)
    } else {
        value
    }
}

/// `strip_v_prefix` (returning a new string).
pub fn strip_v_prefix(value: &str) -> (r: String)
    ensures
        r@ == without_v(value@),
{
    let v = chars_of(value);
    if v.len() > 0 && v[0] == 'v' {
        let mut out: Vec<char> = Vec::new();
        let mut i: usize = 1;
        while i < v.len()
            invariant
                1 <= i <= v@.len(),
                out@ == v@.subrange(1, i as int),
            decreases v@.len() - i,
        {
            out.push(v[i]);
            i = i + 1;
            assert(out@ =~= v@.subrange(1, i as int));
        }
        assert(v@.skip(1) =~= v@.subrange(1, v@.len() as int));
        string_of(&out)
    } else {
        String::from_str(value)
    }
}

/// How one version ranks against another.
pub enum Precedence {
    Lower,
    Equal,
    Higher,
}

/// The precedence of `left` against `right` that `semver` gives: both texts
/// parsed with `Version::parse` and compared with `Ord::cmp`; `None` when
/// either does not parse.
pub uninterp spec fn semver_order(left: Seq<char>, right: Seq<char>) -> Option<Precedence>;

/// `semver::Version::parse` on both texts, then `Ord::cmp`. The result is the
/// named [`semver_order`] of the texts; as `Version`'s order is a total
/// order (it is derived), a text that parses ranks `Equal` to itself.
#[verifier::external_body]
fn semver_compare(left: &str, right: &str) -> (r: Option<Precedence>)
    ensures
        r == semver_order(left@, right@),
        left@ == right@ && r is Some ==> r == Some(Precedence::Equal),
{
    let a = semver::Version::parse(left).ok()?;
    let b = semver::Version::parse(right).ok()?;
    match a.cmp(&b) {
        std::cmp::Ordering::Less => Some(Precedence::Lower),
        std::cmp::Ordering::Equal => Some(Precedence::Equal),
        std::cmp::Ordering::Greater => Some(Precedence::Higher),
    }
}

/// `compare_versions`: the semantic-version precedence of two version
/// texts, each read without its leading `v`.
pub fn compare_versions(left: &str, right: &str) -> (r: Option<Precedence>)
    ensures
        r == semver_order(without_v(left@), without_v(right@)),
        left@ == right@ && r is Some ==> r == Some(Precedence::Equal),
{
    let l = strip_v_prefix(left);
    let r = strip_v_prefix(right);
    semver_compare(l.as_str(), r.as_str())
}

/// Whether an update is available. An explicitly requested version is
/// available whenever it differs from the current one (downgrades
/// included); the latest release only when it ranks higher by semantic
/// versioning, or, when either does not parse, when the texts differ.
pub open spec fn update_available(current: Seq<char>, target: Seq<char>, explicit: bool) -> bool {
    if explicit {
        current != target
    } else {
        match semver_order(without_v(target), without_v(current)) {
            Some(p) => p == Precedence::Higher,
            None => current != target,
        }
    }
}

/// `is_update_available`.
pub fn is_update_available(
    current_version: &str,
    target_version: &str,
    explicit_version_requested: bool,
) -> (r: bool)
    ensures
        r == update_available(current_version@, target_version@, explicit_version_requested),
        explicit_version_requested ==> (r <==> current_version@ != target_version@),
        current_version@ == target_version@ ==> !r,
{
    if explicit_version_requested {
        return !crate::text::str_eq(current_version, target_version);
    }
    match compare_versions(target_version, current_version) {
        Some(p) => match p {
            Precedence::Higher => true,
            _ => false,
        },
        None => !crate::text::str_eq(current_version, target_version),
    }
}

/// Number of leading characters that are not whitespace.
pub open spec fn word_len(s: Seq<char>) -> nat
    decreases s.len(),
{
    if s.len() == 0 || is_ws(s[0]) {
        0
    } else {
        1 + word_len(s.drop_first())
    }
}

proof fn lemma_word_len_is(s: Seq<char>, k: int)
    requires
        0 <= k <= s.len(),
        forall|i: int| 0 <= i < k ==> !is_ws(#[trigger] s[i]),
        k < s.len() ==> is_ws(s[k]),
    ensures
        word_len(s) == k,
    decreases k,
{
    if k > 0 {
        let t = s.drop_first();
        assert forall|i: int| 0 <= i < k - 1 implies !is_ws(#[trigger] t[i]) by {
            assert(t[i] == s[i + 1]);
        }
        if k - 1 < t.len() {
            assert(t[k - 1] == s[k]);
        }
        lemma_word_len_is(t, k - 1);
    }
}

/// The first whitespace-separated word of a text and the text after it
/// (`str::split_whitespace`, one step).
pub open spec fn next_word(s: Seq<char>) -> Option<(Seq<char>, Seq<char>)> {
    let t = trim_start(s);
    if t.len() == 0 {
        None
    } else {
        Some((t.take(word_len(t) as int), t.skip(word_len(t) as int)))
    }
}

fn sub_chars(v: &Vec<char>, from: usize, to: usize) -> (r: Vec<char>)
    requires
        from <= to <= v@.len(),
    ensures
        r@ == v@.subrange(from as int, to as int),
{
    let mut out: Vec<char> = Vec::new();
    let mut i: usize = from;
    while i < to
        invariant
            from <= i <= to <= v@.len(),
            out@ == v@.subrange(from as int, i as int),
        decreases to - i,
    {
        out.push(v[i]);
        i = i + 1;
        assert(out@ =~= v@.subrange(from as int, i as int));
    }
    out
}

/// Executable [`next_word`].
pub fn first_word(v: &Vec<char>) -> (r: Option<(Vec<char>, Vec<char>)>)
    ensures
        match next_word(v@) {
            Some((w, rest)) => r matches Some((a, b)) && a@ == w && b@ == rest,
            None => r is None,
        },
{
    let n = v.len();
    let mut i: usize = 0;
    while i < n && is_whitespace(v[i])
        invariant
            i <= n == v@.len(),
            forall|k: int| 0 <= k < i ==> is_ws(#[trigger] v@[k]),
        decreases n - i,
    {
        i = i + 1;
    }
    proof {
        lemma_lead_ws_is(v@, i as int);
    }
    if i == n {
        return None;
    }
    let mut j: usize = i;
    while j < n && !is_whitespace(v[j])
        invariant
            i <= j <= n == v@.len(),
            forall|k: int| i <= k < j ==> !is_ws(#[trigger] v@[k]),
        decreases n - j,
    {
        j = j + 1;
    }
    let ghost t = v@.skip(i as int);
    proof {
        assert forall|k: int| 0 <= k < j - i implies !is_ws(#[trigger] t[k]) by {
            assert(t[k] == v@[i + k]);
        }
        if j < n {
            assert(t[j - i] == v@[j as int]);
        }
        lemma_word_len_is(t, j - i);
        assert(t.take(j - i) =~= v@.subrange(i as int, j as int));
        assert(t.skip(j - i) =~= v@.subrange(j as int, n as int));
    }
    let a = sub_chars(v, i, j);
    let b = sub_chars(v, j, n);
    Some((a, b))
}

/// The checksum that one line of a checksum list gives for an asset: its
/// first word, when its second word is the asset's name.
pub open spec fn line_checksum(line: Seq<char>, asset: Seq<char>) -> Option<Seq<char>> {
    match next_word(line) {
        Some((sum, rest)) => match next_word(rest) {
            Some((name, _)) => if name == asset {
                Some(sum)
            } else {
                None
            },
            None => None,
        },
        None => None,
    }
}

/// The checksum of the first line that names the asset.
pub open spec fn checksum_in(lines: Seq<Seq<char>>, asset: Seq<char>) -> Option<Seq<char>>
    decreases lines.len(),
{
    if lines.len() == 0 {
        None
    } else {
        match line_checksum(lines[0], asset) {
            Some(s) => Some(s),
            None => checksum_in(lines.drop_first(), asset),
        }
    }
}

/// The message when no line names the asset.
pub open spec fn checksum_missing_message(asset: Seq<char>) -> Seq<char> {
    "checksum not found for asset "@ + asset
}

/// `parse_checksum_line`: the checksum that the list gives for the asset.
/// Lines are split at `\n`; a `\r` before it is whitespace, so it never
/// reaches a word.
pub fn parse_checksum_line(content: &str, asset_name: &str) -> (r: Result<String, SkyTabError>)
    ensures
        match checksum_in(split_on(content@, '\n'), asset_name@) {
            Some(s) => r matches Ok(x) && x@ == s,
            None => r matches Err(SkyTabError::InvalidArgument(m)) && m@
                == checksum_missing_message(asset_name@),
        },
{
    let c = chars_of(content);
    let lines = split_chars(&c, '\n');
    let asset = chars_of(asset_name);
    let ghost ls = views(lines@);
    assert(ls.skip(0) =~= ls);
    let mut i: usize = 0;
    while i < lines.len()
        invariant
            i <= lines@.len(),
            ls == views(lines@),
            ls == split_on(c@, '\n'),
            c@ == content@,
            asset@ == asset_name@,
            checksum_in(ls, asset@) == checksum_in(ls.skip(i as int), asset@),
        decreases lines@.len() - i,
    {
        proof {
            assert(ls.skip(i as int)[0] == lines@[i as int]@);
            assert(ls.skip(i as int).drop_first() =~= ls.skip(i + 1));
        }
        match first_word(&lines[i]) {
            Some((sum, rest)) => match first_word(&rest) {
                Some((name, _)) => {
                    if chars_eq(&name, &asset) {
                        return Ok(string_of(&sum));
                    }
                },
                None => {},
            },
            None => {},
        }
        i = i + 1;
    }
    assert(ls.skip(i as int).len() == 0);
    let mut msg = chars_of("checksum not found for asset ");
    append_chars(&mut msg, &asset);
    Err(invalid_argument(&msg))
}

/// The lowercase hexadecimal SHA-256 digest of some bytes.
pub uninterp spec fn sha256_hex_of(bytes: Seq<u8>) -> Seq<char>;

/// `Sha256::digest` of the bytes (`new`, `update` and `finalize` in one
/// call), printed with `{:x}`: the named [`sha256_hex_of`] of the bytes, 64
/// hexadecimal digits.
#[verifier::external_body]
fn sha256_hex(bytes: &[u8]) -> (r: String)
    ensures
        r@ == sha256_hex_of(bytes@),
        r@.len() == 64,
{
    format!("{:x}", sha2::Sha256::digest(bytes))
}

/// The message when the downloaded archive does not match its checksum.
pub open spec fn checksum_mismatch_message() -> Seq<char> {
    "checksum verification failed for update archive"@
}

/// Checks a downloaded archive against the checksum that the release lists.
pub fn verify_archive_checksum(archive: &[u8], expected: &str) -> (r: Result<(), SkyTabError>)
    ensures
        sha256_hex_of(archive@) == expected@ ==> r is Ok,
        sha256_hex_of(archive@) != expected@ ==> (r matches Err(SkyTabError::InvalidArgument(m))
            && m@ == checksum_mismatch_message()),
{
    let actual = sha256_hex(archive);
    if crate::text::str_eq(actual.as_str(), expected) {
        Ok(())
    } else {
        let m = chars_of("checksum verification failed for update archive");
        Err(invalid_argument(&m))
    }
}

/// The release target of a platform, given `std::env::consts::OS` and
/// `ARCH`.
pub open spec fn target_triple(os: Seq<char>, arch: Seq<char>) -> Option<Seq<char>> {
    if os == "macos"@ && arch == "aarch64"@ {
        Some("aarch64-apple-darwin"@)
    } else if os == "macos"@ && arch == "x86_64"@ {
        Some("x86_64-apple-darwin"@)
    } else if os == "linux"@ && arch == "x86_64"@ {
        Some("x86_64-unknown-linux-musl"@)
    } else {
        None
    }
}

/// Executable [`target_triple`]; other platforms are refused.
pub fn target_triple_for(os: &str, arch: &str) -> (r: Result<String, SkyTabError>)
    ensures
        match target_triple(os@, arch@) {
            Some(t) => r matches Ok(x) && x@ == t,
            None => r matches Err(SkyTabError::InvalidArgument(m)) && m@
                == "unsupported platform for self-update: "@ + os@ + "/"@ + arch@,
        },
{
    let macos = crate::text::str_eq(os, "macos");
    let linux = crate::text::str_eq(os, "linux");
    let aarch64 = crate::text::str_eq(arch, "aarch64");
    let x86_64 = crate::text::str_eq(arch, "x86_64");
    if macos && aarch64 {
        Ok(String::from_str("aarch64-apple-darwin"))
    } else if macos && x86_64 {
        Ok(String::from_str("x86_64-apple-darwin"))
    } else if linux && x86_64 {
        Ok(String::from_str("x86_64-unknown-linux-musl"))
    } else {
        let mut m = chars_of("unsupported platform for self-update: ");
        let o = chars_of(os);
        append_chars(&mut m, &o);
        m.push('/');
        let a = chars_of(arch);
        append_chars(&mut m, &a);
        proof {
            reveal_strlit("/");
            assert(m@ =~= "unsupported platform for self-update: "@ + os@ + "/"@ + arch@);
        }
        Err(invalid_argument(&m))
    }
}

fn concat3(a: &str, b: &str, c: &str) -> (r: String)
    ensures
        r@ == a@ + b@ + c@,
{
    let mut out = chars_of(a);
    let bv = chars_of(b);
    append_chars(&mut out, &bv);
    let cv = chars_of(c);
    append_chars(&mut out, &cv);
    string_of(&out)
}

/// `v` followed by the package version: the tag of the running build.
pub fn current_version_tag(package_version: &str) -> (r: String)
    ensures
        r@ == seq!['v'] + package_version@,
{
    let mut out: Vec<char> = Vec::new();
    out.push('v');
    let p = chars_of(package_version);
    append_chars(&mut out, &p);
    string_of(&out)
}

/// The archive of a release for a target.
pub fn archive_asset_name(target_version: &str, target_triple: &str) -> (r: String)
    ensures
        r@ == "skytab-"@ + target_version@ + "-"@ + target_triple@ + ".tar.gz"@,
{
    let head = concat3("skytab-", target_version, "-");
    concat3(head.as_str(), target_triple, ".tar.gz")
}

/// The download URL of a file of a release.
pub fn release_download_url(target_version: &str, file_name: &str) -> (r: String)
    ensures
        r@ == "https://github.com/"@ + release_repo() + "/releases/download/"@ + target_version@
            + "/"@ + file_name@,
{
    let head = concat3(
        "https://github.com/",
        "LukasMurdock/skytab-cli",
        "/releases/download/",
    );
    let mid = concat3(head.as_str(), target_version, "/");
    let r = concat3(mid.as_str(), file_name, "");
    proof {
        reveal_strlit("");
        assert(r@ =~= "https://github.com/"@ + release_repo() + "/releases/download/"@
            + target_version@ + "/"@ + file_name@);
    }
    r
}

/// The URL of the checksum list of a release.
pub fn checksums_url(target_version: &str) -> (r: String)
    ensures
        r@ == "https://github.com/"@ + release_repo() + "/releases/download/"@ + target_version@
            + "/checksums.txt"@,
{
    let u = release_download_url(target_version, "checksums.txt");
    proof {
        reveal_strlit("/");
        reveal_strlit("checksums.txt");
        reveal_strlit("/checksums.txt");
        assert(u@ =~= "https://github.com/"@ + release_repo() + "/releases/download/"@
            + target_version@ + "/checksums.txt"@);
    }
    u
}

/// The API URL of the latest release.
pub fn latest_release_url() -> (r: String)
    ensures
        r@ == "https://api.github.com/repos/"@ + release_repo() + "/releases/latest"@,
{
    concat3("https://api.github.com/repos/", "LukasMurdock/skytab-cli", "/releases/latest")
}

/// The outcome of an update run.
pub struct UpdateReport {
    pub current_version: String,
    pub target_version: String,
    pub update_available: bool,
    pub updated: bool,
    pub check_only: bool,
    pub target_triple: String,
    pub installed_paths: Vec<String>,
}

/// What an update run does once the target version is known.
pub enum UpdateStep {
    /// Report availability only (`--check`).
    CheckOnly,
    /// Nothing to install.
    UpToDate,
    /// Ask on the terminal before installing.
    Confirm,
    /// Download and install.
    Install,
}

/// `update` without `--check` asks or installs only when an update is
/// available: with none, the step is `UpToDate` whatever `--yes` and the
/// terminal say; `--check` only ever reports; with an update available,
/// `--yes` or a non-terminal installs at once and a terminal is asked.
pub proof fn law_update_only_when_available(
    check: bool,
    available: bool,
    yes: bool,
    stdin_is_terminal: bool,
)
    ensures
        !check && !available ==> update_step_of(check, available, yes, stdin_is_terminal) is UpToDate,
        (update_step_of(check, available, yes, stdin_is_terminal) is Confirm || update_step_of(
            check,
            available,
            yes,
            stdin_is_terminal,
        ) is Install) ==> available && !check,
        check ==> update_step_of(check, available, yes, stdin_is_terminal) is CheckOnly,
        !check && available && (yes || !stdin_is_terminal) ==> update_step_of(
            check,
            available,
            yes,
            stdin_is_terminal,
        ) is Install,
        !check && available && !yes && stdin_is_terminal ==> update_step_of(
            check,
            available,
            yes,
            stdin_is_terminal,
        ) is Confirm,
{
}

/// The next step of `update`: `--check` only reports; an unavailable
/// update stops; without `--yes` on a terminal the user is asked.
pub open spec fn update_step_of(
    check: bool,
    available: bool,
    yes: bool,
    stdin_is_terminal: bool,
) -> UpdateStep {
    if check {
        UpdateStep::CheckOnly
    } else if !available {
        UpdateStep::UpToDate
    } else if !yes && stdin_is_terminal {
        UpdateStep::Confirm
    } else {
        UpdateStep::Install
    }
}

/// Executable [`update_step_of`].
pub fn update_step(check: bool, available: bool, yes: bool, stdin_is_terminal: bool) -> (r:
    UpdateStep)
    ensures
        r == update_step_of(check, available, yes, stdin_is_terminal),
{
    if check {
        UpdateStep::CheckOnly
    } else if !available {
        UpdateStep::UpToDate
    } else if !yes && stdin_is_terminal {
        UpdateStep::Confirm
    } else {
        UpdateStep::Install
    }
}

/// The prompt before an interactive update.
pub fn confirmation_prompt(current_version: &str, target_version: &str) -> (r: String)
    ensures
        r@ == "Update skytab from "@ + current_version@ + " to "@ + target_version@
            + "? [y/N]: "@,
{
    let head = concat3("Update skytab from ", current_version, " to ");
    concat3(head.as_str(), target_version, "? [y/N]: ")
}

/// An answer accepts the update when, trimmed and in ASCII lowercase, it is
/// `y` or `yes`.
pub open spec fn accepts(response: Seq<char>) -> bool {
    lower(trim(response)) == "y"@ || lower(trim(response)) == "yes"@
}

/// Executable [`accepts`].
pub fn confirmation_accepted(response: &str) -> (r: bool)
    ensures
        r == accepts(response@),
{
    let v = chars_of(response);
    let t = trim_chars(&v);
    let l = lower_chars(&t);
    let y = chars_of("y");
    let yes = chars_of("yes");
    chars_eq(&l, &y) || chars_eq(&l, &yes)
}

/// A report of a run that installed nothing.
pub fn report_without_install(
    current_version: String,
    target_version: String,
    update_available: bool,
    check_only: bool,
    target_triple: String,
) -> (r: UpdateReport)
    ensures
        r.current_version == current_version,
        r.target_version == target_version,
        r.update_available == update_available,
        !r.updated,
        r.check_only == check_only,
        r.target_triple == target_triple,
        r.installed_paths@.len() == 0,
{
    UpdateReport {
        current_version,
        target_version,
        update_available,
        updated: false,
        check_only,
        target_triple,
        installed_paths: Vec::new(),
    }
}

/// The report of a run that installed binaries.
pub fn report_installed(
    current_version: String,
    target_version: String,
    update_available: bool,
    target_triple: String,
    installed_paths: Vec<String>,
) -> (r: UpdateReport)
    ensures
        r.current_version == current_version,
        r.target_version == target_version,
        r.update_available == update_available,
        r.updated,
        !r.check_only,
        r.target_triple == target_triple,
        r.installed_paths == installed_paths,
{
    UpdateReport {
        current_version,
        target_version,
        update_available,
        updated: true,
        check_only: false,
        target_triple,
        installed_paths,
    }
}

/// A tag is already normalized: normalizing it again changes nothing.
pub proof fn law_normalize_tag_idempotent(value: Seq<char>)
    ensures
        tag_of(tag_of(value)) == tag_of(value),
{
    let t = trim(value);
    crate::text::lemma_trim_shape(value);
    if t.len() > 0 && t[0] == 'v' {
        crate::text::law_trim_idempotent(value);
    } else {
        let g = seq!['v'] + t;
        assert(g[0] == 'v');
        assert(!is_ws('v'));
        if t.len() > 0 {
            assert(g.last() == t.last());
        }
        crate::text::lemma_trim_fixed(g);
    }
}

} // verus!
