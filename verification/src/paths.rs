//! File-system paths, carried through the library as opaque values.

use vstd::prelude::*;
use std::path::PathBuf;

verus! {

/// `std::path::PathBuf`, opaque to the library.
#[verifier::external_type_specification]
#[verifier::external_body]
pub struct ExPathBuf(PathBuf);

/// `PathBuf::clone`: an equal path.
#[verifier::external_body]
pub(crate) fn clone_path(p: &PathBuf) -> (r: PathBuf)
    ensures
        r == *p,
{
    p.clone()
}

/// The texts of a path's components, in order, as `Path::components` yields
/// them (a root directory as its separator, a normal component as its name).
pub uninterp spec fn path_parts(p: PathBuf) -> Seq<Seq<char>>;

/// A name that `PathBuf::push` appends as one new component: not empty, not
/// `.` or `..`, and free of separators and drive markers.
pub open spec fn plain_component(s: Seq<char>) -> bool {
    &&& s.len() > 0
    &&& s != seq!['.']
    &&& s != seq!['.', '.']
    &&& forall|i: int| 0 <= i < s.len() ==> #[trigger] s[i] != '/' && s[i] != '\\' && s[i] != ':'
}

/// The last components of `parts` are `tail`.
pub open spec fn ends_with_parts(parts: Seq<Seq<char>>, tail: Seq<Seq<char>>) -> bool {
    &&& parts.len() >= tail.len()
    &&& parts.subrange(parts.len() - tail.len(), parts.len() as int) == tail
}

/// `PathBuf::from` on a directory name: a path whose one component is that
/// name, when the name is a plain component.
#[verifier::external_body]
pub(crate) fn relative_dir(name: &str) -> (r: PathBuf)
    ensures
        plain_component(name@) ==> path_parts(r) == seq![name@],
{
    PathBuf::from(name)
}

/// `PathBuf::push` of one relative component: the path gains that component
/// at its end, when it is a plain component.
#[verifier::external_body]
pub(crate) fn push_component(path: &mut PathBuf, component: &str)
    ensures
        plain_component(component@) ==> path_parts(*final(path)) == path_parts(*old(path)).push(
            component@,
        ),
{
    path.push(component)
}


/// The components of `<dir>/<app_dir>/<file>`, where `dir` is the platform's
/// directory, or the relative directory `fallback` when there is none.
pub open spec fn located_parts(
    dir: Option<PathBuf>,
    fallback: Seq<char>,
    app_dir: Seq<char>,
    file: Seq<char>,
) -> Seq<Seq<char>> {
    let base = match dir {
        Some(d) => path_parts(d),
        None => seq![fallback],
    };
    base.push(app_dir).push(file)
}

/// `<dir>/<app_dir>/<file>`, with `fallback` in place of a missing `dir`.
pub fn located_path(dir: Option<PathBuf>, fallback: &str, app_dir: &str, file: &str) -> (r:
    PathBuf)
    ensures
        plain_component(fallback@) && plain_component(app_dir@) && plain_component(file@)
            ==> path_parts(r) == located_parts(dir, fallback@, app_dir@, file@),
{
    let mut path = match dir {
        Some(d) => d,
        None => relative_dir(fallback),
    };
    push_component(&mut path, app_dir);
    push_component(&mut path, file);
    path
}

} // verus!
