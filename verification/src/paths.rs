//! Paths held as text, and what `std::path::Path` makes of them: joining,
//! relativeness, file name and parent.

use vstd::prelude::*;
use crate::text::opt_text;

verus! {

/// What `std::path::Path::join` gives for `base` and `part`: `part`
/// adjoined to `base` with the target's separator, or `part` alone when it
/// is absolute.
pub uninterp spec fn path_join(base: Seq<char>, part: Seq<char>) -> Seq<char>;

/// What `std::path::Path::is_relative` gives for the path `path`.
pub uninterp spec fn path_is_relative(path: Seq<char>) -> bool;

/// Calls `std::path::Path::join`; claims that the result is the named
/// `path_join` of the two paths. Both are text, so the joined path is text
/// too and the conversion back to a `String` loses nothing.
#[verifier::external_body]
pub(crate) fn join_path(base: &str, part: &str) -> (r: String)
    ensures
        r@ == path_join(base@, part@),
{
    std::path::Path::new(base).join(part).to_string_lossy().into_owned()
}

/// Calls `std::path::Path::is_relative`; claims that the result is the named
/// `path_is_relative` of the path.
#[verifier::external_body]
pub(crate) fn is_relative(path: &str) -> (r: bool)
    ensures
        r == path_is_relative(path@),
{
    std::path::Path::new(path).is_relative()
}

/// What `std::path::Path::file_name` gives for the path `path`: its final
/// component when that is a normal name.
pub uninterp spec fn path_file_name(path: Seq<char>) -> Option<Seq<char>>;

/// What `std::path::Path::parent` gives for the path `path`: the path
/// without its final component, if it has one.
pub uninterp spec fn path_parent(path: Seq<char>) -> Option<Seq<char>>;

/// Calls `std::path::Path::file_name` on `path`; claims that the result is
/// the named `path_file_name` of the path. The component is text taken from
/// `path`, so the conversion back to a `String` loses nothing.
#[verifier::external_body]
pub(crate) fn file_name(path: &str) -> (r: Option<String>)
    ensures
        opt_text(r) == path_file_name(path@),
{
    match std::path::Path::new(path).file_name() {
        Some(n) => Some(n.to_string_lossy().into_owned()),
        None => None,
    }
}

/// Calls `std::path::Path::parent` on `path`; claims that the result is the
/// named `path_parent` of the path, and, as the documentation says, that the
/// empty path has no parent.
#[verifier::external_body]
pub(crate) fn parent(path: &str) -> (r: Option<String>)
    ensures
        opt_text(r) == path_parent(path@),
        path@.len() == 0 ==> r is None,
{
    match std::path::Path::new(path).parent() {
        Some(p) => Some(p.to_string_lossy().into_owned()),
        None => None,
    }
}

} // verus!
