//! The few path operations of `std::path` that the library relies on, on
//! paths held as text.

use vstd::prelude::*;
use std::path::Path;

verus! {

/// What `Path::strip_prefix` gives for `path` with the prefix `base`: the
/// rest of the path after the components of `base`, or nothing when `base`
/// is not a leading part of `path`. The rules are those of the target's
/// paths (separators, root, prefixes).
pub uninterp spec fn stripped_path(base: Seq<char>, path: Seq<char>) -> Option<Seq<char>>;

/// What `Path::join` gives for `base` and `rest`.
pub uninterp spec fn joined_path(base: Seq<char>, rest: Seq<char>) -> Seq<char>;

/// What `Path::parent` gives for `path`.
pub uninterp spec fn parent_path(path: Seq<char>) -> Option<Seq<char>>;

/// Trusted: `std::path::Path::strip_prefix`, the remainder turned back into
/// text. Claimed: the result is `stripped_path` of the two arguments. As both
/// arguments are valid UTF-8, so is the remainder, and the conversion loses
/// nothing.
#[verifier::external_body]
pub(crate) fn strip_path_prefix(base: &str, path: &str) -> (r: Option<String>)
    ensures
        r matches Some(rest) ==> stripped_path(base@, path@) == Some(rest@),
        r is None ==> stripped_path(base@, path@) is None,
{
    match Path::new(path).strip_prefix(Path::new(base)) {
        Ok(rest) => Some(rest.to_string_lossy().into_owned()),
        Err(_) => None,
    }
}

/// Trusted: `std::path::Path::join`, turned back into text. Claimed: the
/// result is `joined_path` of the two arguments.
#[verifier::external_body]
pub(crate) fn join_path(base: &str, rest: &str) -> (r: String)
    ensures
        r@ == joined_path(base@, rest@),
{
    Path::new(base).join(rest).to_string_lossy().into_owned()
}

/// Trusted: `std::path::Path::parent`, turned back into text. Claimed: the
/// result is `parent_path` of the argument.
#[verifier::external_body]
pub(crate) fn path_parent(path: &str) -> (r: Option<String>)
    ensures
        r matches Some(p) ==> parent_path(path@) == Some(p@),
        r is None ==> parent_path(path@) is None,
{
    match Path::new(path).parent() {
        Some(p) => Some(p.to_string_lossy().into_owned()),
        None => None,
    }
}

} // verus!
