use std::path::Path;

use vstd::prelude::*;

verus! {

/// The final component of a path, in the platform's path syntax, or `None` where
/// the path has none (it ends in `..`, or is a root or empty).
pub uninterp spec fn file_name_of(path: Seq<char>) -> Option<Seq<char>>;

/// The path of `name` inside `folder`, in the platform's path syntax.
pub uninterp spec fn joined_of(folder: Seq<char>, name: Seq<char>) -> Seq<char>;

/// Relies on std's `Path::file_name`: the final component of the path, if any. It
/// is a piece of the given text, so reading it back as UTF-8 with `OsStr::to_str`
/// only converts.
#[verifier::external_body]
pub(crate) fn file_name(path: &str) -> (r: Option<String>)
    ensures
        r is None <==> file_name_of(path@) is None,
        r matches Some(n) ==> file_name_of(path@) == Some(n@),
{
    Path::new(path).file_name().and_then(|n| n.to_str()).map(|n| n.to_string())
}

/// Relies on std's `Path::join`: `name` placed inside `folder`. Both are UTF-8 text,
/// so reading the result back with `to_string_lossy` only converts.
#[verifier::external_body]
pub(crate) fn join(folder: &str, name: &str) -> (r: String)
    ensures
        r@ == joined_of(folder@, name@),
{
    Path::new(folder).join(name).to_string_lossy().to_string()
}

} // verus!
