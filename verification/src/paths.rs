//! The one question asked of a file path: what its last component is.

use vstd::prelude::*;

verus! {

/// The final component of a path, as `std::path::Path::file_name` gives it
/// on Unix: the part after the last separator, trailing separators and
/// `.` components ignored; `None` for a path that ends in `..`, is empty or
/// is the root.
pub uninterp spec fn path_file_name(path: Seq<char>) -> Option<Seq<char>>;

/// Calls `Path::file_name`.  Trusted to return what `path_file_name` names:
/// the component is a function of the path's text alone, and it is text
/// again because the path was.
#[verifier::external_body]
pub(crate) fn file_name(path: &str) -> (name: Option<String>)
    ensures
        name.deep_view() == path_file_name(path@),
{
    std::path::Path::new(path).file_name().and_then(|n| n.to_str()).map(|n| n.to_owned())
}

} // verus!
