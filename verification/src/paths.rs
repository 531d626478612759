//! Path text helpers.

use vstd::prelude::*;

verus! {

/// The final component of a path as `std::path::Path::file_name` gives it,
/// converted to a string.
pub uninterp spec fn spec_path_file_name(path: Seq<char>) -> Option<Seq<char>>;

/// Calls `std::path::Path::file_name` on `path` and converts the component back
/// to a string (a component of a `str` path is valid UTF-8). The contract names
/// the result and states nothing of how a path splits into components.
#[verifier::external_body]
pub(crate) fn path_file_name(path: &str) -> (r: Option<String>)
    ensures
        match r {
            Some(s) => spec_path_file_name(path@) == Some(s@),
            None => spec_path_file_name(path@) is None,
        },
{
    match std::path::Path::new(path).file_name() {
        Some(n) => n.to_str().map(|s| s.to_owned()),
        None => None,
    }
}

} // verus!
