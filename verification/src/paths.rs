//! File-system paths, held as strings; joining and prefix removal are `std::path`'s.
use std::path::Path;
use vstd::prelude::*;

verus! {

/// The path `std::path::Path::join` makes of `base` and `part`.
pub uninterp spec fn spec_path_join(base: Seq<char>, part: Seq<char>) -> Seq<char>;

/// What `std::path::Path::strip_prefix` leaves of `path` after the leading components of
/// `base`, or `None` when `path` does not begin with them.
pub uninterp spec fn spec_path_strip_prefix(path: Seq<char>, base: Seq<char>) -> Option<Seq<char>>;

/// The parent `std::path::Path::parent` gives of `path`: `None` for a root or an empty path.
pub uninterp spec fn spec_path_parent(path: Seq<char>) -> Option<Seq<char>>;

/// The file name `std::path::Path::file_name` gives of `path`: its last component, unless
/// that is `..`.
pub uninterp spec fn spec_path_file_name(path: Seq<char>) -> Option<Seq<char>>;

/// Joins `part` onto `base` with `Path::join` (an absolute `part` replaces `base`). Paths
/// built from UTF-8 strings convert back without loss; the result is named `spec_path_join`.
#[verifier::external_body]
pub(crate) fn path_join(base: &str, part: &str) -> (r: String)
    ensures
        r@ == spec_path_join(base@, part@),
{
    Path::new(base).join(part).to_string_lossy().into_owned()
}

/// Removes the leading components `base` from `path` with `Path::strip_prefix`; the result
/// is named `spec_path_strip_prefix`.
#[verifier::external_body]
pub(crate) fn path_strip_prefix(path: &str, base: &str) -> (r: Option<String>)
    ensures
        match r {
            Some(s) => spec_path_strip_prefix(path@, base@) == Some(s@),
            None => spec_path_strip_prefix(path@, base@) is None,
        },
{
    match Path::new(path).strip_prefix(base) {
        Ok(p) => Some(p.to_string_lossy().into_owned()),
        Err(_) => None,
    }
}

/// The parent of `path` with `Path::parent`; the result is named `spec_path_parent`.
#[verifier::external_body]
pub(crate) fn path_parent(path: &str) -> (r: Option<String>)
    ensures
        match r {
            Some(s) => spec_path_parent(path@) == Some(s@),
            None => spec_path_parent(path@) is None,
        },
{
    Path::new(path).parent().map(|p| p.to_string_lossy().into_owned())
}

/// The last component of `path` with `Path::file_name`; the result is named
/// `spec_path_file_name`.
#[verifier::external_body]
pub(crate) fn path_file_name(path: &str) -> (r: Option<String>)
    ensures
        match r {
            Some(s) => spec_path_file_name(path@) == Some(s@),
            None => spec_path_file_name(path@) is None,
        },
{
    Path::new(path).file_name().map(|n| n.to_string_lossy().into_owned())
}

} // verus!
