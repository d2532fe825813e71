//! Path arithmetic. Paths are held as strings; what std::path computes from
//! them is reached through the wrappers here, whose results are named.

use vstd::prelude::*;

verus! {

/// The final component of `path` as `std::path::Path::file_name` gives it, on the
/// platform the library is built for; `None` where the path has no such component.
pub uninterp spec fn path_file_name(path: Seq<char>) -> Option<Seq<char>>;

/// `name` adjoined to `base` as `std::path::Path::join` gives it, on the platform
/// the library is built for.
pub uninterp spec fn path_join(base: Seq<char>, name: Seq<char>) -> Seq<char>;

/// `path` without the leading `base`, as `std::path::Path::strip_prefix` gives it
/// on the platform the library is built for; `None` where `base` is no prefix of
/// `path`.
pub uninterp spec fn path_strip_prefix(path: Seq<char>, base: Seq<char>) -> Option<Seq<char>>;

/// Whether `base` is a prefix of `path` component by component, as
/// `std::path::Path::starts_with` decides it on the platform the library is
/// built for.
pub uninterp spec fn path_starts_with(path: Seq<char>, base: Seq<char>) -> bool;

/// Calls `std::path::Path::file_name`. Nothing is claimed of the result but that it
/// is the value std computes from this path.
#[verifier::external_body]
pub(crate) fn file_name(path: &str) -> (r: Option<String>)
    ensures
        r is Some <==> path_file_name(path@) is Some,
        r is Some ==> r->0@ == path_file_name(path@)->0,
{
    std::path::Path::new(path).file_name().map(|s| s.to_string_lossy().into_owned())
}

/// Calls `std::path::Path::join`. Nothing is claimed of the result but that it is
/// the value std computes from these two strings.
#[verifier::external_body]
pub(crate) fn join(base: &str, name: &str) -> (r: String)
    ensures
        r@ == path_join(base@, name@),
{
    std::path::Path::new(base).join(name).to_string_lossy().into_owned()
}

/// Calls `std::path::Path::strip_prefix`; its error becomes `None`. Nothing is
/// claimed of the result but that it is the value std computes from these two
/// strings.
#[verifier::external_body]
pub(crate) fn strip_prefix(path: &str, base: &str) -> (r: Option<String>)
    ensures
        r is Some <==> path_strip_prefix(path@, base@) is Some,
        r is Some ==> r->0@ == path_strip_prefix(path@, base@)->0,
{
    match std::path::Path::new(path).strip_prefix(base) {
        Ok(rest) => Some(rest.to_string_lossy().into_owned()),
        Err(_) => None,
    }
}

/// Calls `std::path::Path::starts_with`. Nothing is claimed of the result but
/// that it is the value std computes from these two strings.
#[verifier::external_body]
pub(crate) fn starts_with(path: &str, base: &str) -> (r: bool)
    ensures
        r == path_starts_with(path@, base@),
{
    std::path::Path::new(path).starts_with(base)
}

/// What the root node is called: the final component of the root path, or the
/// whole path where it has none.
pub open spec fn root_name(path: Seq<char>) -> Seq<char> {
    match path_file_name(path) {
        Some(n) => n,
        None => path,
    }
}

/// Calls the equality of std's string slices, which holds exactly where the two
/// hold the same text.
#[verifier::external_body]
pub(crate) fn same_text(a: &str, b: &str) -> (r: bool)
    ensures
        r == (a@ == b@),
{
    a.eq(b)
}

} // verus!
