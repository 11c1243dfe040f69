//! File system paths, held as the UTF-8 text of a `std::path::Path`.
//!
//! Joining, replacing an extension and comparing paths are done by
//! `std::path`; their results are named below and the library's contracts
//! speak of those names.  Canonicalization and file checks read the disk, so
//! nothing is promised of what they return.
use vstd::prelude::*;

verus! {

/// What `Path::join` returns for a base path and a part, as text.
pub uninterp spec fn path_join(base: Seq<char>, part: Seq<char>) -> Seq<char>;

/// What `Path::with_extension` returns for a path and an extension, as text.
pub uninterp spec fn path_with_extension(path: Seq<char>, extension: Seq<char>) -> Seq<char>;

/// What `Path::eq` returns for two paths (component-wise equality).
pub uninterp spec fn same_path(left: Seq<char>, right: Seq<char>) -> bool;

/// `std::path::Path::join`.  The result is named `path_join`.  The text of
/// the result is the joined path's text, which is valid UTF-8 because both
/// inputs are.
#[verifier::external_body]
pub(crate) fn join(base: &str, part: &str) -> (joined: String)
    ensures
        joined@ == path_join(base@, part@),
{
    std::path::Path::new(base).join(part).to_string_lossy().into_owned()
}

/// A character that `std::path` may take for a separator on some platform.
pub open spec fn is_separator_char(c: char) -> bool {
    c == '/' || c == '\\'
}

/// `std::path::Path::with_extension`.  The result is named
/// `path_with_extension`.  The standard library panics where the extension
/// holds a path separator, so such extensions are not admitted.
#[verifier::external_body]
pub(crate) fn with_extension(path: &str, extension: &str) -> (replaced: String)
    requires
        forall|i: int| 0 <= i < extension@.len() ==> !is_separator_char(#[trigger] extension@[i]),
    ensures
        replaced@ == path_with_extension(path@, extension@),
{
    std::path::Path::new(path).with_extension(extension).to_string_lossy().into_owned()
}

/// `PartialEq::eq` on `std::path::Path`.  The result is named `same_path`.
/// `Path` implements `Eq`, whose documented laws make the comparison
/// reflexive and symmetric.
#[verifier::external_body]
pub(crate) fn path_eq(left: &str, right: &str) -> (equal: bool)
    ensures
        equal == same_path(left@, right@),
        equal == same_path(right@, left@),
        left@ == right@ ==> equal,
{
    std::path::Path::new(left) == std::path::Path::new(right)
}

/// `std::path::Path::canonicalize`: the absolute path with every link
/// resolved and every component normalized, as the bytes of the operating
/// system's path (no text conversion, so nothing is lost), or `None` where
/// the file system refuses.  It reads the disk, so nothing is stated of the
/// result.
#[verifier::external_body]
pub(crate) fn canonicalize(path: &str) -> (canonical: Option<Vec<u8>>)
{
    match std::path::Path::new(path).canonicalize() {
        Ok(canonical) => Some(canonical.into_os_string().into_encoded_bytes()),
        Err(_) => None,
    }
}

/// `std::path::Path::is_file`.  It reads the disk, so nothing is stated of
/// the result.
#[verifier::external_body]
pub(crate) fn is_file(path: &str) -> (exists: bool)
{
    std::path::Path::new(path).is_file()
}

/// The comparison `paths_equal` makes once both paths have been given to
/// `canonicalize`: the canonical forms where both exist, the paths as
/// written otherwise.  Canonical forms are absolute with normalized
/// components (no `.`, `..`, repeated or trailing separators), so two of
/// them name the same components exactly when their bytes agree.
pub open spec fn paths_equal_after(
    left: Seq<char>,
    right: Seq<char>,
    left_canonical: Option<Seq<u8>>,
    right_canonical: Option<Seq<u8>>,
) -> bool {
    match (left_canonical, right_canonical) {
        (Some(l), Some(r)) => l == r,
        _ => same_path(left, right),
    }
}

/// The view of an optional string.
pub open spec fn option_view(text: Option<String>) -> Option<Seq<char>> {
    match text {
        Some(t) => Some(t@),
        None => None,
    }
}

/// The view of optional bytes.
pub open spec fn bytes_view(bytes: Option<Vec<u8>>) -> Option<Seq<u8>> {
    match bytes {
        Some(b) => Some(b@),
        None => None,
    }
}

/// Whether two byte strings are equal.
fn bytes_equal(left: &Vec<u8>, right: &Vec<u8>) -> (equal: bool)
    ensures
        equal == (left@ == right@),
{
    if left.len() != right.len() {
        return false;
    }
    let mut i: usize = 0;
    while i < left.len()
        invariant
            i <= left.len(),
            left@.len() == right@.len(),
            forall|j: int| 0 <= j < i ==> left@[j] == right@[j],
        decreases left.len() - i,
    {
        if left[i] != right[i] {
            return false;
        }
        i = i + 1;
    }
    assert(left@ =~= right@);
    true
}

/// Decides path equality from the outcome of canonicalizing both paths.
/// The decision does not depend on the order of the two paths, and a path
/// is equal to itself under one outcome of canonicalization.
pub fn paths_equal_given(
    left: &str,
    right: &str,
    left_canonical: &Option<Vec<u8>>,
    right_canonical: &Option<Vec<u8>>,
) -> (equal: bool)
    ensures
        equal == paths_equal_after(
            left@,
            right@,
            bytes_view(*left_canonical),
            bytes_view(*right_canonical),
        ),
        equal == paths_equal_after(
            right@,
            left@,
            bytes_view(*right_canonical),
            bytes_view(*left_canonical),
        ),
        (left@ == right@ && bytes_view(*left_canonical) == bytes_view(*right_canonical))
            ==> equal,
{
    match (left_canonical, right_canonical) {
        (Some(l), Some(r)) => bytes_equal(l, r),
        _ => path_eq(left, right),
    }
}

/// Whether two paths name the same file: their canonical forms are
/// compared where both can be found, the paths as written otherwise.
/// Canonicalization reads the disk; the result is the comparison for the
/// answers `canonicalize` gave for these two paths, in either order of the
/// paths.
pub fn paths_equal(left: &str, right: &str) -> (equal: bool)
    ensures
        exists|lc: Option<Vec<u8>>, rc: Option<Vec<u8>>|
            observed_canonical(left@, lc) && observed_canonical(right@, rc) && equal
                == #[trigger] paths_equal_after(left@, right@, bytes_view(lc), bytes_view(rc))
                && equal == paths_equal_after(right@, left@, bytes_view(rc), bytes_view(lc)),
{
    let left_canonical = canonical_form(left);
    let right_canonical = canonical_form(right);
    let equal = paths_equal_given(left, right, &left_canonical, &right_canonical);
    assert(equal == paths_equal_after(
        left@,
        right@,
        bytes_view(left_canonical),
        bytes_view(right_canonical),
    ));
    equal
}

/// `is_file` was asked about `path` and answered `exists`.  Only a call of
/// `is_file` on that very path makes this true.
pub closed spec fn observed_file(path: Seq<char>, exists: bool) -> bool {
    exists|asked: &str| asked@ == path && call_ensures(is_file, (asked,), exists)
}

/// `canonicalize` was asked about `path` and answered `canonical`.  Only a
/// call of `canonicalize` on that very path makes this true.
pub closed spec fn observed_canonical(path: Seq<char>, canonical: Option<Vec<u8>>) -> bool {
    exists|asked: &str| asked@ == path && call_ensures(canonicalize, (asked,), canonical)
}

/// Asks the disk whether `path` is a file, and records the answer as the
/// one given for that path.
pub(crate) fn check_file(path: &str) -> (exists: bool)
    ensures
        observed_file(path@, exists),
{
    let query = is_file;
    let exists = query(path);
    assert(call_ensures(is_file, (path,), exists));
    exists
}

/// Asks the disk for the canonical form of `path`, and records the answer
/// as the one given for that path.
pub(crate) fn canonical_form(path: &str) -> (canonical: Option<Vec<u8>>)
    ensures
        observed_canonical(path@, canonical),
{
    let query = canonicalize;
    let canonical = query(path);
    assert(call_ensures(canonicalize, (path,), canonical));
    canonical
}

} // verus!
