//! File names and where files go.
//!
//! Paths are carried as text. Taking one apart or putting one together is
//! `std::path`'s business and is done by it: each operation is called through
//! one small function here, whose contract names what it gives back. What the
//! front end decides with those pieces is worked out in verified code around
//! them.
use vstd::prelude::*;

verus! {

/// The text of an optional string.
pub open spec fn opt_text(o: Option<String>) -> Option<Seq<char>> {
    match o {
        Some(s) => Some(s@),
        None => None,
    }
}

/// What `Path::file_name` gives for a path.
pub uninterp spec fn path_file_name(path: Seq<char>) -> Option<Seq<char>>;

/// What `Path::file_stem` gives for a path.
pub uninterp spec fn path_file_stem(path: Seq<char>) -> Option<Seq<char>>;

/// What `Path::extension` gives for a path.
pub uninterp spec fn path_extension(path: Seq<char>) -> Option<Seq<char>>;

/// What `Path::parent` gives for a path.
pub uninterp spec fn path_parent(path: Seq<char>) -> Option<Seq<char>>;

/// What `Path::join` gives for a path and what is put on the end of it.
pub uninterp spec fn path_join(path: Seq<char>, more: Seq<char>) -> Seq<char>;

/// What `Path::with_extension` gives for a path and an extension.
pub uninterp spec fn path_with_extension(path: Seq<char>, ext: Seq<char>) -> Seq<char>;

/// What `Path::with_file_name` gives for a path and a file name.
pub uninterp spec fn path_with_file_name(path: Seq<char>, name: Seq<char>) -> Seq<char>;

/// `Path::file_name`: the last component of the path, unless that is `..` or
/// there is none. Its contract says only that the answer is the one this
/// path always gets.
#[verifier::external_body]
pub(crate) fn file_name_of(path: &str) -> (r: Option<String>)
    ensures
        opt_text(r) == path_file_name(path@),
{
    std::path::Path::new(path).file_name().map(|n| n.to_string_lossy().to_string())
}

/// `Path::file_stem`: the file name without its extension.
#[verifier::external_body]
pub(crate) fn file_stem_of(path: &str) -> (r: Option<String>)
    ensures
        opt_text(r) == path_file_stem(path@),
{
    std::path::Path::new(path).file_stem().map(|n| n.to_string_lossy().to_string())
}

/// `Path::extension`: what follows the last dot of the file name.
#[verifier::external_body]
pub(crate) fn extension_of(path: &str) -> (r: Option<String>)
    ensures
        opt_text(r) == path_extension(path@),
{
    std::path::Path::new(path).extension().map(|n| n.to_string_lossy().to_string())
}

/// `Path::parent`: the path without its last component.
#[verifier::external_body]
pub(crate) fn parent_of(path: &str) -> (r: Option<String>)
    ensures
        opt_text(r) == path_parent(path@),
{
    std::path::Path::new(path).parent().map(|n| n.to_string_lossy().to_string())
}

/// `Path::join`.
#[verifier::external_body]
pub(crate) fn joined(path: &str, more: &str) -> (r: String)
    ensures
        r@ == path_join(path@, more@),
{
    std::path::Path::new(path).join(more).to_string_lossy().to_string()
}

/// Whether a piece of text holds no path separator.
pub open spec fn no_separator(s: Seq<char>) -> bool {
    forall|i: int| 0 <= i < s.len() ==> s[i] != '/' && s[i] != '\\'
}

/// `Path::with_extension`, which panics on an extension holding a path
/// separator: that is left out.
#[verifier::external_body]
pub(crate) fn with_extension(path: &str, ext: &str) -> (r: String)
    requires
        no_separator(ext@),
    ensures
        r@ == path_with_extension(path@, ext@),
{
    std::path::Path::new(path).with_extension(ext).to_string_lossy().to_string()
}

/// `Path::with_file_name`.
#[verifier::external_body]
pub(crate) fn with_file_name(path: &str, name: &str) -> (r: String)
    ensures
        r@ == path_with_file_name(path@, name@),
{
    std::path::Path::new(path).with_file_name(name).to_string_lossy().to_string()
}

/// `Path::exists`: whether something is at the path now. That depends on the
/// disk rather than on the path, so nothing is said of the answer.
#[verifier::external_body]
pub(crate) fn path_exists(path: &str) -> (r: bool) {
    std::path::Path::new(path).exists()
}

} // verus!
