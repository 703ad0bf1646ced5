//! The filesystem path operations the engine relies on, taken from
//! `std::path`. Lexical operations (join, extension swap, stem, parent,
//! file name) depend on their arguments alone and are named as such;
//! the probes (`exists`, `is_dir`, `is_file`) read the disk, so nothing
//! is promised about what they report.

use vstd::prelude::*;

verus! {

/// `Path::join` of `base` and `rel`, as text.
pub uninterp spec fn joined_path(base: Seq<char>, rel: Seq<char>) -> Seq<char>;

/// `Path::with_extension(ext)` of `p`, as text.
pub uninterp spec fn path_with_extension_of(p: Seq<char>, ext: Seq<char>) -> Seq<char>;

/// `Path::file_stem` of `p`, as text.
pub uninterp spec fn file_stem_of(p: Seq<char>) -> Option<Seq<char>>;

/// `Path::parent` of `p`, as text.
pub uninterp spec fn parent_of(p: Seq<char>) -> Option<Seq<char>>;

/// `Path::file_name` of `p`, as text.
pub uninterp spec fn file_name_of(p: Seq<char>) -> Option<Seq<char>>;

/// `Path::extension` of `p`, as text.
pub uninterp spec fn extension_of(p: Seq<char>) -> Option<Seq<char>>;

/// Calls `Path::join`. Joining two UTF-8 paths gives a UTF-8 path, so
/// the result always converts back to a `String`; the text is named by
/// `joined_path`.
#[verifier::external_body]
pub(crate) fn path_join(base: &str, rel: &str) -> (r: String)
    ensures
        r@ == joined_path(base@, rel@),
{
    std::path::Path::new(base).join(rel).to_string_lossy().into_owned()
}

/// Calls `Path::with_extension`; the text is named by
/// `path_with_extension_of`. The extension holds no path separator, on
/// which recent versions of std panic.
#[verifier::external_body]
pub(crate) fn path_with_extension(p: &str, ext: &str) -> (r: String)
    requires
        !ext@.contains('/'),
        !ext@.contains('\\'),
    ensures
        r@ == path_with_extension_of(p@, ext@),
{
    std::path::Path::new(p).with_extension(ext).to_string_lossy().into_owned()
}

/// Calls `Path::file_stem` (the final component without its last
/// extension); named by `file_stem_of`.
#[verifier::external_body]
pub(crate) fn path_file_stem(p: &str) -> (r: Option<String>)
    ensures
        match r {
            Some(s) => file_stem_of(p@) == Some(s@),
            None => file_stem_of(p@) is None,
        },
{
    std::path::Path::new(p).file_stem().map(|s| s.to_string_lossy().into_owned())
}

/// Calls `Path::parent`; named by `parent_of`.
#[verifier::external_body]
pub(crate) fn path_parent(p: &str) -> (r: Option<String>)
    ensures
        match r {
            Some(s) => parent_of(p@) == Some(s@),
            None => parent_of(p@) is None,
        },
{
    std::path::Path::new(p).parent().map(|s| s.to_string_lossy().into_owned())
}

/// Calls `Path::file_name` (the final component); named by
/// `file_name_of`.
#[verifier::external_body]
pub(crate) fn path_file_name(p: &str) -> (r: Option<String>)
    ensures
        match r {
            Some(s) => file_name_of(p@) == Some(s@),
            None => file_name_of(p@) is None,
        },
{
    std::path::Path::new(p).file_name().map(|s| s.to_string_lossy().into_owned())
}

/// Calls `Path::extension` (the part of the final component after its
/// last dot); named by `extension_of`.
#[verifier::external_body]
pub(crate) fn path_extension(p: &str) -> (r: Option<String>)
    ensures
        match r {
            Some(s) => extension_of(p@) == Some(s@),
            None => extension_of(p@) is None,
        },
{
    std::path::Path::new(p).extension().map(|s| s.to_string_lossy().into_owned())
}

/// Calls `Path::canonicalize`, `None` when it fails. The answer depends
/// on the disk and the working directory; nothing is stated about it.
#[verifier::external_body]
pub(crate) fn path_canonicalize(p: &str) -> Option<String> {
    std::path::Path::new(p).canonicalize().ok().map(|c| c.to_string_lossy().into_owned())
}

/// Calls `Path::is_dir`. The answer depends on the disk at the moment of
/// the call; nothing is stated about it.
#[verifier::external_body]
pub(crate) fn path_is_dir(p: &str) -> bool {
    std::path::Path::new(p).is_dir()
}

/// Calls `Path::is_file`. The answer depends on the disk at the moment of
/// the call; nothing is stated about it.
#[verifier::external_body]
pub(crate) fn path_is_file(p: &str) -> bool {
    std::path::Path::new(p).is_file()
}

/// Calls `Path::exists`. The answer depends on the disk at the moment of
/// the call; nothing is stated about it.
#[verifier::external_body]
pub(crate) fn path_exists(p: &str) -> bool {
    std::path::Path::new(p).exists()
}

} // verus!
