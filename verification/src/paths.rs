//! File-system paths are held as strings. Their decomposition follows the
//! standard library's `std::path::Path`, which each function here calls;
//! what it returns is named by a specification function of its arguments.
use vstd::prelude::*;

verus! {

/// What `Path::file_name` returns for a path.
pub uninterp spec fn path_file_name(p: Seq<char>) -> Option<Seq<char>>;

/// What `Path::file_stem` returns for a path.
pub uninterp spec fn path_file_stem(p: Seq<char>) -> Option<Seq<char>>;

/// What `Path::extension` returns for a path.
pub uninterp spec fn path_extension(p: Seq<char>) -> Option<Seq<char>>;

/// What `Path::parent` returns for a path.
pub uninterp spec fn path_parent(p: Seq<char>) -> Option<Seq<char>>;

/// What `Path::join` returns for a base path and a path pushed onto it.
pub uninterp spec fn path_join(base: Seq<char>, rest: Seq<char>) -> Seq<char>;

/// What `Path::with_extension` returns for a path and the extension `mp4`.
pub uninterp spec fn path_with_mp4_extension(p: Seq<char>) -> Seq<char>;

/// What `Path::with_file_name` returns for a path and a file name.
pub uninterp spec fn path_with_file_name(p: Seq<char>, name: Seq<char>) -> Seq<char>;

/// What `Path`'s `Debug` formatting writes for a path: the path in double
/// quotes, with the standard library's escapes.
pub uninterp spec fn path_debug(p: Seq<char>) -> Seq<char>;

/// Whether two paths are equal as `Path` values, that is component by
/// component.
pub uninterp spec fn path_eq(a: Seq<char>, b: Seq<char>) -> bool;

/// Calls `Path::file_name`. The contract names the result; the
/// standard library documents it as the final component of the path
/// unless that is `..`. A component of a path built from a `&str` is valid
/// UTF-8, so the conversion back to a string loses nothing.
#[verifier::external_body]
pub fn file_name(p: &str) -> (r: Option<String>)
    ensures
        r.is_some() == path_file_name(p@).is_some(),
        r matches Some(s) ==> s@ == path_file_name(p@).unwrap(),
{
    std::path::Path::new(p).file_name().map(|s| s.to_string_lossy().into_owned())
}

/// Calls `Path::file_stem`; the contract names the result, and states what
/// the standard library documents: there is a stem exactly when there is a
/// file name.
#[verifier::external_body]
pub fn file_stem(p: &str) -> (r: Option<String>)
    ensures
        r.is_some() == path_file_stem(p@).is_some(),
        r.is_some() == path_file_name(p@).is_some(),
        r matches Some(s) ==> s@ == path_file_stem(p@).unwrap(),
{
    std::path::Path::new(p).file_stem().map(|s| s.to_string_lossy().into_owned())
}

/// Calls `Path::extension`; the contract names the result.
#[verifier::external_body]
pub fn extension(p: &str) -> (r: Option<String>)
    ensures
        r.is_some() == path_extension(p@).is_some(),
        r matches Some(s) ==> s@ == path_extension(p@).unwrap(),
{
    std::path::Path::new(p).extension().map(|s| s.to_string_lossy().into_owned())
}

/// Calls `Path::parent`; the contract names the result.
#[verifier::external_body]
pub fn parent(p: &str) -> (r: Option<String>)
    ensures
        r.is_some() == path_parent(p@).is_some(),
        r matches Some(s) ==> s@ == path_parent(p@).unwrap(),
{
    std::path::Path::new(p).parent().map(|s| s.to_string_lossy().into_owned())
}

/// Calls `Path::join`; the contract names the result, and states what the
/// standard library documents: an absolute path (on Unix, one that starts
/// with `/`) replaces the base.
#[verifier::external_body]
pub fn join(base: &str, rest: &str) -> (r: String)
    ensures
        r@ == path_join(base@, rest@),
        rest@.len() > 0 && rest@[0] == '/' ==> r@ == rest@,
{
    std::path::Path::new(base).join(rest).to_string_lossy().into_owned()
}

/// Calls `Path::with_extension` with the extension `mp4`, which holds no
/// path separator, so the call does not panic; the contract names the
/// result.
#[verifier::external_body]
pub fn with_mp4_extension(p: &str) -> (r: String)
    ensures
        r@ == path_with_mp4_extension(p@),
{
    std::path::Path::new(p).with_extension("mp4").to_string_lossy().into_owned()
}

/// Calls `Path::with_file_name`; the contract names the result.
#[verifier::external_body]
pub fn with_file_name(p: &str, name: &str) -> (r: String)
    ensures
        r@ == path_with_file_name(p@, name@),
{
    std::path::Path::new(p).with_file_name(name).to_string_lossy().into_owned()
}

/// Compares two paths with `Path`'s `==`. Besides naming the result, the
/// contract states that equal strings are equal paths.
#[verifier::external_body]
pub fn same_path(a: &str, b: &str) -> (r: bool)
    ensures
        r == path_eq(a@, b@),
        a@ == b@ ==> r,
{
    std::path::Path::new(a) == std::path::Path::new(b)
}

/// Formats a path with `{:?}`, as the standard library's `Debug` for
/// `Path` does; the contract names the result.
#[verifier::external_body]
pub fn debug_path(p: &str) -> (r: String)
    ensures
        r@ == path_debug(p@),
{
    format!("{:?}", std::path::Path::new(p))
}

} // verus!
