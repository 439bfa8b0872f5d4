//! The application's directories, below its root directory (the install
//! directory, or the project root in a development build).
use vstd::prelude::*;

verus! {

/// What `Path::new(base).join(name)` gives, as text, on the platform the
/// library is built for (Windows and Unix separate paths differently).
pub uninterp spec fn path_join(base: Seq<char>, name: Seq<char>) -> Seq<char>;

/// Calls `std::path::Path::join` (and `to_string_lossy` on the result).
/// The contract claims only that the result is a function of the two
/// arguments (`path_join`).
#[verifier::external_body]
pub(crate) fn join_path(base: &str, name: &str) -> (r: String)
    ensures
        r@ == path_join(base@, name@),
{
    std::path::Path::new(base).join(name).to_string_lossy().into_owned()
}

/// What `Path::new(p).is_absolute()` answers on the platform the library
/// is built for (Windows and Unix differ).
pub uninterp spec fn path_absolute(p: Seq<char>) -> bool;

/// Calls `std::path::Path::is_absolute`. The contract claims only that the
/// answer is a function of the path (`path_absolute`).
#[verifier::external_body]
pub(crate) fn is_absolute_path(p: &str) -> (r: bool)
    ensures
        r == path_absolute(p@),
{
    std::path::Path::new(p).is_absolute()
}

/// What `Path::new(p).parent()` gives, as text, on the platform the
/// library is built for (Windows and Unix differ).
pub uninterp spec fn path_parent(p: Seq<char>) -> Option<Seq<char>>;

/// Calls `std::path::Path::parent` (and `to_string_lossy` on the result).
/// The contract claims only that the result is a function of the path
/// (`path_parent`).
#[verifier::external_body]
pub(crate) fn parent_path(p: &str) -> (r: Option<String>)
    ensures
        match r {
            Some(s) => path_parent(p@) == Some(s@),
            None => path_parent(p@) is None,
        },
{
    std::path::Path::new(p).parent().map(|d| d.to_string_lossy().into_owned())
}

/// What `Path::new(p).file_stem()` gives, as text, on the platform the
/// library is built for (Windows and Unix differ).
pub uninterp spec fn path_file_stem(p: Seq<char>) -> Option<Seq<char>>;

/// Calls `std::path::Path::file_stem` (and `to_string_lossy` on the
/// result). The contract claims only that the result is a function of the
/// path (`path_file_stem`).
#[verifier::external_body]
pub(crate) fn file_stem_of(p: &str) -> (r: Option<String>)
    ensures
        match r {
            Some(s) => path_file_stem(p@) == Some(s@),
            None => path_file_stem(p@) is None,
        },
{
    std::path::Path::new(p).file_stem().map(|d| d.to_string_lossy().into_owned())
}

pub open spec fn spec_config_dir(root: Seq<char>) -> Seq<char> {
    path_join(root, "config"@)
}

/// The application's directories.
pub struct AppHome;

impl AppHome {
    /// `bin/`
    pub fn bin_dir(root: &str) -> (r: String)
        ensures
            r@ == path_join(root@, "bin"@),
    {
        join_path(root, "bin")
    }

    /// `config/`
    pub fn config_dir(root: &str) -> (r: String)
        ensures
            r@ == spec_config_dir(root@),
    {
        join_path(root, "config")
    }

    /// `downloads/`
    pub fn downloads_dir(root: &str) -> (r: String)
        ensures
            r@ == path_join(root@, "downloads"@),
    {
        join_path(root, "downloads")
    }

    /// `logs/`, where the daily log files live.
    pub fn logs_dir(root: &str) -> (r: String)
        ensures
            r@ == path_join(root@, "logs"@),
    {
        join_path(root, "logs")
    }

    /// `download_cache/`, the staging area used by older versions.
    pub fn download_cache_dir(root: &str) -> (r: String)
        ensures
            r@ == path_join(root@, "download_cache"@),
    {
        join_path(root, "download_cache")
    }
}

} // verus!
