//! Clearing the WebView cache when the application was rebuilt.
//!
//! The build id of the last launch is kept in a file; when it differs from
//! the running build's, the WebView's cache directories are removed and the
//! new id is written. Reading and writing those files is the application's
//! part; this module decides and names the paths.

use vstd::prelude::*;
use crate::paths;
use crate::text;
use crate::text::{chars_of, string_of, trim_bounds};

verus! {

broadcast use vstd::string::group_string_axioms;

/// Whether the cache must be cleared: no build id is stored, or the stored
/// one (the file's text without surrounding whitespace) is not `build_id`.
pub open spec fn cache_is_stale(stored: Option<Seq<char>>, build_id: Seq<char>) -> bool {
    match stored {
        Some(s) => text::trim(s) != build_id,
        None => true,
    }
}

/// The build id stored in the file's text: the text without surrounding
/// whitespace.
pub fn stored_build_id(file_text: &str) -> (r: String)
    ensures
        r@ == text::trim(file_text@),
{
    let v = chars_of(file_text);
    let n = v.len();
    let (a, b) = trim_bounds(&v, 0, n);
    assert(v@.subrange(0, n as int) =~= v@);
    string_of(&v, a, b)
}

/// Decides whether the WebView cache must be cleared (and the running
/// build's id written), given the text of the stored build id file, if it
/// could be read.
pub fn clear_stale_webview_cache_if_needed(stored_file_text: Option<&str>, build_id: &str) -> (r: bool)
    ensures
        r == cache_is_stale(
            match stored_file_text {
                Some(t) => Some(t@),
                None => None,
            },
            build_id@,
        ),
{
    match stored_file_text {
        Some(t) => {
            let id = stored_build_id(t);
            !text::str_equals(id.as_str(), build_id)
        },
        None => true,
    }
}

/// The path of the build id file, `.build-id` among the application's
/// files in the user's configuration directory (see `paths::app_file_path`).
pub fn build_id_path(config_dir: Option<&str>, home_dir: Option<&str>) -> (r: String)
    ensures
        r@ == paths::app_file(paths::opt_str_view(config_dir), paths::opt_str_view(home_dir), ".build-id"@),
{
    paths::app_file_path(config_dir, home_dir, ".build-id")
}

/// The WebView cache directories: `com.lambdalisue.Arto` and `arto` in the
/// user's cache directory, none without one.
pub fn collect_webview_cache_dirs(cache_dir: Option<&str>) -> (r: Vec<String>)
    ensures
        match cache_dir {
            Some(c) => r@.len() == 2 && r@[0]@ == paths::std_path_join(c@, "com.lambdalisue.Arto"@)
                && r@[1]@ == paths::std_path_join(c@, "arto"@),
            None => r@.len() == 0,
        },
{
    let mut dirs: Vec<String> = Vec::new();
    if let Some(c) = cache_dir {
        dirs.push(paths::join_path(c, "com.lambdalisue.Arto"));
        dirs.push(paths::join_path(c, "arto"));
    }
    dirs
}

} // verus!
