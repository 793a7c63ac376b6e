//! Paths, held as text, and the parts of `std::path` that the library asks of them.

use vstd::prelude::*;

verus! {

/// Whether `Path::new(a) == Path::new(b)`: paths compare by their components,
/// so `"/a/b"` and `"/a//b/"` are equal although the texts differ.
pub uninterp spec fn std_path_eq(a: Seq<char>, b: Seq<char>) -> bool;

/// Whether two path texts name the same path: equal texts always do.
pub open spec fn path_matches(a: Seq<char>, b: Seq<char>) -> bool {
    a == b || std_path_eq(a, b)
}

/// Whether a path text is written without the spellings that `Path`
/// normalizes away when it splits a path into components: no repeated
/// separator, no `.` component after the first, no trailing separator (the
/// root `/` aside), and no backslash or colon (separators and prefixes on
/// some systems).
pub open spec fn plain_path(s: Seq<char>) -> bool {
    &&& !crate::text::contains_seq(s, "//"@)
    &&& !crate::text::contains_seq(s, "/./"@)
    &&& !crate::text::has_suffix(s, "/."@)
    &&& (s.len() > 1 ==> s[s.len() - 1] != '/')
    &&& !s.contains('\\')
    &&& !s.contains(':')
}

/// Compares the two paths with `Path`'s `==`. That comparison is an
/// equivalence (`Path` is `Eq`), so two equal texts compare equal. `Path`
/// compares the components its documentation describes; texts written
/// plainly (`plain_path`) have the same components exactly when they are the
/// same text, which the second clause states. On other texts the result is
/// the named `std_path_eq`.
#[verifier::external_body]
pub(crate) fn paths_equal(a: &str, b: &str) -> (r: bool)
    ensures
        r == (a@ == b@ || std_path_eq(a@, b@)),
        plain_path(a@) && plain_path(b@) ==> r == (a@ == b@),
{
    std::path::Path::new(a) == std::path::Path::new(b)
}

/// The final component of a path, as `Path::file_name` gives it
/// (`None` when the path ends in `..` or has no component).
pub uninterp spec fn std_file_name(p: Seq<char>) -> Option<Seq<char>>;

/// The view of an optional string.
pub open spec fn opt_view(o: Option<String>) -> Option<Seq<char>> {
    match o {
        Some(s) => Some(s@),
        None => None,
    }
}

/// Calls `Path::file_name` on the path `p`. A path made from a `&str` is
/// valid UTF-8, so its file name converts to a `String` without loss; the
/// result is the named `std_file_name` of `p`.
#[verifier::external_body]
pub(crate) fn file_name(p: &str) -> (r: Option<String>)
    ensures
        opt_view(r) == std_file_name(p@),
{
    std::path::Path::new(p).file_name().map(|n| n.to_string_lossy().into_owned())
}

/// Whether `c` occurs in `s[from..]`.
pub open spec fn has_char_from(s: Seq<char>, c: char, from: int) -> bool {
    exists|i: int| from <= i < s.len() && s[i] == c
}

/// The extension of a file name, as the documentation of `Path::extension`
/// states it: none when the name has no `.` or when its only `.` is the
/// first character; else what follows the last `.`.
pub open spec fn extension_of_file_name(f: Seq<char>) -> Option<Seq<char>> {
    if !has_char_from(f, '.', 1) {
        None
    } else {
        let i = choose|i: int| 1 <= i < f.len() && f[i] == '.' && !has_char_from(f, '.', i + 1);
        Some(f.subrange(i + 1, f.len() as int))
    }
}

/// The extension of the path `p`.
pub open spec fn path_extension(p: Seq<char>) -> Option<Seq<char>> {
    match std_file_name(p) {
        Some(f) => extension_of_file_name(f),
        None => None,
    }
}

/// Calls `Path::extension` on the path `p`. Its documentation defines the
/// extension from the file name, which is what `path_extension` states; a
/// path made from a `&str` gives a valid UTF-8 extension.
#[verifier::external_body]
pub(crate) fn extension(p: &str) -> (r: Option<String>)
    ensures
        opt_view(r) == path_extension(p@),
{
    std::path::Path::new(p).extension().map(|e| e.to_string_lossy().into_owned())
}

/// The path without its final component, as `Path::parent` gives it
/// (`None` for a root or an empty path).
pub uninterp spec fn std_parent(p: Seq<char>) -> Option<Seq<char>>;

/// Calls `Path::parent` on the path `p`. A path made from a `&str` is valid
/// UTF-8, so the parent converts to a `String` without loss; the result is
/// the named `std_parent` of `p`.
#[verifier::external_body]
pub(crate) fn parent(p: &str) -> (r: Option<String>)
    ensures
        opt_view(r) == std_parent(p@),
{
    std::path::Path::new(p).parent().map(|q| q.to_string_lossy().into_owned())
}

/// The view of an optional text.
pub open spec fn opt_str_view(o: Option<&str>) -> Option<Seq<char>> {
    match o {
        Some(s) => Some(s@),
        None => None,
    }
}

/// The path `part` joined onto `base`, as `Path::join` gives it.
pub uninterp spec fn std_path_join(base: Seq<char>, part: Seq<char>) -> Seq<char>;

/// Calls `Path::join`. A path made from `&str`s is valid UTF-8, so the
/// result converts to a `String` without loss; it is the named
/// `std_path_join` of the two texts.
#[verifier::external_body]
pub(crate) fn join_path(base: &str, part: &str) -> (r: String)
    ensures
        r@ == std_path_join(base@, part@),
{
    std::path::Path::new(base).join(part).to_string_lossy().into_owned()
}

/// Where the application keeps the file `name`: under `arto` in the given
/// system directory, else under `.arto` in the home directory, else in the
/// working directory.
pub open spec fn app_file(dir: Option<Seq<char>>, home_dir: Option<Seq<char>>, name: Seq<char>) -> Seq<char> {
    match dir {
        Some(d) => std_path_join(std_path_join(d, "arto"@), name),
        None => match home_dir {
            Some(h) => std_path_join(std_path_join(h, ".arto"@), name),
            None => name,
        },
    }
}

/// The path of the application's file `name`, given the system directory
/// it belongs in and the home directory, where the system has them.
pub fn app_file_path(dir: Option<&str>, home_dir: Option<&str>, name: &str) -> (r: String)
    ensures
        r@ == app_file(opt_str_view(dir), opt_str_view(home_dir), name@),
{
    match dir {
        Some(d) => {
            let base = join_path(d, "arto");
            join_path(base.as_str(), name)
        },
        None => match home_dir {
            Some(h) => {
                let base = join_path(h, ".arto");
                join_path(base.as_str(), name)
            },
            None => name.to_owned(),
        },
    }
}

} // verus!
