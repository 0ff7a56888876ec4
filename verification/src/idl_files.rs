//! The files an IDL source tree is made of: the names taken from their
//! paths, which of them are Rust sources, and which one defines a
//! directory's module.

use vstd::prelude::*;
use crate::text::eq_lit;

verus! {

/// What std's `Path::file_name` gives for `path`, as text: its last
/// component, or nothing when the path ends in `..` or is a root or empty.
pub uninterp spec fn path_file_name(path: Seq<char>) -> Option<Seq<char>>;

/// The index of the last `.` in `s`, or -1 where there is none.
pub open spec fn last_dot(s: Seq<char>) -> int
    decreases s.len(),
{
    if s.len() == 0 {
        -1
    } else if s.last() == '.' {
        s.len() - 1
    } else {
        last_dot(s.drop_last())
    }
}

/// The stem of a file name, as std's documentation states it: the whole
/// name where it has no `.` or its only `.` begins it, otherwise the part
/// before the last `.`.
pub open spec fn stem_of_name(name: Seq<char>) -> Seq<char> {
    let k = last_dot(name);
    if k <= 0 {
        name
    } else {
        name.take(k)
    }
}

/// The extension of a file name, as std's documentation states it: none
/// where the name has no `.` or its only `.` begins it, otherwise the part
/// after the last `.`.
pub open spec fn extension_of_name(name: Seq<char>) -> Option<Seq<char>> {
    let k = last_dot(name);
    if k <= 0 {
        None
    } else {
        Some(name.skip(k + 1))
    }
}

/// What std's `Path::file_stem` gives for `path`: the stem of its file
/// name, or nothing when it has no file name.
pub open spec fn path_file_stem(path: Seq<char>) -> Option<Seq<char>> {
    match path_file_name(path) {
        Some(n) => Some(stem_of_name(n)),
        None => None,
    }
}

/// What std's `Path::extension` gives for `path`: the extension of its file
/// name, or nothing when it has no file name or the name no extension.
pub open spec fn path_extension(path: Seq<char>) -> Option<Seq<char>> {
    match path_file_name(path) {
        Some(n) => extension_of_name(n),
        None => None,
    }
}

/// Trusted: calls std's `Path::file_name` on `path`. The result depends on
/// `path` alone (std splits it into components), which is left to the name
/// [`path_file_name`]; the name of a path given as text is text again.
#[verifier::external_body]
fn file_name_text(path: &str) -> (r: Option<String>)
    ensures
        match r {
            Some(s) => path_file_name(path@) == Some(s@),
            None => path_file_name(path@) is None,
        },
{
    std::path::Path::new(path).file_name().map(|n| n.to_string_lossy().into_owned())
}

/// Trusted: calls std's `Path::file_stem` on `path`; its documentation
/// defines the result from the file name (see [`path_file_stem`]).
#[verifier::external_body]
fn file_stem_text(path: &str) -> (r: Option<String>)
    ensures
        match r {
            Some(s) => path_file_stem(path@) == Some(s@),
            None => path_file_stem(path@) is None,
        },
{
    std::path::Path::new(path).file_stem().map(|n| n.to_string_lossy().into_owned())
}

/// Trusted: calls std's `Path::extension` on `path`; its documentation
/// defines the result from the file name (see [`path_extension`]).
#[verifier::external_body]
fn extension_text(path: &str) -> (r: Option<String>)
    ensures
        match r {
            Some(s) => path_extension(path@) == Some(s@),
            None => path_extension(path@) is None,
        },
{
    std::path::Path::new(path).extension().map(|n| n.to_string_lossy().into_owned())
}

/// The file name of `path` (its last component); nothing where the path has
/// none, such as `/` or `a/..`.
pub fn get_filename(path: &str) -> (r: Option<String>)
    ensures
        match r {
            Some(s) => path_file_name(path@) == Some(s@),
            None => path_file_name(path@) is None,
        },
{
    file_name_text(path)
}

/// The file name of `path` without its extension: the name an IDL file
/// gives its module; nothing where the path has no file name.
pub fn get_stem(path: &str) -> (r: Option<String>)
    ensures
        match r {
            Some(s) => path_file_stem(path@) == Some(s@),
            None => path_file_stem(path@) is None,
        },
{
    file_stem_text(path)
}

/// Whether `path` names a Rust source file: its extension is `rs`.
pub fn is_rust_source(path: &str) -> (r: bool)
    ensures
        r == (path_extension(path@) == Some("rs"@)),
{
    match extension_text(path) {
        Some(e) => eq_lit(&e, "rs"),
        None => false,
    }
}

/// The index of the first of `names` that is `mod.rs`: the file that
/// defines the module of the directory the files lie in.
pub fn select_module_file(names: &Vec<String>) -> (r: Option<usize>)
    ensures
        match r {
            Some(i) => i < names@.len() && names@[i as int]@ == "mod.rs"@
                && forall|j: int| 0 <= j < i ==> (#[trigger] names@[j])@ != "mod.rs"@,
            None => forall|j: int| 0 <= j < names@.len() ==> (#[trigger] names@[j])@ != "mod.rs"@,
        },
{
    let mut i: usize = 0;
    while i < names.len()
        invariant
            i <= names@.len(),
            forall|j: int| 0 <= j < i ==> (#[trigger] names@[j])@ != "mod.rs"@,
        decreases names@.len() - i,
    {
        if eq_lit(&names[i], "mod.rs") {
            return Some(i);
        }
        i += 1;
    }
    None
}

} // verus!
