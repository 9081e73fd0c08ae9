//! Paths as strings: the final component, the parent and the extension.

use crate::text::{ascii_lowercased, to_ascii_lowercase, to_chars};
use vstd::prelude::*;

verus! {

/// The final component of a path, as `Path::file_name` of the standard
/// library gives it for the path syntax of the platform.
pub uninterp spec fn path_file_name(path: Seq<char>) -> Option<Seq<char>>;

/// The path without its final component, as `Path::parent` of the standard
/// library gives it for the path syntax of the platform.
pub uninterp spec fn path_parent(path: Seq<char>) -> Option<Seq<char>>;

/// Calls `Path::file_name`. The contract only names the result: it is a
/// function of the path's text, `None` where the path has no final
/// component.
#[verifier::external_body]
pub(crate) fn file_name_of(path: &str) -> (name: Option<String>)
    ensures
        match name {
            Some(text) => path_file_name(path@) == Some(text@),
            None => path_file_name(path@) is None,
        },
{
    match std::path::Path::new(path).file_name() {
        Some(name) => Some(name.to_string_lossy().into_owned()),
        None => None,
    }
}

/// Calls `Path::parent`. The contract only names the result: it is a
/// function of the path's text, `None` where the path ends in a root or is
/// empty.
#[verifier::external_body]
pub(crate) fn parent_of(path: &str) -> (parent: Option<String>)
    ensures
        match parent {
            Some(text) => path_parent(path@) == Some(text@),
            None => path_parent(path@) is None,
        },
{
    match std::path::Path::new(path).parent() {
        Some(parent) => Some(parent.to_string_lossy().into_owned()),
        None => None,
    }
}

/// The index of the last dot among the first `n` characters, or -1.
pub open spec fn last_dot(name: Seq<char>, n: int) -> int
    decreases n,
{
    if n <= 0 {
        -1
    } else if name[n - 1] == '.' {
        n - 1
    } else {
        last_dot(name, n - 1)
    }
}

/// The extension of a file name: what follows its last dot. A name without
/// a dot, or whose only dot is its first character, has none.
pub open spec fn name_extension(name: Seq<char>) -> Option<Seq<char>> {
    let dot = last_dot(name, name.len() as int);
    if dot <= 0 {
        None
    } else {
        Some(name.skip(dot + 1))
    }
}

/// The extension of a path's final component.
pub open spec fn path_extension(path: Seq<char>) -> Option<Seq<char>> {
    match path_file_name(path) {
        Some(name) => name_extension(name),
        None => None,
    }
}

/// The extension of a path in ASCII lower case, empty where it has none.
pub open spec fn lower_extension(path: Seq<char>) -> Seq<char> {
    match path_extension(path) {
        Some(ext) => ascii_lowercased(ext),
        None => Seq::empty(),
    }
}

/// The extension of a file name.
pub fn extension_of_name(name: &Vec<char>) -> (ext: Option<Vec<char>>)
    ensures
        match ext {
            Some(chars) => name_extension(name@) == Some(chars@),
            None => name_extension(name@) is None,
        },
{
    let mut n = name.len();
    while n > 0
        invariant
            n <= name@.len(),
            last_dot(name@, n as int) == last_dot(name@, name@.len() as int),
        decreases n,
    {
        if name[n - 1] == '.' {
            if n - 1 == 0 {
                return None;
            }
            let mut ext: Vec<char> = Vec::new();
            let mut i = n;
            while i < name.len()
                invariant
                    n <= i <= name@.len(),
                    ext@ == name@.subrange(n as int, i as int),
                decreases name@.len() - i,
            {
                ext.push(name[i]);
                assert(ext@ =~= name@.subrange(n as int, i + 1));
                i += 1;
            }
            assert(name@.subrange(n as int, name@.len() as int) =~= name@.skip(n as int));
            return Some(ext);
        }
        n -= 1;
    }
    None
}

/// The extension of a path in ASCII lower case, empty where it has none.
pub fn extension_lowercase(path: &str) -> (ext: Vec<char>)
    ensures
        ext@ == lower_extension(path@),
{
    match file_name_of(path) {
        Some(name) => {
            let chars = to_chars(name.as_str());
            match extension_of_name(&chars) {
                Some(ext) => to_ascii_lowercase(&ext),
                None => Vec::new(),
            }
        },
        None => Vec::new(),
    }
}

/// A drive root is an upper case ASCII letter followed by a colon and a
/// backslash.
pub open spec fn drive_root(path: Seq<char>) -> bool {
    &&& path.len() == 3
    &&& 'A' <= path[0] <= 'Z'
    &&& path[1] == ':'
    &&& path[2] == '\\'
}

pub fn is_drive_root(path: &str) -> (root: bool)
    ensures
        root == drive_root(path@),
{
    let chars = to_chars(path);
    chars.len() == 3 && chars[0] >= 'A' && chars[0] <= 'Z' && chars[1] == ':' && chars[2] == '\\'
}

/// The name under which a path is listed: its final component, or nothing
/// where it has none. Where drive roots are listed, a drive root is listed
/// under its whole path.
pub open spec fn listed_name(path: Seq<char>, drive_roots: bool) -> Seq<char> {
    if drive_roots && drive_root(path) {
        path
    } else {
        match path_file_name(path) {
            Some(name) => name,
            None => Seq::empty(),
        }
    }
}

pub fn get_file_name(path: &str, drive_roots: bool) -> (name: String)
    ensures
        name@ == listed_name(path@, drive_roots),
{
    if drive_roots && is_drive_root(path) {
        return path.to_owned();
    }
    match file_name_of(path) {
        Some(name) => name,
        None => String::new(),
    }
}

} // verus!
