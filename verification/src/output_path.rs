//! Where a conversion writes its result.
//!
//! A custom name is placed beside the source file and receives the container
//! as its extension unless it has one of its own; without a custom name the
//! result is the source path with `_converted.<container>` appended.
//!
//! How a path divides into directory, file name and extension is decided by
//! `std::path`, by the rules of the platform that the library is built for;
//! the contracts here speak of what it returns by name.

use vstd::prelude::*;
use crate::error::join3;
use crate::text::{chars_of, string_of, text_of, trim, trimmed_chars};

verus! {

/// What `std::path::Path::parent` returns for the path `path`: the path
/// without its final component, `None` where there is none to take off.
pub uninterp spec fn path_parent_of(path: Seq<char>) -> Option<Seq<char>>;

/// What `std::path::PathBuf::push` makes of the path `base` when `name` is
/// pushed onto it.
pub uninterp spec fn path_join_of(base: Seq<char>, name: Seq<char>) -> Seq<char>;

/// Whether `std::path::Path::extension` finds an extension in the file name
/// of the path `path`.
pub uninterp spec fn path_has_extension(path: Seq<char>) -> bool;

/// What `std::path::PathBuf::set_extension` makes of the path `path` when
/// given the extension `extension`.
pub uninterp spec fn path_with_extension_of(path: Seq<char>, extension: Seq<char>) -> Seq<char>;

/// Whether `std::path::is_separator` takes `c` for a path separator.
pub uninterp spec fn is_path_separator(c: char) -> bool;

/// `std::path::is_separator` tells whether a character separates the
/// components of a path on this platform.
pub assume_specification[ std::path::is_separator ](c: char) -> (b: bool)
    ensures
        b == is_path_separator(c),
;

/// `Path::parent`: the path without its final component, if there is one.
/// Both paths are UTF-8 text, so nothing is lost in reading the parent back.
#[verifier::external_body]
fn path_parent(path: &str) -> (parent: Option<String>)
    ensures
        match parent {
            Some(p) => path_parent_of(path@) == Some(p@),
            None => path_parent_of(path@) is None,
        },
{
    match std::path::Path::new(path).parent() {
        Some(p) => Some(p.to_string_lossy().into_owned()),
        None => None,
    }
}

/// `PathBuf::push`: extends the path `base` with `name`, which replaces it
/// where `name` is absolute.
#[verifier::external_body]
fn path_join(base: &str, name: &str) -> (joined: String)
    ensures
        joined@ == path_join_of(base@, name@),
{
    let mut buffer = std::path::PathBuf::from(base);
    buffer.push(name);
    buffer.to_string_lossy().into_owned()
}

/// `Path::extension`: whether the file name of the path has an extension.
#[verifier::external_body]
fn path_extension_present(path: &str) -> (present: bool)
    ensures
        present == path_has_extension(path@),
{
    std::path::Path::new(path).extension().is_some()
}

/// `PathBuf::set_extension`: sets the extension of the path's file name. It
/// panics on an extension that holds a path separator, which is left out.
#[verifier::external_body]
fn path_with_extension(path: &str, extension: &str) -> (changed: String)
    requires
        !holds_separator(extension@),
    ensures
        changed@ == path_with_extension_of(path@, extension@),
{
    let mut buffer = std::path::PathBuf::from(path);
    buffer.set_extension(extension);
    buffer.to_string_lossy().into_owned()
}

/// Whether some character of `s` is a path separator.
pub open spec fn holds_separator(s: Seq<char>) -> bool {
    exists|i: int| 0 <= i < s.len() && is_path_separator(#[trigger] s[i])
}

/// The custom name to use: the given one without the white space around it,
/// unless that leaves nothing.
pub open spec fn custom_name(output_name: Option<Seq<char>>) -> Option<Seq<char>> {
    match output_name {
        Some(name) => if trim(name).len() > 0 {
            Some(trim(name))
        } else {
            None
        },
        None => None,
    }
}

/// The directory of the source file; empty where the path names none.
pub open spec fn directory_of(file_path: Seq<char>) -> Seq<char> {
    match path_parent_of(file_path) {
        Some(p) => p,
        None => Seq::empty(),
    }
}

/// The output path for a custom name: the name beside the source file, with
/// the container as its extension unless it has one. A container that holds
/// a path separator is no extension, and the name then stays as it is.
pub open spec fn named_output_path(file_path: Seq<char>, container: Seq<char>, name: Seq<char>) -> Seq<
    char,
> {
    let placed = path_join_of(directory_of(file_path), name);
    if path_has_extension(placed) || holds_separator(container) {
        placed
    } else {
        path_with_extension_of(placed, container)
    }
}

/// The output path without a custom name.
pub open spec fn default_output_path(file_path: Seq<char>, container: Seq<char>) -> Seq<char> {
    file_path + "_converted."@ + container
}

/// The path that a conversion of `file_path` into `container` writes to.
pub open spec fn output_path(
    file_path: Seq<char>,
    container: Seq<char>,
    output_name: Option<Seq<char>>,
) -> Seq<char> {
    match custom_name(output_name) {
        Some(name) => named_output_path(file_path, container, name),
        None => default_output_path(file_path, container),
    }
}

/// Computes [`custom_name`].
pub fn usable_name(output_name: &Option<String>) -> (name: Option<String>)
    ensures
        match name {
            Some(n) => custom_name(text_of(*output_name)) == Some(n@),
            None => custom_name(text_of(*output_name)) is None,
        },
{
    match output_name {
        Some(given) => {
            let t = trimmed_chars(given.as_str());
            if t.len() > 0 {
                Some(string_of(&t))
            } else {
                None
            }
        },
        None => None,
    }
}

/// Computes [`default_output_path`].
pub fn suffixed_path(file_path: &str, container: &str) -> (path: String)
    ensures
        path@ == default_output_path(file_path@, container@),
{
    join3(file_path, "_converted.", container)
}

/// Decides [`holds_separator`].
pub fn has_separator(s: &str) -> (b: bool)
    ensures
        b == holds_separator(s@),
{
    let v = chars_of(s);
    let mut i: usize = 0;
    while i < v.len()
        invariant
            i <= v.len(),
            v@ == s@,
            forall|k: int| 0 <= k < i ==> !is_path_separator(#[trigger] v@[k]),
        decreases v.len() - i,
    {
        if std::path::is_separator(v[i]) {
            return true;
        }
        i += 1;
    }
    false
}

/// The path that a conversion of `file_path` into `container` writes to.
pub fn build_output_path(file_path: &str, container: &str, output_name: Option<String>) -> (path:
    String)
    ensures
        path@ == output_path(file_path@, container@, text_of(output_name)),
{
    match usable_name(&output_name) {
        Some(name) => {
            let directory = match path_parent(file_path) {
                Some(parent) => parent,
                None => String::new(),
            };
            let placed = path_join(directory.as_str(), name.as_str());
            if path_extension_present(placed.as_str()) || has_separator(container) {
                placed
            } else {
                path_with_extension(placed.as_str(), container)
            }
        },
        None => suffixed_path(file_path, container),
    }
}

} // verus!
