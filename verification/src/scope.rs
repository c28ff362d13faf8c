//! The folders that the file tools may look into.
use vstd::prelude::*;
use vstd::utf8::encode_utf8;

use crate::execution::refused;
use crate::paths::{
    copy_bytes, file_name, is_absolute, is_inside, joined, path_file_name, path_inside, path_join,
    same_bytes, SLASH,
};
use crate::text::{glue, lossy, lossy_text, shows_utf8, trim, trimmed};

verus! {

/// What was found out about the folder of the user.
pub enum HomeLookup {
    /// No folder is configured.
    Unset,
    /// The folder that is configured could not be resolved.
    Unresolved,
    /// The folder, without links in its path.
    Resolved { path: Vec<u8> },
}

/// The folder of the user.
pub fn user_root(lookup: HomeLookup) -> (r: Result<Vec<u8>, String>)
    ensures
        match lookup {
            HomeLookup::Unset => refused(r, "HOME is not configured."@),
            HomeLookup::Unresolved => refused(r, "Could not resolve the current user folder."@),
            HomeLookup::Resolved { path } => r == Ok::<Vec<u8>, String>(path),
        },
{
    match lookup {
        HomeLookup::Unset => Err("HOME is not configured.".to_owned()),
        HomeLookup::Unresolved => Err("Could not resolve the current user folder.".to_owned()),
        HomeLookup::Resolved { path } => Ok(path),
    }
}

/// The text of an optional path.
pub open spec fn path_view(path: Option<&str>) -> Option<Seq<char>> {
    match path {
        Some(s) => Some(s@),
        None => None,
    }
}

/// The folder that a path, or the lack of one, stands for: one that starts at the
/// root as it is, any other below the folder of the user, and the documents of the
/// user where there is no path.
pub open spec fn candidate(root: Seq<u8>, path: Option<Seq<char>>) -> Seq<u8> {
    match path {
        Some(text) if trimmed(text).len() > 0 => {
            let given = encode_utf8(trimmed(text));
            if is_absolute(given) {
                given
            } else {
                joined(root, given)
            }
        },
        _ => joined(root, encode_utf8("Documents"@)),
    }
}

/// The folder that a path, or the lack of one, stands for.
pub fn candidate_directory(root: &[u8], path: Option<&str>) -> (r: Vec<u8>)
    ensures
        r@ == candidate(root@, path_view(path)),
{
    if let Some(text) = path {
        let given = trim(text);
        if !given.is_empty() {
            let bytes = given.as_bytes();
            if bytes.len() > 0 && bytes[0] == SLASH {
                return copy_bytes(bytes);
            }
            return path_join(root, bytes);
        }
    }
    path_join(root, "Documents".as_bytes())
}

/// What was found out about a folder.
pub enum DirectoryLookup {
    /// There is none, or it could not be resolved.
    Missing,
    /// The path without links in it, and whether a directory is there.
    Found { path: Vec<u8>, is_directory: bool },
}

/// The folder to look into, where it lies inside the folder of the user.
/// `wanted` is the folder that was looked up.
pub fn scoped_directory(root: &[u8], wanted: &[u8], lookup: DirectoryLookup) -> (r: Result<
    Vec<u8>,
    String,
>)
    ensures
        match lookup {
            DirectoryLookup::Missing => refused(
                r,
                "Directory does not exist or is not readable: "@ + lossy_text(wanted@),
            ) && shows_utf8(wanted@),
            DirectoryLookup::Found { path, is_directory } => if !is_inside(path@, root@) {
                refused(r, "File tools are limited to folders inside your user profile."@)
            } else if !is_directory {
                refused(r, "The selected path is not a directory."@)
            } else {
                r == Ok::<Vec<u8>, String>(path)
            },
        },
        r matches Ok(path) ==> is_inside(path@, root@),
{
    match lookup {
        DirectoryLookup::Missing => {
            let shown = lossy(wanted);
            Err(glue("Directory does not exist or is not readable: ", shown.as_str()))
        },
        DirectoryLookup::Found { path, is_directory } => {
            if !path_inside(path.as_slice(), root) {
                return Err(
                    "File tools are limited to folders inside your user profile.".to_owned(),
                );
            }
            if !is_directory {
                return Err("The selected path is not a directory.".to_owned());
            }
            Ok(path)
        },
    }
}

/// The path ends in the name `text`.
pub open spec fn is_named(path: Seq<u8>, text: Seq<char>) -> bool {
    file_name(path) == Some(encode_utf8(text))
}

/// A directory that is never looked into.
pub open spec fn is_skipped(path: Seq<u8>) -> bool {
    ||| is_named(path, ".git"@)
    ||| is_named(path, "node_modules"@)
    ||| is_named(path, "target"@)
    ||| is_named(path, ".cache"@)
    ||| is_named(path, "AppData"@)
}

/// Whether a directory is never looked into.
pub fn should_skip_directory(path: &[u8]) -> (r: bool)
    ensures
        r == is_skipped(path@),
{
    match path_file_name(path) {
        None => false,
        Some(name) => {
            let n = name.as_slice();
            same_bytes(n, ".git".as_bytes()) || same_bytes(n, "node_modules".as_bytes())
                || same_bytes(n, "target".as_bytes()) || same_bytes(n, ".cache".as_bytes())
                || same_bytes(n, "AppData".as_bytes())
        },
    }
}

} // verus!
