//! Paths as text: whether one is absolute, and how a name is joined to a folder.

use crate::error::FilterError;
use vstd::prelude::*;

verus! {

/// A path is absolute when it starts at the root, `/`.
pub open spec fn is_absolute(path: Seq<char>) -> bool {
    path.len() > 0 && path[0] == '/'
}

/// The path of `name` inside `folder`. An absolute `name` stands for itself;
/// otherwise `name` follows `folder`, after a `/` unless `folder` is empty or
/// ends in one.
pub open spec fn joined(folder: Seq<char>, name: Seq<char>) -> Seq<char> {
    if is_absolute(name) || folder.len() == 0 {
        name
    } else if folder.last() == '/' {
        folder + name
    } else {
        folder + seq!['/'] + name
    }
}

/// What a path resolves to: itself if it is absolute, else its canonical
/// form, which `canonical` holds if the path could be resolved on disk.
pub open spec fn resolved(path: Seq<char>, canonical: Option<Seq<char>>) -> Result<
    Seq<char>,
    FilterError,
> {
    if is_absolute(path) {
        Ok(path)
    } else {
        match canonical {
            Some(found) => Ok(found),
            None => Err(FilterError::PathResolutionFailed),
        }
    }
}

/// Whether `path` is absolute.
pub fn path_is_absolute(path: &str) -> (absolute: bool)
    ensures
        absolute == is_absolute(path@),
{
    if path.is_empty() {
        false
    } else {
        path.get_char(0) == '/'
    }
}

/// Joins `name` to `folder`.
pub fn join(folder: &str, name: &str) -> (path: String)
    ensures
        path@ == joined(folder@, name@),
{
    if path_is_absolute(name) || folder.is_empty() {
        return name.to_owned();
    }
    let length = folder.unicode_len();
    let mut path = folder.to_owned();
    if folder.get_char(length - 1) != '/' {
        proof {
            reveal_strlit("/");
        }
        path.append("/");
        assert(path@ =~= folder@ + seq!['/']);
    }
    path.append(name);
    path
}

/// Resolves a path that the operator gave to an absolute one.
///
/// An absolute path is returned as it is. For any other path, `canonical` is
/// the answer of the file system: the canonical form of the path, or `None`
/// if it has none, in which case the resolution fails.
pub fn check_absolute_path(path: String, canonical: Option<String>) -> (result: Result<
    String,
    FilterError,
>)
    ensures
        match result {
            Ok(absolute) => resolved(path@, option_view(canonical)) == Ok::<
                Seq<char>,
                FilterError,
            >(absolute@),
            Err(error) => resolved(path@, option_view(canonical)) == Err::<
                Seq<char>,
                FilterError,
            >(error),
        },
{
    if path_is_absolute(path.as_str()) {
        Ok(path)
    } else {
        match canonical {
            Some(found) => Ok(found),
            None => Err(FilterError::PathResolutionFailed),
        }
    }
}

/// The text that an optional string holds.
pub open spec fn option_view(text: Option<String>) -> Option<Seq<char>> {
    match text {
        Some(t) => Some(t@),
        None => None,
    }
}

} // verus!
