//! The ways in which a run can fail.

use vstd::prelude::*;

verus! {

/// A fatal error: it ends the run at once.
#[derive(Clone, Copy, Debug, PartialEq, Eq, Structural)]
pub enum FilterError {
    /// The target folder could not be listed.
    FolderUnreadable,
    /// A duplicate could not be removed.
    DeleteFailed,
    /// A duplicate could not be moved to its destination.
    MoveFailed,
    /// An answer of the operator could not be read.
    InputReadFailed,
    /// The operator answered with something other than `delete`, `move` or `ignore`.
    InvalidInput,
    /// A relative path could not be resolved to an absolute one.
    PathResolutionFailed,
    /// An option that takes a folder was the last argument.
    NoFolderSpecified,
    /// An argument starts with `-` and is no known option.
    InvalidArgument,
    /// No folder was named and the current directory is not known.
    CurrentDirUnavailable,
}

impl FilterError {
    /// The text that describes this error to the operator.
    pub fn message(&self) -> (text: &'static str)
        ensures
            text@ == self.spec_message(),
    {
        match self {
            FilterError::FolderUnreadable => "Unable to read folder",
            FilterError::DeleteFailed => "Unable to delete file",
            FilterError::MoveFailed => "Unable to move file",
            FilterError::InputReadFailed => "Unable to read input",
            FilterError::InvalidInput => "Wrong input",
            FilterError::PathResolutionFailed => "Unable to resolve path",
            FilterError::NoFolderSpecified => "No folder specified",
            FilterError::InvalidArgument => "Invalid argument",
            FilterError::CurrentDirUnavailable => "Can't see the current directory",
        }
    }

    /// The text of [`FilterError::message`], as a sequence of characters.
    pub open spec fn spec_message(&self) -> Seq<char> {
        match self {
            FilterError::FolderUnreadable => "Unable to read folder"@,
            FilterError::DeleteFailed => "Unable to delete file"@,
            FilterError::MoveFailed => "Unable to move file"@,
            FilterError::InputReadFailed => "Unable to read input"@,
            FilterError::InvalidInput => "Wrong input"@,
            FilterError::PathResolutionFailed => "Unable to resolve path"@,
            FilterError::NoFolderSpecified => "No folder specified"@,
            FilterError::InvalidArgument => "Invalid argument"@,
            FilterError::CurrentDirUnavailable => "Can't see the current directory"@,
        }
    }
}

} // verus!
