//! Errors of the file-system calls.

use vstd::prelude::*;
use vstd::string::StringExecFns;
use nix::errno::Errno;

verus! {

/// Trusted: nix's `Errno`, an error code of the operating system. Nothing is
/// known of a value of it; it is only passed on.
#[verifier::external_type_specification]
#[verifier::external_body]
pub struct ExErrno(nix::errno::Errno);

/// What went wrong in a call on the file system. The variants that come from
/// the operating system carry its error code.
#[derive(Debug)]
pub enum FsError {
    /// The working directory could not be fetched.
    DisplayCwdError { errno: Errno },
    /// The working directory could not be changed.
    ChangeCwdError { errno: Errno },
    /// Another failure, described by its text.
    Other(String),
}

impl FsError {
    /// The message that a user is shown for this error.
    pub open spec fn message(&self) -> Seq<char> {
        match *self {
            FsError::DisplayCwdError { .. } => "Failed to fetch current working directory"@,
            FsError::ChangeCwdError { .. } => "Failed to fetch current working directory"@,
            FsError::Other(text) => "Filesystem error: "@ + text@,
        }
    }

    /// The message that a user is shown for this error.
    pub fn to_string(&self) -> (text: String)
        ensures
            text@ == self.message(),
    {
        match self {
            FsError::DisplayCwdError { .. } => String::from_str(
                "Failed to fetch current working directory",
            ),
            FsError::ChangeCwdError { .. } => String::from_str(
                "Failed to fetch current working directory",
            ),
            FsError::Other(text) => String::from_str("Filesystem error: ").concat(text.as_str()),
        }
    }

    /// The error code that caused this error, where the error passes it on as
    /// its cause: only a failure to fetch the working directory does.
    pub fn source(&self) -> (cause: Option<Errno>)
        ensures
            cause == match *self {
                FsError::DisplayCwdError { errno } => Some(errno),
                _ => None,
            },
    {
        match self {
            FsError::DisplayCwdError { errno } => Some(*errno),
            _ => None,
        }
    }
}

} // verus!
