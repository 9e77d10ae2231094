//! The calls on the file system that the shell makes for itself.

use vstd::prelude::*;
use nix::errno::Errno;
use nix::unistd::{chdir, getcwd};
use crate::error::FsError;

verus! {

/// Trusted: nix's `getcwd`, with the path turned into text. Whether it
/// succeeds and what it returns depends on the process and the file system,
/// so nothing is promised of the result.
#[verifier::external_body]
fn current_dir() -> Result<String, Errno> {
    match getcwd() {
        Ok(path) => Ok(path.display().to_string()),
        Err(errno) => Err(errno),
    }
}

/// Whether `path` holds the NUL character. The operating system takes a path
/// as a text that NUL ends, so it can be handed no path that holds one.
pub open spec fn holds_nul(path: Seq<char>) -> bool {
    path.contains('\0')
}

/// Trusted: nix's `chdir` on the path that `path` spells. nix refuses a path
/// that holds a NUL character itself, with an error and without asking the
/// operating system. Whether any other path is entered depends on the process
/// and the file system, so nothing more is promised of the result.
#[verifier::external_body]
fn enter_dir(path: &str) -> (r: Result<(), Errno>)
    ensures
        holds_nul(path@) ==> r is Err,
{
    chdir(path)
}

/// What fetching the working directory comes to, given what the operating
/// system answered: the path, or the error that carries the system's code.
pub fn cwd_outcome(answer: Result<String, Errno>) -> (r: Result<String, FsError>)
    ensures
        r == match answer {
            Ok(path) => Ok::<String, FsError>(path),
            Err(errno) => Err(FsError::DisplayCwdError { errno }),
        },
{
    match answer {
        Ok(path) => Ok(path),
        Err(errno) => Err(FsError::DisplayCwdError { errno }),
    }
}

/// What changing the working directory comes to, given what the operating
/// system answered: success, or the error that carries the system's code.
pub fn chdir_outcome(answer: Result<(), Errno>) -> (r: Result<(), FsError>)
    ensures
        r == match answer {
            Ok(done) => Ok::<(), FsError>(done),
            Err(errno) => Err(FsError::ChangeCwdError { errno }),
        },
{
    match answer {
        Ok(done) => Ok(done),
        Err(errno) => Err(FsError::ChangeCwdError { errno }),
    }
}

/// Fetches the working directory of the process. A failure is always a
/// [`FsError::DisplayCwdError`].
pub fn get_cwd_impl() -> (r: Result<String, FsError>)
    ensures
        r matches Err(e) ==> e is DisplayCwdError,
{
    cwd_outcome(current_dir())
}

/// Makes `path` the working directory of the process. A path that holds a
/// NUL character is never entered; whether another path is entered is for the
/// operating system to say. A failure is always a
/// [`FsError::ChangeCwdError`].
pub fn change_working_dir_impl(path: &str) -> (r: Result<(), FsError>)
    ensures
        holds_nul(path@) ==> r is Err,
        r matches Err(e) ==> e is ChangeCwdError,
{
    chdir_outcome(enter_dir(path))
}

} // verus!
