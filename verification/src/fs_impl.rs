//! The file-system calls as the shell's own commands use them.

use vstd::prelude::*;
use crate::error::FsError;
use crate::fs::{change_working_dir_impl, get_cwd_impl, holds_nul};

verus! {

/// Makes `path` the working directory of the process. A path that holds a
/// NUL character is never entered; whether another path is entered is for the
/// operating system to say. A failure is always a
/// [`FsError::ChangeCwdError`].
pub fn change_dir(path: &str) -> (r: Result<(), FsError>)
    ensures
        holds_nul(path@) ==> r is Err,
        r matches Err(e) ==> e is ChangeCwdError,
{
    change_working_dir_impl(path)
}

/// Fetches the working directory of the process. A failure is always a
/// [`FsError::DisplayCwdError`].
pub fn get_cwd() -> (r: Result<String, FsError>)
    ensures
        r matches Err(e) ==> e is DisplayCwdError,
{
    get_cwd_impl()
}

} // verus!
