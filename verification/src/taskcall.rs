//! Server-side handling of one task's filesystem requests: each takes the
//! request's path as plain bytes (the server reads guest strings before
//! calling in) and answers from the virtual filesystem, translating its
//! errors to negated kernel error numbers.

use vstd::prelude::*;

use crate::protocol::{Errno, FileStat};
use crate::vfs::{
    is_directory_spec, open_nofollow_spec, open_spec, vfile_stat_spec, Filesystem, VFile,
};

verus! {

/// A process's per-task state on the server side.
#[derive(Debug, Clone, Copy, PartialEq, Eq, Structural)]
pub struct ProcessState {
    pub current_dir: VFile,
}

/// Change a task's working directory: the path must resolve to a
/// directory.
pub fn change_working_dir(state: &mut ProcessState, fs: &Filesystem, path: &[u8])
    -> (r: Result<(), Errno>)
    ensures
        match open_spec(fs@, path@) {
            Ok(node) => {
                if is_directory_spec(fs@, node) {
                    r is Ok && final(state).current_dir@ == node
                } else {
                    r == Result::<(), Errno>::Err(
                        Errno((0 - crate::errors::ENOTDIR) as i32),
                    ) && *final(state) == *old(state)
                }
            },
            Err(e) => r == Result::<(), Errno>::Err(Errno((0 - e.to_errno_spec()) as i32))
                && *final(state) == *old(state),
        },
{
    match fs.open(path) {
        Ok(f) => {
            if fs.is_directory(&f) {
                state.current_dir = f;
                Ok(())
            } else {
                Err(Errno(0 - crate::errors::ENOTDIR))
            }
        },
        Err(e) => Err(Errno(0 - e.to_errno())),
    }
}

/// Report a task's working directory. Deliberate limitation: the library
/// does not yet render the directory's path into the guest's buffer, so
/// the reply is always a zero byte count; the per-task directory itself
/// is tracked in `ProcessState` and changed by `change_working_dir`.
pub fn get_working_dir(state: &ProcessState, buffer_size: u64) -> (r: Result<u64, Errno>)
    ensures
        r == Result::<u64, Errno>::Ok(0u64),
{
    Ok(0)
}

/// Answer an access check: the path must resolve.
pub fn file_access(fs: &Filesystem, path: &[u8], mode: i32) -> (r: Result<(), Errno>)
    ensures
        match open_spec(fs@, path@) {
            Ok(_) => r is Ok,
            Err(e) => r == Result::<(), Errno>::Err(Errno((0 - e.to_errno_spec()) as i32)),
        },
{
    match fs.open(path) {
        Ok(_) => Ok(()),
        Err(e) => Err(Errno(0 - e.to_errno())),
    }
}

/// Open a path for a guest, following symbolic links at the tail.
pub fn file_open(fs: &Filesystem, path: &[u8], flags: i32, mode: i32)
    -> (r: Result<VFile, Errno>)
    ensures
        match open_spec(fs@, path@) {
            Ok(node) => r is Ok && r->Ok_0@ == node,
            Err(e) => r == Result::<VFile, Errno>::Err(
                Errno((0 - e.to_errno_spec()) as i32),
            ),
        },
{
    match fs.open(path) {
        Ok(f) => Ok(f),
        Err(e) => Err(Errno(0 - e.to_errno())),
    }
}

/// Answer a stat request, optionally refusing to follow a symbolic link
/// at the path's tail.
pub fn file_stat(fs: &Filesystem, path: &[u8], nofollow: bool) -> (r: Result<FileStat, Errno>)
    ensures
        ({
            let walk = if nofollow {
                open_nofollow_spec(fs@, path@)
            } else {
                open_spec(fs@, path@)
            };
            match walk {
                Ok(node) => match vfile_stat_spec(fs@, node) {
                    Ok(st) => r == Result::<FileStat, Errno>::Ok(FileStat { stat: st }),
                    Err(e) => r == Result::<FileStat, Errno>::Err(
                        Errno((0 - e.to_errno_spec()) as i32),
                    ),
                },
                Err(e) => r == Result::<FileStat, Errno>::Err(
                    Errno((0 - e.to_errno_spec()) as i32),
                ),
            }
        }),
{
    let f = if nofollow {
        match fs.open_nofollow(path) {
            Ok(f) => f,
            Err(e) => {
                return Err(Errno(0 - e.to_errno()));
            },
        }
    } else {
        match fs.open(path) {
            Ok(f) => f,
            Err(e) => {
                return Err(Errno(0 - e.to_errno()));
            },
        }
    };
    match fs.vfile_stat(&f) {
        Ok(st) => Ok(FileStat { stat: st }),
        Err(e) => Err(Errno(0 - e.to_errno())),
    }
}

} // verus!
