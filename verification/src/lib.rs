//! A user-space container sandboxing substrate: an in-memory virtual
//! filesystem that answers guest file operations, a fixed-capacity IPC
//! buffer with a typed wire codec, a seccomp policy compiler with a
//! verified filter evaluator, the register-level bookkeeping of a
//! remote-syscall trampoline, and the decision core of a syscall
//! emulator.

pub mod abi;
pub mod buffer;
pub mod emulator;
pub mod errors;
pub mod ipcserver;
pub mod nolibc;
pub mod path;
pub mod protocol;
pub mod seccomp;
pub mod task;
pub mod taskcall;
pub mod trampoline;
pub mod vfs;

pub use errors::VFSError;
pub use vfs::{Filesystem, Limits, Stat, StorageKey, VFSWriter, VFile};
