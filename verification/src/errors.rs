//! Error kinds shared across the library.

use vstd::prelude::*;

verus! {

/// Failure of a virtual-filesystem operation.
#[derive(Debug, Clone, Copy, PartialEq, Eq, Structural)]
pub enum VFSError {
    /// Expected a directory, found another node type.
    DirectoryExpected,
    /// Expected a regular file, found another node type.
    FileExpected,
    /// A node reference points at an unallocated inode slot.
    UnallocNode,
    /// No entry with the requested name.
    NotFound,
    /// A path walk used up its budget of name lookups.
    PathSegmentLimitExceeded,
    /// A path walk used up its budget of symbolic-link dereferences.
    SymbolicLinkLimitExceeded,
    /// A link-count update would overflow or underflow.
    INodeRefCountError,
}

/// Kernel error numbers used when translating filesystem errors for a guest.
pub const ENOENT: i32 = 2;
pub const EIO: i32 = 5;
pub const ENOTDIR: i32 = 20;
pub const EISDIR: i32 = 21;
pub const EMLINK: i32 = 31;
pub const ENAMETOOLONG: i32 = 36;
pub const ELOOP: i32 = 40;
pub const ENOSYS: i32 = 38;
pub const EEXIST: i32 = 17;
pub const EAGAIN: i32 = 11;
pub const ECHILD: i32 = 10;

impl VFSError {
    /// The kernel errno a guest receives when this error reaches the
    /// emulator boundary.
    pub fn to_errno(&self) -> (r: i32)
        ensures
            r == self.to_errno_spec(),
    {
        match self {
            VFSError::DirectoryExpected => ENOTDIR,
            VFSError::FileExpected => EISDIR,
            VFSError::UnallocNode => EIO,
            VFSError::NotFound => ENOENT,
            VFSError::PathSegmentLimitExceeded => ENAMETOOLONG,
            VFSError::SymbolicLinkLimitExceeded => ELOOP,
            VFSError::INodeRefCountError => EMLINK,
        }
    }

    /// Specification of `to_errno`.
    pub open spec fn to_errno_spec(self) -> i32 {
        match self {
            VFSError::DirectoryExpected => ENOTDIR,
            VFSError::FileExpected => EISDIR,
            VFSError::UnallocNode => EIO,
            VFSError::NotFound => ENOENT,
            VFSError::PathSegmentLimitExceeded => ENAMETOOLONG,
            VFSError::SymbolicLinkLimitExceeded => ELOOP,
            VFSError::INodeRefCountError => EMLINK,
        }
    }
}

} // verus!
