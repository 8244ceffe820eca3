//! Error kinds surfaced to the kernel.
//!
//! Every failure reduces to one of two kernel error codes: `ENOENT`
//! when an inode, parent or child name is unknown, and `EIO` when a
//! call to the remote service failed.
use vstd::prelude::*;

verus! {

/// The POSIX code for a missing directory entry.
pub const CODE_NO_ENTRY: i32 = 2;

/// The POSIX code for an input/output failure.
pub const CODE_IO: i32 = 5;

#[derive(Debug, Clone, Copy, PartialEq, Eq, Structural)]
pub enum Error {
    /// The inode is not present in the tree store.
    NoEntry,
    /// The parent inode of a lookup is not present.
    ParentNotFound,
    /// The looked-up name is not among the parent's children.
    ChildNotFound,
    /// A call to the remote service failed.
    ApiCallFailed,
}

impl Error {
    /// The kernel error code this error reduces to.
    pub open spec fn spec_errno(self) -> i32 {
        match self {
            Error::NoEntry => CODE_NO_ENTRY,
            Error::ParentNotFound => CODE_NO_ENTRY,
            Error::ChildNotFound => CODE_NO_ENTRY,
            Error::ApiCallFailed => CODE_IO,
        }
    }

    /// Reduce the error to the kernel error code it is reported as.
    pub fn errno(&self) -> (code: i32)
        ensures
            code == self.spec_errno(),
    {
        match self {
            Error::NoEntry => CODE_NO_ENTRY,
            Error::ParentNotFound => CODE_NO_ENTRY,
            Error::ChildNotFound => CODE_NO_ENTRY,
            Error::ApiCallFailed => CODE_IO,
        }
    }
}

} // verus!
