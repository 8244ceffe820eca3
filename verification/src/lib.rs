//! Read-only FUSE driver core for a remote cloud drive.
//!
//! The verified library holds the logic of the driver: the credentials
//! cell and its refresh-retry policy, the request retry envelope, paged
//! directory listing, the inode tree store with reconciliation, the
//! per-handle read cache, and the filesystem callback semantics.
//! Network and kernel I/O live outside the library and hand it plain
//! values.
pub mod buf;
pub mod cache;
pub mod drive;
pub mod error;
pub mod token;
pub mod vfs;
