//! The byte-buffer type used by the read cache.
//!
//! Downloaded chunks arrive and are served as `bytes::Bytes` values:
//! cheaply sliceable, reference-counted byte buffers. Verus sees the
//! type as opaque; its contents are named by [`bytes_view`], and the
//! few operations the cache needs are trusted wrappers whose
//! contracts say what the crate's documentation promises.
use vstd::prelude::*;

use bytes::Bytes;

verus! {

#[verifier::external_type_specification]
#[verifier::external_body]
pub struct ExBytes(Bytes);

/// The bytes held by a buffer, in order.
pub uninterp spec fn bytes_view(b: Bytes) -> Seq<u8>;

/// Relies on `bytes::Bytes::new`: the returned buffer is empty.
#[verifier::external_body]
pub fn bytes_empty() -> (b: Bytes)
    ensures
        bytes_view(b) == Seq::<u8>::empty(),
{
    Bytes::new()
}

/// Relies on `bytes::Bytes::len`: the number of bytes in the buffer.
#[verifier::external_body]
pub fn bytes_len(b: &Bytes) -> (n: usize)
    ensures
        n == bytes_view(*b).len(),
{
    b.len()
}

/// Relies on `bytes::Bytes::slice`: the new buffer holds exactly the
/// bytes of the given range, which must lie inside the buffer (the
/// callee panics otherwise, so the range is required here).
#[verifier::external_body]
pub fn bytes_slice(b: &Bytes, start: usize, end: usize) -> (s: Bytes)
    requires
        start <= end <= bytes_view(*b).len(),
    ensures
        bytes_view(s) == bytes_view(*b).subrange(start as int, end as int),
{
    b.slice(start..end)
}

} // verus!
