//! What this crate assumes of `bytes`, the heap region it builds on.
//!
//! A heap buffer is opaque to the verifier; `heap_bytes` and `frozen_bytes`
//! name the contents of a growable and of a frozen buffer, and each operation
//! the memory-backed buffers use is a thin wrapper whose contract speaks over
//! those names.

use vstd::prelude::*;

use crate::bump::overwrite;

verus! {

#[verifier::external_type_specification]
#[verifier::external_body]
pub struct ExBytesMut(bytes::BytesMut);

#[verifier::external_type_specification]
#[verifier::external_body]
pub struct ExBytes(bytes::Bytes);

/// The bytes a growable heap buffer holds.
pub uninterp spec fn heap_bytes(b: bytes::BytesMut) -> Seq<u8>;

/// The bytes a frozen, shareable heap buffer holds.
pub uninterp spec fn frozen_bytes(b: bytes::Bytes) -> Seq<u8>;

/// Relies on bytes::BytesMut::zeroed: a fresh buffer of `len` zero bytes.
#[verifier::external_body]
pub(crate) fn heap_zeroed(len: usize) -> (r: bytes::BytesMut)
    ensures
        heap_bytes(r) == Seq::new(len as nat, |i: int| 0u8),
{
    bytes::BytesMut::zeroed(len)
}

/// Relies on bytes::BytesMut's deref to a mutable `[u8]`: copying `buf` into
/// `[offset, offset + buf.len())` changes those bytes and no others.
#[verifier::external_body]
pub(crate) fn heap_write_at(b: &mut bytes::BytesMut, offset: usize, buf: &[u8])
    requires
        offset + buf@.len() <= heap_bytes(*old(b)).len(),
    ensures
        heap_bytes(*final(b)) == overwrite(heap_bytes(*old(b)), offset as int, buf@),
{
    b[offset..offset + buf.len()].copy_from_slice(buf);
}

/// Relies on bytes::BytesMut's deref to `[u8]`: indexing reads the held
/// bytes in place.
#[verifier::external_body]
pub(crate) fn heap_slice(b: &bytes::BytesMut, start: usize, end: usize) -> (r: &[u8])
    requires
        start <= end <= heap_bytes(*b).len(),
    ensures
        r@ == heap_bytes(*b).subrange(start as int, end as int),
{
    &b[start..end]
}

/// Relies on bytes::BytesMut::truncate: keeps exactly the first `len` bytes
/// when `len` is within the buffer.
#[verifier::external_body]
pub(crate) fn heap_truncate(b: &mut bytes::BytesMut, len: usize)
    requires
        len <= heap_bytes(*old(b)).len(),
    ensures
        heap_bytes(*final(b)) == heap_bytes(*old(b)).take(len as int),
{
    b.truncate(len);
}

/// Relies on bytes::BytesMut::freeze: the frozen buffer holds the same bytes.
#[verifier::external_body]
pub(crate) fn heap_freeze(b: bytes::BytesMut) -> (r: bytes::Bytes)
    ensures
        frozen_bytes(r) == heap_bytes(b),
{
    b.freeze()
}

/// Relies on bytes::Bytes's deref to `[u8]`: the full view of the held
/// bytes.
#[verifier::external_body]
pub(crate) fn frozen_as_slice(b: &bytes::Bytes) -> (r: &[u8])
    ensures
        r@ == frozen_bytes(*b),
{
    &b[..]
}

/// Relies on bytes::Bytes::clone: a shallow copy sharing the same bytes.
#[verifier::external_body]
pub(crate) fn frozen_clone(b: &bytes::Bytes) -> (r: bytes::Bytes)
    ensures
        frozen_bytes(r) == frozen_bytes(*b),
{
    b.clone()
}

} // verus!
