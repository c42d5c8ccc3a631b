//! What this crate assumes of `memmapix`, the OS mapping layer.
//!
//! A mapping is opaque to the verifier; `rw_bytes` and `ro_bytes` name the
//! byte contents of a writable and of a read-only mapping, and each operation
//! the buffers use is a thin wrapper whose contract speaks over those names.

use vstd::prelude::*;

use crate::bump::overwrite;
use memmapix::Mmap as RawRoMapping;
use memmapix::MmapMut as RawRwMapping;

verus! {

#[verifier::external_type_specification]
#[verifier::external_body]
pub struct ExRwMapping(RawRwMapping);

#[verifier::external_type_specification]
#[verifier::external_body]
pub struct ExRoMapping(RawRoMapping);

/// The bytes of a writable mapping.
pub uninterp spec fn rw_bytes(m: memmapix::MmapMut) -> Seq<u8>;

/// The bytes of a read-only mapping.
pub uninterp spec fn ro_bytes(m: memmapix::Mmap) -> Seq<u8>;

/// Relies on memmapix::MmapMut's deref to `[u8]`: the mapping is one byte
/// region of a fixed length.
#[verifier::external_body]
pub(crate) fn rw_len(m: &memmapix::MmapMut) -> (r: usize)
    ensures
        r == rw_bytes(*m).len(),
{
    m.len()
}

/// Relies on memmapix::MmapMut's deref to a mutable `[u8]`: copying `buf`
/// into `[offset, offset + buf.len())` changes those bytes and no others.
#[verifier::external_body]
pub(crate) fn rw_write_at(m: &mut memmapix::MmapMut, offset: usize, buf: &[u8])
    requires
        offset + buf@.len() <= rw_bytes(*old(m)).len(),
    ensures
        rw_bytes(*final(m)) == overwrite(rw_bytes(*old(m)), offset as int, buf@),
{
    m[offset..offset + buf.len()].copy_from_slice(buf);
}

/// Relies on memmapix::MmapMut's deref to `[u8]`: indexing reads the mapped
/// bytes in place.
#[verifier::external_body]
pub(crate) fn rw_slice(m: &memmapix::MmapMut, start: usize, end: usize) -> (r: &[u8])
    requires
        start <= end <= rw_bytes(*m).len(),
    ensures
        r@ == rw_bytes(*m).subrange(start as int, end as int),
{
    &m[start..end]
}

/// Relies on memmapix::MmapMut::flush: a synchronous flush of the dirty pages
/// to the backing file; whether it succeeds is up to the OS.
#[verifier::external_body]
pub(crate) fn rw_flush(m: &memmapix::MmapMut) -> (r: Result<(), std::io::Error>) {
    m.flush()
}

/// Relies on memmapix::MmapMut::flush_async: starts a flush of the dirty
/// pages without waiting for it; whether it succeeds is up to the OS.
#[verifier::external_body]
pub(crate) fn rw_flush_async(m: &memmapix::MmapMut) -> (r: Result<(), std::io::Error>) {
    m.flush_async()
}

/// Relies on memmapix::MmapMut::make_read_only: remaps the same region
/// read-only, so on success the read-only mapping holds the same bytes.
#[verifier::external_body]
pub(crate) fn rw_into_ro(m: memmapix::MmapMut) -> (r: Result<memmapix::Mmap, std::io::Error>)
    ensures
        r matches Ok(ro) ==> ro_bytes(ro) == rw_bytes(m),
{
    m.make_read_only()
}

/// Relies on memmapix::Mmap's deref to `[u8]`: the mapping is one byte region
/// of a fixed length.
#[verifier::external_body]
pub(crate) fn ro_len(m: &memmapix::Mmap) -> (r: usize)
    ensures
        r == ro_bytes(*m).len(),
{
    m.len()
}

/// Relies on memmapix::Mmap's deref to `[u8]`: indexing reads the mapped
/// bytes in place.
#[verifier::external_body]
pub(crate) fn ro_slice(m: &memmapix::Mmap, start: usize, end: usize) -> (r: &[u8])
    requires
        start <= end <= ro_bytes(*m).len(),
    ensures
        r@ == ro_bytes(*m).subrange(start as int, end as int),
{
    &m[start..end]
}

/// Relies on std::sync::Arc::clone: both handles refer to the one mapping.
#[verifier::external_body]
pub(crate) fn shared_ro_clone(m: &std::sync::Arc<memmapix::Mmap>) -> (r: std::sync::Arc<
    memmapix::Mmap,
>)
    ensures
        r == *m,
{
    std::sync::Arc::clone(m)
}

} // verus!
