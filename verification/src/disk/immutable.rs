//! The read-only, thread-safe view of a mapped file.

use vstd::prelude::*;

use crate::disk::mapping::{ro_bytes, ro_len, ro_slice, shared_ro_clone};

verus! {

/// A read-only memory map over `[0, len)` of a mapped file.
///
/// The content can never change after mapping, so handles share the one
/// mapping through a reference count: cloning is cheap and no further
/// synchronization is needed to read from several threads.
#[derive(Debug)]
pub struct Mmap {
    map: std::sync::Arc<memmapix::Mmap>,
    len: usize,
}

impl View for Mmap {
    type V = Seq<u8>;

    closed spec fn view(&self) -> Seq<u8> {
        ro_bytes(*self.map).take(self.len as int)
    }
}

impl Mmap {
    /// Well-formed: the mapped region is at least `len` bytes long.
    pub closed spec fn wf(self) -> bool {
        self.len <= ro_bytes(*self.map).len()
    }

    /// Wrap an already read-only mapping, exposing its first `len` bytes.
    pub(crate) fn from_parts(map: memmapix::Mmap, len: usize) -> (r: Self)
        requires
            len <= ro_bytes(map).len(),
        ensures
            r.wf(),
            r@ == ro_bytes(map).take(len as int),
    {
        Mmap { map: std::sync::Arc::new(map), len }
    }

    /// Wrap a read-only mapping of an existing file, exposing the full
    /// region. Opening the file and mapping it is the caller's part; from
    /// here on the bytes are fixed.
    pub fn open(map: memmapix::Mmap) -> (r: Self)
        ensures
            r.wf(),
            r@ == ro_bytes(map),
    {
        let len = ro_len(&map);
        proof {
            assert(ro_bytes(map).take(ro_bytes(map).len() as int) =~= ro_bytes(map));
        }
        Mmap { map: std::sync::Arc::new(map), len }
    }

    /// The full `[0, len)` view; the bytes never change.
    pub fn as_bytes(&self) -> (r: &[u8])
        requires
            self.wf(),
        ensures
            r@ == self@,
    {
        proof {
            assert(ro_bytes(*self.map).subrange(0, self.len as int) =~= self@);
        }
        ro_slice(&*self.map, 0, self.len)
    }
}

impl Clone for Mmap {
    /// A clone shares the one mapping: it sees exactly the same bytes.
    fn clone(&self) -> (r: Self)
        ensures
            r == *self,
    {
        Mmap { map: shared_ro_clone(&self.map), len: self.len }
    }
}

} // verus!
