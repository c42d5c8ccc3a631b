//! The read-only, shareable view of a heap buffer.

use vstd::prelude::*;

use crate::memory::buffer::{frozen_as_slice, frozen_bytes, frozen_clone};

verus! {

/// A read-only heap buffer. The bytes can never change after construction,
/// so clones share them and may cross threads freely.
#[derive(Debug)]
pub struct Mmap {
    data: bytes::Bytes,
}

impl View for Mmap {
    type V = Seq<u8>;

    closed spec fn view(&self) -> Seq<u8> {
        frozen_bytes(self.data)
    }
}

impl Mmap {
    /// Wrap an already frozen buffer; its bytes are the whole view.
    pub fn open(bytes: bytes::Bytes) -> (r: Self)
        ensures
            r@ == frozen_bytes(bytes),
    {
        Mmap { data: bytes }
    }

    /// The full `[0, len)` view; the bytes never change.
    pub fn as_bytes(&self) -> (r: &[u8])
        ensures
            r@ == self@,
    {
        frozen_as_slice(&self.data)
    }
}

impl Clone for Mmap {
    /// A clone shares the one buffer: it sees exactly the same bytes.
    fn clone(&self) -> (r: Self)
        ensures
            r@ == self@,
    {
        Mmap { data: frozen_clone(&self.data) }
    }
}

} // verus!
