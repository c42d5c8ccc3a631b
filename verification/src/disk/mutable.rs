//! The mutable, append-only buffer over a writable file mapping.

use vstd::prelude::*;

use crate::bump::{
    bump_discipline, lemma_claims_cover, lemma_claims_non_overlap, overwrite, total_claimed,
};
use crate::disk::mapping::{
    rw_bytes, rw_flush, rw_flush_async, rw_into_ro, rw_len, rw_slice, rw_write_at,
};
use crate::error::Error;

verus! {

/// A writable mapping of a file together with a bump cursor.
///
/// Every successful `write` or `bytes_mut` claims the range
/// `[cursor, cursor + n)` and advances the cursor, so no two claims ever
/// overlap. A reservation that would pass the capacity fails with
/// `Error::EOF` and exhausts the buffer for good: every later reservation
/// fails too, as the fail-fast contract demands.
pub struct MmapMut {
    map: memmapix::MmapMut,
    cursor: usize,
    exhausted: bool,
    cap: usize,
    base: Ghost<nat>,
    claims: Ghost<Seq<(nat, nat)>>,
}

impl MmapMut {
    /// The full backing region, `capacity` bytes.
    pub closed spec fn region(self) -> Seq<u8> {
        rw_bytes(self.map)
    }

    /// The fixed capacity the buffer was mapped with.
    pub closed spec fn spec_capacity(self) -> nat {
        self.cap as nat
    }

    /// The write cursor: how many bytes are claimed.
    pub closed spec fn spec_len(self) -> nat {
        self.cursor as nat
    }

    /// Whether a failed reservation has exhausted the buffer.
    pub closed spec fn spec_exhausted(self) -> bool {
        self.exhausted
    }

    /// The cursor value the buffer started with.
    pub closed spec fn spec_base(self) -> nat {
        self.base@
    }

    /// The `(offset, length)` of every successful reservation, in order.
    pub closed spec fn spec_claims(self) -> Seq<(nat, nat)> {
        self.claims@
    }

    /// The claimed prefix `[0, cursor)` of the region.
    pub open spec fn written(self) -> Seq<u8> {
        self.region().take(self.spec_len() as int)
    }

    /// Well-formed: the capacity is the region's length, the cursor lies
    /// between the base and the capacity, and the recorded claims follow the
    /// bump discipline up to the cursor.
    pub closed spec fn wf(self) -> bool {
        &&& self.cap == rw_bytes(self.map).len()
        &&& self.cursor <= self.cap
        &&& self.base@ <= self.cursor
        &&& bump_discipline(self.base@, self.claims@)
        &&& self.base@ + total_claimed(self.claims@) == self.cursor
    }

    /// What well-formedness gives every caller: the cursor never passes the
    /// capacity, and the region is exactly `capacity` bytes.
    pub proof fn lemma_wf_bounds(self)
        requires
            self.wf(),
        ensures
            self.spec_base() <= self.spec_len() <= self.spec_capacity(),
            self.region().len() == self.spec_capacity(),
    {
    }

    /// Wrap a writable mapping as an append-only buffer. `cursor` is the
    /// number of meaningful bytes already in the file — the file's length
    /// before it was extended to the mapped capacity — and is capped at the
    /// region's length, so a file at or over capacity yields a full buffer.
    pub fn from_map(map: memmapix::MmapMut, cursor: usize) -> (r: Self)
        ensures
            r.wf(),
            r.region() == rw_bytes(map),
            r.spec_capacity() == rw_bytes(map).len(),
            r.spec_len() == if cursor <= rw_bytes(map).len() {
                cursor as nat
            } else {
                rw_bytes(map).len()
            },
            r.spec_base() == r.spec_len(),
            r.spec_claims() == Seq::<(nat, nat)>::empty(),
            !r.spec_exhausted(),
    {
        let cap = rw_len(&map);
        let start = if cursor > cap {
            cap
        } else {
            cursor
        };
        MmapMut {
            map,
            cursor: start,
            exhausted: false,
            cap,
            base: Ghost(start as nat),
            claims: Ghost(Seq::empty()),
        }
    }

    /// The current cursor value; it never decreases across any operation.
    pub fn len(&self) -> (r: usize)
        ensures
            r == self.spec_len(),
    {
        self.cursor
    }

    /// Whether nothing has been claimed yet.
    pub fn is_empty(&self) -> (r: bool)
        ensures
            r == (self.spec_len() == 0),
    {
        self.len() == 0
    }

    /// Append the bytes of `buf`, returning the offset at which they landed.
    ///
    /// Succeeds exactly when the buffer is not exhausted and `buf` fits in
    /// the remaining `capacity - cursor` bytes; then the claimed range is
    /// `[offset, offset + buf.len())` and the cursor moves past it. On
    /// failure nothing is written, `Error::EOF` comes back, and the buffer is
    /// exhausted: every later reservation fails as well.
    pub fn write(&mut self, buf: &[u8]) -> (r: Result<usize, Error>)
        requires
            old(self).wf(),
        ensures
            final(self).wf(),
            final(self).spec_capacity() == old(self).spec_capacity(),
            final(self).spec_base() == old(self).spec_base(),
            final(self).spec_len() >= old(self).spec_len(),
            r is Ok <==> (!old(self).spec_exhausted() && buf@.len() <= old(self).spec_capacity()
                - old(self).spec_len()),
            r matches Ok(offset) ==> {
                &&& offset == old(self).spec_len()
                &&& final(self).spec_len() == old(self).spec_len() + buf@.len()
                &&& final(self).written() == old(self).written() + buf@
                &&& final(self).region() == overwrite(
                    old(self).region(),
                    offset as int,
                    buf@,
                )
                &&& final(self).spec_claims() == old(self).spec_claims().push(
                    (offset as nat, buf@.len()),
                )
                &&& !final(self).spec_exhausted()
            },
            r is Err ==> {
                &&& r matches Err(Error::EOF)
                &&& final(self).spec_len() == old(self).spec_len()
                &&& final(self).region() == old(self).region()
                &&& final(self).spec_claims() == old(self).spec_claims()
                &&& final(self).spec_exhausted()
            },
    {
        let ghost pre = *self;
        let n = buf.len();
        if self.exhausted || n > self.cap - self.cursor {
            self.exhausted = true;
            return Err(Error::EOF);
        }
        let offset = self.cursor;
        rw_write_at(&mut self.map, offset, buf);
        self.cursor = offset + n;
        self.claims = Ghost(pre.claims@.push((offset as nat, n as nat)));
        proof {
            assert(self.written() =~= pre.written() + buf@);
            lemma_push_keeps_discipline(pre.base@, pre.claims@, offset as nat, n as nat);
        }
        Ok(offset)
    }

    /// Reserve `buf_len` bytes without copying anything, returning the offset
    /// of the claimed range `[offset, offset + buf_len)`; the caller fills it
    /// through `write_at`. Reservation and failure behave exactly as in
    /// `write`; the region's bytes are untouched either way.
    pub fn bytes_mut(&mut self, buf_len: usize) -> (r: Result<usize, Error>)
        requires
            old(self).wf(),
        ensures
            final(self).wf(),
            final(self).spec_capacity() == old(self).spec_capacity(),
            final(self).spec_base() == old(self).spec_base(),
            final(self).spec_len() >= old(self).spec_len(),
            final(self).region() == old(self).region(),
            r is Ok <==> (!old(self).spec_exhausted() && buf_len <= old(self).spec_capacity()
                - old(self).spec_len()),
            r matches Ok(offset) ==> {
                &&& offset == old(self).spec_len()
                &&& final(self).spec_len() == old(self).spec_len() + buf_len
                &&& final(self).spec_claims() == old(self).spec_claims().push(
                    (offset as nat, buf_len as nat),
                )
                &&& !final(self).spec_exhausted()
            },
            r is Err ==> {
                &&& r matches Err(Error::EOF)
                &&& final(self).spec_len() == old(self).spec_len()
                &&& final(self).spec_claims() == old(self).spec_claims()
                &&& final(self).spec_exhausted()
            },
    {
        let ghost pre = *self;
        if self.exhausted || buf_len > self.cap - self.cursor {
            self.exhausted = true;
            return Err(Error::EOF);
        }
        let offset = self.cursor;
        self.cursor = offset + buf_len;
        self.claims = Ghost(pre.claims@.push((offset as nat, buf_len as nat)));
        proof {
            lemma_push_keeps_discipline(pre.base@, pre.claims@, offset as nat, buf_len as nat);
        }
        Ok(offset)
    }

    /// Fill `[offset, offset + buf.len())`, a range that must already be
    /// claimed, with the bytes of `buf`. The cursor does not move.
    pub fn write_at(&mut self, offset: usize, buf: &[u8])
        requires
            old(self).wf(),
            offset + buf@.len() <= old(self).spec_len(),
        ensures
            final(self).wf(),
            final(self).region() == overwrite(old(self).region(), offset as int, buf@),
            final(self).spec_len() == old(self).spec_len(),
            final(self).spec_capacity() == old(self).spec_capacity(),
            final(self).spec_base() == old(self).spec_base(),
            final(self).spec_claims() == old(self).spec_claims(),
            final(self).spec_exhausted() == old(self).spec_exhausted(),
    {
        rw_write_at(&mut self.map, offset, buf);
    }

    /// An immutable view of `[start, end)` within the claimed prefix.
    /// Bounds are checked against the cursor, never the capacity, so bytes
    /// past the cursor cannot be observed; an empty range yields an empty
    /// view. A range that passes the cursor, or runs backwards, is a
    /// programming error and is ruled out up front.
    pub fn slice(&self, start: usize, end: usize) -> (r: &[u8])
        requires
            self.wf(),
            start <= end <= self.spec_len(),
        ensures
            r@ == self.written().subrange(start as int, end as int),
            r@.len() == end - start,
    {
        proof {
            assert(self.region().subrange(start as int, end as int) =~= self.written().subrange(
                start as int,
                end as int,
            ));
        }
        rw_slice(&self.map, start, end)
    }

    /// The whole claimed prefix `[0, cursor)`.
    pub fn as_bytes(&self) -> (r: &[u8])
        requires
            self.wf(),
        ensures
            r@ == self.written(),
    {
        proof {
            assert(self.written().subrange(0, self.spec_len() as int) =~= self.written());
        }
        self.slice(0, self.cursor)
    }

    /// Flush the dirty pages to the backing file; any failure comes back as
    /// `Error::Flush`. The buffer's bytes are untouched either way.
    pub fn flush(&self) -> (r: Result<(), Error>)
        ensures
            r matches Err(e) ==> e matches Error::Flush(_),
    {
        match rw_flush(&self.map) {
            Ok(()) => Ok(()),
            Err(e) => Err(Error::Flush(e)),
        }
    }

    /// Start a flush of the dirty pages without waiting for it; any failure
    /// comes back as `Error::Flush`. The buffer's bytes are untouched.
    pub fn flush_async(&self) -> (r: Result<(), Error>)
        ensures
            r matches Err(e) ==> e matches Error::Flush(_),
    {
        match rw_flush_async(&self.map) {
            Ok(()) => Ok(()),
            Err(e) => Err(Error::Flush(e)),
        }
    }

    /// Consume the buffer and freeze it: the region becomes read-only and
    /// the cursor becomes the immutable view's length, so the view holds
    /// exactly the bytes written so far. There is no way back — the mutable
    /// buffer is gone. A remapping failure comes back as `Error::Mmap`.
    pub fn freeze(self) -> (r: Result<super::Mmap, Error>)
        requires
            self.wf(),
        ensures
            r matches Ok(frozen) ==> frozen.wf() && frozen@ == self.written(),
            r matches Err(e) ==> e matches Error::Mmap(_),
    {
        let MmapMut { map, cursor, exhausted: _, cap: _, base: _, claims: _ } = self;
        match rw_into_ro(map) {
            Ok(ro) => Ok(super::Mmap::from_parts(ro, cursor)),
            Err(e) => Err(Error::Mmap(e)),
        }
    }

    /// Law: the base plus the total of all claimed lengths is exactly the
    /// cursor — successful reservations account for every claimed byte.
    pub proof fn lemma_claims_total(self)
        requires
            self.wf(),
        ensures
            self.spec_base() + total_claimed(self.spec_claims()) == self.spec_len(),
    {
    }

    /// Law: no two successful reservations overlap — the earlier range ends
    /// at or before the later one begins.
    pub proof fn lemma_claims_non_overlapping(self, i: int, j: int)
        requires
            self.wf(),
            0 <= i < j < self.spec_claims().len(),
        ensures
            self.spec_claims()[i].0 + self.spec_claims()[i].1 <= self.spec_claims()[j].0,
    {
        lemma_claims_non_overlap(self.base@, self.claims@, i, j);
    }

    /// Law: the successful reservations leave no gap — every position
    /// between the base and the cursor lies inside some claimed range.
    pub proof fn lemma_claims_cover_at(self, pos: nat)
        requires
            self.wf(),
            self.spec_base() <= pos < self.spec_len(),
        ensures
            exists|i: int|
                0 <= i < self.spec_claims().len() && (#[trigger] self.spec_claims()[i].0) <= pos
                    < self.spec_claims()[i].0 + self.spec_claims()[i].1,
    {
        lemma_claims_cover(self.base@, self.claims@, pos);
        let i = choose|i: int|
            0 <= i < self.claims@.len() && (#[trigger] self.claims@[i].0) <= pos < self.claims@[i].0
                + self.claims@[i].1;
        assert(0 <= i < self.spec_claims().len() && self.spec_claims()[i].0 <= pos
            < self.spec_claims()[i].0 + self.spec_claims()[i].1);
    }
}

/// Pushing a claim that begins at the current end keeps the bump discipline
/// and extends the total by its length.
proof fn lemma_push_keeps_discipline(base: nat, claims: Seq<(nat, nat)>, offset: nat, n: nat)
    requires
        bump_discipline(base, claims),
        offset == base + total_claimed(claims),
    ensures
        bump_discipline(base, claims.push((offset, n))),
        total_claimed(claims.push((offset, n))) == total_claimed(claims) + n,
{
    let extended = claims.push((offset, n));
    assert(extended.drop_last() =~= claims);
    assert forall|i: int| 0 <= i < extended.len() implies #[trigger] extended[i].0 == base
        + total_claimed(extended.take(i)) by {
        if i < claims.len() {
            assert(extended.take(i) =~= claims.take(i));
        } else {
            assert(extended.take(i) =~= claims);
        }
    }
}

} // verus!
