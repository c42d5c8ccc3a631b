//! The mathematical model of the bump-allocator write path.
//!
//! A mutable buffer hands out byte ranges by advancing a single cursor: a
//! successful reservation of `n` bytes claims exactly `[cursor, cursor + n)`
//! and moves the cursor to `cursor + n`. This module states that discipline
//! over a sequence of `(offset, length)` claims and proves its two central
//! consequences: distinct claims never overlap, and together they cover the
//! claimed prefix without gaps.

use vstd::prelude::*;

verus! {

/// The number of bytes covered by a sequence of `(offset, length)` claims.
pub open spec fn total_claimed(claims: Seq<(nat, nat)>) -> nat
    decreases claims.len(),
{
    if claims.len() == 0 {
        0
    } else {
        total_claimed(claims.drop_last()) + claims.last().1
    }
}

/// Each claim begins exactly where the previous one ended, the first at
/// `base`: the shape every run of successful reservations against one buffer
/// has, because each reservation returns the cursor and advances it by the
/// reserved length.
pub open spec fn bump_discipline(base: nat, claims: Seq<(nat, nat)>) -> bool {
    forall|i: int|
        0 <= i < claims.len() ==> #[trigger] claims[i].0 == base + total_claimed(
            claims.take(i),
        )
}

/// `s` with the bytes of `b` laid over it starting at `offset`.
pub open spec fn overwrite(s: Seq<u8>, offset: int, b: Seq<u8>) -> Seq<u8> {
    s.subrange(0, offset) + b + s.subrange(offset + b.len(), s.len() as int)
}

/// An overwrite keeps the length, places `b` at `offset`, and leaves every
/// byte outside `[offset, offset + b.len())` as it was.
pub proof fn lemma_overwrite_facts(s: Seq<u8>, offset: int, b: Seq<u8>)
    requires
        0 <= offset,
        offset + b.len() <= s.len(),
    ensures
        overwrite(s, offset, b).len() == s.len(),
        overwrite(s, offset, b).subrange(offset, offset + b.len() as int) == b,
        forall|k: int|
            0 <= k < s.len() && !(offset <= k < offset + b.len()) ==> overwrite(s, offset, b)[k]
                == s[k],
{
    assert(overwrite(s, offset, b).subrange(offset, offset + b.len() as int) =~= b);
}

/// Law: freeze fidelity of a single write — laying `b` over a region at
/// `offset`, wholly inside the prefix later frozen at `cursor`, leaves
/// exactly `b` at `[offset, offset + b.len())` of that prefix. Together with
/// the non-overlap law this is why freezing returns every written byte
/// string unchanged at the offset its writer was given.
pub proof fn lemma_overwrite_in_prefix(s: Seq<u8>, cursor: int, offset: int, b: Seq<u8>)
    requires
        0 <= offset,
        offset + b.len() <= cursor <= s.len(),
    ensures
        overwrite(s, offset, b).take(cursor).subrange(offset, offset + b.len() as int) == b,
{
    lemma_overwrite_facts(s, offset, b);
    assert(overwrite(s, offset, b).take(cursor).subrange(offset, offset + b.len() as int)
        =~= overwrite(s, offset, b).subrange(offset, offset + b.len() as int));
}

/// Appending one claim adds exactly its length to the total.
pub proof fn lemma_total_claimed_take_succ(claims: Seq<(nat, nat)>, i: int)
    requires
        0 <= i < claims.len(),
    ensures
        total_claimed(claims.take(i + 1)) == total_claimed(claims.take(i)) + claims[i].1,
{
    assert(claims.take(i + 1).drop_last() =~= claims.take(i));
    assert(claims.take(i + 1).last() == claims[i]);
}

/// The total over a prefix never shrinks as the prefix grows.
pub proof fn lemma_total_claimed_mono(claims: Seq<(nat, nat)>, i: int, j: int)
    requires
        0 <= i <= j <= claims.len(),
    ensures
        total_claimed(claims.take(i)) <= total_claimed(claims.take(j)),
    decreases j - i,
{
    if i < j {
        lemma_total_claimed_mono(claims, i, j - 1);
        lemma_total_claimed_take_succ(claims, j - 1);
    }
}

/// The bump discipline carries over to every prefix of the claims.
pub proof fn lemma_discipline_prefix(base: nat, claims: Seq<(nat, nat)>, n: int)
    requires
        bump_discipline(base, claims),
        0 <= n <= claims.len(),
    ensures
        bump_discipline(base, claims.take(n)),
{
    assert forall|i: int| 0 <= i < n implies #[trigger] claims.take(n)[i].0 == base
        + total_claimed(claims.take(n).take(i)) by {
        assert(claims.take(n).take(i) =~= claims.take(i));
    }
}

/// Law: under the bump discipline two distinct claims never overlap — the
/// earlier one ends at or before the later one begins. This is why concurrent
/// holders of reserved ranges may fill them without further synchronization.
pub proof fn lemma_claims_non_overlap(base: nat, claims: Seq<(nat, nat)>, i: int, j: int)
    requires
        bump_discipline(base, claims),
        0 <= i < j < claims.len(),
    ensures
        claims[i].0 + claims[i].1 <= claims[j].0,
{
    lemma_total_claimed_take_succ(claims, i);
    lemma_total_claimed_mono(claims, i + 1, j);
}

/// Law: under the bump discipline the claims leave no gap: every position
/// from `base` up to the end of the last claim lies inside some claim.
pub proof fn lemma_claims_cover(base: nat, claims: Seq<(nat, nat)>, pos: nat)
    requires
        bump_discipline(base, claims),
        base <= pos < base + total_claimed(claims),
    ensures
        exists|i: int|
            0 <= i < claims.len() && (#[trigger] claims[i].0) <= pos < claims[i].0 + claims[i].1,
    decreases claims.len(),
{
    let n = claims.len() as int;
    assert(claims.take(n) =~= claims);
    if pos >= base + total_claimed(claims.take(n - 1)) {
        lemma_total_claimed_take_succ(claims, n - 1);
        assert(claims[n - 1].0 <= pos < claims[n - 1].0 + claims[n - 1].1);
    } else {
        lemma_discipline_prefix(base, claims, n - 1);
        lemma_claims_cover(base, claims.take(n - 1), pos);
        let i = choose|i: int|
            0 <= i < claims.take(n - 1).len() && (#[trigger] claims.take(n - 1)[i].0) <= pos
                < claims.take(n - 1)[i].0 + claims.take(n - 1)[i].1;
        assert(claims[i].0 <= pos < claims[i].0 + claims[i].1);
    }
}

} // verus!
