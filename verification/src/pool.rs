//! USB device address pool.
//!
//! A bus hands out device addresses `1..=127`. The pool keeps a cursor
//! (`next_id`) and a 128-bit in-use bitmap; allocation probes from the
//! cursor up to 127 and then wraps around from 1, so a freshly released
//! address is not immediately reused.

use vstd::prelude::*;

verus! {

/// Allocator for USB device addresses `1..=127`.
///
/// Address 0 is reserved for enumeration through endpoint zero and is
/// never returned.
pub struct AddressPool {
    next_id: u8,
    used_ids: [u8; 16],
}

impl AddressPool {
    /// The probe cursor: the next address that will be tried first.
    pub closed spec fn next_id(self) -> u8 {
        self.next_id
    }

    /// Whether address `id` is currently marked in use in the bitmap.
    pub closed spec fn is_used(self, id: u8) -> bool {
        id < 128 && (self.used_ids[(id / 8) as int] >> (id % 8)) & 1 == 1
    }

    /// Structural invariant: the cursor stays inside the probe range.
    pub closed spec fn wf(self) -> bool {
        1 <= self.next_id <= 128
    }

    /// Every assignable address is in use.
    pub open spec fn pool_full(self) -> bool {
        forall|id: u8| 1 <= id <= 127 ==> self.is_used(id)
    }

    /// Relation between a pool before and after a successful allocation of
    /// address `a`: the address is fresh, in range, marked, the cursor
    /// advances past it, nothing else changes, and every address probed
    /// before `a` (in cursor order, wrapping at 127) was already in use.
    pub open spec fn alloc_granted(pre: AddressPool, post: AddressPool, a: u8) -> bool {
        &&& 1 <= a <= 127
        &&& !pre.is_used(a)
        &&& post.is_used(a)
        &&& forall|id: u8| id != a ==> post.is_used(id) == pre.is_used(id)
        &&& post.next_id() == a + 1
        &&& if a >= pre.next_id() {
            forall|id: u8| pre.next_id() <= id < a ==> pre.is_used(id)
        } else {
            &&& forall|id: u8| pre.next_id() <= id <= 127 ==> pre.is_used(id)
            &&& forall|id: u8| 1 <= id < a ==> pre.is_used(id)
        }
    }

    /// A fresh pool: cursor at 1, no address in use.
    pub fn new() -> (r: AddressPool)
        ensures
            r.wf(),
            r.next_id() == 1,
            forall|id: u8| !r.is_used(id),
    {
        let r = AddressPool { next_id: 1, used_ids: [0u8; 16] };
        proof {
            assert forall|id: u8| !r.is_used(id) by {
                if id < 128 {
                    assert((0u8 >> (id % 8)) & 1 == 0) by (bit_vector);
                }
            }
        }
        r
    }

    /// Allocate the first free address at or after the cursor, wrapping
    /// around to 1; `None` exactly when all 127 addresses are in use.
    pub fn allocate(&mut self) -> (r: Option<u8>)
        requires
            old(self).wf(),
        ensures
            final(self).wf(),
            match r {
                Some(a) => Self::alloc_granted(*old(self), *final(self), a),
                None => *final(self) == *old(self) && old(self).pool_full(),
            },
    {
        let start: u8 = self.next_id;
        let mut i: u8 = start;
        while i <= 127
            invariant
                old(self).wf(),
                start == old(self).next_id,
                start <= i <= 128,
                *self == *old(self),
                forall|id: u8| start <= id < i ==> old(self).is_used(id),
            decreases 128 - i,
        {
            if self.try_claim(i) {
                proof {
                    assert(Self::alloc_granted(*old(self), *self, i));
                }
                return Some(i);
            }
            i = i + 1;
        }
        let mut j: u8 = 1;
        while j < start
            invariant
                start == old(self).next_id,
                old(self).wf(),
                1 <= j <= start,
                *self == *old(self),
                forall|id: u8| start <= id <= 127 ==> old(self).is_used(id),
                forall|id: u8| 1 <= id < j ==> old(self).is_used(id),
            decreases start - j,
        {
            if self.try_claim(j) {
                return Some(j);
            }
            j = j + 1;
        }
        proof {
            assert forall|id: u8| 1 <= id <= 127 implies self.is_used(id) by {
                if id >= start {
                } else {
                }
            }
        }
        None
    }

    /// Mark `id` used and advance the cursor if its bitmap bit is clear;
    /// report whether the claim succeeded.
    fn try_claim(&mut self, id: u8) -> (r: bool)
        requires
            1 <= id <= 127,
        ensures
            r == !old(self).is_used(id),
            r ==> Self::claim_effect(*old(self), *final(self), id),
            !r ==> *final(self) == *old(self),
    {
        let byte_idx: usize = (id / 8) as usize;
        let mask: u8 = 1u8 << (id % 8);
        let byte: u8 = self.used_ids[byte_idx];
        proof {
            assert((byte & (1u8 << (id % 8)) == 0) == ((byte >> (id % 8)) & 1 == 0))
                by (bit_vector);
            assert(((byte >> (id % 8)) & 1 == 0) || ((byte >> (id % 8)) & 1 == 1))
                by (bit_vector);
        }
        if byte & mask == 0 {
            self.used_ids[byte_idx] = byte | mask;
            self.next_id = id + 1;
            proof {
                lemma_set_bit(byte, id % 8);
                assert forall|o: u8| o != id implies self.is_used(o) == old(self).is_used(o) by {
                    if o < 128 {
                        if o / 8 == id / 8 {
                            assert(o / 8 == id / 8 && o != id ==> o % 8 != id % 8) by (bit_vector);
                        }
                    }
                }
            }
            true
        } else {
            false
        }
    }

    /// Effect of a successful claim: `id` freshly marked, cursor moved to
    /// `id + 1`, all other addresses untouched.
    pub open spec fn claim_effect(pre: AddressPool, post: AddressPool, id: u8) -> bool {
        &&& !pre.is_used(id)
        &&& post.is_used(id)
        &&& forall|o: u8| o != id ==> post.is_used(o) == pre.is_used(o)
        &&& post.next_id() == id + 1
    }

    /// Return `id` to the pool: its bitmap bit is cleared, everything
    /// else (other bits, the cursor) is untouched.
    pub fn release(&mut self, id: u8)
        requires
            id < 128,
        ensures
            !final(self).is_used(id),
            forall|o: u8| o != id ==> final(self).is_used(o) == old(self).is_used(o),
            final(self).next_id() == old(self).next_id(),
    {
        let byte_idx: usize = (id / 8) as usize;
        let byte: u8 = self.used_ids[byte_idx];
        self.used_ids[byte_idx] = byte & !(1u8 << (id % 8));
        proof {
            lemma_clear_bit(byte, id % 8);
            assert forall|o: u8| o != id implies self.is_used(o) == old(self).is_used(o) by {
                if o < 128 {
                    if o / 8 == id / 8 {
                        assert(o / 8 == id / 8 && o != id ==> o % 8 != id % 8) by (bit_vector);
                    }
                }
            }
        }
    }
}

/// Setting bit `j` of a byte sets that bit and leaves every other bit as
/// it was.
proof fn lemma_set_bit(b: u8, j: u8)
    requires
        j < 8,
    ensures
        ((b | (1u8 << j)) >> j) & 1 == 1,
        forall|k: u8| k < 8 && k != j ==> ((b | (1u8 << j)) >> k) & 1 == (b >> k) & 1,
{
    assert(((b | (1u8 << j)) >> j) & 1 == 1) by (bit_vector)
        requires j < 8;
    assert(forall|k: u8| k < 8 && k != j ==> ((b | (1u8 << j)) >> k) & 1 == (b >> k) & 1)
        by (bit_vector)
        requires j < 8;
}

/// Clearing bit `j` of a byte clears that bit and leaves every other bit
/// as it was.
proof fn lemma_clear_bit(b: u8, j: u8)
    requires
        j < 8,
    ensures
        ((b & !(1u8 << j)) >> j) & 1 == 0,
        forall|k: u8| k < 8 && k != j ==> ((b & !(1u8 << j)) >> k) & 1 == (b >> k) & 1,
{
    assert(((b & !(1u8 << j)) >> j) & 1 == 0) by (bit_vector)
        requires j < 8;
    assert(forall|k: u8| k < 8 && k != j ==> ((b & !(1u8 << j)) >> k) & 1 == (b >> k) & 1)
        by (bit_vector)
        requires j < 8;
}

/// Every address a successful allocation grants lies in `1..=127`, was
/// free beforehand, and its bitmap bit is set immediately afterwards.
pub proof fn lemma_granted_address_valid(pre: AddressPool, post: AddressPool, a: u8)
    requires
        AddressPool::alloc_granted(pre, post, a),
    ensures
        1 <= a <= 127,
        !pre.is_used(a),
        post.is_used(a),
{
}



/// A grant never clears another address's bit.
pub proof fn lemma_grant_preserves_used(pre: AddressPool, post: AddressPool, a: u8, x: u8)
    requires
        AddressPool::alloc_granted(pre, post, a),
        pre.is_used(x),
    ensures
        post.is_used(x),
{
}

/// A chain of successful allocations: `pools[i]` steps to `pools[i + 1]`
/// granting `addrs[i]`, with no intervening release.
pub open spec fn grant_chain(pools: Seq<AddressPool>, addrs: Seq<u8>) -> bool {
    pools.len() == addrs.len() + 1 && forall|i: int|
        0 <= i < addrs.len() ==> AddressPool::alloc_granted(
            #[trigger] pools[i],
            pools[i + 1],
            addrs[i],
        )
}

/// Along a grant chain, an address once in use stays in use.
proof fn lemma_chain_keeps_used(pools: Seq<AddressPool>, addrs: Seq<u8>, x: u8, from: int, to: int)
    requires
        grant_chain(pools, addrs),
        0 <= from <= to < pools.len(),
        pools[from].is_used(x),
    ensures
        pools[to].is_used(x),
    decreases to - from,
{
    if from < to {
        lemma_grant_preserves_used(pools[from], pools[from + 1], addrs[from], x);
        lemma_chain_keeps_used(pools, addrs, x, from + 1, to);
    }
}

/// Across any sequence of allocations with no release in between, every
/// address is granted at most once: no address is live in two callers
/// simultaneously.
pub proof fn lemma_chain_grants_distinct(pools: Seq<AddressPool>, addrs: Seq<u8>)
    requires
        grant_chain(pools, addrs),
    ensures
        forall|i: int, j: int| 0 <= i < j < addrs.len() ==> addrs[i] != addrs[j],
{
    assert forall|i: int, j: int| 0 <= i < j < addrs.len() implies addrs[i] != addrs[j] by {
        assert(AddressPool::alloc_granted(pools[i], pools[i + 1], addrs[i]));
        assert(AddressPool::alloc_granted(pools[j], pools[j + 1], addrs[j]));
        lemma_chain_keeps_used(pools, addrs, addrs[i], i + 1, j);
    }
}

} // verus!
