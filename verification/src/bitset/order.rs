//! The ordering of bit sets: blocks are compared from the least significant
//! one (block 0) upwards, a missing block counting as zero; the first block
//! that differs decides.
use super::{first_difference, BitSet, BitSetMut};
use crate::bits::block_at;
use core::cmp::Ordering;
use vstd::prelude::*;
use vstd::std_specs::cmp::PartialOrdSpecImpl;

verus! {

/// `s` without its first block (empty when `s` is).
pub open spec fn rest(s: Seq<u64>) -> Seq<u64> {
    if s.len() > 0 {
        s.drop_first()
    } else {
        s
    }
}

/// How the bit set with blocks `a` compares with the one with blocks `b`.
pub open spec fn block_order(a: Seq<u64>, b: Seq<u64>) -> Ordering
    decreases a.len() + b.len(),
{
    if a.len() == 0 && b.len() == 0 {
        Ordering::Equal
    } else if block_at(a, 0) < block_at(b, 0) {
        Ordering::Less
    } else if block_at(b, 0) < block_at(a, 0) {
        Ordering::Greater
    } else {
        block_order(rest(a), rest(b))
    }
}

/// Two block sequences compare equal exactly when they agree block by block,
/// missing blocks counting as zero.
pub proof fn lemma_order_equal(a: Seq<u64>, b: Seq<u64>)
    ensures
        (block_order(a, b) == Ordering::Equal) == (forall|i: int|
            0 <= i ==> #[trigger] block_at(a, i) == block_at(b, i)),
    decreases a.len() + b.len(),
{
    if a.len() == 0 && b.len() == 0 {
    } else {
        lemma_order_equal(rest(a), rest(b));
        assert forall|i: int| 0 <= i implies #[trigger] block_at(rest(a), i) == block_at(a, i + 1)
            by {}
        assert forall|i: int| 0 <= i implies #[trigger] block_at(rest(b), i) == block_at(b, i + 1)
            by {}
        if block_order(a, b) == Ordering::Equal {
            assert forall|i: int| 0 <= i implies #[trigger] block_at(a, i) == block_at(b, i) by {
                if i > 0 {
                    assert(block_at(rest(a), i - 1) == block_at(rest(b), i - 1));
                }
            }
        }
        if forall|i: int| 0 <= i ==> #[trigger] block_at(a, i) == block_at(b, i) {
            assert(block_at(a, 0) == block_at(b, 0));
            assert forall|i: int| 0 <= i implies #[trigger] block_at(rest(a), i) == block_at(
                rest(b),
                i,
            ) by {
                assert(block_at(a, i + 1) == block_at(b, i + 1));
            }
        }
    }
}

/// Every set compares equal to itself.
pub proof fn lemma_order_reflexive(a: Seq<u64>)
    ensures
        block_order(a, a) == Ordering::Equal,
{
    lemma_order_equal(a, a);
}

/// Swapping the operands swaps `Less` and `Greater`.
pub proof fn lemma_order_antisymmetric(a: Seq<u64>, b: Seq<u64>)
    ensures
        (block_order(a, b) == Ordering::Less) == (block_order(b, a) == Ordering::Greater),
        (block_order(a, b) == Ordering::Equal) == (block_order(b, a) == Ordering::Equal),
    decreases a.len() + b.len(),
{
    if a.len() == 0 && b.len() == 0 {
    } else {
        lemma_order_antisymmetric(rest(a), rest(b));
    }
}

/// `Less` is transitive.
pub proof fn lemma_order_transitive(a: Seq<u64>, b: Seq<u64>, c: Seq<u64>)
    requires
        block_order(a, b) == Ordering::Less,
        block_order(b, c) == Ordering::Less,
    ensures
        block_order(a, c) == Ordering::Less,
    decreases a.len() + b.len() + c.len(),
{
    if block_at(a, 0) == block_at(b, 0) && block_at(b, 0) == block_at(c, 0) {
        lemma_order_transitive(rest(a), rest(b), rest(c));
    }
}

/// Equal block sequences compare equal, so `==` agrees with the ordering.
pub proof fn lemma_order_consistent_with_eq(a: Seq<u64>, b: Seq<u64>)
    requires
        a == b,
    ensures
        block_order(a, b) == Ordering::Equal,
{
    lemma_order_reflexive(a);
}

/// When the first blocks that differ are at position `i`, they decide the order.
pub proof fn lemma_order_first_difference(a: Seq<u64>, b: Seq<u64>, i: int)
    requires
        0 <= i,
        forall|k: int| 0 <= k < i ==> #[trigger] block_at(a, k) == block_at(b, k),
        block_at(a, i) != block_at(b, i),
    ensures
        block_order(a, b) == (if block_at(a, i) < block_at(b, i) {
            Ordering::Less
        } else {
            Ordering::Greater
        }),
    decreases i,
{
    if i > 0 {
        assert(block_at(a, 0) == block_at(b, 0));
        assert(a.len() > 0 || b.len() > 0);
        assert forall|k: int| 0 <= k < i - 1 implies #[trigger] block_at(rest(a), k) == block_at(
            rest(b),
            k,
        ) by {
            assert(block_at(rest(a), k) == block_at(a, k + 1));
            assert(block_at(rest(b), k) == block_at(b, k + 1));
        }
        assert(block_at(rest(a), i - 1) == block_at(a, i));
        assert(block_at(rest(b), i - 1) == block_at(b, i));
        lemma_order_first_difference(rest(a), rest(b), i - 1);
    }
}

/// Compares two sequences of blocks, from block 0 upwards.
fn blocks_order(a: &Vec<u64>, b: &Vec<u64>) -> (r: Ordering)
    ensures
        r == block_order(a@, b@),
{
    let i = first_difference(a, b);
    if i < a.len() || i < b.len() {
        let x = if i < a.len() {
            a[i]
        } else {
            0u64
        };
        let y = if i < b.len() {
            b[i]
        } else {
            0u64
        };
        proof {
            lemma_order_first_difference(a@, b@, i + 0);
        }
        if x < y {
            Ordering::Less
        } else {
            Ordering::Greater
        }
    } else {
        proof {
            lemma_order_equal(a@, b@);
        }
        Ordering::Equal
    }
}

impl BitSetMut {
    /// Compares the two sets, from the least significant block upwards.
    pub fn cmp(&self, other: &Self) -> (r: Ordering)
        ensures
            r == block_order(self@, other@),
    {
        blocks_order(&self.bits, &other.bits)
    }
}

impl BitSet {
    /// Compares the two sets, from the least significant block upwards.
    pub fn cmp(&self, other: &Self) -> (r: Ordering)
        ensures
            r == block_order(self@, other@),
    {
        blocks_order(&self.bits, &other.bits)
    }
}

impl PartialOrd for BitSetMut {
    fn partial_cmp(&self, other: &Self) -> (r: Option<Ordering>) {
        Some(blocks_order(&self.bits, &other.bits))
    }
}

impl PartialOrdSpecImpl for BitSetMut {
    open spec fn obeys_partial_cmp_spec() -> bool {
        true
    }

    open spec fn partial_cmp_spec(&self, other: &Self) -> Option<Ordering> {
        Some(block_order(self@, other@))
    }
}

impl PartialOrd for BitSet {
    fn partial_cmp(&self, other: &Self) -> (r: Option<Ordering>) {
        Some(blocks_order(&self.bits, &other.bits))
    }
}

impl PartialOrdSpecImpl for BitSet {
    open spec fn obeys_partial_cmp_spec() -> bool {
        true
    }

    open spec fn partial_cmp_spec(&self, other: &Self) -> Option<Ordering> {
        Some(block_order(self@, other@))
    }
}

} // verus!
