//! Growable sets of small unsigned integers, stored as blocks of 64 bits.
//!
//! `BitSetMut` can grow and shrink; `BitSet` is its frozen counterpart.
//! Both are described by their sequence of blocks (`@`): bit `n` is in the set
//! when block `n / 64` exists and has its bit `n % 64` set.
use crate::bits::{
    and_blocks, block_at, covers, grown, has_bit, lemma_clear_bit, lemma_mask_test, lemma_set_bit,
    lemma_and_bit, lemma_cover_bit, lemma_not_bit, lemma_or_bit, lemma_xor_bit,
    lemma_trimmed_same_bits, lemma_zero_tail_same_bits, not_blocks, or_blocks, trimmed, with_bit,
    with_bits, without_bit, without_bits, xor_blocks, BLOCK_BITS, bit_of, lemma_bits_covered,
    lemma_no_bit_zero, lemma_self_cover, lemma_trimmed_prefix,
};
use vstd::prelude::*;
use vstd::std_specs::cmp::PartialEqSpecImpl;
use vstd::std_specs::convert::FromSpecImpl;

pub mod ops;
pub mod order;

verus! {

// region: Block helpers shared by both set types

/// Whether the nth `bit` is set in `bits`.
pub(crate) fn blocks_contain(bits: &Vec<u64>, bit: usize) -> (r: bool)
    ensures
        r == has_bit(bits@, bit as int),
{
    let idx = bit / BLOCK_BITS;
    if idx < bits.len() {
        let sh = (bit % BLOCK_BITS) as u64;
        let mask = 1u64 << sh;
        proof {
            lemma_mask_test(bits@[idx as int], sh);
        }
        (bits[idx] & mask) == mask
    } else {
        false
    }
}

/// Whether every block of `b` is covered by the matching block of `a`.
pub(crate) fn blocks_cover(a: &Vec<u64>, b: &Vec<u64>) -> (r: bool)
    ensures
        r == covers(a@, b@),
{
    if b.len() > a.len() {
        return false;
    }
    let mut i: usize = 0;
    while i < b.len()
        invariant
            b@.len() <= a@.len(),
            i <= b@.len(),
            forall|k: int| 0 <= k < i ==> #[trigger] (a@[k] & b@[k]) == b@[k],
        decreases b@.len() - i,
    {
        if (a[i] & b[i]) != b[i] {
            return false;
        }
        i = i + 1;
    }
    true
}

/// Whether `a` and `b` hold exactly the same blocks.
pub(crate) fn blocks_equal(a: &Vec<u64>, b: &Vec<u64>) -> (r: bool)
    ensures
        r == (a@ == b@),
{
    if a.len() != b.len() {
        return false;
    }
    let mut i: usize = 0;
    while i < a.len()
        invariant
            a@.len() == b@.len(),
            i <= a@.len(),
            forall|k: int| 0 <= k < i ==> a@[k] == b@[k],
        decreases a@.len() - i,
    {
        if a[i] != b[i] {
            return false;
        }
        i = i + 1;
    }
    assert(a@ =~= b@);
    true
}

/// The first position where the two sequences of blocks differ (missing
/// blocks counting as zero), or the length of the longer one when none does.
pub(crate) fn first_difference(a: &Vec<u64>, b: &Vec<u64>) -> (r: usize)
    ensures
        forall|k: int| 0 <= k < r ==> #[trigger] block_at(a@, k) == block_at(b@, k),
        (r < a@.len() || r < b@.len()) ==> block_at(a@, r as int) != block_at(b@, r as int),
        (r >= a@.len() && r >= b@.len()) ==> forall|k: int|
            0 <= k ==> #[trigger] block_at(a@, k) == block_at(b@, k),
{
    let max_len = if a.len() >= b.len() {
        a.len()
    } else {
        b.len()
    };
    let mut i: usize = 0;
    while i < max_len
        invariant
            max_len == a@.len() || max_len == b@.len(),
            a@.len() <= max_len,
            b@.len() <= max_len,
            i <= max_len,
            forall|k: int| 0 <= k < i ==> #[trigger] block_at(a@, k) == block_at(b@, k),
        decreases max_len - i,
    {
        let x = if i < a.len() {
            a[i]
        } else {
            0u64
        };
        let y = if i < b.len() {
            b[i]
        } else {
            0u64
        };
        if x != y {
            return i;
        }
        i = i + 1;
    }
    assert forall|k: int| 0 <= k implies #[trigger] block_at(a@, k) == block_at(b@, k) by {
        if k >= i {
            assert(block_at(a@, k) == 0u64);
            assert(block_at(b@, k) == 0u64);
        }
    }
    i
}

/// A copy of the blocks.
pub(crate) fn copy_blocks(bits: &Vec<u64>) -> (r: Vec<u64>)
    ensures
        r@ == bits@,
{
    let mut r: Vec<u64> = Vec::with_capacity(bits.len());
    let mut i: usize = 0;
    while i < bits.len()
        invariant
            i <= bits@.len(),
            r@ == bits@.subrange(0, i as int),
        decreases bits@.len() - i,
    {
        r.push(bits[i]);
        i = i + 1;
    }
    assert(r@ =~= bits@);
    r
}

/// Removes the trailing zero blocks.
pub(crate) fn trim_blocks(bits: &mut Vec<u64>)
    ensures
        final(bits)@ == trimmed(old(bits)@),
{
    while bits.len() > 0 && bits[bits.len() - 1] == 0
        invariant
            trimmed(bits@) == trimmed(old(bits)@),
        decreases bits@.len(),
    {
        let ghost before = bits@;
        let _ = bits.pop();
        assert(bits@ =~= before.drop_last());
    }
}

/// `bits &= other`, truncated to the blocks both have.
pub(crate) fn and_blocks_in_place(bits: &mut Vec<u64>, other: &Vec<u64>)
    ensures
        final(bits)@ == and_blocks(old(bits)@, other@),
{
    let common = if bits.len() <= other.len() {
        bits.len()
    } else {
        other.len()
    };
    let mut i: usize = 0;
    while i < common
        invariant
            common <= bits@.len(),
            common <= other@.len(),
            common == old(bits)@.len() || common == other@.len(),
            common <= old(bits)@.len(),
            bits@.len() == old(bits)@.len(),
            i <= common,
            forall|k: int| 0 <= k < i ==> bits@[k] == old(bits)@[k] & other@[k],
            forall|k: int| i <= k < bits@.len() ==> bits@[k] == old(bits)@[k],
        decreases common - i,
    {
        let v = bits[i] & other[i];
        bits.set(i, v);
        i = i + 1;
    }
    bits.truncate(common);
    assert(bits@ =~= and_blocks(old(bits)@, other@));
}

/// `bits |= other` over the blocks `bits` already has.
pub(crate) fn or_blocks_in_place(bits: &mut Vec<u64>, other: &Vec<u64>)
    ensures
        final(bits)@ == or_blocks(old(bits)@, other@),
{
    let common = if bits.len() <= other.len() {
        bits.len()
    } else {
        other.len()
    };
    let mut i: usize = 0;
    while i < common
        invariant
            common <= bits@.len(),
            common <= other@.len(),
            common == bits@.len() || common == other@.len(),
            bits@.len() == old(bits)@.len(),
            i <= common,
            forall|k: int| 0 <= k < i ==> bits@[k] == old(bits)@[k] | other@[k],
            forall|k: int| i <= k < bits@.len() ==> bits@[k] == old(bits)@[k],
        decreases common - i,
    {
        let v = bits[i] | other[i];
        bits.set(i, v);
        i = i + 1;
    }
    assert(bits@ =~= or_blocks(old(bits)@, other@));
}

/// `bits ^= other` over the blocks `bits` already has.
pub(crate) fn xor_blocks_in_place(bits: &mut Vec<u64>, other: &Vec<u64>)
    ensures
        final(bits)@ == xor_blocks(old(bits)@, other@),
{
    let common = if bits.len() <= other.len() {
        bits.len()
    } else {
        other.len()
    };
    let mut i: usize = 0;
    while i < common
        invariant
            common <= bits@.len(),
            common <= other@.len(),
            common == bits@.len() || common == other@.len(),
            bits@.len() == old(bits)@.len(),
            i <= common,
            forall|k: int| 0 <= k < i ==> bits@[k] == old(bits)@[k] ^ other@[k],
            forall|k: int| i <= k < bits@.len() ==> bits@[k] == old(bits)@[k],
        decreases common - i,
    {
        let v = bits[i] ^ other[i];
        bits.set(i, v);
        i = i + 1;
    }
    assert(bits@ =~= xor_blocks(old(bits)@, other@));
}

/// Flips every bit of every block.
pub(crate) fn not_blocks_in_place(bits: &mut Vec<u64>)
    ensures
        final(bits)@ == not_blocks(old(bits)@),
{
    let mut i: usize = 0;
    while i < bits.len()
        invariant
            bits@.len() == old(bits)@.len(),
            i <= bits@.len(),
            forall|k: int| 0 <= k < i ==> bits@[k] == !old(bits)@[k],
            forall|k: int| i <= k < bits@.len() ==> bits@[k] == old(bits)@[k],
        decreases bits@.len() - i,
    {
        let v = !bits[i];
        bits.set(i, v);
        i = i + 1;
    }
    assert(bits@ =~= not_blocks(old(bits)@));
}

// endregion

/// A growable set of bits.
#[derive(Clone, Debug)]
pub struct BitSetMut {
    pub(crate) bits: Vec<u64>,
}

/// A set of bits that is no longer modified in place.
#[derive(Clone, Debug)]
pub struct BitSet {
    pub(crate) bits: Vec<u64>,
}

impl View for BitSetMut {
    type V = Seq<u64>;

    closed spec fn view(&self) -> Seq<u64> {
        self.bits@
    }
}

impl View for BitSet {
    type V = Seq<u64>;

    closed spec fn view(&self) -> Seq<u64> {
        self.bits@
    }
}

impl BitSetMut {
    /// Whether the nth `bit` is in the set.
    pub open spec fn holds(&self, bit: int) -> bool {
        has_bit(self@, bit)
    }

    /// Creates a new, empty `BitSetMut`.
    pub fn new() -> (r: Self)
        ensures
            r@ == Seq::<u64>::empty(),
    {
        BitSetMut { bits: Vec::new() }
    }

    /// Creates a new `BitSetMut` from raw blocks, dropping the trailing zero blocks.
    pub fn from_raw_bits(bits: &[u64]) -> (r: Self)
        ensures
            r@ == trimmed(bits@),
    {
        let mut set = BitSetMut { bits: vstd::slice::slice_to_vec(bits) };
        set.trim_trailing_zeros();
        set
    }

    /// Returns `true` if the set has no blocks.
    pub fn is_empty(&self) -> (r: bool)
        ensures
            r == (self@.len() == 0),
    {
        self.bits.len() == 0
    }

    /// The number of blocks in the set.
    pub fn block_count(&self) -> (r: usize)
        ensures
            r == self@.len(),
    {
        self.bits.len()
    }

    /// The raw blocks of the set.
    pub fn blocks(&self) -> (r: &[u64])
        ensures
            r@ == self@,
    {
        self.bits.as_slice()
    }

    /// Returns the block holding the nth `bit`, if the set has it.
    fn get_block(&self, bit: usize) -> (r: Option<&u64>)
        ensures
            (bit / 64) < self@.len() ==> r == Some(&self@[(bit / 64) as int]),
            (bit / 64) >= self@.len() ==> r is None,
    {
        let idx = bit / BLOCK_BITS;
        if idx < self.bits.len() {
            Some(&self.bits[idx])
        } else {
            None
        }
    }

    /// Checks whether or not the set contains the nth `bit`.
    pub fn contains(&self, bit: usize) -> (r: bool)
        ensures
            r == self.holds(bit as int),
    {
        blocks_contain(&self.bits, bit)
    }

    /// Checks whether every block of `other` is covered by this set's blocks
    /// (`self & other == other`).
    pub fn contains_all(&self, other: &Self) -> (r: bool)
        ensures
            r == covers(self@, other@),
    {
        blocks_cover(&self.bits, &other.bits)
    }

    /// Sets, in `block`, the bit that the nth `bit` has inside its block.
    pub fn set_bit(block: &mut u64, bit: usize)
        ensures
            *final(block) == *old(block) | (1u64 << ((bit % 64) as u64)),
    {
        let sh = (bit % BLOCK_BITS) as u64;
        *block = *block | (1u64 << sh);
    }

    /// Clears, in `block`, the bit that the nth `bit` has inside its block.
    pub fn unset_bit(block: &mut u64, bit: usize)
        ensures
            *final(block) == *old(block) & !(1u64 << ((bit % 64) as u64)),
    {
        let sh = (bit % BLOCK_BITS) as u64;
        *block = *block & !(1u64 << sh);
    }

    /// Returns a mutable reference to the block holding the nth `bit`, if the set has it.
    pub fn get_block_mut(&mut self, bit: usize) -> (r: Option<&mut u64>)
        ensures
            (bit / 64) < old(self)@.len() ==> (r matches Some(b) && *b == old(self)@[(bit / 64) as int]
                && final(self)@ == old(self)@.update((bit / 64) as int, *final(b))),
            (bit / 64) >= old(self)@.len() ==> r is None && final(self)@ == old(self)@,
    {
        let idx = bit / BLOCK_BITS;
        if idx < self.bits.len() {
            Some(&mut self.bits[idx])
        } else {
            None
        }
    }

    /// Returns a mutable reference to the block holding the nth `bit`, first
    /// adding zero blocks up to it when the set is too short.
    fn get_or_insert_block(&mut self, bit: usize) -> (r: &mut u64)
        ensures
            *r == grown(old(self)@, bit / 64 + 1)[(bit / 64) as int],
            final(self)@ == grown(old(self)@, bit / 64 + 1).update((bit / 64) as int, *final(r)),
    {
        let idx = bit / BLOCK_BITS;
        if idx >= self.bits.len() {
            while self.bits.len() <= idx
                invariant
                    idx < usize::MAX,
                    old(self)@.len() <= self@.len() <= idx + 1,
                    self@ == old(self)@ + Seq::new(
                        (self@.len() - old(self)@.len()) as nat,
                        |i: int| 0u64,
                    ),
                decreases idx + 1 - self@.len(),
            {
                self.bits.push(0u64);
            }
        }
        assert(self@ =~= grown(old(self)@, bit / 64 + 1));
        &mut self.bits[idx]
    }

    /// Adds the nth `bit` to the set.
    pub fn add(&mut self, bit: usize)
        ensures
            final(self)@ == with_bit(old(self)@, bit as int),
            forall|b: int| final(self).holds(b) == (b == bit || old(self).holds(b)),
    {
        let block = self.get_or_insert_block(bit);
        Self::set_bit(block, bit);
        proof {
            lemma_with_bit_bits(old(self)@, bit as int);
            assert(self@ == with_bit(old(self)@, bit as int));
            assert forall|b: int| self.holds(b) == (b == bit || old(self).holds(b)) by {
                assert(has_bit(with_bit(old(self)@, bit as int), b) == (b == bit || has_bit(old(self)@, b)));
            }
        }
    }

    /// Adds several nth `bits` to the set.
    pub fn add_all(&mut self, bits: &[usize])
        ensures
            final(self)@ == with_bits(old(self)@, bits@),
            forall|b: int| final(self).holds(b) == (old(self).holds(b) || exists|k: int| 0 <= k < bits@.len() && bits@[k] == b),
    {
        let mut i: usize = 0;
        while i < bits.len()
            invariant
                i <= bits@.len(),
                self@ == with_bits(old(self)@, bits@.subrange(0, i as int)),
                forall|b: int| self.holds(b) == (old(self).holds(b) || exists|k: int| 0 <= k < i && bits@[k] == b),
            decreases bits@.len() - i,
        {
            let ghost before = self@;
            self.add(bits[i]);
            proof {
                let p = bits@.subrange(0, i as int + 1);
                assert(p.drop_last() =~= bits@.subrange(0, i as int));
                assert forall|b: int| self.holds(b) == (old(self).holds(b) || exists|k: int| 0 <= k < i + 1 && bits@[k] == b) by {
                    if b == bits@[i as int] {
                        assert(bits@[i as int] == b);
                    }
                    if exists|k: int| 0 <= k < i + 1 && bits@[k] == b {
                        let k = choose|k: int| 0 <= k < i + 1 && bits@[k] == b;
                        if k < i {
                        }
                    }
                }
            }
            i = i + 1;
        }
        assert(bits@.subrange(0, bits@.len() as int) =~= bits@);
    }

    /// Removes the nth `bit` from the set, dropping the trailing zero blocks if
    /// the set had a block for it.
    pub fn remove(&mut self, bit: usize)
        ensures
            (bit / 64) < old(self)@.len() ==> final(self)@ == trimmed(without_bit(old(self)@, bit as int)),
            (bit / 64) >= old(self)@.len() ==> final(self)@ == old(self)@,
            forall|b: int| final(self).holds(b) == (b != bit && old(self).holds(b)),
    {
        proof {
            lemma_without_bit_bits(old(self)@, bit as int);
        }
        let idx = bit / BLOCK_BITS;
        if idx < self.bits.len() {
            let sh = (bit % BLOCK_BITS) as u64;
            let v = self.bits[idx] & !(1u64 << sh);
            self.bits.set(idx, v);
            assert(self@ == without_bit(old(self)@, bit as int));
            self.trim_trailing_zeros();
            proof {
                let w = without_bit(old(self)@, bit as int);
                lemma_trimmed_same_bits(w);
                assert forall|b: int| self.holds(b) == (b != bit && old(self).holds(b)) by {
                    assert(has_bit(w, b) == (b != bit && has_bit(old(self)@, b)));
                    assert(has_bit(trimmed(w), b) == has_bit(w, b));
                }
            }
        } else {
            assert forall|b: int| self.holds(b) == (b != bit && old(self).holds(b)) by {
                assert(has_bit(without_bit(old(self)@, bit as int), b) == (b != bit && has_bit(old(self)@, b)));
            }
        }
    }

    /// Removes several nth `bits` from the set, then drops the trailing zero blocks.
    pub fn remove_all(&mut self, bits: &[usize])
        ensures
            final(self)@ == trimmed(without_bits(old(self)@, bits@)),
            forall|b: int| final(self).holds(b) == (old(self).holds(b) && forall|k: int| 0 <= k < bits@.len() ==> bits@[k] != b),
    {
        let mut i: usize = 0;
        while i < bits.len()
            invariant
                i <= bits@.len(),
                self@ == without_bits(old(self)@, bits@.subrange(0, i as int)),
                forall|b: int| self.holds(b) == (old(self).holds(b) && forall|k: int| 0 <= k < i ==> bits@[k] != b),
            decreases bits@.len() - i,
        {
            let bit = bits[i];
            proof {
                lemma_without_bit_bits(self@, bit as int);
                let p = bits@.subrange(0, i as int + 1);
                assert(p.drop_last() =~= bits@.subrange(0, i as int));
            }
            let idx = bit / BLOCK_BITS;
            let ghost before = self@;
            if idx < self.bits.len() {
                let sh = (bit % BLOCK_BITS) as u64;
                let v = self.bits[idx] & !(1u64 << sh);
                self.bits.set(idx, v);
            }
            assert(self@ == without_bit(before, bit as int));
            assert forall|b: int| self.holds(b) == (old(self).holds(b) && forall|k: int| 0 <= k < i + 1 ==> bits@[k] != b) by {
                assert(has_bit(without_bit(before, bit as int), b) == (b != bit && has_bit(before, b)));
                if b != bit && has_bit(before, b) {
                    assert(has_bit(before, b) == (old(self).holds(b) && forall|k: int| 0 <= k < i ==> bits@[k] != b));
                    assert forall|k: int| 0 <= k < i + 1 implies bits@[k] != b by {
                        if k == i {
                            assert(bits@[k] == bit);
                        }
                    }
                }
                if !(b != bit) {
                    assert(bits@[i as int] == b);
                }
            }
            i = i + 1;
        }
        assert(bits@.subrange(0, bits@.len() as int) =~= bits@);
        let ghost cleared = self@;
        self.trim_trailing_zeros();
        proof {
            lemma_trimmed_same_bits(cleared);
        }
    }

    /// Drops the trailing blocks of the set that hold no bits.
    pub fn trim_trailing_zeros(&mut self)
        ensures
            final(self)@ == trimmed(old(self)@),
            forall|b: int| final(self).holds(b) == old(self).holds(b),
    {
        trim_blocks(&mut self.bits);
        proof {
            lemma_trimmed_same_bits(old(self)@);
        }
    }
}

impl BitSet {
    /// Whether the nth `bit` is in the set.
    pub open spec fn holds(&self, bit: int) -> bool {
        has_bit(self@, bit)
    }

    /// Creates a new `BitSet` from raw blocks, dropping the trailing zero blocks.
    pub fn from_raw_bits(bits: &[u64]) -> (r: Self)
        ensures
            r@ == trimmed(bits@),
    {
        BitSet::from(BitSetMut::from_raw_bits(bits))
    }

    /// Returns `true` if the set has no blocks.
    pub fn is_empty(&self) -> (r: bool)
        ensures
            r == (self@.len() == 0),
    {
        self.bits.len() == 0
    }

    /// The number of blocks in the set.
    pub fn block_count(&self) -> (r: usize)
        ensures
            r == self@.len(),
    {
        self.bits.len()
    }

    /// The raw blocks of the set.
    pub fn blocks(&self) -> (r: &[u64])
        ensures
            r@ == self@,
    {
        self.bits.as_slice()
    }

    /// Checks whether or not the set contains the nth `bit`.
    pub fn contains(&self, bit: usize) -> (r: bool)
        ensures
            r == self.holds(bit as int),
    {
        blocks_contain(&self.bits, bit)
    }

    /// Checks whether every block of `other` is covered by this set's blocks
    /// (`self & other == other`).
    pub fn contains_all(&self, other: &Self) -> (r: bool)
        ensures
            r == covers(self@, other@),
    {
        blocks_cover(&self.bits, &other.bits)
    }
}

/// Freezes a `BitSetMut`, keeping its blocks as they are.
impl Default for BitSetMut {
    /// The empty set, with no blocks.
    fn default() -> (r: Self)
        ensures
            r@ == Seq::<u64>::empty(),
    {
        BitSetMut { bits: Vec::new() }
    }
}

impl Default for BitSet {
    /// The empty set, with no blocks.
    fn default() -> (r: Self)
        ensures
            r@ == Seq::<u64>::empty(),
    {
        BitSet { bits: Vec::new() }
    }
}

impl From<BitSetMut> for BitSet {
    fn from(set: BitSetMut) -> (r: BitSet)
        ensures
            r@ == set@,
    {
        BitSet { bits: set.bits }
    }
}

impl FromSpecImpl<BitSetMut> for BitSet {
    open spec fn obeys_from_spec() -> bool {
        false
    }

    open spec fn from_spec(v: BitSetMut) -> BitSet {
        arbitrary()
    }
}

/// Two sets are equal when they hold the very same blocks.
impl PartialEq for BitSetMut {
    fn eq(&self, other: &Self) -> (r: bool) {
        blocks_equal(&self.bits, &other.bits)
    }
}

impl PartialEqSpecImpl for BitSetMut {
    open spec fn obeys_eq_spec() -> bool {
        true
    }

    open spec fn eq_spec(&self, other: &Self) -> bool {
        self@ == other@
    }
}

impl Eq for BitSetMut {
}

/// Two sets are equal when they hold the very same blocks.
impl PartialEq for BitSet {
    fn eq(&self, other: &Self) -> (r: bool) {
        blocks_equal(&self.bits, &other.bits)
    }
}

impl PartialEqSpecImpl for BitSet {
    open spec fn obeys_eq_spec() -> bool {
        true
    }

    open spec fn eq_spec(&self, other: &Self) -> bool {
        self@ == other@
    }
}

impl Eq for BitSet {
}

/// Setting a bit adds exactly that bit.
pub proof fn lemma_with_bit_bits(s: Seq<u64>, bit: int)
    requires
        0 <= bit,
    ensures
        forall|b: int| #[trigger] has_bit(with_bit(s, bit), b) == (b == bit || has_bit(s, b)),
{
    let idx = bit / 64;
    let g = grown(s, idx + 1);
    let w = with_bit(s, bit);
    assert(g.len() >= s.len());
    assert(g.subrange(0, s.len() as int) =~= s);
    lemma_zero_tail_same_bits(s, g);
    assert forall|b: int| has_bit(w, b) == (b == bit || has_bit(s, b)) by {
        if 0 <= b {
            let bi = b / 64;
            if bi == idx {
                lemma_set_bit(g[idx], (bit % 64) as u64, (b % 64) as u64);
                assert(w[bi] == g[idx] | (1u64 << ((bit % 64) as u64)));
                assert((b % 64 == bit % 64) == (b == bit));
            } else {
                assert(w.len() == g.len());
                if bi < g.len() {
                    assert(w[bi] == g[bi]);
                }
                assert(has_bit(w, b) == has_bit(g, b));
            }
        }
    }
}

/// Clearing a bit removes exactly that bit.
pub proof fn lemma_without_bit_bits(s: Seq<u64>, bit: int)
    requires
        0 <= bit,
    ensures
        forall|b: int| #[trigger] has_bit(without_bit(s, bit), b) == (b != bit && has_bit(s, b)),
{
    let idx = bit / 64;
    let w = without_bit(s, bit);
    assert forall|b: int| has_bit(w, b) == (b != bit && has_bit(s, b)) by {
        if 0 <= b && idx < s.len() {
            let bi = b / 64;
            if bi == idx {
                lemma_clear_bit(s[idx], (bit % 64) as u64, (b % 64) as u64);
                assert(w[bi] == s[idx] & !(1u64 << ((bit % 64) as u64)));
                assert((b % 64 == bit % 64) == (b == bit));
            } else {
                if bi < s.len() {
                    assert(w[bi] == s[bi]);
                }
            }
        }
        if idx >= s.len() && b == bit {
            assert(!has_bit(s, b));
        }
    }
}

/// `&` holds the bits held by both operands.
pub proof fn lemma_and_holds_common_bits(a: Seq<u64>, b: Seq<u64>)
    ensures
        forall|x: int| #[trigger] has_bit(and_blocks(a, b), x) == (has_bit(a, x) && has_bit(b, x)),
{
    assert forall|x: int| #[trigger] has_bit(and_blocks(a, b), x) == (has_bit(a, x) && has_bit(b, x)) by {
        if 0 <= x && x / 64 < and_blocks(a, b).len() {
            lemma_and_bit(a[x / 64], b[x / 64], (x % 64) as u64);
        }
    }
}

/// `|` holds the bits of the left operand, and those of the right operand that
/// fall in a block the left operand has.
pub proof fn lemma_or_holds_bits(a: Seq<u64>, b: Seq<u64>)
    ensures
        forall|x: int| #[trigger] has_bit(or_blocks(a, b), x) == (has_bit(a, x) || (has_bit(b, x)
            && x / 64 < a.len())),
{
    assert forall|x: int| #[trigger] has_bit(or_blocks(a, b), x) == (has_bit(a, x) || (has_bit(
        b,
        x,
    ) && x / 64 < a.len())) by {
        if 0 <= x && x / 64 < a.len() && x / 64 < b.len() {
            lemma_or_bit(a[x / 64], b[x / 64], (x % 64) as u64);
        }
    }
}

/// `^` holds, within the blocks of the left operand, the bits held by exactly one operand.
pub proof fn lemma_xor_holds_bits(a: Seq<u64>, b: Seq<u64>)
    ensures
        forall|x: int| #[trigger] has_bit(xor_blocks(a, b), x) == (x / 64 < a.len() && (has_bit(
            a,
            x,
        ) != has_bit(b, x))),
{
    assert forall|x: int| #[trigger] has_bit(xor_blocks(a, b), x) == (x / 64 < a.len() && (
    has_bit(a, x) != has_bit(b, x))) by {
        if 0 <= x && x / 64 < a.len() && x / 64 < b.len() {
            lemma_xor_bit(a[x / 64], b[x / 64], (x % 64) as u64);
        }
    }
}

/// `!` holds, within the blocks of the set, exactly the bits the set does not hold.
pub proof fn lemma_not_holds_other_bits(a: Seq<u64>)
    ensures
        forall|x: int| #[trigger] has_bit(not_blocks(a), x) == (0 <= x && x / 64 < a.len()
            && !has_bit(a, x)),
{
    assert forall|x: int| #[trigger] has_bit(not_blocks(a), x) == (0 <= x && x / 64 < a.len()
        && !has_bit(a, x)) by {
        if 0 <= x && x / 64 < a.len() {
            lemma_not_bit(a[x / 64], (x % 64) as u64);
        }
    }
}

/// When `contains_all` holds, every bit of the other set is in this one.
pub proof fn lemma_covers_holds_bits(a: Seq<u64>, b: Seq<u64>)
    requires
        covers(a, b),
    ensures
        forall|x: int| #[trigger] has_bit(b, x) ==> has_bit(a, x),
{
    assert forall|x: int| #[trigger] has_bit(b, x) implies has_bit(a, x) by {
        let i = x / 64;
        assert((a[i] & b[i]) == b[i]);
        lemma_cover_bit(a[i], b[i], (x % 64) as u64);
    }
}


/// Bit `j` of block `i` is the nth bit `i * 64 + j`.
proof fn lemma_bit_position(i: int, j: int)
    requires
        0 <= i,
        0 <= j < 64,
    ensures
        (i * 64 + j) / 64 == i,
        (i * 64 + j) % 64 == j,
        0 <= i * 64 + j,
{
    assert(0 <= i * 64) by (nonlinear_arith)
        requires
            0 <= i,
    ;
    vstd::arithmetic::div_mod::lemma_fundamental_div_mod_converse(i * 64 + j, 64, i, j);
}

/// Every set contains all of itself: `contains_all` of a set with itself is true.
pub proof fn lemma_covers_reflexive(a: Seq<u64>)
    ensures
        covers(a, a),
{
    assert forall|i: int| 0 <= i < a.len() implies #[trigger] (a[i] & a[i]) == a[i] by {
        lemma_self_cover(a[i]);
    }
}

/// `contains_all` is bit inclusion: for a set `b` without trailing zero
/// blocks, `a` covers `b` exactly when every bit of `b` is a bit of `a`.
pub proof fn lemma_covers_is_inclusion(a: Seq<u64>, b: Seq<u64>)
    requires
        trimmed(b) == b,
    ensures
        covers(a, b) <==> (forall|x: int| #[trigger] has_bit(b, x) ==> has_bit(a, x)),
{
    if covers(a, b) {
        lemma_covers_holds_bits(a, b);
    }
    if forall|x: int| #[trigger] has_bit(b, x) ==> has_bit(a, x) {
        if b.len() > a.len() {
            lemma_trimmed_prefix(b);
            let last = b.len() - 1;
            assert(b.last() != 0u64);
            if forall|j: int| 0 <= j < 64 ==> !#[trigger] bit_of(b[last], j) {
                lemma_no_bit_zero(b[last]);
            }
            let j = choose|j: int| 0 <= j < 64 && #[trigger] bit_of(b[last], j);
            lemma_bit_position(last, j);
            assert(has_bit(b, last * 64 + j));
            assert(has_bit(a, last * 64 + j));
            assert(false);
        }
        assert forall|i: int| 0 <= i < b.len() implies #[trigger] (a[i] & b[i]) == b[i] by {
            assert forall|j: int| 0 <= j < 64 implies #[trigger] bit_of(b[i], j) ==> bit_of(a[i], j) by {
                lemma_bit_position(i, j);
                if bit_of(b[i], j) {
                    assert(has_bit(b, i * 64 + j));
                    assert(has_bit(a, i * 64 + j));
                }
            }
            lemma_bits_covered(a[i], b[i]);
        }
    }
}

} // verus!
