//! Bit-level facts about `u64` blocks, and the sequence-of-blocks model
//! shared by the bit sets.
use vstd::prelude::*;

verus! {

/// Number of bits held by one block of a bit set.
pub const BLOCK_BITS: usize = 64;

/// Whether bit `j` (counted from the least significant end) is set in `block`.
pub open spec fn bit_of(block: u64, j: int) -> bool {
    0 <= j < 64 && (block >> (j as u64)) & 1u64 == 1u64
}

/// The block at position `i`, or a zero block past the end of `s`.
pub open spec fn block_at(s: Seq<u64>, i: int) -> u64 {
    if 0 <= i < s.len() {
        s[i]
    } else {
        0u64
    }
}

/// Whether the set described by the blocks `s` holds the nth `bit`.
pub open spec fn has_bit(s: Seq<u64>, bit: int) -> bool {
    &&& 0 <= bit
    &&& bit / 64 < s.len()
    &&& bit_of(s[bit / 64], bit % 64)
}

/// `s` with all of its trailing zero blocks removed.
pub open spec fn trimmed(s: Seq<u64>) -> Seq<u64>
    decreases s.len(),
{
    if s.len() > 0 && s.last() == 0u64 {
        trimmed(s.drop_last())
    } else {
        s
    }
}

/// `s` grown with zero blocks, if needed, so that it has at least `n` blocks.
pub open spec fn grown(s: Seq<u64>, n: int) -> Seq<u64> {
    if n <= s.len() {
        s
    } else {
        s + Seq::new((n - s.len()) as nat, |i: int| 0u64)
    }
}

/// The blocks after setting the nth `bit`, growing the sequence when needed.
pub open spec fn with_bit(s: Seq<u64>, bit: int) -> Seq<u64> {
    let idx = bit / 64;
    let g = grown(s, idx + 1);
    g.update(idx, g[idx] | (1u64 << ((bit % 64) as u64)))
}

/// The blocks after clearing the nth `bit`; nothing changes past the last block.
pub open spec fn without_bit(s: Seq<u64>, bit: int) -> Seq<u64> {
    let idx = bit / 64;
    if idx < s.len() {
        s.update(idx, s[idx] & !(1u64 << ((bit % 64) as u64)))
    } else {
        s
    }
}

/// The blocks after setting every bit of `bits`, in order.
pub open spec fn with_bits(s: Seq<u64>, bits: Seq<usize>) -> Seq<u64>
    decreases bits.len(),
{
    if bits.len() == 0 {
        s
    } else {
        with_bit(with_bits(s, bits.drop_last()), bits.last() as int)
    }
}

/// The blocks after clearing every bit of `bits`, in order (without trimming).
pub open spec fn without_bits(s: Seq<u64>, bits: Seq<usize>) -> Seq<u64>
    decreases bits.len(),
{
    if bits.len() == 0 {
        s
    } else {
        without_bit(without_bits(s, bits.drop_last()), bits.last() as int)
    }
}

/// Block-wise `&` over the blocks both operands have; the result has as many
/// blocks as the shorter operand.
pub open spec fn and_blocks(a: Seq<u64>, b: Seq<u64>) -> Seq<u64> {
    Seq::new(if a.len() <= b.len() { a.len() } else { b.len() }, |i: int| a[i] & b[i])
}

/// Block-wise `|`: the blocks of `a`, combined with those of `b` that `a` also has.
pub open spec fn or_blocks(a: Seq<u64>, b: Seq<u64>) -> Seq<u64> {
    Seq::new(a.len(), |i: int| if i < b.len() { a[i] | b[i] } else { a[i] })
}

/// Block-wise `^`: the blocks of `a`, combined with those of `b` that `a` also has.
pub open spec fn xor_blocks(a: Seq<u64>, b: Seq<u64>) -> Seq<u64> {
    Seq::new(a.len(), |i: int| if i < b.len() { a[i] ^ b[i] } else { a[i] })
}

/// Every block of `a` with all of its bits flipped.
pub open spec fn not_blocks(a: Seq<u64>) -> Seq<u64> {
    Seq::new(a.len(), |i: int| !a[i])
}

/// Whether every block of `b` is covered by the matching block of `a`
/// (which then has at least as many blocks).
pub open spec fn covers(a: Seq<u64>, b: Seq<u64>) -> bool {
    &&& b.len() <= a.len()
    &&& forall|i: int| 0 <= i < b.len() ==> #[trigger] (a[i] & b[i]) == b[i]
}

pub proof fn lemma_mask_test(b: u64, j: u64)
    requires
        j < 64,
    ensures
        ((b & (1u64 << j)) == (1u64 << j)) == ((b >> j) & 1u64 == 1u64),
{
    assert(((b & (1u64 << j)) == (1u64 << j)) == ((b >> j) & 1u64 == 1u64)) by (bit_vector)
        requires
            j < 64,
    ;
}

pub proof fn lemma_set_bit(b: u64, i: u64, j: u64)
    requires
        i < 64,
        j < 64,
    ensures
        (((b | (1u64 << i)) >> j) & 1u64 == 1u64) == (i == j || (b >> j) & 1u64 == 1u64),
{
    assert((((b | (1u64 << i)) >> j) & 1u64 == 1u64) == (i == j || (b >> j) & 1u64 == 1u64))
        by (bit_vector)
        requires
            i < 64,
            j < 64,
    ;
}

pub proof fn lemma_clear_bit(b: u64, i: u64, j: u64)
    requires
        i < 64,
        j < 64,
    ensures
        (((b & !(1u64 << i)) >> j) & 1u64 == 1u64) == (i != j && (b >> j) & 1u64 == 1u64),
{
    assert((((b & !(1u64 << i)) >> j) & 1u64 == 1u64) == (i != j && (b >> j) & 1u64 == 1u64))
        by (bit_vector)
        requires
            i < 64,
            j < 64,
    ;
}

pub proof fn lemma_and_bit(a: u64, b: u64, j: u64)
    requires
        j < 64,
    ensures
        (((a & b) >> j) & 1u64 == 1u64) == ((a >> j) & 1u64 == 1u64 && (b >> j) & 1u64 == 1u64),
{
    assert((((a & b) >> j) & 1u64 == 1u64) == ((a >> j) & 1u64 == 1u64 && (b >> j) & 1u64
        == 1u64)) by (bit_vector);
}

pub proof fn lemma_or_bit(a: u64, b: u64, j: u64)
    requires
        j < 64,
    ensures
        (((a | b) >> j) & 1u64 == 1u64) == ((a >> j) & 1u64 == 1u64 || (b >> j) & 1u64 == 1u64),
{
    assert((((a | b) >> j) & 1u64 == 1u64) == ((a >> j) & 1u64 == 1u64 || (b >> j) & 1u64
        == 1u64)) by (bit_vector);
}

pub proof fn lemma_xor_bit(a: u64, b: u64, j: u64)
    requires
        j < 64,
    ensures
        (((a ^ b) >> j) & 1u64 == 1u64) == ((a >> j) & 1u64 == 1u64) != ((b >> j) & 1u64
            == 1u64),
{
    assert((((a ^ b) >> j) & 1u64 == 1u64) == (((a >> j) & 1u64 == 1u64) != ((b >> j) & 1u64
        == 1u64))) by (bit_vector);
}

pub proof fn lemma_not_bit(a: u64, j: u64)
    requires
        j < 64,
    ensures
        (((!a) >> j) & 1u64 == 1u64) == !((a >> j) & 1u64 == 1u64),
{
    assert((((!a) >> j) & 1u64 == 1u64) == !((a >> j) & 1u64 == 1u64)) by (bit_vector)
        requires
            j < 64,
    ;
}

pub proof fn lemma_zero_bit(j: u64)
    requires
        j < 64,
    ensures
        !((0u64 >> j) & 1u64 == 1u64),
{
    assert(!((0u64 >> j) & 1u64 == 1u64)) by (bit_vector);
}

/// A bit set in a covered block is set in the covering block.
pub proof fn lemma_cover_bit(a: u64, b: u64, j: u64)
    requires
        j < 64,
        (a & b) == b,
        (b >> j) & 1u64 == 1u64,
    ensures
        (a >> j) & 1u64 == 1u64,
{
    assert((a >> j) & 1u64 == 1u64) by (bit_vector)
        requires
            j < 64,
            (a & b) == b,
            (b >> j) & 1u64 == 1u64,
    ;
}

/// Trimming only removes zero blocks from the end.
pub proof fn lemma_trimmed_prefix(s: Seq<u64>)
    ensures
        trimmed(s).len() <= s.len(),
        trimmed(s) == s.subrange(0, trimmed(s).len() as int),
        forall|i: int| trimmed(s).len() <= i < s.len() ==> s[i] == 0u64,
        trimmed(s).len() == 0 || trimmed(s).last() != 0u64,
    decreases s.len(),
{
    if s.len() > 0 && s.last() == 0u64 {
        let d = s.drop_last();
        lemma_trimmed_prefix(d);
        assert forall|i: int| trimmed(s).len() <= i < s.len() implies s[i] == 0u64 by {
            if i < d.len() {
                assert(d[i] == s[i]);
            }
        }
        assert(trimmed(s) == s.subrange(0, trimmed(s).len() as int)) by {
            assert(d.subrange(0, trimmed(d).len() as int) =~= s.subrange(0, trimmed(d).len() as int));
        }
    }
}

/// Growing with zero blocks and trimming do not change which bits are set.
pub proof fn lemma_zero_tail_same_bits(s: Seq<u64>, t: Seq<u64>)
    requires
        s.len() <= t.len(),
        s == t.subrange(0, s.len() as int),
        forall|i: int| s.len() <= i < t.len() ==> t[i] == 0u64,
    ensures
        forall|bit: int| has_bit(s, bit) == has_bit(t, bit),
{
    assert forall|bit: int| has_bit(s, bit) == has_bit(t, bit) by {
        if 0 <= bit && s.len() <= bit / 64 < t.len() {
            lemma_zero_bit((bit % 64) as u64);
        }
    }
}

pub proof fn lemma_trimmed_same_bits(s: Seq<u64>)
    ensures
        forall|bit: int| has_bit(trimmed(s), bit) == has_bit(s, bit),
{
    lemma_trimmed_prefix(s);
    lemma_zero_tail_same_bits(trimmed(s), s);
}


/// A block whose bits are all clear is zero.
pub proof fn lemma_no_bit_zero(x: u64)
    requires
        forall|j: int| 0 <= j < 64 ==> !#[trigger] bit_of(x, j),
    ensures
        x == 0,
{
    assert(x == 0) by {
        assert(!bit_of(x, 0));
        assert(!bit_of(x, 1));
        assert(!bit_of(x, 2));
        assert(!bit_of(x, 3));
        assert(!bit_of(x, 4));
        assert(!bit_of(x, 5));
        assert(!bit_of(x, 6));
        assert(!bit_of(x, 7));
        assert(!bit_of(x, 8));
        assert(!bit_of(x, 9));
        assert(!bit_of(x, 10));
        assert(!bit_of(x, 11));
        assert(!bit_of(x, 12));
        assert(!bit_of(x, 13));
        assert(!bit_of(x, 14));
        assert(!bit_of(x, 15));
        assert(!bit_of(x, 16));
        assert(!bit_of(x, 17));
        assert(!bit_of(x, 18));
        assert(!bit_of(x, 19));
        assert(!bit_of(x, 20));
        assert(!bit_of(x, 21));
        assert(!bit_of(x, 22));
        assert(!bit_of(x, 23));
        assert(!bit_of(x, 24));
        assert(!bit_of(x, 25));
        assert(!bit_of(x, 26));
        assert(!bit_of(x, 27));
        assert(!bit_of(x, 28));
        assert(!bit_of(x, 29));
        assert(!bit_of(x, 30));
        assert(!bit_of(x, 31));
        assert(!bit_of(x, 32));
        assert(!bit_of(x, 33));
        assert(!bit_of(x, 34));
        assert(!bit_of(x, 35));
        assert(!bit_of(x, 36));
        assert(!bit_of(x, 37));
        assert(!bit_of(x, 38));
        assert(!bit_of(x, 39));
        assert(!bit_of(x, 40));
        assert(!bit_of(x, 41));
        assert(!bit_of(x, 42));
        assert(!bit_of(x, 43));
        assert(!bit_of(x, 44));
        assert(!bit_of(x, 45));
        assert(!bit_of(x, 46));
        assert(!bit_of(x, 47));
        assert(!bit_of(x, 48));
        assert(!bit_of(x, 49));
        assert(!bit_of(x, 50));
        assert(!bit_of(x, 51));
        assert(!bit_of(x, 52));
        assert(!bit_of(x, 53));
        assert(!bit_of(x, 54));
        assert(!bit_of(x, 55));
        assert(!bit_of(x, 56));
        assert(!bit_of(x, 57));
        assert(!bit_of(x, 58));
        assert(!bit_of(x, 59));
        assert(!bit_of(x, 60));
        assert(!bit_of(x, 61));
        assert(!bit_of(x, 62));
        assert(!bit_of(x, 63));
        assert(x == 0) by (bit_vector)
            requires
            (x >> 0u64) & 1u64 != 1u64,
            (x >> 1u64) & 1u64 != 1u64,
            (x >> 2u64) & 1u64 != 1u64,
            (x >> 3u64) & 1u64 != 1u64,
            (x >> 4u64) & 1u64 != 1u64,
            (x >> 5u64) & 1u64 != 1u64,
            (x >> 6u64) & 1u64 != 1u64,
            (x >> 7u64) & 1u64 != 1u64,
            (x >> 8u64) & 1u64 != 1u64,
            (x >> 9u64) & 1u64 != 1u64,
            (x >> 10u64) & 1u64 != 1u64,
            (x >> 11u64) & 1u64 != 1u64,
            (x >> 12u64) & 1u64 != 1u64,
            (x >> 13u64) & 1u64 != 1u64,
            (x >> 14u64) & 1u64 != 1u64,
            (x >> 15u64) & 1u64 != 1u64,
            (x >> 16u64) & 1u64 != 1u64,
            (x >> 17u64) & 1u64 != 1u64,
            (x >> 18u64) & 1u64 != 1u64,
            (x >> 19u64) & 1u64 != 1u64,
            (x >> 20u64) & 1u64 != 1u64,
            (x >> 21u64) & 1u64 != 1u64,
            (x >> 22u64) & 1u64 != 1u64,
            (x >> 23u64) & 1u64 != 1u64,
            (x >> 24u64) & 1u64 != 1u64,
            (x >> 25u64) & 1u64 != 1u64,
            (x >> 26u64) & 1u64 != 1u64,
            (x >> 27u64) & 1u64 != 1u64,
            (x >> 28u64) & 1u64 != 1u64,
            (x >> 29u64) & 1u64 != 1u64,
            (x >> 30u64) & 1u64 != 1u64,
            (x >> 31u64) & 1u64 != 1u64,
            (x >> 32u64) & 1u64 != 1u64,
            (x >> 33u64) & 1u64 != 1u64,
            (x >> 34u64) & 1u64 != 1u64,
            (x >> 35u64) & 1u64 != 1u64,
            (x >> 36u64) & 1u64 != 1u64,
            (x >> 37u64) & 1u64 != 1u64,
            (x >> 38u64) & 1u64 != 1u64,
            (x >> 39u64) & 1u64 != 1u64,
            (x >> 40u64) & 1u64 != 1u64,
            (x >> 41u64) & 1u64 != 1u64,
            (x >> 42u64) & 1u64 != 1u64,
            (x >> 43u64) & 1u64 != 1u64,
            (x >> 44u64) & 1u64 != 1u64,
            (x >> 45u64) & 1u64 != 1u64,
            (x >> 46u64) & 1u64 != 1u64,
            (x >> 47u64) & 1u64 != 1u64,
            (x >> 48u64) & 1u64 != 1u64,
            (x >> 49u64) & 1u64 != 1u64,
            (x >> 50u64) & 1u64 != 1u64,
            (x >> 51u64) & 1u64 != 1u64,
            (x >> 52u64) & 1u64 != 1u64,
            (x >> 53u64) & 1u64 != 1u64,
            (x >> 54u64) & 1u64 != 1u64,
            (x >> 55u64) & 1u64 != 1u64,
            (x >> 56u64) & 1u64 != 1u64,
            (x >> 57u64) & 1u64 != 1u64,
            (x >> 58u64) & 1u64 != 1u64,
            (x >> 59u64) & 1u64 != 1u64,
            (x >> 60u64) & 1u64 != 1u64,
            (x >> 61u64) & 1u64 != 1u64,
            (x >> 62u64) & 1u64 != 1u64,
            (x >> 63u64) & 1u64 != 1u64,
        ;
    }
}

/// A block whose set bits are all set in `a` is covered by `a`.
pub proof fn lemma_bits_covered(a: u64, b: u64)
    requires
        forall|j: int| 0 <= j < 64 ==> #[trigger] bit_of(b, j) ==> bit_of(a, j),
    ensures
        (a & b) == b,
{
    assert((a & b) == b) by {
        assert(bit_of(b, 0) ==> bit_of(a, 0));
        assert(bit_of(b, 1) ==> bit_of(a, 1));
        assert(bit_of(b, 2) ==> bit_of(a, 2));
        assert(bit_of(b, 3) ==> bit_of(a, 3));
        assert(bit_of(b, 4) ==> bit_of(a, 4));
        assert(bit_of(b, 5) ==> bit_of(a, 5));
        assert(bit_of(b, 6) ==> bit_of(a, 6));
        assert(bit_of(b, 7) ==> bit_of(a, 7));
        assert(bit_of(b, 8) ==> bit_of(a, 8));
        assert(bit_of(b, 9) ==> bit_of(a, 9));
        assert(bit_of(b, 10) ==> bit_of(a, 10));
        assert(bit_of(b, 11) ==> bit_of(a, 11));
        assert(bit_of(b, 12) ==> bit_of(a, 12));
        assert(bit_of(b, 13) ==> bit_of(a, 13));
        assert(bit_of(b, 14) ==> bit_of(a, 14));
        assert(bit_of(b, 15) ==> bit_of(a, 15));
        assert(bit_of(b, 16) ==> bit_of(a, 16));
        assert(bit_of(b, 17) ==> bit_of(a, 17));
        assert(bit_of(b, 18) ==> bit_of(a, 18));
        assert(bit_of(b, 19) ==> bit_of(a, 19));
        assert(bit_of(b, 20) ==> bit_of(a, 20));
        assert(bit_of(b, 21) ==> bit_of(a, 21));
        assert(bit_of(b, 22) ==> bit_of(a, 22));
        assert(bit_of(b, 23) ==> bit_of(a, 23));
        assert(bit_of(b, 24) ==> bit_of(a, 24));
        assert(bit_of(b, 25) ==> bit_of(a, 25));
        assert(bit_of(b, 26) ==> bit_of(a, 26));
        assert(bit_of(b, 27) ==> bit_of(a, 27));
        assert(bit_of(b, 28) ==> bit_of(a, 28));
        assert(bit_of(b, 29) ==> bit_of(a, 29));
        assert(bit_of(b, 30) ==> bit_of(a, 30));
        assert(bit_of(b, 31) ==> bit_of(a, 31));
        assert(bit_of(b, 32) ==> bit_of(a, 32));
        assert(bit_of(b, 33) ==> bit_of(a, 33));
        assert(bit_of(b, 34) ==> bit_of(a, 34));
        assert(bit_of(b, 35) ==> bit_of(a, 35));
        assert(bit_of(b, 36) ==> bit_of(a, 36));
        assert(bit_of(b, 37) ==> bit_of(a, 37));
        assert(bit_of(b, 38) ==> bit_of(a, 38));
        assert(bit_of(b, 39) ==> bit_of(a, 39));
        assert(bit_of(b, 40) ==> bit_of(a, 40));
        assert(bit_of(b, 41) ==> bit_of(a, 41));
        assert(bit_of(b, 42) ==> bit_of(a, 42));
        assert(bit_of(b, 43) ==> bit_of(a, 43));
        assert(bit_of(b, 44) ==> bit_of(a, 44));
        assert(bit_of(b, 45) ==> bit_of(a, 45));
        assert(bit_of(b, 46) ==> bit_of(a, 46));
        assert(bit_of(b, 47) ==> bit_of(a, 47));
        assert(bit_of(b, 48) ==> bit_of(a, 48));
        assert(bit_of(b, 49) ==> bit_of(a, 49));
        assert(bit_of(b, 50) ==> bit_of(a, 50));
        assert(bit_of(b, 51) ==> bit_of(a, 51));
        assert(bit_of(b, 52) ==> bit_of(a, 52));
        assert(bit_of(b, 53) ==> bit_of(a, 53));
        assert(bit_of(b, 54) ==> bit_of(a, 54));
        assert(bit_of(b, 55) ==> bit_of(a, 55));
        assert(bit_of(b, 56) ==> bit_of(a, 56));
        assert(bit_of(b, 57) ==> bit_of(a, 57));
        assert(bit_of(b, 58) ==> bit_of(a, 58));
        assert(bit_of(b, 59) ==> bit_of(a, 59));
        assert(bit_of(b, 60) ==> bit_of(a, 60));
        assert(bit_of(b, 61) ==> bit_of(a, 61));
        assert(bit_of(b, 62) ==> bit_of(a, 62));
        assert(bit_of(b, 63) ==> bit_of(a, 63));
        assert((a & b) == b) by (bit_vector)
            requires
            ((b >> 0u64) & 1u64 == 1u64 ==> (a >> 0u64) & 1u64 == 1u64),
            ((b >> 1u64) & 1u64 == 1u64 ==> (a >> 1u64) & 1u64 == 1u64),
            ((b >> 2u64) & 1u64 == 1u64 ==> (a >> 2u64) & 1u64 == 1u64),
            ((b >> 3u64) & 1u64 == 1u64 ==> (a >> 3u64) & 1u64 == 1u64),
            ((b >> 4u64) & 1u64 == 1u64 ==> (a >> 4u64) & 1u64 == 1u64),
            ((b >> 5u64) & 1u64 == 1u64 ==> (a >> 5u64) & 1u64 == 1u64),
            ((b >> 6u64) & 1u64 == 1u64 ==> (a >> 6u64) & 1u64 == 1u64),
            ((b >> 7u64) & 1u64 == 1u64 ==> (a >> 7u64) & 1u64 == 1u64),
            ((b >> 8u64) & 1u64 == 1u64 ==> (a >> 8u64) & 1u64 == 1u64),
            ((b >> 9u64) & 1u64 == 1u64 ==> (a >> 9u64) & 1u64 == 1u64),
            ((b >> 10u64) & 1u64 == 1u64 ==> (a >> 10u64) & 1u64 == 1u64),
            ((b >> 11u64) & 1u64 == 1u64 ==> (a >> 11u64) & 1u64 == 1u64),
            ((b >> 12u64) & 1u64 == 1u64 ==> (a >> 12u64) & 1u64 == 1u64),
            ((b >> 13u64) & 1u64 == 1u64 ==> (a >> 13u64) & 1u64 == 1u64),
            ((b >> 14u64) & 1u64 == 1u64 ==> (a >> 14u64) & 1u64 == 1u64),
            ((b >> 15u64) & 1u64 == 1u64 ==> (a >> 15u64) & 1u64 == 1u64),
            ((b >> 16u64) & 1u64 == 1u64 ==> (a >> 16u64) & 1u64 == 1u64),
            ((b >> 17u64) & 1u64 == 1u64 ==> (a >> 17u64) & 1u64 == 1u64),
            ((b >> 18u64) & 1u64 == 1u64 ==> (a >> 18u64) & 1u64 == 1u64),
            ((b >> 19u64) & 1u64 == 1u64 ==> (a >> 19u64) & 1u64 == 1u64),
            ((b >> 20u64) & 1u64 == 1u64 ==> (a >> 20u64) & 1u64 == 1u64),
            ((b >> 21u64) & 1u64 == 1u64 ==> (a >> 21u64) & 1u64 == 1u64),
            ((b >> 22u64) & 1u64 == 1u64 ==> (a >> 22u64) & 1u64 == 1u64),
            ((b >> 23u64) & 1u64 == 1u64 ==> (a >> 23u64) & 1u64 == 1u64),
            ((b >> 24u64) & 1u64 == 1u64 ==> (a >> 24u64) & 1u64 == 1u64),
            ((b >> 25u64) & 1u64 == 1u64 ==> (a >> 25u64) & 1u64 == 1u64),
            ((b >> 26u64) & 1u64 == 1u64 ==> (a >> 26u64) & 1u64 == 1u64),
            ((b >> 27u64) & 1u64 == 1u64 ==> (a >> 27u64) & 1u64 == 1u64),
            ((b >> 28u64) & 1u64 == 1u64 ==> (a >> 28u64) & 1u64 == 1u64),
            ((b >> 29u64) & 1u64 == 1u64 ==> (a >> 29u64) & 1u64 == 1u64),
            ((b >> 30u64) & 1u64 == 1u64 ==> (a >> 30u64) & 1u64 == 1u64),
            ((b >> 31u64) & 1u64 == 1u64 ==> (a >> 31u64) & 1u64 == 1u64),
            ((b >> 32u64) & 1u64 == 1u64 ==> (a >> 32u64) & 1u64 == 1u64),
            ((b >> 33u64) & 1u64 == 1u64 ==> (a >> 33u64) & 1u64 == 1u64),
            ((b >> 34u64) & 1u64 == 1u64 ==> (a >> 34u64) & 1u64 == 1u64),
            ((b >> 35u64) & 1u64 == 1u64 ==> (a >> 35u64) & 1u64 == 1u64),
            ((b >> 36u64) & 1u64 == 1u64 ==> (a >> 36u64) & 1u64 == 1u64),
            ((b >> 37u64) & 1u64 == 1u64 ==> (a >> 37u64) & 1u64 == 1u64),
            ((b >> 38u64) & 1u64 == 1u64 ==> (a >> 38u64) & 1u64 == 1u64),
            ((b >> 39u64) & 1u64 == 1u64 ==> (a >> 39u64) & 1u64 == 1u64),
            ((b >> 40u64) & 1u64 == 1u64 ==> (a >> 40u64) & 1u64 == 1u64),
            ((b >> 41u64) & 1u64 == 1u64 ==> (a >> 41u64) & 1u64 == 1u64),
            ((b >> 42u64) & 1u64 == 1u64 ==> (a >> 42u64) & 1u64 == 1u64),
            ((b >> 43u64) & 1u64 == 1u64 ==> (a >> 43u64) & 1u64 == 1u64),
            ((b >> 44u64) & 1u64 == 1u64 ==> (a >> 44u64) & 1u64 == 1u64),
            ((b >> 45u64) & 1u64 == 1u64 ==> (a >> 45u64) & 1u64 == 1u64),
            ((b >> 46u64) & 1u64 == 1u64 ==> (a >> 46u64) & 1u64 == 1u64),
            ((b >> 47u64) & 1u64 == 1u64 ==> (a >> 47u64) & 1u64 == 1u64),
            ((b >> 48u64) & 1u64 == 1u64 ==> (a >> 48u64) & 1u64 == 1u64),
            ((b >> 49u64) & 1u64 == 1u64 ==> (a >> 49u64) & 1u64 == 1u64),
            ((b >> 50u64) & 1u64 == 1u64 ==> (a >> 50u64) & 1u64 == 1u64),
            ((b >> 51u64) & 1u64 == 1u64 ==> (a >> 51u64) & 1u64 == 1u64),
            ((b >> 52u64) & 1u64 == 1u64 ==> (a >> 52u64) & 1u64 == 1u64),
            ((b >> 53u64) & 1u64 == 1u64 ==> (a >> 53u64) & 1u64 == 1u64),
            ((b >> 54u64) & 1u64 == 1u64 ==> (a >> 54u64) & 1u64 == 1u64),
            ((b >> 55u64) & 1u64 == 1u64 ==> (a >> 55u64) & 1u64 == 1u64),
            ((b >> 56u64) & 1u64 == 1u64 ==> (a >> 56u64) & 1u64 == 1u64),
            ((b >> 57u64) & 1u64 == 1u64 ==> (a >> 57u64) & 1u64 == 1u64),
            ((b >> 58u64) & 1u64 == 1u64 ==> (a >> 58u64) & 1u64 == 1u64),
            ((b >> 59u64) & 1u64 == 1u64 ==> (a >> 59u64) & 1u64 == 1u64),
            ((b >> 60u64) & 1u64 == 1u64 ==> (a >> 60u64) & 1u64 == 1u64),
            ((b >> 61u64) & 1u64 == 1u64 ==> (a >> 61u64) & 1u64 == 1u64),
            ((b >> 62u64) & 1u64 == 1u64 ==> (a >> 62u64) & 1u64 == 1u64),
            ((b >> 63u64) & 1u64 == 1u64 ==> (a >> 63u64) & 1u64 == 1u64),
        ;
    }
}

/// Every block covers itself.
pub proof fn lemma_self_cover(a: u64)
    ensures
        (a & a) == a,
{
    assert((a & a) == a) by (bit_vector);
}

} // verus!
