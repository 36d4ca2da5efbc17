//! A hasher for keys that already hold a good hash, such as `TypeId`s.
use core::hash::{BuildHasher, Hasher};
use vstd::prelude::*;

verus! {

/// `x` rotated left by one byte.
pub open spec fn rotate_byte(x: u64) -> u64 {
    (x << 8u64) | (x >> 56u64)
}

/// One step of `write`: the state rotated left by a byte, plus `b`, wrapping.
pub open spec fn mix_byte(hash: u64, b: u8) -> u64 {
    ((rotate_byte(hash) + b) % 0x1_0000_0000_0000_0000) as u64
}

/// The state after feeding `bytes` one by one, first to last, into `hash`.
pub open spec fn fold_bytes(hash: u64, bytes: Seq<u8>) -> u64
    decreases bytes.len(),
{
    if bytes.len() == 0 {
        hash
    } else {
        mix_byte(fold_bytes(hash, bytes.drop_last()), bytes.last())
    }
}

/// Writing `a` and then `b` leaves the same state as writing `a` followed by
/// `b` in one call.
pub proof fn lemma_fold_concat(hash: u64, a: Seq<u8>, b: Seq<u8>)
    ensures
        fold_bytes(hash, a + b) == fold_bytes(fold_bytes(hash, a), b),
    decreases b.len(),
{
    if b.len() == 0 {
        assert(a + b == a);
    } else {
        assert((a + b).drop_last() == a + b.drop_last());
        lemma_fold_concat(hash, a, b.drop_last());
    }
}

/// Builds `NoOpHasher`s, for keys that already hold a good hash.
#[derive(Clone, Copy, Debug)]
pub struct NoOpHash;

impl Default for NoOpHash {
    fn default() -> (r: Self) {
        NoOpHash
    }
}

/// A `Hasher` that keeps the `u64` it is given as the hash, without mixing.
#[derive(Debug)]
pub struct NoOpHasher(u64);

impl Default for NoOpHasher {
    fn default() -> (r: Self)
        ensures
            r.state() == 0,
    {
        NoOpHasher(0)
    }
}

impl NoOpHasher {
    /// The hash held so far.
    pub closed spec fn state(&self) -> u64 {
        self.0
    }
}

impl Hasher for NoOpHasher {
    fn finish(&self) -> (r: u64)
        ensures
            r == self.state(),
    {
        self.0
    }

    fn write(&mut self, bytes: &[u8])
        ensures
            final(self).state() == fold_bytes(old(self).state(), bytes@),
    {
        let mut hash: u64 = self.0;
        let mut i: usize = 0;
        while i < bytes.len()
            invariant
                i <= bytes@.len(),
                hash == fold_bytes(old(self).0, bytes@.subrange(0, i as int)),
            decreases bytes@.len() - i,
        {
            let b: u8 = bytes[i];
            let rotated: u64 = (hash << 8u64) | (hash >> 56u64);
            let next: u64 = rotated.wrapping_add(b as u64);
            assert(bytes@.subrange(0, i + 1).drop_last() == bytes@.subrange(0, i as int));
            hash = next;
            i = i + 1;
        }
        assert(bytes@.subrange(0, bytes@.len() as int) == bytes@);
        self.0 = hash;
    }

    fn write_u64(&mut self, i: u64)
        ensures
            final(self).state() == i,
    {
        self.0 = i;
    }
}

impl BuildHasher for NoOpHash {
    type Hasher = NoOpHasher;

    fn build_hasher(&self) -> (r: NoOpHasher)
        ensures
            r.state() == 0,
    {
        NoOpHasher::default()
    }
}

} // verus!
