use fulmen::bitset::{BitSet, BitSetMut};
use std::cmp::Ordering;

const LHS: u64 = 0b10000011;
const RHS: u64 = 0b10010001;

fn mut_pair() -> (BitSetMut, BitSetMut) {
    (BitSetMut::from_raw_bits(&[LHS]), BitSetMut::from_raw_bits(&[RHS]))
}

fn frozen_pair() -> (BitSet, BitSet) {
    (BitSet::from_raw_bits(&[LHS]), BitSet::from_raw_bits(&[RHS]))
}

#[test]
fn new() {
    let set = BitSetMut::new();
    assert_eq!(true, set.is_empty());
}

#[test]
fn bitset_from_raw_bits() {
    let set = BitSetMut::from_raw_bits(&[0b01111001, 0b00000001]);
    assert_eq!(false, set.is_empty());
    assert_eq!(true, set.contains(0));
    assert_eq!(true, set.contains(3));
    assert_eq!(true, set.contains(6));
    assert_eq!(false, set.contains(1));
    assert_eq!(true, set.contains(u64::BITS as usize));
    assert_eq!(false, set.contains(u64::BITS as usize + 1));

    let set = BitSet::from_raw_bits(&[0b01111001, 0b00000001]);
    assert_eq!(false, set.is_empty());
    assert_eq!(true, set.contains(0));
    assert_eq!(true, set.contains(3));
    assert_eq!(true, set.contains(6));
    assert_eq!(false, set.contains(1));
    assert_eq!(true, set.contains(u64::BITS as usize));
    assert_eq!(false, set.contains(u64::BITS as usize + 1));
}

#[test]
fn add() {
    let mut set = BitSetMut::from_raw_bits(&[0b00000001]);
    assert_eq!(1, set.block_count());
    set.add(u64::BITS as usize);
    assert_eq!(2, set.block_count());
}

#[test]
fn add_all() {
    let mut set = BitSetMut::new();
    set.add_all(&[u64::BITS as usize, 4, 0]);
    assert_eq!(2, set.block_count());
}

#[test]
fn remove() {
    let mut set = BitSetMut::from_raw_bits(&[0b10000001]);
    assert_eq!(true, set.contains(0));
    set.remove(0);
    assert_eq!(false, set.contains(0));
}

#[test]
fn remove_all() {
    let mut set = BitSetMut::from_raw_bits(&[0b10000001, 0b000000001]);
    assert_eq!(2, set.block_count());
    set.remove_all(&[0, u64::BITS as usize]);
    assert_eq!(1, set.block_count());
    assert_eq!(false, set.contains(0));
    assert_eq!(false, set.contains(u64::BITS as usize));
}

#[test]
fn trim_trailing_zeros() {
    let mut set = BitSetMut::from_raw_bits(&[0b00000001, 0b00000001, 0, 0, 0b00000001]);
    assert_eq!(5, set.block_count());

    set.trim_trailing_zeros();
    assert_eq!(5, set.block_count());

    let block = set.get_block_mut((u64::BITS * 4) as usize).unwrap();
    BitSetMut::unset_bit(block, (u64::BITS * 4) as usize);
    assert_eq!(5, set.block_count());

    set.trim_trailing_zeros();
    assert_eq!(2, set.block_count());
}

#[test]
fn bitset_contains() {
    let set = BitSetMut::from_raw_bits(&[0b10011001, 0b000000001]);
    assert_eq!(false, set.contains(1));
    assert_eq!(true, set.contains(0));
    assert_eq!(true, set.contains(u64::BITS as usize));

    let set = BitSet::from_raw_bits(&[0b10011001, 0b000000001]);
    assert_eq!(false, set.contains(1));
    assert_eq!(true, set.contains(0));
    assert_eq!(true, set.contains(u64::BITS as usize));
}

#[test]
fn bitset_contains_all() {
    let a = BitSetMut::from_raw_bits(&[0b10011001, 0b000000001]);
    let b = BitSetMut::from_raw_bits(&[0b10011000]);
    assert_eq!(true, a.contains_all(&b));

    let a = BitSet::from_raw_bits(&[0b10011001, 0b000000001]);
    let b = BitSet::from_raw_bits(&[0b10011000]);
    assert_eq!(true, a.contains_all(&b));
}

#[test]
fn bitset_bitwise_not() {
    let mut set = BitSetMut::from_raw_bits(&[LHS]);
    set = !set;
    assert_eq!(u64::MAX ^ LHS, set.blocks()[0]);

    let mut set = BitSet::from_raw_bits(&[LHS]);
    set = !set;
    assert_eq!(u64::MAX ^ LHS, set.blocks()[0]);
}

#[test]
fn bitset_bitwise_and() {
    // By value and value
    let (lhs, rhs) = mut_pair();
    let result = lhs & rhs;
    assert_eq!(LHS & RHS, result.blocks()[0]);
    // By value and reference
    let (lhs, rhs) = mut_pair();
    let result = lhs & (&rhs);
    assert_eq!(LHS & RHS, result.blocks()[0]);
    assert_eq!(RHS, rhs.blocks()[0]);
    // By value and mutable reference
    let (lhs, mut rhs) = mut_pair();
    let result = lhs & (&mut rhs);
    assert_eq!(LHS & RHS, result.blocks()[0]);
    assert_eq!(RHS, rhs.blocks()[0]);
    // By references
    let (lhs, rhs) = mut_pair();
    let result = (&lhs) & (&rhs);
    assert_eq!(LHS & RHS, result.blocks()[0]);
    assert_eq!(RHS, rhs.blocks()[0]);
    let (lhs, mut rhs) = mut_pair();
    let result = (&lhs) & (&mut rhs);
    assert_eq!(LHS & RHS, result.blocks()[0]);
    assert_eq!(RHS, rhs.blocks()[0]);
    let (mut lhs, rhs) = mut_pair();
    let result = (&mut lhs) & (&rhs);
    assert_eq!(LHS & RHS, result.blocks()[0]);
    assert_eq!(RHS, rhs.blocks()[0]);
    let (mut lhs, mut rhs) = mut_pair();
    let result = (&mut lhs) & (&mut rhs);
    assert_eq!(LHS & RHS, result.blocks()[0]);
    assert_eq!(RHS, rhs.blocks()[0]);

    // Frozen sets, by references
    let (lhs, rhs) = frozen_pair();
    let result = (&lhs) & (&rhs);
    assert_eq!(LHS & RHS, result.blocks()[0]);
    assert_eq!(RHS, rhs.blocks()[0]);
    let (lhs, mut rhs) = frozen_pair();
    let result = (&lhs) & (&mut rhs);
    assert_eq!(LHS & RHS, result.blocks()[0]);
    assert_eq!(RHS, rhs.blocks()[0]);
    let (mut lhs, rhs) = frozen_pair();
    let result = (&mut lhs) & (&rhs);
    assert_eq!(LHS & RHS, result.blocks()[0]);
    assert_eq!(RHS, rhs.blocks()[0]);
    let (mut lhs, mut rhs) = frozen_pair();
    let result = (&mut lhs) & (&mut rhs);
    assert_eq!(LHS & RHS, result.blocks()[0]);
    assert_eq!(RHS, rhs.blocks()[0]);
}

#[test]
fn bitwise_and_assign() {
    let (mut lhs, rhs) = mut_pair();
    lhs &= rhs;
    assert_eq!(LHS & RHS, lhs.blocks()[0]);
    let (mut lhs, rhs) = mut_pair();
    lhs &= &rhs;
    assert_eq!(LHS & RHS, lhs.blocks()[0]);
    assert_eq!(RHS, rhs.blocks()[0]);
    let (mut lhs, mut rhs) = mut_pair();
    lhs &= &mut rhs;
    assert_eq!(LHS & RHS, lhs.blocks()[0]);
    assert_eq!(RHS, rhs.blocks()[0]);
}

#[test]
fn bitset_bitwise_or() {
    let (lhs, rhs) = mut_pair();
    let result = lhs | rhs;
    assert_eq!(LHS | RHS, result.blocks()[0]);
    let (lhs, rhs) = mut_pair();
    let result = lhs | (&rhs);
    assert_eq!(LHS | RHS, result.blocks()[0]);
    assert_eq!(RHS, rhs.blocks()[0]);
    let (lhs, mut rhs) = mut_pair();
    let result = lhs | (&mut rhs);
    assert_eq!(LHS | RHS, result.blocks()[0]);
    assert_eq!(RHS, rhs.blocks()[0]);
    let (lhs, rhs) = mut_pair();
    let result = (&lhs) | (&rhs);
    assert_eq!(LHS | RHS, result.blocks()[0]);
    assert_eq!(RHS, rhs.blocks()[0]);
    let (lhs, mut rhs) = mut_pair();
    let result = (&lhs) | (&mut rhs);
    assert_eq!(LHS | RHS, result.blocks()[0]);
    assert_eq!(RHS, rhs.blocks()[0]);
    let (mut lhs, rhs) = mut_pair();
    let result = (&mut lhs) | (&rhs);
    assert_eq!(LHS | RHS, result.blocks()[0]);
    assert_eq!(RHS, rhs.blocks()[0]);
    let (mut lhs, mut rhs) = mut_pair();
    let result = (&mut lhs) | (&mut rhs);
    assert_eq!(LHS | RHS, result.blocks()[0]);
    assert_eq!(RHS, rhs.blocks()[0]);

    let (lhs, rhs) = frozen_pair();
    let result = (&lhs) | (&rhs);
    assert_eq!(LHS | RHS, result.blocks()[0]);
    assert_eq!(RHS, rhs.blocks()[0]);
    let (lhs, mut rhs) = frozen_pair();
    let result = (&lhs) | (&mut rhs);
    assert_eq!(LHS | RHS, result.blocks()[0]);
    assert_eq!(RHS, rhs.blocks()[0]);
    let (mut lhs, rhs) = frozen_pair();
    let result = (&mut lhs) | (&rhs);
    assert_eq!(LHS | RHS, result.blocks()[0]);
    assert_eq!(RHS, rhs.blocks()[0]);
    let (mut lhs, mut rhs) = frozen_pair();
    let result = (&mut lhs) | (&mut rhs);
    assert_eq!(LHS | RHS, result.blocks()[0]);
    assert_eq!(RHS, rhs.blocks()[0]);
}

#[test]
fn bitwise_or_assign() {
    let (mut lhs, rhs) = mut_pair();
    lhs |= rhs;
    assert_eq!(LHS | RHS, lhs.blocks()[0]);
    let (mut lhs, rhs) = mut_pair();
    lhs |= &rhs;
    assert_eq!(LHS | RHS, lhs.blocks()[0]);
    assert_eq!(RHS, rhs.blocks()[0]);
    let (mut lhs, mut rhs) = mut_pair();
    lhs |= &mut rhs;
    assert_eq!(LHS | RHS, lhs.blocks()[0]);
    assert_eq!(RHS, rhs.blocks()[0]);
}

#[test]
fn bitset_bitwise_xor() {
    let (lhs, rhs) = mut_pair();
    let result = lhs ^ rhs;
    assert_eq!(LHS ^ RHS, result.blocks()[0]);
    let (lhs, rhs) = mut_pair();
    let result = lhs ^ (&rhs);
    assert_eq!(LHS ^ RHS, result.blocks()[0]);
    assert_eq!(RHS, rhs.blocks()[0]);
    let (lhs, mut rhs) = mut_pair();
    let result = lhs ^ (&mut rhs);
    assert_eq!(LHS ^ RHS, result.blocks()[0]);
    assert_eq!(RHS, rhs.blocks()[0]);
    let (lhs, rhs) = mut_pair();
    let result = (&lhs) ^ (&rhs);
    assert_eq!(LHS ^ RHS, result.blocks()[0]);
    assert_eq!(RHS, rhs.blocks()[0]);
    let (lhs, mut rhs) = mut_pair();
    let result = (&lhs) ^ (&mut rhs);
    assert_eq!(LHS ^ RHS, result.blocks()[0]);
    assert_eq!(RHS, rhs.blocks()[0]);
    let (mut lhs, rhs) = mut_pair();
    let result = (&mut lhs) ^ (&rhs);
    assert_eq!(LHS ^ RHS, result.blocks()[0]);
    assert_eq!(RHS, rhs.blocks()[0]);
    let (mut lhs, mut rhs) = mut_pair();
    let result = (&mut lhs) ^ (&mut rhs);
    assert_eq!(LHS ^ RHS, result.blocks()[0]);
    assert_eq!(RHS, rhs.blocks()[0]);

    let (lhs, rhs) = frozen_pair();
    let result = (&lhs) ^ (&rhs);
    assert_eq!(LHS ^ RHS, result.blocks()[0]);
    assert_eq!(RHS, rhs.blocks()[0]);
    let (lhs, mut rhs) = frozen_pair();
    let result = (&lhs) ^ (&mut rhs);
    assert_eq!(LHS ^ RHS, result.blocks()[0]);
    assert_eq!(RHS, rhs.blocks()[0]);
    let (mut lhs, rhs) = frozen_pair();
    let result = (&mut lhs) ^ (&rhs);
    assert_eq!(LHS ^ RHS, result.blocks()[0]);
    assert_eq!(RHS, rhs.blocks()[0]);
    let (mut lhs, mut rhs) = frozen_pair();
    let result = (&mut lhs) ^ (&mut rhs);
    assert_eq!(LHS ^ RHS, result.blocks()[0]);
    assert_eq!(RHS, rhs.blocks()[0]);
}

#[test]
fn bitwise_xor_assign() {
    let (mut lhs, rhs) = mut_pair();
    lhs ^= rhs;
    assert_eq!(LHS ^ RHS, lhs.blocks()[0]);
    let (mut lhs, rhs) = mut_pair();
    lhs ^= &rhs;
    assert_eq!(LHS ^ RHS, lhs.blocks()[0]);
    assert_eq!(RHS, rhs.blocks()[0]);
    let (mut lhs, mut rhs) = mut_pair();
    lhs ^= &mut rhs;
    assert_eq!(LHS ^ RHS, lhs.blocks()[0]);
    assert_eq!(RHS, rhs.blocks()[0]);
}

#[test]
fn bitset_eq_and_ord_invariants() {
    let a = BitSetMut::from_raw_bits(&[0b00000001]);
    let b = BitSetMut::from_raw_bits(&[0b00000001]);
    let c = BitSetMut::from_raw_bits(&[0b00000010]);
    let d = BitSetMut::from_raw_bits(&[0b00000100]);
    assert!(a == a);
    assert!(a == b && b == a);
    assert!(a <= b && b <= a);
    assert!(a <= c && !(c <= a));
    assert!(a != c);
    assert!(a < c && c < d && a < d);
    assert!(a.cmp(&b) == Ordering::Equal);
    assert!(a < c);
    assert!(a.cmp(&c) == Ordering::Less);

    let a = BitSet::from_raw_bits(&[0b00000001]);
    let b = BitSet::from_raw_bits(&[0b00000001]);
    let c = BitSet::from_raw_bits(&[0b00000010]);
    let d = BitSet::from_raw_bits(&[0b00000100]);
    assert!(a == a);
    assert!(a == b && b == a);
    assert!(a <= b && b <= a);
    assert!(a <= c && !(c <= a));
    assert!(a != c);
    assert!(a < c && c < d && a < d);
    assert!(a.cmp(&b) == Ordering::Equal);
    assert!(a.cmp(&c) == Ordering::Less);
}

#[test]
fn bitset_binary_ops_keep_left_length() {
    // `|` and `^` keep the blocks of the left operand; `&` keeps the shorter length.
    let long = BitSetMut::from_raw_bits(&[0b1, 0b1]);
    let short = BitSetMut::from_raw_bits(&[0b11]);
    let or = (&short) | (&long);
    assert_eq!(&[0b11u64][..], or.blocks());
    let xor = (&long) ^ (&short);
    assert_eq!(&[0b10u64, 0b1][..], xor.blocks());
    let and = (&long) & (&short);
    assert_eq!(&[0b1u64][..], and.blocks());
}

#[test]
fn bitset_freeze_keeps_bits() {
    let mut set = BitSetMut::new();
    set.add(3);
    set.add(130);
    let frozen = BitSet::from(set);
    assert!(frozen.contains(3));
    assert!(frozen.contains(130));
    assert!(!frozen.contains(4));
    assert_eq!(3, frozen.block_count());
}

#[test]
fn bitset_order_pads_with_zeros() {
    // `from_raw_bits` drops trailing zero blocks, so both sets are equal.
    let a = BitSetMut::from_raw_bits(&[0b1]);
    let b = BitSetMut::from_raw_bits(&[0b1, 0]);
    assert!(a == b);
    assert_eq!(1, b.block_count());
    assert_eq!(Ordering::Equal, a.cmp(&b));
    // A set that grew a block and lost its bit again keeps the zero block:
    // it compares equal under the order but not under `==`.
    let mut c = BitSetMut::from_raw_bits(&[0b1]);
    c.add(64);
    let block = c.get_block_mut(64).unwrap();
    BitSetMut::unset_bit(block, 64);
    assert_eq!(2, c.block_count());
    assert!(a != c);
    assert_eq!(Ordering::Equal, a.cmp(&c));
    assert_eq!(Ordering::Less, BitSetMut::from_raw_bits(&[0b1, 0b1]).cmp(&BitSetMut::from_raw_bits(&[0b10])));
}

#[test]
fn bitset_default_is_new() {
    assert!(BitSetMut::default() == BitSetMut::new());
    assert_eq!(0, BitSetMut::default().block_count());
    assert!(BitSet::default().is_empty());
    assert!(BitSet::default() == BitSet::from_raw_bits(&[]));
}
