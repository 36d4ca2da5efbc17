//! The bitwise operators of the bit sets.
//!
//! `&` keeps only the blocks both operands have; `|` and `^` keep the blocks of
//! the left operand, combining the ones the right operand also has.
use crate::bits::{and_blocks, not_blocks, or_blocks, xor_blocks};
use super::{
    and_blocks_in_place, copy_blocks, not_blocks_in_place, or_blocks_in_place,
    xor_blocks_in_place, BitSet, BitSetMut,
};
use core::ops::{BitAnd, BitAndAssign, BitOr, BitOrAssign, BitXor, BitXorAssign, Not};
use vstd::prelude::*;
use vstd::std_specs::ops::{BitAndSpecImpl, BitOrSpecImpl, BitXorSpecImpl, NotSpecImpl};

verus! {

/// The intersection of the blocks of `self` and `rhs` (see [`and_blocks`]).
impl<'a, 'b> BitAnd<&'b BitSetMut> for BitSetMut {
    type Output = BitSetMut;

    fn bitand(self, rhs: &'b BitSetMut) -> (r: BitSetMut)
        ensures
            r@ == and_blocks(self@, rhs@),
    {
        let mut set = self;
        and_blocks_in_place(&mut set.bits, &rhs.bits);
        set
    }
}

impl<'a, 'b> BitAndSpecImpl<&'b BitSetMut> for BitSetMut {
    open spec fn obeys_bitand_spec() -> bool {
        false
    }

    open spec fn bitand_req(self, rhs: &'b BitSetMut) -> bool {
        true
    }

    open spec fn bitand_spec(self, rhs: &'b BitSetMut) -> BitSetMut {
        arbitrary()
    }
}

/// The intersection of the blocks of `self` and `rhs` (see [`and_blocks`]).
impl<'a, 'b> BitAnd<&'b mut BitSetMut> for BitSetMut {
    type Output = BitSetMut;

    fn bitand(self, rhs: &'b mut BitSetMut) -> (r: BitSetMut)
        ensures
            r@ == and_blocks(self@, old(rhs)@),
    {
        let mut set = self;
        and_blocks_in_place(&mut set.bits, &rhs.bits);
        set
    }
}

impl<'a, 'b> BitAndSpecImpl<&'b mut BitSetMut> for BitSetMut {
    open spec fn obeys_bitand_spec() -> bool {
        false
    }

    open spec fn bitand_req(self, rhs: &'b mut BitSetMut) -> bool {
        true
    }

    open spec fn bitand_spec(self, rhs: &'b mut BitSetMut) -> BitSetMut {
        arbitrary()
    }
}

/// The intersection of the blocks of `self` and `rhs` (see [`and_blocks`]).
impl BitAnd<BitSetMut> for BitSetMut {
    type Output = BitSetMut;

    fn bitand(self, rhs: BitSetMut) -> (r: BitSetMut)
        ensures
            r@ == and_blocks(self@, rhs@),
    {
        let mut set = self;
        and_blocks_in_place(&mut set.bits, &rhs.bits);
        set
    }
}

impl BitAndSpecImpl<BitSetMut> for BitSetMut {
    open spec fn obeys_bitand_spec() -> bool {
        false
    }

    open spec fn bitand_req(self, rhs: BitSetMut) -> bool {
        true
    }

    open spec fn bitand_spec(self, rhs: BitSetMut) -> BitSetMut {
        arbitrary()
    }
}

/// The intersection of the blocks of `self` and `rhs` (see [`and_blocks`]), as a new set.
impl<'a, 'b> BitAnd<&'b BitSetMut> for &'a BitSetMut {
    type Output = BitSetMut;

    fn bitand(self, rhs: &'b BitSetMut) -> (r: BitSetMut)
        ensures
            r@ == and_blocks(self@, rhs@),
    {
        let mut bits = copy_blocks(&self.bits);
        and_blocks_in_place(&mut bits, &rhs.bits);
        BitSetMut { bits }
    }
}

impl<'a, 'b> BitAndSpecImpl<&'b BitSetMut> for &'a BitSetMut {
    open spec fn obeys_bitand_spec() -> bool {
        false
    }

    open spec fn bitand_req(self, rhs: &'b BitSetMut) -> bool {
        true
    }

    open spec fn bitand_spec(self, rhs: &'b BitSetMut) -> BitSetMut {
        arbitrary()
    }
}

/// The intersection of the blocks of `self` and `rhs` (see [`and_blocks`]), as a new set.
impl<'a, 'b> BitAnd<&'b mut BitSetMut> for &'a BitSetMut {
    type Output = BitSetMut;

    fn bitand(self, rhs: &'b mut BitSetMut) -> (r: BitSetMut)
        ensures
            r@ == and_blocks(self@, old(rhs)@),
    {
        let mut bits = copy_blocks(&self.bits);
        and_blocks_in_place(&mut bits, &rhs.bits);
        BitSetMut { bits }
    }
}

impl<'a, 'b> BitAndSpecImpl<&'b mut BitSetMut> for &'a BitSetMut {
    open spec fn obeys_bitand_spec() -> bool {
        false
    }

    open spec fn bitand_req(self, rhs: &'b mut BitSetMut) -> bool {
        true
    }

    open spec fn bitand_spec(self, rhs: &'b mut BitSetMut) -> BitSetMut {
        arbitrary()
    }
}

/// The intersection of the blocks of `self` and `rhs` (see [`and_blocks`]), as a new set.
impl<'a, 'b> BitAnd<&'b BitSetMut> for &'a mut BitSetMut {
    type Output = BitSetMut;

    fn bitand(self, rhs: &'b BitSetMut) -> (r: BitSetMut)
        ensures
            r@ == and_blocks(old(self)@, rhs@),
    {
        let mut bits = copy_blocks(&self.bits);
        and_blocks_in_place(&mut bits, &rhs.bits);
        BitSetMut { bits }
    }
}

impl<'a, 'b> BitAndSpecImpl<&'b BitSetMut> for &'a mut BitSetMut {
    open spec fn obeys_bitand_spec() -> bool {
        false
    }

    open spec fn bitand_req(self, rhs: &'b BitSetMut) -> bool {
        true
    }

    open spec fn bitand_spec(self, rhs: &'b BitSetMut) -> BitSetMut {
        arbitrary()
    }
}

/// The intersection of the blocks of `self` and `rhs` (see [`and_blocks`]), as a new set.
impl<'a, 'b> BitAnd<&'b mut BitSetMut> for &'a mut BitSetMut {
    type Output = BitSetMut;

    fn bitand(self, rhs: &'b mut BitSetMut) -> (r: BitSetMut)
        ensures
            r@ == and_blocks(old(self)@, old(rhs)@),
    {
        let mut bits = copy_blocks(&self.bits);
        and_blocks_in_place(&mut bits, &rhs.bits);
        BitSetMut { bits }
    }
}

impl<'a, 'b> BitAndSpecImpl<&'b mut BitSetMut> for &'a mut BitSetMut {
    open spec fn obeys_bitand_spec() -> bool {
        false
    }

    open spec fn bitand_req(self, rhs: &'b mut BitSetMut) -> bool {
        true
    }

    open spec fn bitand_spec(self, rhs: &'b mut BitSetMut) -> BitSetMut {
        arbitrary()
    }
}

/// Replaces `self` by the intersection of the blocks of `self` and `rhs` (see [`and_blocks`]).
impl BitAndAssign<BitSetMut> for BitSetMut {
    fn bitand_assign(&mut self, rhs: BitSetMut)
        ensures
            final(self)@ == and_blocks(old(self)@, rhs@),
    {
        and_blocks_in_place(&mut self.bits, &rhs.bits);
    }
}

/// Replaces `self` by the intersection of the blocks of `self` and `rhs` (see [`and_blocks`]).
impl<'b> BitAndAssign<&'b mut BitSetMut> for BitSetMut {
    fn bitand_assign(&mut self, rhs: &'b mut BitSetMut)
        ensures
            final(self)@ == and_blocks(old(self)@, old(rhs)@),
    {
        and_blocks_in_place(&mut self.bits, &rhs.bits);
    }
}

/// Replaces `self` by the intersection of the blocks of `self` and `rhs` (see [`and_blocks`]).
impl<'b> BitAndAssign<&'b BitSetMut> for BitSetMut {
    fn bitand_assign(&mut self, rhs: &'b BitSetMut)
        ensures
            final(self)@ == and_blocks(old(self)@, rhs@),
    {
        and_blocks_in_place(&mut self.bits, &rhs.bits);
    }
}

/// The union of the blocks of `self` and `rhs` (see [`or_blocks`]).
impl<'a, 'b> BitOr<&'b BitSetMut> for BitSetMut {
    type Output = BitSetMut;

    fn bitor(self, rhs: &'b BitSetMut) -> (r: BitSetMut)
        ensures
            r@ == or_blocks(self@, rhs@),
    {
        let mut set = self;
        or_blocks_in_place(&mut set.bits, &rhs.bits);
        set
    }
}

impl<'a, 'b> BitOrSpecImpl<&'b BitSetMut> for BitSetMut {
    open spec fn obeys_bitor_spec() -> bool {
        false
    }

    open spec fn bitor_req(self, rhs: &'b BitSetMut) -> bool {
        true
    }

    open spec fn bitor_spec(self, rhs: &'b BitSetMut) -> BitSetMut {
        arbitrary()
    }
}

/// The union of the blocks of `self` and `rhs` (see [`or_blocks`]).
impl<'a, 'b> BitOr<&'b mut BitSetMut> for BitSetMut {
    type Output = BitSetMut;

    fn bitor(self, rhs: &'b mut BitSetMut) -> (r: BitSetMut)
        ensures
            r@ == or_blocks(self@, old(rhs)@),
    {
        let mut set = self;
        or_blocks_in_place(&mut set.bits, &rhs.bits);
        set
    }
}

impl<'a, 'b> BitOrSpecImpl<&'b mut BitSetMut> for BitSetMut {
    open spec fn obeys_bitor_spec() -> bool {
        false
    }

    open spec fn bitor_req(self, rhs: &'b mut BitSetMut) -> bool {
        true
    }

    open spec fn bitor_spec(self, rhs: &'b mut BitSetMut) -> BitSetMut {
        arbitrary()
    }
}

/// The union of the blocks of `self` and `rhs` (see [`or_blocks`]).
impl BitOr<BitSetMut> for BitSetMut {
    type Output = BitSetMut;

    fn bitor(self, rhs: BitSetMut) -> (r: BitSetMut)
        ensures
            r@ == or_blocks(self@, rhs@),
    {
        let mut set = self;
        or_blocks_in_place(&mut set.bits, &rhs.bits);
        set
    }
}

impl BitOrSpecImpl<BitSetMut> for BitSetMut {
    open spec fn obeys_bitor_spec() -> bool {
        false
    }

    open spec fn bitor_req(self, rhs: BitSetMut) -> bool {
        true
    }

    open spec fn bitor_spec(self, rhs: BitSetMut) -> BitSetMut {
        arbitrary()
    }
}

/// The union of the blocks of `self` and `rhs` (see [`or_blocks`]), as a new set.
impl<'a, 'b> BitOr<&'b BitSetMut> for &'a BitSetMut {
    type Output = BitSetMut;

    fn bitor(self, rhs: &'b BitSetMut) -> (r: BitSetMut)
        ensures
            r@ == or_blocks(self@, rhs@),
    {
        let mut bits = copy_blocks(&self.bits);
        or_blocks_in_place(&mut bits, &rhs.bits);
        BitSetMut { bits }
    }
}

impl<'a, 'b> BitOrSpecImpl<&'b BitSetMut> for &'a BitSetMut {
    open spec fn obeys_bitor_spec() -> bool {
        false
    }

    open spec fn bitor_req(self, rhs: &'b BitSetMut) -> bool {
        true
    }

    open spec fn bitor_spec(self, rhs: &'b BitSetMut) -> BitSetMut {
        arbitrary()
    }
}

/// The union of the blocks of `self` and `rhs` (see [`or_blocks`]), as a new set.
impl<'a, 'b> BitOr<&'b mut BitSetMut> for &'a BitSetMut {
    type Output = BitSetMut;

    fn bitor(self, rhs: &'b mut BitSetMut) -> (r: BitSetMut)
        ensures
            r@ == or_blocks(self@, old(rhs)@),
    {
        let mut bits = copy_blocks(&self.bits);
        or_blocks_in_place(&mut bits, &rhs.bits);
        BitSetMut { bits }
    }
}

impl<'a, 'b> BitOrSpecImpl<&'b mut BitSetMut> for &'a BitSetMut {
    open spec fn obeys_bitor_spec() -> bool {
        false
    }

    open spec fn bitor_req(self, rhs: &'b mut BitSetMut) -> bool {
        true
    }

    open spec fn bitor_spec(self, rhs: &'b mut BitSetMut) -> BitSetMut {
        arbitrary()
    }
}

/// The union of the blocks of `self` and `rhs` (see [`or_blocks`]), as a new set.
impl<'a, 'b> BitOr<&'b BitSetMut> for &'a mut BitSetMut {
    type Output = BitSetMut;

    fn bitor(self, rhs: &'b BitSetMut) -> (r: BitSetMut)
        ensures
            r@ == or_blocks(old(self)@, rhs@),
    {
        let mut bits = copy_blocks(&self.bits);
        or_blocks_in_place(&mut bits, &rhs.bits);
        BitSetMut { bits }
    }
}

impl<'a, 'b> BitOrSpecImpl<&'b BitSetMut> for &'a mut BitSetMut {
    open spec fn obeys_bitor_spec() -> bool {
        false
    }

    open spec fn bitor_req(self, rhs: &'b BitSetMut) -> bool {
        true
    }

    open spec fn bitor_spec(self, rhs: &'b BitSetMut) -> BitSetMut {
        arbitrary()
    }
}

/// The union of the blocks of `self` and `rhs` (see [`or_blocks`]), as a new set.
impl<'a, 'b> BitOr<&'b mut BitSetMut> for &'a mut BitSetMut {
    type Output = BitSetMut;

    fn bitor(self, rhs: &'b mut BitSetMut) -> (r: BitSetMut)
        ensures
            r@ == or_blocks(old(self)@, old(rhs)@),
    {
        let mut bits = copy_blocks(&self.bits);
        or_blocks_in_place(&mut bits, &rhs.bits);
        BitSetMut { bits }
    }
}

impl<'a, 'b> BitOrSpecImpl<&'b mut BitSetMut> for &'a mut BitSetMut {
    open spec fn obeys_bitor_spec() -> bool {
        false
    }

    open spec fn bitor_req(self, rhs: &'b mut BitSetMut) -> bool {
        true
    }

    open spec fn bitor_spec(self, rhs: &'b mut BitSetMut) -> BitSetMut {
        arbitrary()
    }
}

/// Replaces `self` by the union of the blocks of `self` and `rhs` (see [`or_blocks`]).
impl BitOrAssign<BitSetMut> for BitSetMut {
    fn bitor_assign(&mut self, rhs: BitSetMut)
        ensures
            final(self)@ == or_blocks(old(self)@, rhs@),
    {
        or_blocks_in_place(&mut self.bits, &rhs.bits);
    }
}

/// Replaces `self` by the union of the blocks of `self` and `rhs` (see [`or_blocks`]).
impl<'b> BitOrAssign<&'b mut BitSetMut> for BitSetMut {
    fn bitor_assign(&mut self, rhs: &'b mut BitSetMut)
        ensures
            final(self)@ == or_blocks(old(self)@, old(rhs)@),
    {
        or_blocks_in_place(&mut self.bits, &rhs.bits);
    }
}

/// Replaces `self` by the union of the blocks of `self` and `rhs` (see [`or_blocks`]).
impl<'b> BitOrAssign<&'b BitSetMut> for BitSetMut {
    fn bitor_assign(&mut self, rhs: &'b BitSetMut)
        ensures
            final(self)@ == or_blocks(old(self)@, rhs@),
    {
        or_blocks_in_place(&mut self.bits, &rhs.bits);
    }
}

/// The symmetric difference of the blocks of `self` and `rhs` (see [`xor_blocks`]).
impl<'a, 'b> BitXor<&'b BitSetMut> for BitSetMut {
    type Output = BitSetMut;

    fn bitxor(self, rhs: &'b BitSetMut) -> (r: BitSetMut)
        ensures
            r@ == xor_blocks(self@, rhs@),
    {
        let mut set = self;
        xor_blocks_in_place(&mut set.bits, &rhs.bits);
        set
    }
}

impl<'a, 'b> BitXorSpecImpl<&'b BitSetMut> for BitSetMut {
    open spec fn obeys_bitxor_spec() -> bool {
        false
    }

    open spec fn bitxor_req(self, rhs: &'b BitSetMut) -> bool {
        true
    }

    open spec fn bitxor_spec(self, rhs: &'b BitSetMut) -> BitSetMut {
        arbitrary()
    }
}

/// The symmetric difference of the blocks of `self` and `rhs` (see [`xor_blocks`]).
impl<'a, 'b> BitXor<&'b mut BitSetMut> for BitSetMut {
    type Output = BitSetMut;

    fn bitxor(self, rhs: &'b mut BitSetMut) -> (r: BitSetMut)
        ensures
            r@ == xor_blocks(self@, old(rhs)@),
    {
        let mut set = self;
        xor_blocks_in_place(&mut set.bits, &rhs.bits);
        set
    }
}

impl<'a, 'b> BitXorSpecImpl<&'b mut BitSetMut> for BitSetMut {
    open spec fn obeys_bitxor_spec() -> bool {
        false
    }

    open spec fn bitxor_req(self, rhs: &'b mut BitSetMut) -> bool {
        true
    }

    open spec fn bitxor_spec(self, rhs: &'b mut BitSetMut) -> BitSetMut {
        arbitrary()
    }
}

/// The symmetric difference of the blocks of `self` and `rhs` (see [`xor_blocks`]).
impl BitXor<BitSetMut> for BitSetMut {
    type Output = BitSetMut;

    fn bitxor(self, rhs: BitSetMut) -> (r: BitSetMut)
        ensures
            r@ == xor_blocks(self@, rhs@),
    {
        let mut set = self;
        xor_blocks_in_place(&mut set.bits, &rhs.bits);
        set
    }
}

impl BitXorSpecImpl<BitSetMut> for BitSetMut {
    open spec fn obeys_bitxor_spec() -> bool {
        false
    }

    open spec fn bitxor_req(self, rhs: BitSetMut) -> bool {
        true
    }

    open spec fn bitxor_spec(self, rhs: BitSetMut) -> BitSetMut {
        arbitrary()
    }
}

/// The symmetric difference of the blocks of `self` and `rhs` (see [`xor_blocks`]), as a new set.
impl<'a, 'b> BitXor<&'b BitSetMut> for &'a BitSetMut {
    type Output = BitSetMut;

    fn bitxor(self, rhs: &'b BitSetMut) -> (r: BitSetMut)
        ensures
            r@ == xor_blocks(self@, rhs@),
    {
        let mut bits = copy_blocks(&self.bits);
        xor_blocks_in_place(&mut bits, &rhs.bits);
        BitSetMut { bits }
    }
}

impl<'a, 'b> BitXorSpecImpl<&'b BitSetMut> for &'a BitSetMut {
    open spec fn obeys_bitxor_spec() -> bool {
        false
    }

    open spec fn bitxor_req(self, rhs: &'b BitSetMut) -> bool {
        true
    }

    open spec fn bitxor_spec(self, rhs: &'b BitSetMut) -> BitSetMut {
        arbitrary()
    }
}

/// The symmetric difference of the blocks of `self` and `rhs` (see [`xor_blocks`]), as a new set.
impl<'a, 'b> BitXor<&'b mut BitSetMut> for &'a BitSetMut {
    type Output = BitSetMut;

    fn bitxor(self, rhs: &'b mut BitSetMut) -> (r: BitSetMut)
        ensures
            r@ == xor_blocks(self@, old(rhs)@),
    {
        let mut bits = copy_blocks(&self.bits);
        xor_blocks_in_place(&mut bits, &rhs.bits);
        BitSetMut { bits }
    }
}

impl<'a, 'b> BitXorSpecImpl<&'b mut BitSetMut> for &'a BitSetMut {
    open spec fn obeys_bitxor_spec() -> bool {
        false
    }

    open spec fn bitxor_req(self, rhs: &'b mut BitSetMut) -> bool {
        true
    }

    open spec fn bitxor_spec(self, rhs: &'b mut BitSetMut) -> BitSetMut {
        arbitrary()
    }
}

/// The symmetric difference of the blocks of `self` and `rhs` (see [`xor_blocks`]), as a new set.
impl<'a, 'b> BitXor<&'b BitSetMut> for &'a mut BitSetMut {
    type Output = BitSetMut;

    fn bitxor(self, rhs: &'b BitSetMut) -> (r: BitSetMut)
        ensures
            r@ == xor_blocks(old(self)@, rhs@),
    {
        let mut bits = copy_blocks(&self.bits);
        xor_blocks_in_place(&mut bits, &rhs.bits);
        BitSetMut { bits }
    }
}

impl<'a, 'b> BitXorSpecImpl<&'b BitSetMut> for &'a mut BitSetMut {
    open spec fn obeys_bitxor_spec() -> bool {
        false
    }

    open spec fn bitxor_req(self, rhs: &'b BitSetMut) -> bool {
        true
    }

    open spec fn bitxor_spec(self, rhs: &'b BitSetMut) -> BitSetMut {
        arbitrary()
    }
}

/// The symmetric difference of the blocks of `self` and `rhs` (see [`xor_blocks`]), as a new set.
impl<'a, 'b> BitXor<&'b mut BitSetMut> for &'a mut BitSetMut {
    type Output = BitSetMut;

    fn bitxor(self, rhs: &'b mut BitSetMut) -> (r: BitSetMut)
        ensures
            r@ == xor_blocks(old(self)@, old(rhs)@),
    {
        let mut bits = copy_blocks(&self.bits);
        xor_blocks_in_place(&mut bits, &rhs.bits);
        BitSetMut { bits }
    }
}

impl<'a, 'b> BitXorSpecImpl<&'b mut BitSetMut> for &'a mut BitSetMut {
    open spec fn obeys_bitxor_spec() -> bool {
        false
    }

    open spec fn bitxor_req(self, rhs: &'b mut BitSetMut) -> bool {
        true
    }

    open spec fn bitxor_spec(self, rhs: &'b mut BitSetMut) -> BitSetMut {
        arbitrary()
    }
}

/// Replaces `self` by the symmetric difference of the blocks of `self` and `rhs` (see [`xor_blocks`]).
impl BitXorAssign<BitSetMut> for BitSetMut {
    fn bitxor_assign(&mut self, rhs: BitSetMut)
        ensures
            final(self)@ == xor_blocks(old(self)@, rhs@),
    {
        xor_blocks_in_place(&mut self.bits, &rhs.bits);
    }
}

/// Replaces `self` by the symmetric difference of the blocks of `self` and `rhs` (see [`xor_blocks`]).
impl<'b> BitXorAssign<&'b mut BitSetMut> for BitSetMut {
    fn bitxor_assign(&mut self, rhs: &'b mut BitSetMut)
        ensures
            final(self)@ == xor_blocks(old(self)@, old(rhs)@),
    {
        xor_blocks_in_place(&mut self.bits, &rhs.bits);
    }
}

/// Replaces `self` by the symmetric difference of the blocks of `self` and `rhs` (see [`xor_blocks`]).
impl<'b> BitXorAssign<&'b BitSetMut> for BitSetMut {
    fn bitxor_assign(&mut self, rhs: &'b BitSetMut)
        ensures
            final(self)@ == xor_blocks(old(self)@, rhs@),
    {
        xor_blocks_in_place(&mut self.bits, &rhs.bits);
    }
}

/// The intersection of the blocks of `self` and `rhs` (see [`and_blocks`]), as a new set.
impl<'a, 'b> BitAnd<&'b BitSet> for &'a BitSet {
    type Output = BitSet;

    fn bitand(self, rhs: &'b BitSet) -> (r: BitSet)
        ensures
            r@ == and_blocks(self@, rhs@),
    {
        let mut bits = copy_blocks(&self.bits);
        and_blocks_in_place(&mut bits, &rhs.bits);
        BitSet { bits }
    }
}

impl<'a, 'b> BitAndSpecImpl<&'b BitSet> for &'a BitSet {
    open spec fn obeys_bitand_spec() -> bool {
        false
    }

    open spec fn bitand_req(self, rhs: &'b BitSet) -> bool {
        true
    }

    open spec fn bitand_spec(self, rhs: &'b BitSet) -> BitSet {
        arbitrary()
    }
}

/// The intersection of the blocks of `self` and `rhs` (see [`and_blocks`]), as a new set.
impl<'a, 'b> BitAnd<&'b mut BitSet> for &'a BitSet {
    type Output = BitSet;

    fn bitand(self, rhs: &'b mut BitSet) -> (r: BitSet)
        ensures
            r@ == and_blocks(self@, old(rhs)@),
    {
        let mut bits = copy_blocks(&self.bits);
        and_blocks_in_place(&mut bits, &rhs.bits);
        BitSet { bits }
    }
}

impl<'a, 'b> BitAndSpecImpl<&'b mut BitSet> for &'a BitSet {
    open spec fn obeys_bitand_spec() -> bool {
        false
    }

    open spec fn bitand_req(self, rhs: &'b mut BitSet) -> bool {
        true
    }

    open spec fn bitand_spec(self, rhs: &'b mut BitSet) -> BitSet {
        arbitrary()
    }
}

/// The intersection of the blocks of `self` and `rhs` (see [`and_blocks`]), as a new set.
impl<'a, 'b> BitAnd<&'b BitSet> for &'a mut BitSet {
    type Output = BitSet;

    fn bitand(self, rhs: &'b BitSet) -> (r: BitSet)
        ensures
            r@ == and_blocks(old(self)@, rhs@),
    {
        let mut bits = copy_blocks(&self.bits);
        and_blocks_in_place(&mut bits, &rhs.bits);
        BitSet { bits }
    }
}

impl<'a, 'b> BitAndSpecImpl<&'b BitSet> for &'a mut BitSet {
    open spec fn obeys_bitand_spec() -> bool {
        false
    }

    open spec fn bitand_req(self, rhs: &'b BitSet) -> bool {
        true
    }

    open spec fn bitand_spec(self, rhs: &'b BitSet) -> BitSet {
        arbitrary()
    }
}

/// The intersection of the blocks of `self` and `rhs` (see [`and_blocks`]), as a new set.
impl<'a, 'b> BitAnd<&'b mut BitSet> for &'a mut BitSet {
    type Output = BitSet;

    fn bitand(self, rhs: &'b mut BitSet) -> (r: BitSet)
        ensures
            r@ == and_blocks(old(self)@, old(rhs)@),
    {
        let mut bits = copy_blocks(&self.bits);
        and_blocks_in_place(&mut bits, &rhs.bits);
        BitSet { bits }
    }
}

impl<'a, 'b> BitAndSpecImpl<&'b mut BitSet> for &'a mut BitSet {
    open spec fn obeys_bitand_spec() -> bool {
        false
    }

    open spec fn bitand_req(self, rhs: &'b mut BitSet) -> bool {
        true
    }

    open spec fn bitand_spec(self, rhs: &'b mut BitSet) -> BitSet {
        arbitrary()
    }
}

/// The union of the blocks of `self` and `rhs` (see [`or_blocks`]), as a new set.
impl<'a, 'b> BitOr<&'b BitSet> for &'a BitSet {
    type Output = BitSet;

    fn bitor(self, rhs: &'b BitSet) -> (r: BitSet)
        ensures
            r@ == or_blocks(self@, rhs@),
    {
        let mut bits = copy_blocks(&self.bits);
        or_blocks_in_place(&mut bits, &rhs.bits);
        BitSet { bits }
    }
}

impl<'a, 'b> BitOrSpecImpl<&'b BitSet> for &'a BitSet {
    open spec fn obeys_bitor_spec() -> bool {
        false
    }

    open spec fn bitor_req(self, rhs: &'b BitSet) -> bool {
        true
    }

    open spec fn bitor_spec(self, rhs: &'b BitSet) -> BitSet {
        arbitrary()
    }
}

/// The union of the blocks of `self` and `rhs` (see [`or_blocks`]), as a new set.
impl<'a, 'b> BitOr<&'b mut BitSet> for &'a BitSet {
    type Output = BitSet;

    fn bitor(self, rhs: &'b mut BitSet) -> (r: BitSet)
        ensures
            r@ == or_blocks(self@, old(rhs)@),
    {
        let mut bits = copy_blocks(&self.bits);
        or_blocks_in_place(&mut bits, &rhs.bits);
        BitSet { bits }
    }
}

impl<'a, 'b> BitOrSpecImpl<&'b mut BitSet> for &'a BitSet {
    open spec fn obeys_bitor_spec() -> bool {
        false
    }

    open spec fn bitor_req(self, rhs: &'b mut BitSet) -> bool {
        true
    }

    open spec fn bitor_spec(self, rhs: &'b mut BitSet) -> BitSet {
        arbitrary()
    }
}

/// The union of the blocks of `self` and `rhs` (see [`or_blocks`]), as a new set.
impl<'a, 'b> BitOr<&'b BitSet> for &'a mut BitSet {
    type Output = BitSet;

    fn bitor(self, rhs: &'b BitSet) -> (r: BitSet)
        ensures
            r@ == or_blocks(old(self)@, rhs@),
    {
        let mut bits = copy_blocks(&self.bits);
        or_blocks_in_place(&mut bits, &rhs.bits);
        BitSet { bits }
    }
}

impl<'a, 'b> BitOrSpecImpl<&'b BitSet> for &'a mut BitSet {
    open spec fn obeys_bitor_spec() -> bool {
        false
    }

    open spec fn bitor_req(self, rhs: &'b BitSet) -> bool {
        true
    }

    open spec fn bitor_spec(self, rhs: &'b BitSet) -> BitSet {
        arbitrary()
    }
}

/// The union of the blocks of `self` and `rhs` (see [`or_blocks`]), as a new set.
impl<'a, 'b> BitOr<&'b mut BitSet> for &'a mut BitSet {
    type Output = BitSet;

    fn bitor(self, rhs: &'b mut BitSet) -> (r: BitSet)
        ensures
            r@ == or_blocks(old(self)@, old(rhs)@),
    {
        let mut bits = copy_blocks(&self.bits);
        or_blocks_in_place(&mut bits, &rhs.bits);
        BitSet { bits }
    }
}

impl<'a, 'b> BitOrSpecImpl<&'b mut BitSet> for &'a mut BitSet {
    open spec fn obeys_bitor_spec() -> bool {
        false
    }

    open spec fn bitor_req(self, rhs: &'b mut BitSet) -> bool {
        true
    }

    open spec fn bitor_spec(self, rhs: &'b mut BitSet) -> BitSet {
        arbitrary()
    }
}

/// The symmetric difference of the blocks of `self` and `rhs` (see [`xor_blocks`]), as a new set.
impl<'a, 'b> BitXor<&'b BitSet> for &'a BitSet {
    type Output = BitSet;

    fn bitxor(self, rhs: &'b BitSet) -> (r: BitSet)
        ensures
            r@ == xor_blocks(self@, rhs@),
    {
        let mut bits = copy_blocks(&self.bits);
        xor_blocks_in_place(&mut bits, &rhs.bits);
        BitSet { bits }
    }
}

impl<'a, 'b> BitXorSpecImpl<&'b BitSet> for &'a BitSet {
    open spec fn obeys_bitxor_spec() -> bool {
        false
    }

    open spec fn bitxor_req(self, rhs: &'b BitSet) -> bool {
        true
    }

    open spec fn bitxor_spec(self, rhs: &'b BitSet) -> BitSet {
        arbitrary()
    }
}

/// The symmetric difference of the blocks of `self` and `rhs` (see [`xor_blocks`]), as a new set.
impl<'a, 'b> BitXor<&'b mut BitSet> for &'a BitSet {
    type Output = BitSet;

    fn bitxor(self, rhs: &'b mut BitSet) -> (r: BitSet)
        ensures
            r@ == xor_blocks(self@, old(rhs)@),
    {
        let mut bits = copy_blocks(&self.bits);
        xor_blocks_in_place(&mut bits, &rhs.bits);
        BitSet { bits }
    }
}

impl<'a, 'b> BitXorSpecImpl<&'b mut BitSet> for &'a BitSet {
    open spec fn obeys_bitxor_spec() -> bool {
        false
    }

    open spec fn bitxor_req(self, rhs: &'b mut BitSet) -> bool {
        true
    }

    open spec fn bitxor_spec(self, rhs: &'b mut BitSet) -> BitSet {
        arbitrary()
    }
}

/// The symmetric difference of the blocks of `self` and `rhs` (see [`xor_blocks`]), as a new set.
impl<'a, 'b> BitXor<&'b BitSet> for &'a mut BitSet {
    type Output = BitSet;

    fn bitxor(self, rhs: &'b BitSet) -> (r: BitSet)
        ensures
            r@ == xor_blocks(old(self)@, rhs@),
    {
        let mut bits = copy_blocks(&self.bits);
        xor_blocks_in_place(&mut bits, &rhs.bits);
        BitSet { bits }
    }
}

impl<'a, 'b> BitXorSpecImpl<&'b BitSet> for &'a mut BitSet {
    open spec fn obeys_bitxor_spec() -> bool {
        false
    }

    open spec fn bitxor_req(self, rhs: &'b BitSet) -> bool {
        true
    }

    open spec fn bitxor_spec(self, rhs: &'b BitSet) -> BitSet {
        arbitrary()
    }
}

/// The symmetric difference of the blocks of `self` and `rhs` (see [`xor_blocks`]), as a new set.
impl<'a, 'b> BitXor<&'b mut BitSet> for &'a mut BitSet {
    type Output = BitSet;

    fn bitxor(self, rhs: &'b mut BitSet) -> (r: BitSet)
        ensures
            r@ == xor_blocks(old(self)@, old(rhs)@),
    {
        let mut bits = copy_blocks(&self.bits);
        xor_blocks_in_place(&mut bits, &rhs.bits);
        BitSet { bits }
    }
}

impl<'a, 'b> BitXorSpecImpl<&'b mut BitSet> for &'a mut BitSet {
    open spec fn obeys_bitxor_spec() -> bool {
        false
    }

    open spec fn bitxor_req(self, rhs: &'b mut BitSet) -> bool {
        true
    }

    open spec fn bitxor_spec(self, rhs: &'b mut BitSet) -> BitSet {
        arbitrary()
    }
}

/// Flips every bit of every block of the set (see [`not_blocks`]).
impl Not for BitSetMut {
    type Output = BitSetMut;

    fn not(self) -> (r: BitSetMut)
        ensures
            r@ == not_blocks(self@),
    {
        let mut set = self;
        not_blocks_in_place(&mut set.bits);
        set
    }
}

impl NotSpecImpl for BitSetMut {
    open spec fn obeys_not_spec() -> bool {
        false
    }

    open spec fn not_req(self) -> bool {
        true
    }

    open spec fn not_spec(self) -> BitSetMut {
        arbitrary()
    }
}

/// Flips every bit of every block of the set (see [`not_blocks`]).
impl Not for BitSet {
    type Output = BitSet;

    fn not(self) -> (r: BitSet)
        ensures
            r@ == not_blocks(self@),
    {
        let mut set = self;
        not_blocks_in_place(&mut set.bits);
        set
    }
}

impl NotSpecImpl for BitSet {
    open spec fn obeys_not_spec() -> bool {
        false
    }

    open spec fn not_req(self) -> bool {
        true
    }

    open spec fn not_spec(self) -> BitSet {
        arbitrary()
    }
}

} // verus!
