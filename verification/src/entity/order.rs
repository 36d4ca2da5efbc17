//! Entities are ordered by their bits: first by `id`, then by `generation`.
use super::{entity_bits, entity_value, lemma_bits_injective, lemma_entity_bits_value, Entity};
use core::cmp::Ordering;
use vstd::prelude::*;
use vstd::std_specs::cmp::PartialOrdSpecImpl;

verus! {

/// How two entities compare: by their bits.
pub open spec fn entity_order(a: Entity, b: Entity) -> Ordering {
    let x = entity_bits(a.id_of(), a.generation_of());
    let y = entity_bits(b.id_of(), b.generation_of());
    if x < y {
        Ordering::Less
    } else if x == y {
        Ordering::Equal
    } else {
        Ordering::Greater
    }
}

impl PartialOrd for Entity {
    fn partial_cmp(&self, other: &Self) -> (r: Option<Ordering>) {
        let x = self.to_bits();
        let y = other.to_bits();
        if x < y {
            Some(Ordering::Less)
        } else if x == y {
            Some(Ordering::Equal)
        } else {
            Some(Ordering::Greater)
        }
    }
}

impl PartialOrdSpecImpl for Entity {
    open spec fn obeys_partial_cmp_spec() -> bool {
        true
    }

    open spec fn partial_cmp_spec(&self, other: &Self) -> Option<Ordering> {
        Some(entity_order(*self, *other))
    }
}

/// Entities are ordered by their bits, and the order agrees with equality:
/// two entities compare equal exactly when they are the same handle, and one
/// is less than the other exactly when its bits are smaller.
pub proof fn lemma_entity_order_by_bits(a: Entity, b: Entity)
    ensures
        (entity_order(a, b) == Ordering::Equal) == (a == b),
        (entity_order(a, b) == Ordering::Less) == (entity_value(a) < entity_value(b)),
        (entity_order(a, b) == Ordering::Greater) == (entity_value(a) > entity_value(b)),
{
    lemma_entity_bits_value(a);
    lemma_entity_bits_value(b);
    lemma_bits_injective(a, b);
}

} // verus!
