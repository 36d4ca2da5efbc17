use fulmen::entity::{Entities, Entity};

#[test]
fn entity_bits_round_trip() {
    let mut entities = Entities::new();
    let e = entities.reserve_entity();
    let bits = e.to_bits();
    assert_eq!(Some(e), Entity::from_bits(bits));
    let back = Entity::from_bits(0x0000_0005_0000_0007).unwrap();
    assert_eq!(5, back.id());
    assert_eq!(7, back.generation());
    assert_eq!(0x0000_0005_0000_0007, back.to_bits());
}

#[test]
fn reserve_entities_hands_out_new_ids() {
    let mut entities = Entities::new();
    let batch = entities.reserve_entities(3);
    let ids: Vec<u32> = batch.iter().map(|e| e.id()).collect();
    assert_eq!(vec![0, 1, 2], ids);
    assert!(batch.iter().all(|e| e.generation() == 0));
    assert!(entities.needs_flush());
    // The next single reservation continues after the batch.
    let next = entities.reserve_entity();
    assert_eq!(3, next.id());
    let more = entities.reserve_entities(2);
    let ids: Vec<u32> = more.iter().map(|e| e.id()).collect();
    assert_eq!(vec![4, 5], ids);
}

#[test]
fn reserve_entity_is_first_of_a_batch_of_one() {
    let mut a = Entities::new();
    let mut b = Entities::new();
    let single = a.reserve_entity();
    let batch = b.reserve_entities(1);
    assert_eq!(vec![single], batch);
}

#[test]
fn fresh_entities_need_no_flush() {
    let mut entities = Entities::new();
    assert!(!entities.needs_flush());
    entities.assert_flushed();
    let none = entities.reserve_entities(0);
    assert!(none.is_empty());
    assert!(!entities.needs_flush());
}

#[test]
fn entity_order_follows_bits() {
    let a = Entity::from_bits(0x0000_0001_0000_0009).unwrap();
    let b = Entity::from_bits(0x0000_0002_0000_0000).unwrap();
    assert!(a < b);
    assert!(a != b);
    assert_eq!(a, Entity::from_bits(a.to_bits()).unwrap());
}

#[test]
fn alloc_and_free_reuse_ids() {
    let mut entities = Entities::new();
    let a = entities.alloc_entity();
    let b = entities.alloc_entity();
    assert_eq!((0, 0), (a.id(), a.generation()));
    assert_eq!((1, 0), (b.id(), b.generation()));
    let next = entities.free(a);
    assert_eq!((0, 1), (next.id(), next.generation()));
    assert!(!entities.needs_flush());
    let c = entities.alloc_entity();
    assert_eq!(next, c);
    let d = entities.alloc_entity();
    assert_eq!((2, 0), (d.id(), d.generation()));
}
