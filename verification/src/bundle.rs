//! Bundles: static sets of component types, registered as a whole.
use crate::component::{
    lemma_extends_reflexive, lemma_extends_transitive, registered, Component, ComponentId,
    Components, key_ok,
};
use crate::sparse::SparseSetIndex;
use crate::type_key::{
    find_key, keys_distinct, lemma_lookup_push, lemma_push_keeps_keys_distinct, lookup, type_id_of,
};
use std::any::TypeId;
use vstd::prelude::*;

verus! {

/// A value used to uniquely identify the type of a [`Bundle`] inside one registry.
///
/// Ids are handed out incrementally, in registration order.
#[derive(Debug, Clone, Copy, PartialEq, Eq, Structural, PartialOrd, Ord, Hash)]
pub struct BundleId(pub usize);

impl BundleId {
    pub fn new(id: usize) -> (r: Self)
        ensures
            r.0 == id,
    {
        BundleId(id)
    }

    pub fn index(&self) -> (r: usize)
        ensures
            r == self.0,
    {
        self.0
    }
}

impl SparseSetIndex for BundleId {
    open spec fn index_of(&self) -> nat {
        self.0 as nat
    }

    open spec fn index_bound() -> nat {
        usize::MAX as nat + 1
    }

    fn sparse_set_index(&self) -> (r: usize) {
        self.0
    }

    fn get_sparse_set_index(value: usize) -> (r: Self) {
        proof {
            vstd::arithmetic::div_mod::lemma_small_mod(value as nat, usize::MAX as nat + 1);
        }
        BundleId(value)
    }
}

/// The ids that the component types `keys` have in the registry keys `ck`, in order.
pub open spec fn ids_for(ck: Seq<(TypeId, ComponentId)>, keys: Seq<TypeId>) -> Seq<ComponentId> {
    keys.map_values(|k: TypeId| lookup(ck, k)->0)
}

/// What looking each of `keys` up in the registry keys `ck` gives, in order.
pub open spec fn lookups_for(ck: Seq<(TypeId, ComponentId)>, keys: Seq<TypeId>) -> Seq<Option<ComponentId>> {
    keys.map_values(|k: TypeId| lookup(ck, k))
}

/// Every type of `keys` is registered in the registry keys `ck`.
pub open spec fn all_registered(ck: Seq<(TypeId, ComponentId)>, keys: Seq<TypeId>) -> bool {
    forall|i: int| 0 <= i < keys.len() ==> #[trigger] lookup(ck, keys[i]) is Some
}

/// The component registry keys `ck` after registering, in order, each type of
/// `keys` that is not registered yet, the first new one getting the id `next`;
/// with the id that comes after them.
pub open spec fn push_keys(ck: Seq<(TypeId, ComponentId)>, next: nat, keys: Seq<TypeId>) -> (Seq<
    (TypeId, ComponentId),
>, nat)
    decreases keys.len(),
{
    if keys.len() == 0 {
        (ck, next)
    } else {
        let prev = push_keys(ck, next, keys.drop_last());
        if lookup(prev.0, keys.last()) is Some {
            prev
        } else {
            (prev.0.push((keys.last(), ComponentId(prev.1 as usize))), prev.1 + 1)
        }
    }
}

/// Registering `a` and then `b` is registering `a + b`.
pub proof fn lemma_push_keys_concat(
    ck: Seq<(TypeId, ComponentId)>,
    next: nat,
    a: Seq<TypeId>,
    b: Seq<TypeId>,
)
    ensures
        push_keys(ck, next, a + b) == push_keys(push_keys(ck, next, a).0, push_keys(ck, next, a).1, b),
    decreases b.len(),
{
    if b.len() == 0 {
        assert(a + b =~= a);
    } else {
        assert((a + b).drop_last() =~= a + b.drop_last());
        assert((a + b).last() == b.last());
        lemma_push_keys_concat(ck, next, a, b.drop_last());
    }
}

/// No type occurs twice in `keys`.
pub open spec fn distinct_keys(keys: Seq<TypeId>) -> bool {
    forall|i: int, j: int| 0 <= i < j < keys.len() ==> keys[i] != keys[j]
}

/// A static set of component types, of which there can only be one of each.
///
/// Implemented for every component type and for tuples of up to 16 bundles;
/// the component types come in the order the bundle declares them.
pub trait Bundle: Send + Sync + 'static {
    /// The number of component types in the bundle (counting repeats).
    spec fn component_count() -> nat;

    /// The keys of the bundle's component types, in declaration order
    /// (nested bundles flattened, repeats kept).
    spec fn component_keys() -> Seq<TypeId>;

    /// Appends to `ids` the id of each of this bundle's component types, in
    /// order, registering the ones that are not registered yet.
    fn get_or_register_component_ids(world_components: &mut Components, ids: &mut Vec<ComponentId>)
        requires
            old(world_components).wf(),
            old(world_components).infos().len() + Self::component_count() < usize::MAX,
        ensures
            final(world_components).wf(),
            final(world_components).extends(old(world_components)),
            final(world_components).resource_keys() == old(world_components).resource_keys(),
            final(world_components).infos().len() <= old(world_components).infos().len()
                + Self::component_count(),
            final(ids)@.len() == old(ids)@.len() + Self::component_count(),
            final(ids)@.subrange(0, old(ids)@.len() as int) == old(ids)@,
            forall|i: int|
                old(ids)@.len() <= i < final(ids)@.len() ==> (#[trigger] final(ids)@[i]).0
                    < final(world_components).infos().len(),
            all_registered(final(world_components).component_keys(), Self::component_keys()),
            final(world_components).component_keys() == push_keys(
                old(world_components).component_keys(),
                old(world_components).infos().len(),
                Self::component_keys(),
            ).0,
            final(world_components).infos().len() == push_keys(
                old(world_components).component_keys(),
                old(world_components).infos().len(),
                Self::component_keys(),
            ).1,
            final(ids)@.subrange(old(ids)@.len() as int, final(ids)@.len() as int) == ids_for(
                final(world_components).component_keys(),
                Self::component_keys(),
            ),
    ;

    /// Appends to `ids` the id of each of this bundle's component types, in
    /// order, or `None` for the ones that are not registered.
    fn get_component_ids(world_components: &Components, ids: &mut Vec<Option<ComponentId>>)
        ensures
            final(ids)@.len() == old(ids)@.len() + Self::component_count(),
            final(ids)@.subrange(0, old(ids)@.len() as int) == old(ids)@,
            final(ids)@.subrange(old(ids)@.len() as int, final(ids)@.len() as int) == lookups_for(
                world_components.component_keys(),
                Self::component_keys(),
            ),
    ;
}

/// One step of appending a bundle's ids: the ids for `acc` appended before
/// stay the ids for `acc` after the registry grows, and the ids for `keys`
/// appended now follow them.
proof fn lemma_keys_step(
    before: &Components,
    after: &Components,
    start_len: int,
    before_ids: Seq<ComponentId>,
    after_ids: Seq<ComponentId>,
    acc: Seq<TypeId>,
    keys: Seq<TypeId>,
)
    requires
        after.extends(before),
        0 <= start_len <= before_ids.len() <= after_ids.len(),
        after_ids.subrange(0, before_ids.len() as int) == before_ids,
        before_ids.subrange(start_len, before_ids.len() as int) == ids_for(before.component_keys(), acc),
        all_registered(before.component_keys(), acc),
        after_ids.subrange(before_ids.len() as int, after_ids.len() as int) == ids_for(
            after.component_keys(),
            keys,
        ),
        all_registered(after.component_keys(), keys),
    ensures
        after_ids.subrange(start_len, after_ids.len() as int) == ids_for(
            after.component_keys(),
            acc + keys,
        ),
        all_registered(after.component_keys(), acc + keys),
{
    let all = acc + keys;
    assert forall|i: int| 0 <= i < all.len() implies #[trigger] lookup(after.component_keys(), all[i])
        is Some by {
        if i < acc.len() {
            assert(all[i] == acc[i]);
            assert(lookup(before.component_keys(), acc[i]) is Some);
        } else {
            assert(all[i] == keys[i - acc.len()]);
        }
    }
    let seg = after_ids.subrange(start_len, after_ids.len() as int);
    let want = ids_for(after.component_keys(), all);
    assert(before_ids.subrange(start_len, before_ids.len() as int).len() == acc.len());
    assert(after_ids.subrange(before_ids.len() as int, after_ids.len() as int).len() == keys.len());
    assert(seg.len() == want.len());
    assert forall|i: int| 0 <= i < seg.len() implies seg[i] == want[i] by {
        if i < acc.len() {
            assert(after_ids.subrange(0, before_ids.len() as int)[start_len + i] == after_ids[start_len
                + i]);
            assert(seg[i] == before_ids.subrange(start_len, before_ids.len() as int)[i]);
            assert(lookup(before.component_keys(), acc[i]) is Some);
            assert(all[i] == acc[i]);
        } else {
            assert(seg[i] == after_ids.subrange(before_ids.len() as int, after_ids.len() as int)[i
                - acc.len()]);
            assert(all[i] == keys[i - acc.len()]);
        }
    }
    assert(seg =~= want);
}

/// One step of appending a bundle's lookups: the lookups for `acc` appended
/// before are followed by those for `keys` appended now.
proof fn lemma_lookups_step(
    ck: Seq<(TypeId, ComponentId)>,
    start_len: int,
    before_ids: Seq<Option<ComponentId>>,
    after_ids: Seq<Option<ComponentId>>,
    acc: Seq<TypeId>,
    keys: Seq<TypeId>,
)
    requires
        0 <= start_len <= before_ids.len() <= after_ids.len(),
        after_ids.subrange(0, before_ids.len() as int) == before_ids,
        before_ids.subrange(start_len, before_ids.len() as int) == lookups_for(ck, acc),
        after_ids.subrange(before_ids.len() as int, after_ids.len() as int) == lookups_for(ck, keys),
    ensures
        after_ids.subrange(start_len, after_ids.len() as int) == lookups_for(ck, acc + keys),
{
    let all = acc + keys;
    let seg = after_ids.subrange(start_len, after_ids.len() as int);
    let want = lookups_for(ck, all);
    assert(before_ids.subrange(start_len, before_ids.len() as int).len() == acc.len());
    assert(after_ids.subrange(before_ids.len() as int, after_ids.len() as int).len() == keys.len());
    assert(seg.len() == want.len());
    assert forall|i: int| 0 <= i < seg.len() implies seg[i] == want[i] by {
        if i < acc.len() {
            assert(after_ids.subrange(0, before_ids.len() as int)[start_len + i] == after_ids[start_len
                + i]);
            assert(seg[i] == before_ids.subrange(start_len, before_ids.len() as int)[i]);
            assert(all[i] == acc[i]);
        } else {
            assert(seg[i] == after_ids.subrange(before_ids.len() as int, after_ids.len() as int)[i
                - acc.len()]);
            assert(all[i] == keys[i - acc.len()]);
        }
    }
    assert(seg =~= want);
}

/// In a consistent registry where all of `keys` are registered, their ids
/// hold no repeat exactly when the keys hold none.
pub proof fn lemma_ids_distinct(c: &Components, keys: Seq<TypeId>)
    requires
        c.wf(),
        all_registered(c.component_keys(), keys),
    ensures
        all_distinct(ids_for(c.component_keys(), keys)) == distinct_keys(keys),
{
    let ids = ids_for(c.component_keys(), keys);
    if distinct_keys(keys) {
        assert forall|i: int, j: int| 0 <= i < j < ids.len() implies ids[i] != ids[j] by {
            assert(lookup(c.component_keys(), keys[i]) is Some);
            assert(lookup(c.component_keys(), keys[j]) is Some);
            assert(key_ok(c.infos(), c.component_keys(), keys[i]));
            assert(key_ok(c.infos(), c.component_keys(), keys[j]));
        }
    }
    if all_distinct(ids) {
        assert forall|i: int, j: int| 0 <= i < j < keys.len() implies keys[i] != keys[j] by {
            assert(ids[i] != ids[j]);
        }
    }
}

/// The id returned by a registration is the id of a registered definition.
proof fn lemma_registered_id_valid(
    old_components: &Components,
    new_components: &Components,
    def: crate::component::ComponentDef,
    id: ComponentId,
)
    requires
        old_components.wf(),
        registered(
            old_components.infos(),
            old_components.component_keys(),
            new_components.infos(),
            new_components.component_keys(),
            def,
            id,
        ),
    ensures
        id.0 < new_components.infos().len(),
{
    assert(key_ok(old_components.infos(), old_components.component_keys(), def.type_id_of()));
}

/// Chaining two registration steps of a tuple bundle.
proof fn lemma_bundle_step(
    start: &Components,
    before: &Components,
    after: &Components,
    start_ids: Seq<ComponentId>,
    before_ids: Seq<ComponentId>,
    after_ids: Seq<ComponentId>,
)
    requires
        before.extends(start),
        after.extends(before),
        start_ids.len() <= before_ids.len() <= after_ids.len(),
        before_ids.subrange(0, start_ids.len() as int) == start_ids,
        after_ids.subrange(0, before_ids.len() as int) == before_ids,
        forall|i: int|
            start_ids.len() <= i < before_ids.len() ==> (#[trigger] before_ids[i]).0
                < before.infos().len(),
        forall|i: int|
            before_ids.len() <= i < after_ids.len() ==> (#[trigger] after_ids[i]).0
                < after.infos().len(),
    ensures
        after.extends(start),
        after_ids.subrange(0, start_ids.len() as int) == start_ids,
        forall|i: int|
            start_ids.len() <= i < after_ids.len() ==> (#[trigger] after_ids[i]).0
                < after.infos().len(),
{
    lemma_extends_transitive(start, before, after);
    assert(after_ids.subrange(0, start_ids.len() as int) =~= before_ids.subrange(
        0,
        start_ids.len() as int,
    ));
    assert forall|i: int| start_ids.len() <= i < after_ids.len() implies (#[trigger] after_ids[i]).0
        < after.infos().len() by {
        if i < before_ids.len() {
            assert(after_ids[i] == before_ids[i]);
        }
    }
}

impl<C: Component> Bundle for C {
    open spec fn component_count() -> nat {
        1
    }

    open spec fn component_keys() -> Seq<TypeId> {
        seq![C::type_key()]
    }

    fn get_or_register_component_ids(world_components: &mut Components, ids: &mut Vec<ComponentId>) {
        let ghost start = *world_components;
        let id = world_components.register_component::<C>();
        proof {
            let def = choose|def: crate::component::ComponentDef|
                #![trigger def.type_id_of()]
                def.type_id_of() == C::type_key() && def.storage_type_of() == C::STORAGE_TYPE
                    && def.layout_of() == crate::layout::Layout::spec_new::<C>() && registered(
                    start.infos(),
                    start.component_keys(),
                    world_components.infos(),
                    world_components.component_keys(),
                    def,
                    id,
                );
            lemma_registered_id_valid(&start, &*world_components, def, id);
            assert(lookup(world_components.component_keys(), seq![C::type_key()][0]) is Some);
            assert(seq![C::type_key()].drop_last() =~= Seq::<TypeId>::empty());
            assert(push_keys(start.component_keys(), start.infos().len(), Seq::<TypeId>::empty()) == (
            start.component_keys(), start.infos().len()));
        }
        let ghost before = ids@;
        ids.push(id);
        assert(ids@.subrange(0, before.len() as int) =~= before);
        assert(ids@.subrange(before.len() as int, ids@.len() as int) =~= ids_for(
            world_components.component_keys(),
            seq![C::type_key()],
        ));
    }

    fn get_component_ids(world_components: &Components, ids: &mut Vec<Option<ComponentId>>) {
        let ghost before = ids@;
        ids.push(world_components.component_id::<C>());
        assert(ids@.subrange(0, before.len() as int) =~= before);
        assert(ids@.subrange(before.len() as int, ids@.len() as int) =~= lookups_for(
            world_components.component_keys(),
            seq![C::type_key()],
        ));
    }
}

impl<B0: Bundle> Bundle for (B0,) {
    open spec fn component_count() -> nat {
        B0::component_count()
    }

    open spec fn component_keys() -> Seq<TypeId> {
        B0::component_keys()
    }

    fn get_or_register_component_ids(world_components: &mut Components, ids: &mut Vec<ComponentId>) {
        let ghost start = *world_components;
        let ghost start_ids = ids@;
        proof {
            lemma_extends_reflexive(&start);
            assert(ids@.subrange(0, start_ids.len() as int) =~= start_ids);
        }
        let ghost before0 = *world_components;
        let ghost ids_before0 = ids@;
        B0::get_or_register_component_ids(world_components, ids);
        proof {
            lemma_bundle_step(&start, &before0, &*world_components, start_ids, ids_before0, ids@);
        }
    }

    fn get_component_ids(world_components: &Components, ids: &mut Vec<Option<ComponentId>>) {
        let ghost start = ids@;
        assert(ids@.subrange(0, start.len() as int) =~= start);
        let ghost before0 = ids@;
        B0::get_component_ids(world_components, ids);
        assert(ids@.subrange(0, start.len() as int) =~= before0.subrange(0, start.len() as int));
    }
}

impl<B0: Bundle, B1: Bundle> Bundle for (B0, B1) {
    open spec fn component_count() -> nat {
        B0::component_count() + B1::component_count()
    }

    open spec fn component_keys() -> Seq<TypeId> {
        B0::component_keys() + B1::component_keys()
    }

    fn get_or_register_component_ids(world_components: &mut Components, ids: &mut Vec<ComponentId>) {
        let ghost start = *world_components;
        let ghost start_ids = ids@;
        proof {
            lemma_extends_reflexive(&start);
            assert(ids@.subrange(0, start_ids.len() as int) =~= start_ids);
        }
        let ghost before0 = *world_components;
        let ghost ids_before0 = ids@;
        B0::get_or_register_component_ids(world_components, ids);
        proof {
            lemma_bundle_step(&start, &before0, &*world_components, start_ids, ids_before0, ids@);
        }
        let ghost before1 = *world_components;
        let ghost ids_before1 = ids@;
        B1::get_or_register_component_ids(world_components, ids);
        proof {
            lemma_bundle_step(&start, &before1, &*world_components, start_ids, ids_before1, ids@);
            lemma_keys_step(&before1, &*world_components, start_ids.len() as int, ids_before1, ids@, B0::component_keys(), B1::component_keys());
            lemma_push_keys_concat(start.component_keys(), start.infos().len(), B0::component_keys(), B1::component_keys());
        }
    }

    fn get_component_ids(world_components: &Components, ids: &mut Vec<Option<ComponentId>>) {
        let ghost start = ids@;
        assert(ids@.subrange(0, start.len() as int) =~= start);
        let ghost before0 = ids@;
        B0::get_component_ids(world_components, ids);
        assert(ids@.subrange(0, start.len() as int) =~= before0.subrange(0, start.len() as int));
        let ghost before1 = ids@;
        B1::get_component_ids(world_components, ids);
        assert(ids@.subrange(0, start.len() as int) =~= before1.subrange(0, start.len() as int));
        proof {
            lemma_lookups_step(world_components.component_keys(), start.len() as int, before1, ids@, B0::component_keys(), B1::component_keys());
        }
    }
}

impl<B0: Bundle, B1: Bundle, B2: Bundle> Bundle for (B0, B1, B2) {
    open spec fn component_count() -> nat {
        B0::component_count() + B1::component_count() + B2::component_count()
    }

    open spec fn component_keys() -> Seq<TypeId> {
        B0::component_keys() + B1::component_keys() + B2::component_keys()
    }

    fn get_or_register_component_ids(world_components: &mut Components, ids: &mut Vec<ComponentId>) {
        let ghost start = *world_components;
        let ghost start_ids = ids@;
        proof {
            lemma_extends_reflexive(&start);
            assert(ids@.subrange(0, start_ids.len() as int) =~= start_ids);
        }
        let ghost before0 = *world_components;
        let ghost ids_before0 = ids@;
        B0::get_or_register_component_ids(world_components, ids);
        proof {
            lemma_bundle_step(&start, &before0, &*world_components, start_ids, ids_before0, ids@);
        }
        let ghost before1 = *world_components;
        let ghost ids_before1 = ids@;
        B1::get_or_register_component_ids(world_components, ids);
        proof {
            lemma_bundle_step(&start, &before1, &*world_components, start_ids, ids_before1, ids@);
            lemma_keys_step(&before1, &*world_components, start_ids.len() as int, ids_before1, ids@, B0::component_keys(), B1::component_keys());
            lemma_push_keys_concat(start.component_keys(), start.infos().len(), B0::component_keys(), B1::component_keys());
        }
        let ghost before2 = *world_components;
        let ghost ids_before2 = ids@;
        B2::get_or_register_component_ids(world_components, ids);
        proof {
            lemma_bundle_step(&start, &before2, &*world_components, start_ids, ids_before2, ids@);
            lemma_keys_step(&before2, &*world_components, start_ids.len() as int, ids_before2, ids@, B0::component_keys() + B1::component_keys(), B2::component_keys());
            lemma_push_keys_concat(start.component_keys(), start.infos().len(), B0::component_keys() + B1::component_keys(), B2::component_keys());
        }
    }

    fn get_component_ids(world_components: &Components, ids: &mut Vec<Option<ComponentId>>) {
        let ghost start = ids@;
        assert(ids@.subrange(0, start.len() as int) =~= start);
        let ghost before0 = ids@;
        B0::get_component_ids(world_components, ids);
        assert(ids@.subrange(0, start.len() as int) =~= before0.subrange(0, start.len() as int));
        let ghost before1 = ids@;
        B1::get_component_ids(world_components, ids);
        assert(ids@.subrange(0, start.len() as int) =~= before1.subrange(0, start.len() as int));
        proof {
            lemma_lookups_step(world_components.component_keys(), start.len() as int, before1, ids@, B0::component_keys(), B1::component_keys());
        }
        let ghost before2 = ids@;
        B2::get_component_ids(world_components, ids);
        assert(ids@.subrange(0, start.len() as int) =~= before2.subrange(0, start.len() as int));
        proof {
            lemma_lookups_step(world_components.component_keys(), start.len() as int, before2, ids@, B0::component_keys() + B1::component_keys(), B2::component_keys());
        }
    }
}

impl<B0: Bundle, B1: Bundle, B2: Bundle, B3: Bundle> Bundle for (B0, B1, B2, B3) {
    open spec fn component_count() -> nat {
        B0::component_count() + B1::component_count() + B2::component_count() + B3::component_count()
    }

    open spec fn component_keys() -> Seq<TypeId> {
        B0::component_keys() + B1::component_keys() + B2::component_keys() + B3::component_keys()
    }

    fn get_or_register_component_ids(world_components: &mut Components, ids: &mut Vec<ComponentId>) {
        let ghost start = *world_components;
        let ghost start_ids = ids@;
        proof {
            lemma_extends_reflexive(&start);
            assert(ids@.subrange(0, start_ids.len() as int) =~= start_ids);
        }
        let ghost before0 = *world_components;
        let ghost ids_before0 = ids@;
        B0::get_or_register_component_ids(world_components, ids);
        proof {
            lemma_bundle_step(&start, &before0, &*world_components, start_ids, ids_before0, ids@);
        }
        let ghost before1 = *world_components;
        let ghost ids_before1 = ids@;
        B1::get_or_register_component_ids(world_components, ids);
        proof {
            lemma_bundle_step(&start, &before1, &*world_components, start_ids, ids_before1, ids@);
            lemma_keys_step(&before1, &*world_components, start_ids.len() as int, ids_before1, ids@, B0::component_keys(), B1::component_keys());
            lemma_push_keys_concat(start.component_keys(), start.infos().len(), B0::component_keys(), B1::component_keys());
        }
        let ghost before2 = *world_components;
        let ghost ids_before2 = ids@;
        B2::get_or_register_component_ids(world_components, ids);
        proof {
            lemma_bundle_step(&start, &before2, &*world_components, start_ids, ids_before2, ids@);
            lemma_keys_step(&before2, &*world_components, start_ids.len() as int, ids_before2, ids@, B0::component_keys() + B1::component_keys(), B2::component_keys());
            lemma_push_keys_concat(start.component_keys(), start.infos().len(), B0::component_keys() + B1::component_keys(), B2::component_keys());
        }
        let ghost before3 = *world_components;
        let ghost ids_before3 = ids@;
        B3::get_or_register_component_ids(world_components, ids);
        proof {
            lemma_bundle_step(&start, &before3, &*world_components, start_ids, ids_before3, ids@);
            lemma_keys_step(&before3, &*world_components, start_ids.len() as int, ids_before3, ids@, B0::component_keys() + B1::component_keys() + B2::component_keys(), B3::component_keys());
            lemma_push_keys_concat(start.component_keys(), start.infos().len(), B0::component_keys() + B1::component_keys() + B2::component_keys(), B3::component_keys());
        }
    }

    fn get_component_ids(world_components: &Components, ids: &mut Vec<Option<ComponentId>>) {
        let ghost start = ids@;
        assert(ids@.subrange(0, start.len() as int) =~= start);
        let ghost before0 = ids@;
        B0::get_component_ids(world_components, ids);
        assert(ids@.subrange(0, start.len() as int) =~= before0.subrange(0, start.len() as int));
        let ghost before1 = ids@;
        B1::get_component_ids(world_components, ids);
        assert(ids@.subrange(0, start.len() as int) =~= before1.subrange(0, start.len() as int));
        proof {
            lemma_lookups_step(world_components.component_keys(), start.len() as int, before1, ids@, B0::component_keys(), B1::component_keys());
        }
        let ghost before2 = ids@;
        B2::get_component_ids(world_components, ids);
        assert(ids@.subrange(0, start.len() as int) =~= before2.subrange(0, start.len() as int));
        proof {
            lemma_lookups_step(world_components.component_keys(), start.len() as int, before2, ids@, B0::component_keys() + B1::component_keys(), B2::component_keys());
        }
        let ghost before3 = ids@;
        B3::get_component_ids(world_components, ids);
        assert(ids@.subrange(0, start.len() as int) =~= before3.subrange(0, start.len() as int));
        proof {
            lemma_lookups_step(world_components.component_keys(), start.len() as int, before3, ids@, B0::component_keys() + B1::component_keys() + B2::component_keys(), B3::component_keys());
        }
    }
}

impl<B0: Bundle, B1: Bundle, B2: Bundle, B3: Bundle, B4: Bundle> Bundle for (B0, B1, B2, B3, B4) {
    open spec fn component_count() -> nat {
        B0::component_count() + B1::component_count() + B2::component_count() + B3::component_count() + B4::component_count()
    }

    open spec fn component_keys() -> Seq<TypeId> {
        B0::component_keys() + B1::component_keys() + B2::component_keys() + B3::component_keys() + B4::component_keys()
    }

    fn get_or_register_component_ids(world_components: &mut Components, ids: &mut Vec<ComponentId>) {
        let ghost start = *world_components;
        let ghost start_ids = ids@;
        proof {
            lemma_extends_reflexive(&start);
            assert(ids@.subrange(0, start_ids.len() as int) =~= start_ids);
        }
        let ghost before0 = *world_components;
        let ghost ids_before0 = ids@;
        B0::get_or_register_component_ids(world_components, ids);
        proof {
            lemma_bundle_step(&start, &before0, &*world_components, start_ids, ids_before0, ids@);
        }
        let ghost before1 = *world_components;
        let ghost ids_before1 = ids@;
        B1::get_or_register_component_ids(world_components, ids);
        proof {
            lemma_bundle_step(&start, &before1, &*world_components, start_ids, ids_before1, ids@);
            lemma_keys_step(&before1, &*world_components, start_ids.len() as int, ids_before1, ids@, B0::component_keys(), B1::component_keys());
            lemma_push_keys_concat(start.component_keys(), start.infos().len(), B0::component_keys(), B1::component_keys());
        }
        let ghost before2 = *world_components;
        let ghost ids_before2 = ids@;
        B2::get_or_register_component_ids(world_components, ids);
        proof {
            lemma_bundle_step(&start, &before2, &*world_components, start_ids, ids_before2, ids@);
            lemma_keys_step(&before2, &*world_components, start_ids.len() as int, ids_before2, ids@, B0::component_keys() + B1::component_keys(), B2::component_keys());
            lemma_push_keys_concat(start.component_keys(), start.infos().len(), B0::component_keys() + B1::component_keys(), B2::component_keys());
        }
        let ghost before3 = *world_components;
        let ghost ids_before3 = ids@;
        B3::get_or_register_component_ids(world_components, ids);
        proof {
            lemma_bundle_step(&start, &before3, &*world_components, start_ids, ids_before3, ids@);
            lemma_keys_step(&before3, &*world_components, start_ids.len() as int, ids_before3, ids@, B0::component_keys() + B1::component_keys() + B2::component_keys(), B3::component_keys());
            lemma_push_keys_concat(start.component_keys(), start.infos().len(), B0::component_keys() + B1::component_keys() + B2::component_keys(), B3::component_keys());
        }
        let ghost before4 = *world_components;
        let ghost ids_before4 = ids@;
        B4::get_or_register_component_ids(world_components, ids);
        proof {
            lemma_bundle_step(&start, &before4, &*world_components, start_ids, ids_before4, ids@);
            lemma_keys_step(&before4, &*world_components, start_ids.len() as int, ids_before4, ids@, B0::component_keys() + B1::component_keys() + B2::component_keys() + B3::component_keys(), B4::component_keys());
            lemma_push_keys_concat(start.component_keys(), start.infos().len(), B0::component_keys() + B1::component_keys() + B2::component_keys() + B3::component_keys(), B4::component_keys());
        }
    }

    fn get_component_ids(world_components: &Components, ids: &mut Vec<Option<ComponentId>>) {
        let ghost start = ids@;
        assert(ids@.subrange(0, start.len() as int) =~= start);
        let ghost before0 = ids@;
        B0::get_component_ids(world_components, ids);
        assert(ids@.subrange(0, start.len() as int) =~= before0.subrange(0, start.len() as int));
        let ghost before1 = ids@;
        B1::get_component_ids(world_components, ids);
        assert(ids@.subrange(0, start.len() as int) =~= before1.subrange(0, start.len() as int));
        proof {
            lemma_lookups_step(world_components.component_keys(), start.len() as int, before1, ids@, B0::component_keys(), B1::component_keys());
        }
        let ghost before2 = ids@;
        B2::get_component_ids(world_components, ids);
        assert(ids@.subrange(0, start.len() as int) =~= before2.subrange(0, start.len() as int));
        proof {
            lemma_lookups_step(world_components.component_keys(), start.len() as int, before2, ids@, B0::component_keys() + B1::component_keys(), B2::component_keys());
        }
        let ghost before3 = ids@;
        B3::get_component_ids(world_components, ids);
        assert(ids@.subrange(0, start.len() as int) =~= before3.subrange(0, start.len() as int));
        proof {
            lemma_lookups_step(world_components.component_keys(), start.len() as int, before3, ids@, B0::component_keys() + B1::component_keys() + B2::component_keys(), B3::component_keys());
        }
        let ghost before4 = ids@;
        B4::get_component_ids(world_components, ids);
        assert(ids@.subrange(0, start.len() as int) =~= before4.subrange(0, start.len() as int));
        proof {
            lemma_lookups_step(world_components.component_keys(), start.len() as int, before4, ids@, B0::component_keys() + B1::component_keys() + B2::component_keys() + B3::component_keys(), B4::component_keys());
        }
    }
}

impl<B0: Bundle, B1: Bundle, B2: Bundle, B3: Bundle, B4: Bundle, B5: Bundle> Bundle for (B0, B1, B2, B3, B4, B5) {
    open spec fn component_count() -> nat {
        B0::component_count() + B1::component_count() + B2::component_count() + B3::component_count() + B4::component_count() + B5::component_count()
    }

    open spec fn component_keys() -> Seq<TypeId> {
        B0::component_keys() + B1::component_keys() + B2::component_keys() + B3::component_keys() + B4::component_keys() + B5::component_keys()
    }

    fn get_or_register_component_ids(world_components: &mut Components, ids: &mut Vec<ComponentId>) {
        let ghost start = *world_components;
        let ghost start_ids = ids@;
        proof {
            lemma_extends_reflexive(&start);
            assert(ids@.subrange(0, start_ids.len() as int) =~= start_ids);
        }
        let ghost before0 = *world_components;
        let ghost ids_before0 = ids@;
        B0::get_or_register_component_ids(world_components, ids);
        proof {
            lemma_bundle_step(&start, &before0, &*world_components, start_ids, ids_before0, ids@);
        }
        let ghost before1 = *world_components;
        let ghost ids_before1 = ids@;
        B1::get_or_register_component_ids(world_components, ids);
        proof {
            lemma_bundle_step(&start, &before1, &*world_components, start_ids, ids_before1, ids@);
            lemma_keys_step(&before1, &*world_components, start_ids.len() as int, ids_before1, ids@, B0::component_keys(), B1::component_keys());
            lemma_push_keys_concat(start.component_keys(), start.infos().len(), B0::component_keys(), B1::component_keys());
        }
        let ghost before2 = *world_components;
        let ghost ids_before2 = ids@;
        B2::get_or_register_component_ids(world_components, ids);
        proof {
            lemma_bundle_step(&start, &before2, &*world_components, start_ids, ids_before2, ids@);
            lemma_keys_step(&before2, &*world_components, start_ids.len() as int, ids_before2, ids@, B0::component_keys() + B1::component_keys(), B2::component_keys());
            lemma_push_keys_concat(start.component_keys(), start.infos().len(), B0::component_keys() + B1::component_keys(), B2::component_keys());
        }
        let ghost before3 = *world_components;
        let ghost ids_before3 = ids@;
        B3::get_or_register_component_ids(world_components, ids);
        proof {
            lemma_bundle_step(&start, &before3, &*world_components, start_ids, ids_before3, ids@);
            lemma_keys_step(&before3, &*world_components, start_ids.len() as int, ids_before3, ids@, B0::component_keys() + B1::component_keys() + B2::component_keys(), B3::component_keys());
            lemma_push_keys_concat(start.component_keys(), start.infos().len(), B0::component_keys() + B1::component_keys() + B2::component_keys(), B3::component_keys());
        }
        let ghost before4 = *world_components;
        let ghost ids_before4 = ids@;
        B4::get_or_register_component_ids(world_components, ids);
        proof {
            lemma_bundle_step(&start, &before4, &*world_components, start_ids, ids_before4, ids@);
            lemma_keys_step(&before4, &*world_components, start_ids.len() as int, ids_before4, ids@, B0::component_keys() + B1::component_keys() + B2::component_keys() + B3::component_keys(), B4::component_keys());
            lemma_push_keys_concat(start.component_keys(), start.infos().len(), B0::component_keys() + B1::component_keys() + B2::component_keys() + B3::component_keys(), B4::component_keys());
        }
        let ghost before5 = *world_components;
        let ghost ids_before5 = ids@;
        B5::get_or_register_component_ids(world_components, ids);
        proof {
            lemma_bundle_step(&start, &before5, &*world_components, start_ids, ids_before5, ids@);
            lemma_keys_step(&before5, &*world_components, start_ids.len() as int, ids_before5, ids@, B0::component_keys() + B1::component_keys() + B2::component_keys() + B3::component_keys() + B4::component_keys(), B5::component_keys());
            lemma_push_keys_concat(start.component_keys(), start.infos().len(), B0::component_keys() + B1::component_keys() + B2::component_keys() + B3::component_keys() + B4::component_keys(), B5::component_keys());
        }
    }

    fn get_component_ids(world_components: &Components, ids: &mut Vec<Option<ComponentId>>) {
        let ghost start = ids@;
        assert(ids@.subrange(0, start.len() as int) =~= start);
        let ghost before0 = ids@;
        B0::get_component_ids(world_components, ids);
        assert(ids@.subrange(0, start.len() as int) =~= before0.subrange(0, start.len() as int));
        let ghost before1 = ids@;
        B1::get_component_ids(world_components, ids);
        assert(ids@.subrange(0, start.len() as int) =~= before1.subrange(0, start.len() as int));
        proof {
            lemma_lookups_step(world_components.component_keys(), start.len() as int, before1, ids@, B0::component_keys(), B1::component_keys());
        }
        let ghost before2 = ids@;
        B2::get_component_ids(world_components, ids);
        assert(ids@.subrange(0, start.len() as int) =~= before2.subrange(0, start.len() as int));
        proof {
            lemma_lookups_step(world_components.component_keys(), start.len() as int, before2, ids@, B0::component_keys() + B1::component_keys(), B2::component_keys());
        }
        let ghost before3 = ids@;
        B3::get_component_ids(world_components, ids);
        assert(ids@.subrange(0, start.len() as int) =~= before3.subrange(0, start.len() as int));
        proof {
            lemma_lookups_step(world_components.component_keys(), start.len() as int, before3, ids@, B0::component_keys() + B1::component_keys() + B2::component_keys(), B3::component_keys());
        }
        let ghost before4 = ids@;
        B4::get_component_ids(world_components, ids);
        assert(ids@.subrange(0, start.len() as int) =~= before4.subrange(0, start.len() as int));
        proof {
            lemma_lookups_step(world_components.component_keys(), start.len() as int, before4, ids@, B0::component_keys() + B1::component_keys() + B2::component_keys() + B3::component_keys(), B4::component_keys());
        }
        let ghost before5 = ids@;
        B5::get_component_ids(world_components, ids);
        assert(ids@.subrange(0, start.len() as int) =~= before5.subrange(0, start.len() as int));
        proof {
            lemma_lookups_step(world_components.component_keys(), start.len() as int, before5, ids@, B0::component_keys() + B1::component_keys() + B2::component_keys() + B3::component_keys() + B4::component_keys(), B5::component_keys());
        }
    }
}

impl<B0: Bundle, B1: Bundle, B2: Bundle, B3: Bundle, B4: Bundle, B5: Bundle, B6: Bundle> Bundle for (B0, B1, B2, B3, B4, B5, B6) {
    open spec fn component_count() -> nat {
        B0::component_count() + B1::component_count() + B2::component_count() + B3::component_count() + B4::component_count() + B5::component_count() + B6::component_count()
    }

    open spec fn component_keys() -> Seq<TypeId> {
        B0::component_keys() + B1::component_keys() + B2::component_keys() + B3::component_keys() + B4::component_keys() + B5::component_keys() + B6::component_keys()
    }

    fn get_or_register_component_ids(world_components: &mut Components, ids: &mut Vec<ComponentId>) {
        let ghost start = *world_components;
        let ghost start_ids = ids@;
        proof {
            lemma_extends_reflexive(&start);
            assert(ids@.subrange(0, start_ids.len() as int) =~= start_ids);
        }
        let ghost before0 = *world_components;
        let ghost ids_before0 = ids@;
        B0::get_or_register_component_ids(world_components, ids);
        proof {
            lemma_bundle_step(&start, &before0, &*world_components, start_ids, ids_before0, ids@);
        }
        let ghost before1 = *world_components;
        let ghost ids_before1 = ids@;
        B1::get_or_register_component_ids(world_components, ids);
        proof {
            lemma_bundle_step(&start, &before1, &*world_components, start_ids, ids_before1, ids@);
            lemma_keys_step(&before1, &*world_components, start_ids.len() as int, ids_before1, ids@, B0::component_keys(), B1::component_keys());
            lemma_push_keys_concat(start.component_keys(), start.infos().len(), B0::component_keys(), B1::component_keys());
        }
        let ghost before2 = *world_components;
        let ghost ids_before2 = ids@;
        B2::get_or_register_component_ids(world_components, ids);
        proof {
            lemma_bundle_step(&start, &before2, &*world_components, start_ids, ids_before2, ids@);
            lemma_keys_step(&before2, &*world_components, start_ids.len() as int, ids_before2, ids@, B0::component_keys() + B1::component_keys(), B2::component_keys());
            lemma_push_keys_concat(start.component_keys(), start.infos().len(), B0::component_keys() + B1::component_keys(), B2::component_keys());
        }
        let ghost before3 = *world_components;
        let ghost ids_before3 = ids@;
        B3::get_or_register_component_ids(world_components, ids);
        proof {
            lemma_bundle_step(&start, &before3, &*world_components, start_ids, ids_before3, ids@);
            lemma_keys_step(&before3, &*world_components, start_ids.len() as int, ids_before3, ids@, B0::component_keys() + B1::component_keys() + B2::component_keys(), B3::component_keys());
            lemma_push_keys_concat(start.component_keys(), start.infos().len(), B0::component_keys() + B1::component_keys() + B2::component_keys(), B3::component_keys());
        }
        let ghost before4 = *world_components;
        let ghost ids_before4 = ids@;
        B4::get_or_register_component_ids(world_components, ids);
        proof {
            lemma_bundle_step(&start, &before4, &*world_components, start_ids, ids_before4, ids@);
            lemma_keys_step(&before4, &*world_components, start_ids.len() as int, ids_before4, ids@, B0::component_keys() + B1::component_keys() + B2::component_keys() + B3::component_keys(), B4::component_keys());
            lemma_push_keys_concat(start.component_keys(), start.infos().len(), B0::component_keys() + B1::component_keys() + B2::component_keys() + B3::component_keys(), B4::component_keys());
        }
        let ghost before5 = *world_components;
        let ghost ids_before5 = ids@;
        B5::get_or_register_component_ids(world_components, ids);
        proof {
            lemma_bundle_step(&start, &before5, &*world_components, start_ids, ids_before5, ids@);
            lemma_keys_step(&before5, &*world_components, start_ids.len() as int, ids_before5, ids@, B0::component_keys() + B1::component_keys() + B2::component_keys() + B3::component_keys() + B4::component_keys(), B5::component_keys());
            lemma_push_keys_concat(start.component_keys(), start.infos().len(), B0::component_keys() + B1::component_keys() + B2::component_keys() + B3::component_keys() + B4::component_keys(), B5::component_keys());
        }
        let ghost before6 = *world_components;
        let ghost ids_before6 = ids@;
        B6::get_or_register_component_ids(world_components, ids);
        proof {
            lemma_bundle_step(&start, &before6, &*world_components, start_ids, ids_before6, ids@);
            lemma_keys_step(&before6, &*world_components, start_ids.len() as int, ids_before6, ids@, B0::component_keys() + B1::component_keys() + B2::component_keys() + B3::component_keys() + B4::component_keys() + B5::component_keys(), B6::component_keys());
            lemma_push_keys_concat(start.component_keys(), start.infos().len(), B0::component_keys() + B1::component_keys() + B2::component_keys() + B3::component_keys() + B4::component_keys() + B5::component_keys(), B6::component_keys());
        }
    }

    fn get_component_ids(world_components: &Components, ids: &mut Vec<Option<ComponentId>>) {
        let ghost start = ids@;
        assert(ids@.subrange(0, start.len() as int) =~= start);
        let ghost before0 = ids@;
        B0::get_component_ids(world_components, ids);
        assert(ids@.subrange(0, start.len() as int) =~= before0.subrange(0, start.len() as int));
        let ghost before1 = ids@;
        B1::get_component_ids(world_components, ids);
        assert(ids@.subrange(0, start.len() as int) =~= before1.subrange(0, start.len() as int));
        proof {
            lemma_lookups_step(world_components.component_keys(), start.len() as int, before1, ids@, B0::component_keys(), B1::component_keys());
        }
        let ghost before2 = ids@;
        B2::get_component_ids(world_components, ids);
        assert(ids@.subrange(0, start.len() as int) =~= before2.subrange(0, start.len() as int));
        proof {
            lemma_lookups_step(world_components.component_keys(), start.len() as int, before2, ids@, B0::component_keys() + B1::component_keys(), B2::component_keys());
        }
        let ghost before3 = ids@;
        B3::get_component_ids(world_components, ids);
        assert(ids@.subrange(0, start.len() as int) =~= before3.subrange(0, start.len() as int));
        proof {
            lemma_lookups_step(world_components.component_keys(), start.len() as int, before3, ids@, B0::component_keys() + B1::component_keys() + B2::component_keys(), B3::component_keys());
        }
        let ghost before4 = ids@;
        B4::get_component_ids(world_components, ids);
        assert(ids@.subrange(0, start.len() as int) =~= before4.subrange(0, start.len() as int));
        proof {
            lemma_lookups_step(world_components.component_keys(), start.len() as int, before4, ids@, B0::component_keys() + B1::component_keys() + B2::component_keys() + B3::component_keys(), B4::component_keys());
        }
        let ghost before5 = ids@;
        B5::get_component_ids(world_components, ids);
        assert(ids@.subrange(0, start.len() as int) =~= before5.subrange(0, start.len() as int));
        proof {
            lemma_lookups_step(world_components.component_keys(), start.len() as int, before5, ids@, B0::component_keys() + B1::component_keys() + B2::component_keys() + B3::component_keys() + B4::component_keys(), B5::component_keys());
        }
        let ghost before6 = ids@;
        B6::get_component_ids(world_components, ids);
        assert(ids@.subrange(0, start.len() as int) =~= before6.subrange(0, start.len() as int));
        proof {
            lemma_lookups_step(world_components.component_keys(), start.len() as int, before6, ids@, B0::component_keys() + B1::component_keys() + B2::component_keys() + B3::component_keys() + B4::component_keys() + B5::component_keys(), B6::component_keys());
        }
    }
}

impl<B0: Bundle, B1: Bundle, B2: Bundle, B3: Bundle, B4: Bundle, B5: Bundle, B6: Bundle, B7: Bundle> Bundle for (B0, B1, B2, B3, B4, B5, B6, B7) {
    open spec fn component_count() -> nat {
        B0::component_count() + B1::component_count() + B2::component_count() + B3::component_count() + B4::component_count() + B5::component_count() + B6::component_count() + B7::component_count()
    }

    open spec fn component_keys() -> Seq<TypeId> {
        B0::component_keys() + B1::component_keys() + B2::component_keys() + B3::component_keys() + B4::component_keys() + B5::component_keys() + B6::component_keys() + B7::component_keys()
    }

    fn get_or_register_component_ids(world_components: &mut Components, ids: &mut Vec<ComponentId>) {
        let ghost start = *world_components;
        let ghost start_ids = ids@;
        proof {
            lemma_extends_reflexive(&start);
            assert(ids@.subrange(0, start_ids.len() as int) =~= start_ids);
        }
        let ghost before0 = *world_components;
        let ghost ids_before0 = ids@;
        B0::get_or_register_component_ids(world_components, ids);
        proof {
            lemma_bundle_step(&start, &before0, &*world_components, start_ids, ids_before0, ids@);
        }
        let ghost before1 = *world_components;
        let ghost ids_before1 = ids@;
        B1::get_or_register_component_ids(world_components, ids);
        proof {
            lemma_bundle_step(&start, &before1, &*world_components, start_ids, ids_before1, ids@);
            lemma_keys_step(&before1, &*world_components, start_ids.len() as int, ids_before1, ids@, B0::component_keys(), B1::component_keys());
            lemma_push_keys_concat(start.component_keys(), start.infos().len(), B0::component_keys(), B1::component_keys());
        }
        let ghost before2 = *world_components;
        let ghost ids_before2 = ids@;
        B2::get_or_register_component_ids(world_components, ids);
        proof {
            lemma_bundle_step(&start, &before2, &*world_components, start_ids, ids_before2, ids@);
            lemma_keys_step(&before2, &*world_components, start_ids.len() as int, ids_before2, ids@, B0::component_keys() + B1::component_keys(), B2::component_keys());
            lemma_push_keys_concat(start.component_keys(), start.infos().len(), B0::component_keys() + B1::component_keys(), B2::component_keys());
        }
        let ghost before3 = *world_components;
        let ghost ids_before3 = ids@;
        B3::get_or_register_component_ids(world_components, ids);
        proof {
            lemma_bundle_step(&start, &before3, &*world_components, start_ids, ids_before3, ids@);
            lemma_keys_step(&before3, &*world_components, start_ids.len() as int, ids_before3, ids@, B0::component_keys() + B1::component_keys() + B2::component_keys(), B3::component_keys());
            lemma_push_keys_concat(start.component_keys(), start.infos().len(), B0::component_keys() + B1::component_keys() + B2::component_keys(), B3::component_keys());
        }
        let ghost before4 = *world_components;
        let ghost ids_before4 = ids@;
        B4::get_or_register_component_ids(world_components, ids);
        proof {
            lemma_bundle_step(&start, &before4, &*world_components, start_ids, ids_before4, ids@);
            lemma_keys_step(&before4, &*world_components, start_ids.len() as int, ids_before4, ids@, B0::component_keys() + B1::component_keys() + B2::component_keys() + B3::component_keys(), B4::component_keys());
            lemma_push_keys_concat(start.component_keys(), start.infos().len(), B0::component_keys() + B1::component_keys() + B2::component_keys() + B3::component_keys(), B4::component_keys());
        }
        let ghost before5 = *world_components;
        let ghost ids_before5 = ids@;
        B5::get_or_register_component_ids(world_components, ids);
        proof {
            lemma_bundle_step(&start, &before5, &*world_components, start_ids, ids_before5, ids@);
            lemma_keys_step(&before5, &*world_components, start_ids.len() as int, ids_before5, ids@, B0::component_keys() + B1::component_keys() + B2::component_keys() + B3::component_keys() + B4::component_keys(), B5::component_keys());
            lemma_push_keys_concat(start.component_keys(), start.infos().len(), B0::component_keys() + B1::component_keys() + B2::component_keys() + B3::component_keys() + B4::component_keys(), B5::component_keys());
        }
        let ghost before6 = *world_components;
        let ghost ids_before6 = ids@;
        B6::get_or_register_component_ids(world_components, ids);
        proof {
            lemma_bundle_step(&start, &before6, &*world_components, start_ids, ids_before6, ids@);
            lemma_keys_step(&before6, &*world_components, start_ids.len() as int, ids_before6, ids@, B0::component_keys() + B1::component_keys() + B2::component_keys() + B3::component_keys() + B4::component_keys() + B5::component_keys(), B6::component_keys());
            lemma_push_keys_concat(start.component_keys(), start.infos().len(), B0::component_keys() + B1::component_keys() + B2::component_keys() + B3::component_keys() + B4::component_keys() + B5::component_keys(), B6::component_keys());
        }
        let ghost before7 = *world_components;
        let ghost ids_before7 = ids@;
        B7::get_or_register_component_ids(world_components, ids);
        proof {
            lemma_bundle_step(&start, &before7, &*world_components, start_ids, ids_before7, ids@);
            lemma_keys_step(&before7, &*world_components, start_ids.len() as int, ids_before7, ids@, B0::component_keys() + B1::component_keys() + B2::component_keys() + B3::component_keys() + B4::component_keys() + B5::component_keys() + B6::component_keys(), B7::component_keys());
            lemma_push_keys_concat(start.component_keys(), start.infos().len(), B0::component_keys() + B1::component_keys() + B2::component_keys() + B3::component_keys() + B4::component_keys() + B5::component_keys() + B6::component_keys(), B7::component_keys());
        }
    }

    fn get_component_ids(world_components: &Components, ids: &mut Vec<Option<ComponentId>>) {
        let ghost start = ids@;
        assert(ids@.subrange(0, start.len() as int) =~= start);
        let ghost before0 = ids@;
        B0::get_component_ids(world_components, ids);
        assert(ids@.subrange(0, start.len() as int) =~= before0.subrange(0, start.len() as int));
        let ghost before1 = ids@;
        B1::get_component_ids(world_components, ids);
        assert(ids@.subrange(0, start.len() as int) =~= before1.subrange(0, start.len() as int));
        proof {
            lemma_lookups_step(world_components.component_keys(), start.len() as int, before1, ids@, B0::component_keys(), B1::component_keys());
        }
        let ghost before2 = ids@;
        B2::get_component_ids(world_components, ids);
        assert(ids@.subrange(0, start.len() as int) =~= before2.subrange(0, start.len() as int));
        proof {
            lemma_lookups_step(world_components.component_keys(), start.len() as int, before2, ids@, B0::component_keys() + B1::component_keys(), B2::component_keys());
        }
        let ghost before3 = ids@;
        B3::get_component_ids(world_components, ids);
        assert(ids@.subrange(0, start.len() as int) =~= before3.subrange(0, start.len() as int));
        proof {
            lemma_lookups_step(world_components.component_keys(), start.len() as int, before3, ids@, B0::component_keys() + B1::component_keys() + B2::component_keys(), B3::component_keys());
        }
        let ghost before4 = ids@;
        B4::get_component_ids(world_components, ids);
        assert(ids@.subrange(0, start.len() as int) =~= before4.subrange(0, start.len() as int));
        proof {
            lemma_lookups_step(world_components.component_keys(), start.len() as int, before4, ids@, B0::component_keys() + B1::component_keys() + B2::component_keys() + B3::component_keys(), B4::component_keys());
        }
        let ghost before5 = ids@;
        B5::get_component_ids(world_components, ids);
        assert(ids@.subrange(0, start.len() as int) =~= before5.subrange(0, start.len() as int));
        proof {
            lemma_lookups_step(world_components.component_keys(), start.len() as int, before5, ids@, B0::component_keys() + B1::component_keys() + B2::component_keys() + B3::component_keys() + B4::component_keys(), B5::component_keys());
        }
        let ghost before6 = ids@;
        B6::get_component_ids(world_components, ids);
        assert(ids@.subrange(0, start.len() as int) =~= before6.subrange(0, start.len() as int));
        proof {
            lemma_lookups_step(world_components.component_keys(), start.len() as int, before6, ids@, B0::component_keys() + B1::component_keys() + B2::component_keys() + B3::component_keys() + B4::component_keys() + B5::component_keys(), B6::component_keys());
        }
        let ghost before7 = ids@;
        B7::get_component_ids(world_components, ids);
        assert(ids@.subrange(0, start.len() as int) =~= before7.subrange(0, start.len() as int));
        proof {
            lemma_lookups_step(world_components.component_keys(), start.len() as int, before7, ids@, B0::component_keys() + B1::component_keys() + B2::component_keys() + B3::component_keys() + B4::component_keys() + B5::component_keys() + B6::component_keys(), B7::component_keys());
        }
    }
}

impl<B0: Bundle, B1: Bundle, B2: Bundle, B3: Bundle, B4: Bundle, B5: Bundle, B6: Bundle, B7: Bundle, B8: Bundle> Bundle for (B0, B1, B2, B3, B4, B5, B6, B7, B8) {
    open spec fn component_count() -> nat {
        B0::component_count() + B1::component_count() + B2::component_count() + B3::component_count() + B4::component_count() + B5::component_count() + B6::component_count() + B7::component_count() + B8::component_count()
    }

    open spec fn component_keys() -> Seq<TypeId> {
        B0::component_keys() + B1::component_keys() + B2::component_keys() + B3::component_keys() + B4::component_keys() + B5::component_keys() + B6::component_keys() + B7::component_keys() + B8::component_keys()
    }

    fn get_or_register_component_ids(world_components: &mut Components, ids: &mut Vec<ComponentId>) {
        let ghost start = *world_components;
        let ghost start_ids = ids@;
        proof {
            lemma_extends_reflexive(&start);
            assert(ids@.subrange(0, start_ids.len() as int) =~= start_ids);
        }
        let ghost before0 = *world_components;
        let ghost ids_before0 = ids@;
        B0::get_or_register_component_ids(world_components, ids);
        proof {
            lemma_bundle_step(&start, &before0, &*world_components, start_ids, ids_before0, ids@);
        }
        let ghost before1 = *world_components;
        let ghost ids_before1 = ids@;
        B1::get_or_register_component_ids(world_components, ids);
        proof {
            lemma_bundle_step(&start, &before1, &*world_components, start_ids, ids_before1, ids@);
            lemma_keys_step(&before1, &*world_components, start_ids.len() as int, ids_before1, ids@, B0::component_keys(), B1::component_keys());
            lemma_push_keys_concat(start.component_keys(), start.infos().len(), B0::component_keys(), B1::component_keys());
        }
        let ghost before2 = *world_components;
        let ghost ids_before2 = ids@;
        B2::get_or_register_component_ids(world_components, ids);
        proof {
            lemma_bundle_step(&start, &before2, &*world_components, start_ids, ids_before2, ids@);
            lemma_keys_step(&before2, &*world_components, start_ids.len() as int, ids_before2, ids@, B0::component_keys() + B1::component_keys(), B2::component_keys());
            lemma_push_keys_concat(start.component_keys(), start.infos().len(), B0::component_keys() + B1::component_keys(), B2::component_keys());
        }
        let ghost before3 = *world_components;
        let ghost ids_before3 = ids@;
        B3::get_or_register_component_ids(world_components, ids);
        proof {
            lemma_bundle_step(&start, &before3, &*world_components, start_ids, ids_before3, ids@);
            lemma_keys_step(&before3, &*world_components, start_ids.len() as int, ids_before3, ids@, B0::component_keys() + B1::component_keys() + B2::component_keys(), B3::component_keys());
            lemma_push_keys_concat(start.component_keys(), start.infos().len(), B0::component_keys() + B1::component_keys() + B2::component_keys(), B3::component_keys());
        }
        let ghost before4 = *world_components;
        let ghost ids_before4 = ids@;
        B4::get_or_register_component_ids(world_components, ids);
        proof {
            lemma_bundle_step(&start, &before4, &*world_components, start_ids, ids_before4, ids@);
            lemma_keys_step(&before4, &*world_components, start_ids.len() as int, ids_before4, ids@, B0::component_keys() + B1::component_keys() + B2::component_keys() + B3::component_keys(), B4::component_keys());
            lemma_push_keys_concat(start.component_keys(), start.infos().len(), B0::component_keys() + B1::component_keys() + B2::component_keys() + B3::component_keys(), B4::component_keys());
        }
        let ghost before5 = *world_components;
        let ghost ids_before5 = ids@;
        B5::get_or_register_component_ids(world_components, ids);
        proof {
            lemma_bundle_step(&start, &before5, &*world_components, start_ids, ids_before5, ids@);
            lemma_keys_step(&before5, &*world_components, start_ids.len() as int, ids_before5, ids@, B0::component_keys() + B1::component_keys() + B2::component_keys() + B3::component_keys() + B4::component_keys(), B5::component_keys());
            lemma_push_keys_concat(start.component_keys(), start.infos().len(), B0::component_keys() + B1::component_keys() + B2::component_keys() + B3::component_keys() + B4::component_keys(), B5::component_keys());
        }
        let ghost before6 = *world_components;
        let ghost ids_before6 = ids@;
        B6::get_or_register_component_ids(world_components, ids);
        proof {
            lemma_bundle_step(&start, &before6, &*world_components, start_ids, ids_before6, ids@);
            lemma_keys_step(&before6, &*world_components, start_ids.len() as int, ids_before6, ids@, B0::component_keys() + B1::component_keys() + B2::component_keys() + B3::component_keys() + B4::component_keys() + B5::component_keys(), B6::component_keys());
            lemma_push_keys_concat(start.component_keys(), start.infos().len(), B0::component_keys() + B1::component_keys() + B2::component_keys() + B3::component_keys() + B4::component_keys() + B5::component_keys(), B6::component_keys());
        }
        let ghost before7 = *world_components;
        let ghost ids_before7 = ids@;
        B7::get_or_register_component_ids(world_components, ids);
        proof {
            lemma_bundle_step(&start, &before7, &*world_components, start_ids, ids_before7, ids@);
            lemma_keys_step(&before7, &*world_components, start_ids.len() as int, ids_before7, ids@, B0::component_keys() + B1::component_keys() + B2::component_keys() + B3::component_keys() + B4::component_keys() + B5::component_keys() + B6::component_keys(), B7::component_keys());
            lemma_push_keys_concat(start.component_keys(), start.infos().len(), B0::component_keys() + B1::component_keys() + B2::component_keys() + B3::component_keys() + B4::component_keys() + B5::component_keys() + B6::component_keys(), B7::component_keys());
        }
        let ghost before8 = *world_components;
        let ghost ids_before8 = ids@;
        B8::get_or_register_component_ids(world_components, ids);
        proof {
            lemma_bundle_step(&start, &before8, &*world_components, start_ids, ids_before8, ids@);
            lemma_keys_step(&before8, &*world_components, start_ids.len() as int, ids_before8, ids@, B0::component_keys() + B1::component_keys() + B2::component_keys() + B3::component_keys() + B4::component_keys() + B5::component_keys() + B6::component_keys() + B7::component_keys(), B8::component_keys());
            lemma_push_keys_concat(start.component_keys(), start.infos().len(), B0::component_keys() + B1::component_keys() + B2::component_keys() + B3::component_keys() + B4::component_keys() + B5::component_keys() + B6::component_keys() + B7::component_keys(), B8::component_keys());
        }
    }

    fn get_component_ids(world_components: &Components, ids: &mut Vec<Option<ComponentId>>) {
        let ghost start = ids@;
        assert(ids@.subrange(0, start.len() as int) =~= start);
        let ghost before0 = ids@;
        B0::get_component_ids(world_components, ids);
        assert(ids@.subrange(0, start.len() as int) =~= before0.subrange(0, start.len() as int));
        let ghost before1 = ids@;
        B1::get_component_ids(world_components, ids);
        assert(ids@.subrange(0, start.len() as int) =~= before1.subrange(0, start.len() as int));
        proof {
            lemma_lookups_step(world_components.component_keys(), start.len() as int, before1, ids@, B0::component_keys(), B1::component_keys());
        }
        let ghost before2 = ids@;
        B2::get_component_ids(world_components, ids);
        assert(ids@.subrange(0, start.len() as int) =~= before2.subrange(0, start.len() as int));
        proof {
            lemma_lookups_step(world_components.component_keys(), start.len() as int, before2, ids@, B0::component_keys() + B1::component_keys(), B2::component_keys());
        }
        let ghost before3 = ids@;
        B3::get_component_ids(world_components, ids);
        assert(ids@.subrange(0, start.len() as int) =~= before3.subrange(0, start.len() as int));
        proof {
            lemma_lookups_step(world_components.component_keys(), start.len() as int, before3, ids@, B0::component_keys() + B1::component_keys() + B2::component_keys(), B3::component_keys());
        }
        let ghost before4 = ids@;
        B4::get_component_ids(world_components, ids);
        assert(ids@.subrange(0, start.len() as int) =~= before4.subrange(0, start.len() as int));
        proof {
            lemma_lookups_step(world_components.component_keys(), start.len() as int, before4, ids@, B0::component_keys() + B1::component_keys() + B2::component_keys() + B3::component_keys(), B4::component_keys());
        }
        let ghost before5 = ids@;
        B5::get_component_ids(world_components, ids);
        assert(ids@.subrange(0, start.len() as int) =~= before5.subrange(0, start.len() as int));
        proof {
            lemma_lookups_step(world_components.component_keys(), start.len() as int, before5, ids@, B0::component_keys() + B1::component_keys() + B2::component_keys() + B3::component_keys() + B4::component_keys(), B5::component_keys());
        }
        let ghost before6 = ids@;
        B6::get_component_ids(world_components, ids);
        assert(ids@.subrange(0, start.len() as int) =~= before6.subrange(0, start.len() as int));
        proof {
            lemma_lookups_step(world_components.component_keys(), start.len() as int, before6, ids@, B0::component_keys() + B1::component_keys() + B2::component_keys() + B3::component_keys() + B4::component_keys() + B5::component_keys(), B6::component_keys());
        }
        let ghost before7 = ids@;
        B7::get_component_ids(world_components, ids);
        assert(ids@.subrange(0, start.len() as int) =~= before7.subrange(0, start.len() as int));
        proof {
            lemma_lookups_step(world_components.component_keys(), start.len() as int, before7, ids@, B0::component_keys() + B1::component_keys() + B2::component_keys() + B3::component_keys() + B4::component_keys() + B5::component_keys() + B6::component_keys(), B7::component_keys());
        }
        let ghost before8 = ids@;
        B8::get_component_ids(world_components, ids);
        assert(ids@.subrange(0, start.len() as int) =~= before8.subrange(0, start.len() as int));
        proof {
            lemma_lookups_step(world_components.component_keys(), start.len() as int, before8, ids@, B0::component_keys() + B1::component_keys() + B2::component_keys() + B3::component_keys() + B4::component_keys() + B5::component_keys() + B6::component_keys() + B7::component_keys(), B8::component_keys());
        }
    }
}

impl<B0: Bundle, B1: Bundle, B2: Bundle, B3: Bundle, B4: Bundle, B5: Bundle, B6: Bundle, B7: Bundle, B8: Bundle, B9: Bundle> Bundle for (B0, B1, B2, B3, B4, B5, B6, B7, B8, B9) {
    open spec fn component_count() -> nat {
        B0::component_count() + B1::component_count() + B2::component_count() + B3::component_count() + B4::component_count() + B5::component_count() + B6::component_count() + B7::component_count() + B8::component_count() + B9::component_count()
    }

    open spec fn component_keys() -> Seq<TypeId> {
        B0::component_keys() + B1::component_keys() + B2::component_keys() + B3::component_keys() + B4::component_keys() + B5::component_keys() + B6::component_keys() + B7::component_keys() + B8::component_keys() + B9::component_keys()
    }

    fn get_or_register_component_ids(world_components: &mut Components, ids: &mut Vec<ComponentId>) {
        let ghost start = *world_components;
        let ghost start_ids = ids@;
        proof {
            lemma_extends_reflexive(&start);
            assert(ids@.subrange(0, start_ids.len() as int) =~= start_ids);
        }
        let ghost before0 = *world_components;
        let ghost ids_before0 = ids@;
        B0::get_or_register_component_ids(world_components, ids);
        proof {
            lemma_bundle_step(&start, &before0, &*world_components, start_ids, ids_before0, ids@);
        }
        let ghost before1 = *world_components;
        let ghost ids_before1 = ids@;
        B1::get_or_register_component_ids(world_components, ids);
        proof {
            lemma_bundle_step(&start, &before1, &*world_components, start_ids, ids_before1, ids@);
            lemma_keys_step(&before1, &*world_components, start_ids.len() as int, ids_before1, ids@, B0::component_keys(), B1::component_keys());
            lemma_push_keys_concat(start.component_keys(), start.infos().len(), B0::component_keys(), B1::component_keys());
        }
        let ghost before2 = *world_components;
        let ghost ids_before2 = ids@;
        B2::get_or_register_component_ids(world_components, ids);
        proof {
            lemma_bundle_step(&start, &before2, &*world_components, start_ids, ids_before2, ids@);
            lemma_keys_step(&before2, &*world_components, start_ids.len() as int, ids_before2, ids@, B0::component_keys() + B1::component_keys(), B2::component_keys());
            lemma_push_keys_concat(start.component_keys(), start.infos().len(), B0::component_keys() + B1::component_keys(), B2::component_keys());
        }
        let ghost before3 = *world_components;
        let ghost ids_before3 = ids@;
        B3::get_or_register_component_ids(world_components, ids);
        proof {
            lemma_bundle_step(&start, &before3, &*world_components, start_ids, ids_before3, ids@);
            lemma_keys_step(&before3, &*world_components, start_ids.len() as int, ids_before3, ids@, B0::component_keys() + B1::component_keys() + B2::component_keys(), B3::component_keys());
            lemma_push_keys_concat(start.component_keys(), start.infos().len(), B0::component_keys() + B1::component_keys() + B2::component_keys(), B3::component_keys());
        }
        let ghost before4 = *world_components;
        let ghost ids_before4 = ids@;
        B4::get_or_register_component_ids(world_components, ids);
        proof {
            lemma_bundle_step(&start, &before4, &*world_components, start_ids, ids_before4, ids@);
            lemma_keys_step(&before4, &*world_components, start_ids.len() as int, ids_before4, ids@, B0::component_keys() + B1::component_keys() + B2::component_keys() + B3::component_keys(), B4::component_keys());
            lemma_push_keys_concat(start.component_keys(), start.infos().len(), B0::component_keys() + B1::component_keys() + B2::component_keys() + B3::component_keys(), B4::component_keys());
        }
        let ghost before5 = *world_components;
        let ghost ids_before5 = ids@;
        B5::get_or_register_component_ids(world_components, ids);
        proof {
            lemma_bundle_step(&start, &before5, &*world_components, start_ids, ids_before5, ids@);
            lemma_keys_step(&before5, &*world_components, start_ids.len() as int, ids_before5, ids@, B0::component_keys() + B1::component_keys() + B2::component_keys() + B3::component_keys() + B4::component_keys(), B5::component_keys());
            lemma_push_keys_concat(start.component_keys(), start.infos().len(), B0::component_keys() + B1::component_keys() + B2::component_keys() + B3::component_keys() + B4::component_keys(), B5::component_keys());
        }
        let ghost before6 = *world_components;
        let ghost ids_before6 = ids@;
        B6::get_or_register_component_ids(world_components, ids);
        proof {
            lemma_bundle_step(&start, &before6, &*world_components, start_ids, ids_before6, ids@);
            lemma_keys_step(&before6, &*world_components, start_ids.len() as int, ids_before6, ids@, B0::component_keys() + B1::component_keys() + B2::component_keys() + B3::component_keys() + B4::component_keys() + B5::component_keys(), B6::component_keys());
            lemma_push_keys_concat(start.component_keys(), start.infos().len(), B0::component_keys() + B1::component_keys() + B2::component_keys() + B3::component_keys() + B4::component_keys() + B5::component_keys(), B6::component_keys());
        }
        let ghost before7 = *world_components;
        let ghost ids_before7 = ids@;
        B7::get_or_register_component_ids(world_components, ids);
        proof {
            lemma_bundle_step(&start, &before7, &*world_components, start_ids, ids_before7, ids@);
            lemma_keys_step(&before7, &*world_components, start_ids.len() as int, ids_before7, ids@, B0::component_keys() + B1::component_keys() + B2::component_keys() + B3::component_keys() + B4::component_keys() + B5::component_keys() + B6::component_keys(), B7::component_keys());
            lemma_push_keys_concat(start.component_keys(), start.infos().len(), B0::component_keys() + B1::component_keys() + B2::component_keys() + B3::component_keys() + B4::component_keys() + B5::component_keys() + B6::component_keys(), B7::component_keys());
        }
        let ghost before8 = *world_components;
        let ghost ids_before8 = ids@;
        B8::get_or_register_component_ids(world_components, ids);
        proof {
            lemma_bundle_step(&start, &before8, &*world_components, start_ids, ids_before8, ids@);
            lemma_keys_step(&before8, &*world_components, start_ids.len() as int, ids_before8, ids@, B0::component_keys() + B1::component_keys() + B2::component_keys() + B3::component_keys() + B4::component_keys() + B5::component_keys() + B6::component_keys() + B7::component_keys(), B8::component_keys());
            lemma_push_keys_concat(start.component_keys(), start.infos().len(), B0::component_keys() + B1::component_keys() + B2::component_keys() + B3::component_keys() + B4::component_keys() + B5::component_keys() + B6::component_keys() + B7::component_keys(), B8::component_keys());
        }
        let ghost before9 = *world_components;
        let ghost ids_before9 = ids@;
        B9::get_or_register_component_ids(world_components, ids);
        proof {
            lemma_bundle_step(&start, &before9, &*world_components, start_ids, ids_before9, ids@);
            lemma_keys_step(&before9, &*world_components, start_ids.len() as int, ids_before9, ids@, B0::component_keys() + B1::component_keys() + B2::component_keys() + B3::component_keys() + B4::component_keys() + B5::component_keys() + B6::component_keys() + B7::component_keys() + B8::component_keys(), B9::component_keys());
            lemma_push_keys_concat(start.component_keys(), start.infos().len(), B0::component_keys() + B1::component_keys() + B2::component_keys() + B3::component_keys() + B4::component_keys() + B5::component_keys() + B6::component_keys() + B7::component_keys() + B8::component_keys(), B9::component_keys());
        }
    }

    fn get_component_ids(world_components: &Components, ids: &mut Vec<Option<ComponentId>>) {
        let ghost start = ids@;
        assert(ids@.subrange(0, start.len() as int) =~= start);
        let ghost before0 = ids@;
        B0::get_component_ids(world_components, ids);
        assert(ids@.subrange(0, start.len() as int) =~= before0.subrange(0, start.len() as int));
        let ghost before1 = ids@;
        B1::get_component_ids(world_components, ids);
        assert(ids@.subrange(0, start.len() as int) =~= before1.subrange(0, start.len() as int));
        proof {
            lemma_lookups_step(world_components.component_keys(), start.len() as int, before1, ids@, B0::component_keys(), B1::component_keys());
        }
        let ghost before2 = ids@;
        B2::get_component_ids(world_components, ids);
        assert(ids@.subrange(0, start.len() as int) =~= before2.subrange(0, start.len() as int));
        proof {
            lemma_lookups_step(world_components.component_keys(), start.len() as int, before2, ids@, B0::component_keys() + B1::component_keys(), B2::component_keys());
        }
        let ghost before3 = ids@;
        B3::get_component_ids(world_components, ids);
        assert(ids@.subrange(0, start.len() as int) =~= before3.subrange(0, start.len() as int));
        proof {
            lemma_lookups_step(world_components.component_keys(), start.len() as int, before3, ids@, B0::component_keys() + B1::component_keys() + B2::component_keys(), B3::component_keys());
        }
        let ghost before4 = ids@;
        B4::get_component_ids(world_components, ids);
        assert(ids@.subrange(0, start.len() as int) =~= before4.subrange(0, start.len() as int));
        proof {
            lemma_lookups_step(world_components.component_keys(), start.len() as int, before4, ids@, B0::component_keys() + B1::component_keys() + B2::component_keys() + B3::component_keys(), B4::component_keys());
        }
        let ghost before5 = ids@;
        B5::get_component_ids(world_components, ids);
        assert(ids@.subrange(0, start.len() as int) =~= before5.subrange(0, start.len() as int));
        proof {
            lemma_lookups_step(world_components.component_keys(), start.len() as int, before5, ids@, B0::component_keys() + B1::component_keys() + B2::component_keys() + B3::component_keys() + B4::component_keys(), B5::component_keys());
        }
        let ghost before6 = ids@;
        B6::get_component_ids(world_components, ids);
        assert(ids@.subrange(0, start.len() as int) =~= before6.subrange(0, start.len() as int));
        proof {
            lemma_lookups_step(world_components.component_keys(), start.len() as int, before6, ids@, B0::component_keys() + B1::component_keys() + B2::component_keys() + B3::component_keys() + B4::component_keys() + B5::component_keys(), B6::component_keys());
        }
        let ghost before7 = ids@;
        B7::get_component_ids(world_components, ids);
        assert(ids@.subrange(0, start.len() as int) =~= before7.subrange(0, start.len() as int));
        proof {
            lemma_lookups_step(world_components.component_keys(), start.len() as int, before7, ids@, B0::component_keys() + B1::component_keys() + B2::component_keys() + B3::component_keys() + B4::component_keys() + B5::component_keys() + B6::component_keys(), B7::component_keys());
        }
        let ghost before8 = ids@;
        B8::get_component_ids(world_components, ids);
        assert(ids@.subrange(0, start.len() as int) =~= before8.subrange(0, start.len() as int));
        proof {
            lemma_lookups_step(world_components.component_keys(), start.len() as int, before8, ids@, B0::component_keys() + B1::component_keys() + B2::component_keys() + B3::component_keys() + B4::component_keys() + B5::component_keys() + B6::component_keys() + B7::component_keys(), B8::component_keys());
        }
        let ghost before9 = ids@;
        B9::get_component_ids(world_components, ids);
        assert(ids@.subrange(0, start.len() as int) =~= before9.subrange(0, start.len() as int));
        proof {
            lemma_lookups_step(world_components.component_keys(), start.len() as int, before9, ids@, B0::component_keys() + B1::component_keys() + B2::component_keys() + B3::component_keys() + B4::component_keys() + B5::component_keys() + B6::component_keys() + B7::component_keys() + B8::component_keys(), B9::component_keys());
        }
    }
}

impl<B0: Bundle, B1: Bundle, B2: Bundle, B3: Bundle, B4: Bundle, B5: Bundle, B6: Bundle, B7: Bundle, B8: Bundle, B9: Bundle, B10: Bundle> Bundle for (B0, B1, B2, B3, B4, B5, B6, B7, B8, B9, B10) {
    open spec fn component_count() -> nat {
        B0::component_count() + B1::component_count() + B2::component_count() + B3::component_count() + B4::component_count() + B5::component_count() + B6::component_count() + B7::component_count() + B8::component_count() + B9::component_count() + B10::component_count()
    }

    open spec fn component_keys() -> Seq<TypeId> {
        B0::component_keys() + B1::component_keys() + B2::component_keys() + B3::component_keys() + B4::component_keys() + B5::component_keys() + B6::component_keys() + B7::component_keys() + B8::component_keys() + B9::component_keys() + B10::component_keys()
    }

    fn get_or_register_component_ids(world_components: &mut Components, ids: &mut Vec<ComponentId>) {
        let ghost start = *world_components;
        let ghost start_ids = ids@;
        proof {
            lemma_extends_reflexive(&start);
            assert(ids@.subrange(0, start_ids.len() as int) =~= start_ids);
        }
        let ghost before0 = *world_components;
        let ghost ids_before0 = ids@;
        B0::get_or_register_component_ids(world_components, ids);
        proof {
            lemma_bundle_step(&start, &before0, &*world_components, start_ids, ids_before0, ids@);
        }
        let ghost before1 = *world_components;
        let ghost ids_before1 = ids@;
        B1::get_or_register_component_ids(world_components, ids);
        proof {
            lemma_bundle_step(&start, &before1, &*world_components, start_ids, ids_before1, ids@);
            lemma_keys_step(&before1, &*world_components, start_ids.len() as int, ids_before1, ids@, B0::component_keys(), B1::component_keys());
            lemma_push_keys_concat(start.component_keys(), start.infos().len(), B0::component_keys(), B1::component_keys());
        }
        let ghost before2 = *world_components;
        let ghost ids_before2 = ids@;
        B2::get_or_register_component_ids(world_components, ids);
        proof {
            lemma_bundle_step(&start, &before2, &*world_components, start_ids, ids_before2, ids@);
            lemma_keys_step(&before2, &*world_components, start_ids.len() as int, ids_before2, ids@, B0::component_keys() + B1::component_keys(), B2::component_keys());
            lemma_push_keys_concat(start.component_keys(), start.infos().len(), B0::component_keys() + B1::component_keys(), B2::component_keys());
        }
        let ghost before3 = *world_components;
        let ghost ids_before3 = ids@;
        B3::get_or_register_component_ids(world_components, ids);
        proof {
            lemma_bundle_step(&start, &before3, &*world_components, start_ids, ids_before3, ids@);
            lemma_keys_step(&before3, &*world_components, start_ids.len() as int, ids_before3, ids@, B0::component_keys() + B1::component_keys() + B2::component_keys(), B3::component_keys());
            lemma_push_keys_concat(start.component_keys(), start.infos().len(), B0::component_keys() + B1::component_keys() + B2::component_keys(), B3::component_keys());
        }
        let ghost before4 = *world_components;
        let ghost ids_before4 = ids@;
        B4::get_or_register_component_ids(world_components, ids);
        proof {
            lemma_bundle_step(&start, &before4, &*world_components, start_ids, ids_before4, ids@);
            lemma_keys_step(&before4, &*world_components, start_ids.len() as int, ids_before4, ids@, B0::component_keys() + B1::component_keys() + B2::component_keys() + B3::component_keys(), B4::component_keys());
            lemma_push_keys_concat(start.component_keys(), start.infos().len(), B0::component_keys() + B1::component_keys() + B2::component_keys() + B3::component_keys(), B4::component_keys());
        }
        let ghost before5 = *world_components;
        let ghost ids_before5 = ids@;
        B5::get_or_register_component_ids(world_components, ids);
        proof {
            lemma_bundle_step(&start, &before5, &*world_components, start_ids, ids_before5, ids@);
            lemma_keys_step(&before5, &*world_components, start_ids.len() as int, ids_before5, ids@, B0::component_keys() + B1::component_keys() + B2::component_keys() + B3::component_keys() + B4::component_keys(), B5::component_keys());
            lemma_push_keys_concat(start.component_keys(), start.infos().len(), B0::component_keys() + B1::component_keys() + B2::component_keys() + B3::component_keys() + B4::component_keys(), B5::component_keys());
        }
        let ghost before6 = *world_components;
        let ghost ids_before6 = ids@;
        B6::get_or_register_component_ids(world_components, ids);
        proof {
            lemma_bundle_step(&start, &before6, &*world_components, start_ids, ids_before6, ids@);
            lemma_keys_step(&before6, &*world_components, start_ids.len() as int, ids_before6, ids@, B0::component_keys() + B1::component_keys() + B2::component_keys() + B3::component_keys() + B4::component_keys() + B5::component_keys(), B6::component_keys());
            lemma_push_keys_concat(start.component_keys(), start.infos().len(), B0::component_keys() + B1::component_keys() + B2::component_keys() + B3::component_keys() + B4::component_keys() + B5::component_keys(), B6::component_keys());
        }
        let ghost before7 = *world_components;
        let ghost ids_before7 = ids@;
        B7::get_or_register_component_ids(world_components, ids);
        proof {
            lemma_bundle_step(&start, &before7, &*world_components, start_ids, ids_before7, ids@);
            lemma_keys_step(&before7, &*world_components, start_ids.len() as int, ids_before7, ids@, B0::component_keys() + B1::component_keys() + B2::component_keys() + B3::component_keys() + B4::component_keys() + B5::component_keys() + B6::component_keys(), B7::component_keys());
            lemma_push_keys_concat(start.component_keys(), start.infos().len(), B0::component_keys() + B1::component_keys() + B2::component_keys() + B3::component_keys() + B4::component_keys() + B5::component_keys() + B6::component_keys(), B7::component_keys());
        }
        let ghost before8 = *world_components;
        let ghost ids_before8 = ids@;
        B8::get_or_register_component_ids(world_components, ids);
        proof {
            lemma_bundle_step(&start, &before8, &*world_components, start_ids, ids_before8, ids@);
            lemma_keys_step(&before8, &*world_components, start_ids.len() as int, ids_before8, ids@, B0::component_keys() + B1::component_keys() + B2::component_keys() + B3::component_keys() + B4::component_keys() + B5::component_keys() + B6::component_keys() + B7::component_keys(), B8::component_keys());
            lemma_push_keys_concat(start.component_keys(), start.infos().len(), B0::component_keys() + B1::component_keys() + B2::component_keys() + B3::component_keys() + B4::component_keys() + B5::component_keys() + B6::component_keys() + B7::component_keys(), B8::component_keys());
        }
        let ghost before9 = *world_components;
        let ghost ids_before9 = ids@;
        B9::get_or_register_component_ids(world_components, ids);
        proof {
            lemma_bundle_step(&start, &before9, &*world_components, start_ids, ids_before9, ids@);
            lemma_keys_step(&before9, &*world_components, start_ids.len() as int, ids_before9, ids@, B0::component_keys() + B1::component_keys() + B2::component_keys() + B3::component_keys() + B4::component_keys() + B5::component_keys() + B6::component_keys() + B7::component_keys() + B8::component_keys(), B9::component_keys());
            lemma_push_keys_concat(start.component_keys(), start.infos().len(), B0::component_keys() + B1::component_keys() + B2::component_keys() + B3::component_keys() + B4::component_keys() + B5::component_keys() + B6::component_keys() + B7::component_keys() + B8::component_keys(), B9::component_keys());
        }
        let ghost before10 = *world_components;
        let ghost ids_before10 = ids@;
        B10::get_or_register_component_ids(world_components, ids);
        proof {
            lemma_bundle_step(&start, &before10, &*world_components, start_ids, ids_before10, ids@);
            lemma_keys_step(&before10, &*world_components, start_ids.len() as int, ids_before10, ids@, B0::component_keys() + B1::component_keys() + B2::component_keys() + B3::component_keys() + B4::component_keys() + B5::component_keys() + B6::component_keys() + B7::component_keys() + B8::component_keys() + B9::component_keys(), B10::component_keys());
            lemma_push_keys_concat(start.component_keys(), start.infos().len(), B0::component_keys() + B1::component_keys() + B2::component_keys() + B3::component_keys() + B4::component_keys() + B5::component_keys() + B6::component_keys() + B7::component_keys() + B8::component_keys() + B9::component_keys(), B10::component_keys());
        }
    }

    fn get_component_ids(world_components: &Components, ids: &mut Vec<Option<ComponentId>>) {
        let ghost start = ids@;
        assert(ids@.subrange(0, start.len() as int) =~= start);
        let ghost before0 = ids@;
        B0::get_component_ids(world_components, ids);
        assert(ids@.subrange(0, start.len() as int) =~= before0.subrange(0, start.len() as int));
        let ghost before1 = ids@;
        B1::get_component_ids(world_components, ids);
        assert(ids@.subrange(0, start.len() as int) =~= before1.subrange(0, start.len() as int));
        proof {
            lemma_lookups_step(world_components.component_keys(), start.len() as int, before1, ids@, B0::component_keys(), B1::component_keys());
        }
        let ghost before2 = ids@;
        B2::get_component_ids(world_components, ids);
        assert(ids@.subrange(0, start.len() as int) =~= before2.subrange(0, start.len() as int));
        proof {
            lemma_lookups_step(world_components.component_keys(), start.len() as int, before2, ids@, B0::component_keys() + B1::component_keys(), B2::component_keys());
        }
        let ghost before3 = ids@;
        B3::get_component_ids(world_components, ids);
        assert(ids@.subrange(0, start.len() as int) =~= before3.subrange(0, start.len() as int));
        proof {
            lemma_lookups_step(world_components.component_keys(), start.len() as int, before3, ids@, B0::component_keys() + B1::component_keys() + B2::component_keys(), B3::component_keys());
        }
        let ghost before4 = ids@;
        B4::get_component_ids(world_components, ids);
        assert(ids@.subrange(0, start.len() as int) =~= before4.subrange(0, start.len() as int));
        proof {
            lemma_lookups_step(world_components.component_keys(), start.len() as int, before4, ids@, B0::component_keys() + B1::component_keys() + B2::component_keys() + B3::component_keys(), B4::component_keys());
        }
        let ghost before5 = ids@;
        B5::get_component_ids(world_components, ids);
        assert(ids@.subrange(0, start.len() as int) =~= before5.subrange(0, start.len() as int));
        proof {
            lemma_lookups_step(world_components.component_keys(), start.len() as int, before5, ids@, B0::component_keys() + B1::component_keys() + B2::component_keys() + B3::component_keys() + B4::component_keys(), B5::component_keys());
        }
        let ghost before6 = ids@;
        B6::get_component_ids(world_components, ids);
        assert(ids@.subrange(0, start.len() as int) =~= before6.subrange(0, start.len() as int));
        proof {
            lemma_lookups_step(world_components.component_keys(), start.len() as int, before6, ids@, B0::component_keys() + B1::component_keys() + B2::component_keys() + B3::component_keys() + B4::component_keys() + B5::component_keys(), B6::component_keys());
        }
        let ghost before7 = ids@;
        B7::get_component_ids(world_components, ids);
        assert(ids@.subrange(0, start.len() as int) =~= before7.subrange(0, start.len() as int));
        proof {
            lemma_lookups_step(world_components.component_keys(), start.len() as int, before7, ids@, B0::component_keys() + B1::component_keys() + B2::component_keys() + B3::component_keys() + B4::component_keys() + B5::component_keys() + B6::component_keys(), B7::component_keys());
        }
        let ghost before8 = ids@;
        B8::get_component_ids(world_components, ids);
        assert(ids@.subrange(0, start.len() as int) =~= before8.subrange(0, start.len() as int));
        proof {
            lemma_lookups_step(world_components.component_keys(), start.len() as int, before8, ids@, B0::component_keys() + B1::component_keys() + B2::component_keys() + B3::component_keys() + B4::component_keys() + B5::component_keys() + B6::component_keys() + B7::component_keys(), B8::component_keys());
        }
        let ghost before9 = ids@;
        B9::get_component_ids(world_components, ids);
        assert(ids@.subrange(0, start.len() as int) =~= before9.subrange(0, start.len() as int));
        proof {
            lemma_lookups_step(world_components.component_keys(), start.len() as int, before9, ids@, B0::component_keys() + B1::component_keys() + B2::component_keys() + B3::component_keys() + B4::component_keys() + B5::component_keys() + B6::component_keys() + B7::component_keys() + B8::component_keys(), B9::component_keys());
        }
        let ghost before10 = ids@;
        B10::get_component_ids(world_components, ids);
        assert(ids@.subrange(0, start.len() as int) =~= before10.subrange(0, start.len() as int));
        proof {
            lemma_lookups_step(world_components.component_keys(), start.len() as int, before10, ids@, B0::component_keys() + B1::component_keys() + B2::component_keys() + B3::component_keys() + B4::component_keys() + B5::component_keys() + B6::component_keys() + B7::component_keys() + B8::component_keys() + B9::component_keys(), B10::component_keys());
        }
    }
}

impl<B0: Bundle, B1: Bundle, B2: Bundle, B3: Bundle, B4: Bundle, B5: Bundle, B6: Bundle, B7: Bundle, B8: Bundle, B9: Bundle, B10: Bundle, B11: Bundle> Bundle for (B0, B1, B2, B3, B4, B5, B6, B7, B8, B9, B10, B11) {
    open spec fn component_count() -> nat {
        B0::component_count() + B1::component_count() + B2::component_count() + B3::component_count() + B4::component_count() + B5::component_count() + B6::component_count() + B7::component_count() + B8::component_count() + B9::component_count() + B10::component_count() + B11::component_count()
    }

    open spec fn component_keys() -> Seq<TypeId> {
        B0::component_keys() + B1::component_keys() + B2::component_keys() + B3::component_keys() + B4::component_keys() + B5::component_keys() + B6::component_keys() + B7::component_keys() + B8::component_keys() + B9::component_keys() + B10::component_keys() + B11::component_keys()
    }

    fn get_or_register_component_ids(world_components: &mut Components, ids: &mut Vec<ComponentId>) {
        let ghost start = *world_components;
        let ghost start_ids = ids@;
        proof {
            lemma_extends_reflexive(&start);
            assert(ids@.subrange(0, start_ids.len() as int) =~= start_ids);
        }
        let ghost before0 = *world_components;
        let ghost ids_before0 = ids@;
        B0::get_or_register_component_ids(world_components, ids);
        proof {
            lemma_bundle_step(&start, &before0, &*world_components, start_ids, ids_before0, ids@);
        }
        let ghost before1 = *world_components;
        let ghost ids_before1 = ids@;
        B1::get_or_register_component_ids(world_components, ids);
        proof {
            lemma_bundle_step(&start, &before1, &*world_components, start_ids, ids_before1, ids@);
            lemma_keys_step(&before1, &*world_components, start_ids.len() as int, ids_before1, ids@, B0::component_keys(), B1::component_keys());
            lemma_push_keys_concat(start.component_keys(), start.infos().len(), B0::component_keys(), B1::component_keys());
        }
        let ghost before2 = *world_components;
        let ghost ids_before2 = ids@;
        B2::get_or_register_component_ids(world_components, ids);
        proof {
            lemma_bundle_step(&start, &before2, &*world_components, start_ids, ids_before2, ids@);
            lemma_keys_step(&before2, &*world_components, start_ids.len() as int, ids_before2, ids@, B0::component_keys() + B1::component_keys(), B2::component_keys());
            lemma_push_keys_concat(start.component_keys(), start.infos().len(), B0::component_keys() + B1::component_keys(), B2::component_keys());
        }
        let ghost before3 = *world_components;
        let ghost ids_before3 = ids@;
        B3::get_or_register_component_ids(world_components, ids);
        proof {
            lemma_bundle_step(&start, &before3, &*world_components, start_ids, ids_before3, ids@);
            lemma_keys_step(&before3, &*world_components, start_ids.len() as int, ids_before3, ids@, B0::component_keys() + B1::component_keys() + B2::component_keys(), B3::component_keys());
            lemma_push_keys_concat(start.component_keys(), start.infos().len(), B0::component_keys() + B1::component_keys() + B2::component_keys(), B3::component_keys());
        }
        let ghost before4 = *world_components;
        let ghost ids_before4 = ids@;
        B4::get_or_register_component_ids(world_components, ids);
        proof {
            lemma_bundle_step(&start, &before4, &*world_components, start_ids, ids_before4, ids@);
            lemma_keys_step(&before4, &*world_components, start_ids.len() as int, ids_before4, ids@, B0::component_keys() + B1::component_keys() + B2::component_keys() + B3::component_keys(), B4::component_keys());
            lemma_push_keys_concat(start.component_keys(), start.infos().len(), B0::component_keys() + B1::component_keys() + B2::component_keys() + B3::component_keys(), B4::component_keys());
        }
        let ghost before5 = *world_components;
        let ghost ids_before5 = ids@;
        B5::get_or_register_component_ids(world_components, ids);
        proof {
            lemma_bundle_step(&start, &before5, &*world_components, start_ids, ids_before5, ids@);
            lemma_keys_step(&before5, &*world_components, start_ids.len() as int, ids_before5, ids@, B0::component_keys() + B1::component_keys() + B2::component_keys() + B3::component_keys() + B4::component_keys(), B5::component_keys());
            lemma_push_keys_concat(start.component_keys(), start.infos().len(), B0::component_keys() + B1::component_keys() + B2::component_keys() + B3::component_keys() + B4::component_keys(), B5::component_keys());
        }
        let ghost before6 = *world_components;
        let ghost ids_before6 = ids@;
        B6::get_or_register_component_ids(world_components, ids);
        proof {
            lemma_bundle_step(&start, &before6, &*world_components, start_ids, ids_before6, ids@);
            lemma_keys_step(&before6, &*world_components, start_ids.len() as int, ids_before6, ids@, B0::component_keys() + B1::component_keys() + B2::component_keys() + B3::component_keys() + B4::component_keys() + B5::component_keys(), B6::component_keys());
            lemma_push_keys_concat(start.component_keys(), start.infos().len(), B0::component_keys() + B1::component_keys() + B2::component_keys() + B3::component_keys() + B4::component_keys() + B5::component_keys(), B6::component_keys());
        }
        let ghost before7 = *world_components;
        let ghost ids_before7 = ids@;
        B7::get_or_register_component_ids(world_components, ids);
        proof {
            lemma_bundle_step(&start, &before7, &*world_components, start_ids, ids_before7, ids@);
            lemma_keys_step(&before7, &*world_components, start_ids.len() as int, ids_before7, ids@, B0::component_keys() + B1::component_keys() + B2::component_keys() + B3::component_keys() + B4::component_keys() + B5::component_keys() + B6::component_keys(), B7::component_keys());
            lemma_push_keys_concat(start.component_keys(), start.infos().len(), B0::component_keys() + B1::component_keys() + B2::component_keys() + B3::component_keys() + B4::component_keys() + B5::component_keys() + B6::component_keys(), B7::component_keys());
        }
        let ghost before8 = *world_components;
        let ghost ids_before8 = ids@;
        B8::get_or_register_component_ids(world_components, ids);
        proof {
            lemma_bundle_step(&start, &before8, &*world_components, start_ids, ids_before8, ids@);
            lemma_keys_step(&before8, &*world_components, start_ids.len() as int, ids_before8, ids@, B0::component_keys() + B1::component_keys() + B2::component_keys() + B3::component_keys() + B4::component_keys() + B5::component_keys() + B6::component_keys() + B7::component_keys(), B8::component_keys());
            lemma_push_keys_concat(start.component_keys(), start.infos().len(), B0::component_keys() + B1::component_keys() + B2::component_keys() + B3::component_keys() + B4::component_keys() + B5::component_keys() + B6::component_keys() + B7::component_keys(), B8::component_keys());
        }
        let ghost before9 = *world_components;
        let ghost ids_before9 = ids@;
        B9::get_or_register_component_ids(world_components, ids);
        proof {
            lemma_bundle_step(&start, &before9, &*world_components, start_ids, ids_before9, ids@);
            lemma_keys_step(&before9, &*world_components, start_ids.len() as int, ids_before9, ids@, B0::component_keys() + B1::component_keys() + B2::component_keys() + B3::component_keys() + B4::component_keys() + B5::component_keys() + B6::component_keys() + B7::component_keys() + B8::component_keys(), B9::component_keys());
            lemma_push_keys_concat(start.component_keys(), start.infos().len(), B0::component_keys() + B1::component_keys() + B2::component_keys() + B3::component_keys() + B4::component_keys() + B5::component_keys() + B6::component_keys() + B7::component_keys() + B8::component_keys(), B9::component_keys());
        }
        let ghost before10 = *world_components;
        let ghost ids_before10 = ids@;
        B10::get_or_register_component_ids(world_components, ids);
        proof {
            lemma_bundle_step(&start, &before10, &*world_components, start_ids, ids_before10, ids@);
            lemma_keys_step(&before10, &*world_components, start_ids.len() as int, ids_before10, ids@, B0::component_keys() + B1::component_keys() + B2::component_keys() + B3::component_keys() + B4::component_keys() + B5::component_keys() + B6::component_keys() + B7::component_keys() + B8::component_keys() + B9::component_keys(), B10::component_keys());
            lemma_push_keys_concat(start.component_keys(), start.infos().len(), B0::component_keys() + B1::component_keys() + B2::component_keys() + B3::component_keys() + B4::component_keys() + B5::component_keys() + B6::component_keys() + B7::component_keys() + B8::component_keys() + B9::component_keys(), B10::component_keys());
        }
        let ghost before11 = *world_components;
        let ghost ids_before11 = ids@;
        B11::get_or_register_component_ids(world_components, ids);
        proof {
            lemma_bundle_step(&start, &before11, &*world_components, start_ids, ids_before11, ids@);
            lemma_keys_step(&before11, &*world_components, start_ids.len() as int, ids_before11, ids@, B0::component_keys() + B1::component_keys() + B2::component_keys() + B3::component_keys() + B4::component_keys() + B5::component_keys() + B6::component_keys() + B7::component_keys() + B8::component_keys() + B9::component_keys() + B10::component_keys(), B11::component_keys());
            lemma_push_keys_concat(start.component_keys(), start.infos().len(), B0::component_keys() + B1::component_keys() + B2::component_keys() + B3::component_keys() + B4::component_keys() + B5::component_keys() + B6::component_keys() + B7::component_keys() + B8::component_keys() + B9::component_keys() + B10::component_keys(), B11::component_keys());
        }
    }

    fn get_component_ids(world_components: &Components, ids: &mut Vec<Option<ComponentId>>) {
        let ghost start = ids@;
        assert(ids@.subrange(0, start.len() as int) =~= start);
        let ghost before0 = ids@;
        B0::get_component_ids(world_components, ids);
        assert(ids@.subrange(0, start.len() as int) =~= before0.subrange(0, start.len() as int));
        let ghost before1 = ids@;
        B1::get_component_ids(world_components, ids);
        assert(ids@.subrange(0, start.len() as int) =~= before1.subrange(0, start.len() as int));
        proof {
            lemma_lookups_step(world_components.component_keys(), start.len() as int, before1, ids@, B0::component_keys(), B1::component_keys());
        }
        let ghost before2 = ids@;
        B2::get_component_ids(world_components, ids);
        assert(ids@.subrange(0, start.len() as int) =~= before2.subrange(0, start.len() as int));
        proof {
            lemma_lookups_step(world_components.component_keys(), start.len() as int, before2, ids@, B0::component_keys() + B1::component_keys(), B2::component_keys());
        }
        let ghost before3 = ids@;
        B3::get_component_ids(world_components, ids);
        assert(ids@.subrange(0, start.len() as int) =~= before3.subrange(0, start.len() as int));
        proof {
            lemma_lookups_step(world_components.component_keys(), start.len() as int, before3, ids@, B0::component_keys() + B1::component_keys() + B2::component_keys(), B3::component_keys());
        }
        let ghost before4 = ids@;
        B4::get_component_ids(world_components, ids);
        assert(ids@.subrange(0, start.len() as int) =~= before4.subrange(0, start.len() as int));
        proof {
            lemma_lookups_step(world_components.component_keys(), start.len() as int, before4, ids@, B0::component_keys() + B1::component_keys() + B2::component_keys() + B3::component_keys(), B4::component_keys());
        }
        let ghost before5 = ids@;
        B5::get_component_ids(world_components, ids);
        assert(ids@.subrange(0, start.len() as int) =~= before5.subrange(0, start.len() as int));
        proof {
            lemma_lookups_step(world_components.component_keys(), start.len() as int, before5, ids@, B0::component_keys() + B1::component_keys() + B2::component_keys() + B3::component_keys() + B4::component_keys(), B5::component_keys());
        }
        let ghost before6 = ids@;
        B6::get_component_ids(world_components, ids);
        assert(ids@.subrange(0, start.len() as int) =~= before6.subrange(0, start.len() as int));
        proof {
            lemma_lookups_step(world_components.component_keys(), start.len() as int, before6, ids@, B0::component_keys() + B1::component_keys() + B2::component_keys() + B3::component_keys() + B4::component_keys() + B5::component_keys(), B6::component_keys());
        }
        let ghost before7 = ids@;
        B7::get_component_ids(world_components, ids);
        assert(ids@.subrange(0, start.len() as int) =~= before7.subrange(0, start.len() as int));
        proof {
            lemma_lookups_step(world_components.component_keys(), start.len() as int, before7, ids@, B0::component_keys() + B1::component_keys() + B2::component_keys() + B3::component_keys() + B4::component_keys() + B5::component_keys() + B6::component_keys(), B7::component_keys());
        }
        let ghost before8 = ids@;
        B8::get_component_ids(world_components, ids);
        assert(ids@.subrange(0, start.len() as int) =~= before8.subrange(0, start.len() as int));
        proof {
            lemma_lookups_step(world_components.component_keys(), start.len() as int, before8, ids@, B0::component_keys() + B1::component_keys() + B2::component_keys() + B3::component_keys() + B4::component_keys() + B5::component_keys() + B6::component_keys() + B7::component_keys(), B8::component_keys());
        }
        let ghost before9 = ids@;
        B9::get_component_ids(world_components, ids);
        assert(ids@.subrange(0, start.len() as int) =~= before9.subrange(0, start.len() as int));
        proof {
            lemma_lookups_step(world_components.component_keys(), start.len() as int, before9, ids@, B0::component_keys() + B1::component_keys() + B2::component_keys() + B3::component_keys() + B4::component_keys() + B5::component_keys() + B6::component_keys() + B7::component_keys() + B8::component_keys(), B9::component_keys());
        }
        let ghost before10 = ids@;
        B10::get_component_ids(world_components, ids);
        assert(ids@.subrange(0, start.len() as int) =~= before10.subrange(0, start.len() as int));
        proof {
            lemma_lookups_step(world_components.component_keys(), start.len() as int, before10, ids@, B0::component_keys() + B1::component_keys() + B2::component_keys() + B3::component_keys() + B4::component_keys() + B5::component_keys() + B6::component_keys() + B7::component_keys() + B8::component_keys() + B9::component_keys(), B10::component_keys());
        }
        let ghost before11 = ids@;
        B11::get_component_ids(world_components, ids);
        assert(ids@.subrange(0, start.len() as int) =~= before11.subrange(0, start.len() as int));
        proof {
            lemma_lookups_step(world_components.component_keys(), start.len() as int, before11, ids@, B0::component_keys() + B1::component_keys() + B2::component_keys() + B3::component_keys() + B4::component_keys() + B5::component_keys() + B6::component_keys() + B7::component_keys() + B8::component_keys() + B9::component_keys() + B10::component_keys(), B11::component_keys());
        }
    }
}

impl<B0: Bundle, B1: Bundle, B2: Bundle, B3: Bundle, B4: Bundle, B5: Bundle, B6: Bundle, B7: Bundle, B8: Bundle, B9: Bundle, B10: Bundle, B11: Bundle, B12: Bundle> Bundle for (B0, B1, B2, B3, B4, B5, B6, B7, B8, B9, B10, B11, B12) {
    open spec fn component_count() -> nat {
        B0::component_count() + B1::component_count() + B2::component_count() + B3::component_count() + B4::component_count() + B5::component_count() + B6::component_count() + B7::component_count() + B8::component_count() + B9::component_count() + B10::component_count() + B11::component_count() + B12::component_count()
    }

    open spec fn component_keys() -> Seq<TypeId> {
        B0::component_keys() + B1::component_keys() + B2::component_keys() + B3::component_keys() + B4::component_keys() + B5::component_keys() + B6::component_keys() + B7::component_keys() + B8::component_keys() + B9::component_keys() + B10::component_keys() + B11::component_keys() + B12::component_keys()
    }

    fn get_or_register_component_ids(world_components: &mut Components, ids: &mut Vec<ComponentId>) {
        let ghost start = *world_components;
        let ghost start_ids = ids@;
        proof {
            lemma_extends_reflexive(&start);
            assert(ids@.subrange(0, start_ids.len() as int) =~= start_ids);
        }
        let ghost before0 = *world_components;
        let ghost ids_before0 = ids@;
        B0::get_or_register_component_ids(world_components, ids);
        proof {
            lemma_bundle_step(&start, &before0, &*world_components, start_ids, ids_before0, ids@);
        }
        let ghost before1 = *world_components;
        let ghost ids_before1 = ids@;
        B1::get_or_register_component_ids(world_components, ids);
        proof {
            lemma_bundle_step(&start, &before1, &*world_components, start_ids, ids_before1, ids@);
            lemma_keys_step(&before1, &*world_components, start_ids.len() as int, ids_before1, ids@, B0::component_keys(), B1::component_keys());
            lemma_push_keys_concat(start.component_keys(), start.infos().len(), B0::component_keys(), B1::component_keys());
        }
        let ghost before2 = *world_components;
        let ghost ids_before2 = ids@;
        B2::get_or_register_component_ids(world_components, ids);
        proof {
            lemma_bundle_step(&start, &before2, &*world_components, start_ids, ids_before2, ids@);
            lemma_keys_step(&before2, &*world_components, start_ids.len() as int, ids_before2, ids@, B0::component_keys() + B1::component_keys(), B2::component_keys());
            lemma_push_keys_concat(start.component_keys(), start.infos().len(), B0::component_keys() + B1::component_keys(), B2::component_keys());
        }
        let ghost before3 = *world_components;
        let ghost ids_before3 = ids@;
        B3::get_or_register_component_ids(world_components, ids);
        proof {
            lemma_bundle_step(&start, &before3, &*world_components, start_ids, ids_before3, ids@);
            lemma_keys_step(&before3, &*world_components, start_ids.len() as int, ids_before3, ids@, B0::component_keys() + B1::component_keys() + B2::component_keys(), B3::component_keys());
            lemma_push_keys_concat(start.component_keys(), start.infos().len(), B0::component_keys() + B1::component_keys() + B2::component_keys(), B3::component_keys());
        }
        let ghost before4 = *world_components;
        let ghost ids_before4 = ids@;
        B4::get_or_register_component_ids(world_components, ids);
        proof {
            lemma_bundle_step(&start, &before4, &*world_components, start_ids, ids_before4, ids@);
            lemma_keys_step(&before4, &*world_components, start_ids.len() as int, ids_before4, ids@, B0::component_keys() + B1::component_keys() + B2::component_keys() + B3::component_keys(), B4::component_keys());
            lemma_push_keys_concat(start.component_keys(), start.infos().len(), B0::component_keys() + B1::component_keys() + B2::component_keys() + B3::component_keys(), B4::component_keys());
        }
        let ghost before5 = *world_components;
        let ghost ids_before5 = ids@;
        B5::get_or_register_component_ids(world_components, ids);
        proof {
            lemma_bundle_step(&start, &before5, &*world_components, start_ids, ids_before5, ids@);
            lemma_keys_step(&before5, &*world_components, start_ids.len() as int, ids_before5, ids@, B0::component_keys() + B1::component_keys() + B2::component_keys() + B3::component_keys() + B4::component_keys(), B5::component_keys());
            lemma_push_keys_concat(start.component_keys(), start.infos().len(), B0::component_keys() + B1::component_keys() + B2::component_keys() + B3::component_keys() + B4::component_keys(), B5::component_keys());
        }
        let ghost before6 = *world_components;
        let ghost ids_before6 = ids@;
        B6::get_or_register_component_ids(world_components, ids);
        proof {
            lemma_bundle_step(&start, &before6, &*world_components, start_ids, ids_before6, ids@);
            lemma_keys_step(&before6, &*world_components, start_ids.len() as int, ids_before6, ids@, B0::component_keys() + B1::component_keys() + B2::component_keys() + B3::component_keys() + B4::component_keys() + B5::component_keys(), B6::component_keys());
            lemma_push_keys_concat(start.component_keys(), start.infos().len(), B0::component_keys() + B1::component_keys() + B2::component_keys() + B3::component_keys() + B4::component_keys() + B5::component_keys(), B6::component_keys());
        }
        let ghost before7 = *world_components;
        let ghost ids_before7 = ids@;
        B7::get_or_register_component_ids(world_components, ids);
        proof {
            lemma_bundle_step(&start, &before7, &*world_components, start_ids, ids_before7, ids@);
            lemma_keys_step(&before7, &*world_components, start_ids.len() as int, ids_before7, ids@, B0::component_keys() + B1::component_keys() + B2::component_keys() + B3::component_keys() + B4::component_keys() + B5::component_keys() + B6::component_keys(), B7::component_keys());
            lemma_push_keys_concat(start.component_keys(), start.infos().len(), B0::component_keys() + B1::component_keys() + B2::component_keys() + B3::component_keys() + B4::component_keys() + B5::component_keys() + B6::component_keys(), B7::component_keys());
        }
        let ghost before8 = *world_components;
        let ghost ids_before8 = ids@;
        B8::get_or_register_component_ids(world_components, ids);
        proof {
            lemma_bundle_step(&start, &before8, &*world_components, start_ids, ids_before8, ids@);
            lemma_keys_step(&before8, &*world_components, start_ids.len() as int, ids_before8, ids@, B0::component_keys() + B1::component_keys() + B2::component_keys() + B3::component_keys() + B4::component_keys() + B5::component_keys() + B6::component_keys() + B7::component_keys(), B8::component_keys());
            lemma_push_keys_concat(start.component_keys(), start.infos().len(), B0::component_keys() + B1::component_keys() + B2::component_keys() + B3::component_keys() + B4::component_keys() + B5::component_keys() + B6::component_keys() + B7::component_keys(), B8::component_keys());
        }
        let ghost before9 = *world_components;
        let ghost ids_before9 = ids@;
        B9::get_or_register_component_ids(world_components, ids);
        proof {
            lemma_bundle_step(&start, &before9, &*world_components, start_ids, ids_before9, ids@);
            lemma_keys_step(&before9, &*world_components, start_ids.len() as int, ids_before9, ids@, B0::component_keys() + B1::component_keys() + B2::component_keys() + B3::component_keys() + B4::component_keys() + B5::component_keys() + B6::component_keys() + B7::component_keys() + B8::component_keys(), B9::component_keys());
            lemma_push_keys_concat(start.component_keys(), start.infos().len(), B0::component_keys() + B1::component_keys() + B2::component_keys() + B3::component_keys() + B4::component_keys() + B5::component_keys() + B6::component_keys() + B7::component_keys() + B8::component_keys(), B9::component_keys());
        }
        let ghost before10 = *world_components;
        let ghost ids_before10 = ids@;
        B10::get_or_register_component_ids(world_components, ids);
        proof {
            lemma_bundle_step(&start, &before10, &*world_components, start_ids, ids_before10, ids@);
            lemma_keys_step(&before10, &*world_components, start_ids.len() as int, ids_before10, ids@, B0::component_keys() + B1::component_keys() + B2::component_keys() + B3::component_keys() + B4::component_keys() + B5::component_keys() + B6::component_keys() + B7::component_keys() + B8::component_keys() + B9::component_keys(), B10::component_keys());
            lemma_push_keys_concat(start.component_keys(), start.infos().len(), B0::component_keys() + B1::component_keys() + B2::component_keys() + B3::component_keys() + B4::component_keys() + B5::component_keys() + B6::component_keys() + B7::component_keys() + B8::component_keys() + B9::component_keys(), B10::component_keys());
        }
        let ghost before11 = *world_components;
        let ghost ids_before11 = ids@;
        B11::get_or_register_component_ids(world_components, ids);
        proof {
            lemma_bundle_step(&start, &before11, &*world_components, start_ids, ids_before11, ids@);
            lemma_keys_step(&before11, &*world_components, start_ids.len() as int, ids_before11, ids@, B0::component_keys() + B1::component_keys() + B2::component_keys() + B3::component_keys() + B4::component_keys() + B5::component_keys() + B6::component_keys() + B7::component_keys() + B8::component_keys() + B9::component_keys() + B10::component_keys(), B11::component_keys());
            lemma_push_keys_concat(start.component_keys(), start.infos().len(), B0::component_keys() + B1::component_keys() + B2::component_keys() + B3::component_keys() + B4::component_keys() + B5::component_keys() + B6::component_keys() + B7::component_keys() + B8::component_keys() + B9::component_keys() + B10::component_keys(), B11::component_keys());
        }
        let ghost before12 = *world_components;
        let ghost ids_before12 = ids@;
        B12::get_or_register_component_ids(world_components, ids);
        proof {
            lemma_bundle_step(&start, &before12, &*world_components, start_ids, ids_before12, ids@);
            lemma_keys_step(&before12, &*world_components, start_ids.len() as int, ids_before12, ids@, B0::component_keys() + B1::component_keys() + B2::component_keys() + B3::component_keys() + B4::component_keys() + B5::component_keys() + B6::component_keys() + B7::component_keys() + B8::component_keys() + B9::component_keys() + B10::component_keys() + B11::component_keys(), B12::component_keys());
            lemma_push_keys_concat(start.component_keys(), start.infos().len(), B0::component_keys() + B1::component_keys() + B2::component_keys() + B3::component_keys() + B4::component_keys() + B5::component_keys() + B6::component_keys() + B7::component_keys() + B8::component_keys() + B9::component_keys() + B10::component_keys() + B11::component_keys(), B12::component_keys());
        }
    }

    fn get_component_ids(world_components: &Components, ids: &mut Vec<Option<ComponentId>>) {
        let ghost start = ids@;
        assert(ids@.subrange(0, start.len() as int) =~= start);
        let ghost before0 = ids@;
        B0::get_component_ids(world_components, ids);
        assert(ids@.subrange(0, start.len() as int) =~= before0.subrange(0, start.len() as int));
        let ghost before1 = ids@;
        B1::get_component_ids(world_components, ids);
        assert(ids@.subrange(0, start.len() as int) =~= before1.subrange(0, start.len() as int));
        proof {
            lemma_lookups_step(world_components.component_keys(), start.len() as int, before1, ids@, B0::component_keys(), B1::component_keys());
        }
        let ghost before2 = ids@;
        B2::get_component_ids(world_components, ids);
        assert(ids@.subrange(0, start.len() as int) =~= before2.subrange(0, start.len() as int));
        proof {
            lemma_lookups_step(world_components.component_keys(), start.len() as int, before2, ids@, B0::component_keys() + B1::component_keys(), B2::component_keys());
        }
        let ghost before3 = ids@;
        B3::get_component_ids(world_components, ids);
        assert(ids@.subrange(0, start.len() as int) =~= before3.subrange(0, start.len() as int));
        proof {
            lemma_lookups_step(world_components.component_keys(), start.len() as int, before3, ids@, B0::component_keys() + B1::component_keys() + B2::component_keys(), B3::component_keys());
        }
        let ghost before4 = ids@;
        B4::get_component_ids(world_components, ids);
        assert(ids@.subrange(0, start.len() as int) =~= before4.subrange(0, start.len() as int));
        proof {
            lemma_lookups_step(world_components.component_keys(), start.len() as int, before4, ids@, B0::component_keys() + B1::component_keys() + B2::component_keys() + B3::component_keys(), B4::component_keys());
        }
        let ghost before5 = ids@;
        B5::get_component_ids(world_components, ids);
        assert(ids@.subrange(0, start.len() as int) =~= before5.subrange(0, start.len() as int));
        proof {
            lemma_lookups_step(world_components.component_keys(), start.len() as int, before5, ids@, B0::component_keys() + B1::component_keys() + B2::component_keys() + B3::component_keys() + B4::component_keys(), B5::component_keys());
        }
        let ghost before6 = ids@;
        B6::get_component_ids(world_components, ids);
        assert(ids@.subrange(0, start.len() as int) =~= before6.subrange(0, start.len() as int));
        proof {
            lemma_lookups_step(world_components.component_keys(), start.len() as int, before6, ids@, B0::component_keys() + B1::component_keys() + B2::component_keys() + B3::component_keys() + B4::component_keys() + B5::component_keys(), B6::component_keys());
        }
        let ghost before7 = ids@;
        B7::get_component_ids(world_components, ids);
        assert(ids@.subrange(0, start.len() as int) =~= before7.subrange(0, start.len() as int));
        proof {
            lemma_lookups_step(world_components.component_keys(), start.len() as int, before7, ids@, B0::component_keys() + B1::component_keys() + B2::component_keys() + B3::component_keys() + B4::component_keys() + B5::component_keys() + B6::component_keys(), B7::component_keys());
        }
        let ghost before8 = ids@;
        B8::get_component_ids(world_components, ids);
        assert(ids@.subrange(0, start.len() as int) =~= before8.subrange(0, start.len() as int));
        proof {
            lemma_lookups_step(world_components.component_keys(), start.len() as int, before8, ids@, B0::component_keys() + B1::component_keys() + B2::component_keys() + B3::component_keys() + B4::component_keys() + B5::component_keys() + B6::component_keys() + B7::component_keys(), B8::component_keys());
        }
        let ghost before9 = ids@;
        B9::get_component_ids(world_components, ids);
        assert(ids@.subrange(0, start.len() as int) =~= before9.subrange(0, start.len() as int));
        proof {
            lemma_lookups_step(world_components.component_keys(), start.len() as int, before9, ids@, B0::component_keys() + B1::component_keys() + B2::component_keys() + B3::component_keys() + B4::component_keys() + B5::component_keys() + B6::component_keys() + B7::component_keys() + B8::component_keys(), B9::component_keys());
        }
        let ghost before10 = ids@;
        B10::get_component_ids(world_components, ids);
        assert(ids@.subrange(0, start.len() as int) =~= before10.subrange(0, start.len() as int));
        proof {
            lemma_lookups_step(world_components.component_keys(), start.len() as int, before10, ids@, B0::component_keys() + B1::component_keys() + B2::component_keys() + B3::component_keys() + B4::component_keys() + B5::component_keys() + B6::component_keys() + B7::component_keys() + B8::component_keys() + B9::component_keys(), B10::component_keys());
        }
        let ghost before11 = ids@;
        B11::get_component_ids(world_components, ids);
        assert(ids@.subrange(0, start.len() as int) =~= before11.subrange(0, start.len() as int));
        proof {
            lemma_lookups_step(world_components.component_keys(), start.len() as int, before11, ids@, B0::component_keys() + B1::component_keys() + B2::component_keys() + B3::component_keys() + B4::component_keys() + B5::component_keys() + B6::component_keys() + B7::component_keys() + B8::component_keys() + B9::component_keys() + B10::component_keys(), B11::component_keys());
        }
        let ghost before12 = ids@;
        B12::get_component_ids(world_components, ids);
        assert(ids@.subrange(0, start.len() as int) =~= before12.subrange(0, start.len() as int));
        proof {
            lemma_lookups_step(world_components.component_keys(), start.len() as int, before12, ids@, B0::component_keys() + B1::component_keys() + B2::component_keys() + B3::component_keys() + B4::component_keys() + B5::component_keys() + B6::component_keys() + B7::component_keys() + B8::component_keys() + B9::component_keys() + B10::component_keys() + B11::component_keys(), B12::component_keys());
        }
    }
}

impl<B0: Bundle, B1: Bundle, B2: Bundle, B3: Bundle, B4: Bundle, B5: Bundle, B6: Bundle, B7: Bundle, B8: Bundle, B9: Bundle, B10: Bundle, B11: Bundle, B12: Bundle, B13: Bundle> Bundle for (B0, B1, B2, B3, B4, B5, B6, B7, B8, B9, B10, B11, B12, B13) {
    open spec fn component_count() -> nat {
        B0::component_count() + B1::component_count() + B2::component_count() + B3::component_count() + B4::component_count() + B5::component_count() + B6::component_count() + B7::component_count() + B8::component_count() + B9::component_count() + B10::component_count() + B11::component_count() + B12::component_count() + B13::component_count()
    }

    open spec fn component_keys() -> Seq<TypeId> {
        B0::component_keys() + B1::component_keys() + B2::component_keys() + B3::component_keys() + B4::component_keys() + B5::component_keys() + B6::component_keys() + B7::component_keys() + B8::component_keys() + B9::component_keys() + B10::component_keys() + B11::component_keys() + B12::component_keys() + B13::component_keys()
    }

    fn get_or_register_component_ids(world_components: &mut Components, ids: &mut Vec<ComponentId>) {
        let ghost start = *world_components;
        let ghost start_ids = ids@;
        proof {
            lemma_extends_reflexive(&start);
            assert(ids@.subrange(0, start_ids.len() as int) =~= start_ids);
        }
        let ghost before0 = *world_components;
        let ghost ids_before0 = ids@;
        B0::get_or_register_component_ids(world_components, ids);
        proof {
            lemma_bundle_step(&start, &before0, &*world_components, start_ids, ids_before0, ids@);
        }
        let ghost before1 = *world_components;
        let ghost ids_before1 = ids@;
        B1::get_or_register_component_ids(world_components, ids);
        proof {
            lemma_bundle_step(&start, &before1, &*world_components, start_ids, ids_before1, ids@);
            lemma_keys_step(&before1, &*world_components, start_ids.len() as int, ids_before1, ids@, B0::component_keys(), B1::component_keys());
            lemma_push_keys_concat(start.component_keys(), start.infos().len(), B0::component_keys(), B1::component_keys());
        }
        let ghost before2 = *world_components;
        let ghost ids_before2 = ids@;
        B2::get_or_register_component_ids(world_components, ids);
        proof {
            lemma_bundle_step(&start, &before2, &*world_components, start_ids, ids_before2, ids@);
            lemma_keys_step(&before2, &*world_components, start_ids.len() as int, ids_before2, ids@, B0::component_keys() + B1::component_keys(), B2::component_keys());
            lemma_push_keys_concat(start.component_keys(), start.infos().len(), B0::component_keys() + B1::component_keys(), B2::component_keys());
        }
        let ghost before3 = *world_components;
        let ghost ids_before3 = ids@;
        B3::get_or_register_component_ids(world_components, ids);
        proof {
            lemma_bundle_step(&start, &before3, &*world_components, start_ids, ids_before3, ids@);
            lemma_keys_step(&before3, &*world_components, start_ids.len() as int, ids_before3, ids@, B0::component_keys() + B1::component_keys() + B2::component_keys(), B3::component_keys());
            lemma_push_keys_concat(start.component_keys(), start.infos().len(), B0::component_keys() + B1::component_keys() + B2::component_keys(), B3::component_keys());
        }
        let ghost before4 = *world_components;
        let ghost ids_before4 = ids@;
        B4::get_or_register_component_ids(world_components, ids);
        proof {
            lemma_bundle_step(&start, &before4, &*world_components, start_ids, ids_before4, ids@);
            lemma_keys_step(&before4, &*world_components, start_ids.len() as int, ids_before4, ids@, B0::component_keys() + B1::component_keys() + B2::component_keys() + B3::component_keys(), B4::component_keys());
            lemma_push_keys_concat(start.component_keys(), start.infos().len(), B0::component_keys() + B1::component_keys() + B2::component_keys() + B3::component_keys(), B4::component_keys());
        }
        let ghost before5 = *world_components;
        let ghost ids_before5 = ids@;
        B5::get_or_register_component_ids(world_components, ids);
        proof {
            lemma_bundle_step(&start, &before5, &*world_components, start_ids, ids_before5, ids@);
            lemma_keys_step(&before5, &*world_components, start_ids.len() as int, ids_before5, ids@, B0::component_keys() + B1::component_keys() + B2::component_keys() + B3::component_keys() + B4::component_keys(), B5::component_keys());
            lemma_push_keys_concat(start.component_keys(), start.infos().len(), B0::component_keys() + B1::component_keys() + B2::component_keys() + B3::component_keys() + B4::component_keys(), B5::component_keys());
        }
        let ghost before6 = *world_components;
        let ghost ids_before6 = ids@;
        B6::get_or_register_component_ids(world_components, ids);
        proof {
            lemma_bundle_step(&start, &before6, &*world_components, start_ids, ids_before6, ids@);
            lemma_keys_step(&before6, &*world_components, start_ids.len() as int, ids_before6, ids@, B0::component_keys() + B1::component_keys() + B2::component_keys() + B3::component_keys() + B4::component_keys() + B5::component_keys(), B6::component_keys());
            lemma_push_keys_concat(start.component_keys(), start.infos().len(), B0::component_keys() + B1::component_keys() + B2::component_keys() + B3::component_keys() + B4::component_keys() + B5::component_keys(), B6::component_keys());
        }
        let ghost before7 = *world_components;
        let ghost ids_before7 = ids@;
        B7::get_or_register_component_ids(world_components, ids);
        proof {
            lemma_bundle_step(&start, &before7, &*world_components, start_ids, ids_before7, ids@);
            lemma_keys_step(&before7, &*world_components, start_ids.len() as int, ids_before7, ids@, B0::component_keys() + B1::component_keys() + B2::component_keys() + B3::component_keys() + B4::component_keys() + B5::component_keys() + B6::component_keys(), B7::component_keys());
            lemma_push_keys_concat(start.component_keys(), start.infos().len(), B0::component_keys() + B1::component_keys() + B2::component_keys() + B3::component_keys() + B4::component_keys() + B5::component_keys() + B6::component_keys(), B7::component_keys());
        }
        let ghost before8 = *world_components;
        let ghost ids_before8 = ids@;
        B8::get_or_register_component_ids(world_components, ids);
        proof {
            lemma_bundle_step(&start, &before8, &*world_components, start_ids, ids_before8, ids@);
            lemma_keys_step(&before8, &*world_components, start_ids.len() as int, ids_before8, ids@, B0::component_keys() + B1::component_keys() + B2::component_keys() + B3::component_keys() + B4::component_keys() + B5::component_keys() + B6::component_keys() + B7::component_keys(), B8::component_keys());
            lemma_push_keys_concat(start.component_keys(), start.infos().len(), B0::component_keys() + B1::component_keys() + B2::component_keys() + B3::component_keys() + B4::component_keys() + B5::component_keys() + B6::component_keys() + B7::component_keys(), B8::component_keys());
        }
        let ghost before9 = *world_components;
        let ghost ids_before9 = ids@;
        B9::get_or_register_component_ids(world_components, ids);
        proof {
            lemma_bundle_step(&start, &before9, &*world_components, start_ids, ids_before9, ids@);
            lemma_keys_step(&before9, &*world_components, start_ids.len() as int, ids_before9, ids@, B0::component_keys() + B1::component_keys() + B2::component_keys() + B3::component_keys() + B4::component_keys() + B5::component_keys() + B6::component_keys() + B7::component_keys() + B8::component_keys(), B9::component_keys());
            lemma_push_keys_concat(start.component_keys(), start.infos().len(), B0::component_keys() + B1::component_keys() + B2::component_keys() + B3::component_keys() + B4::component_keys() + B5::component_keys() + B6::component_keys() + B7::component_keys() + B8::component_keys(), B9::component_keys());
        }
        let ghost before10 = *world_components;
        let ghost ids_before10 = ids@;
        B10::get_or_register_component_ids(world_components, ids);
        proof {
            lemma_bundle_step(&start, &before10, &*world_components, start_ids, ids_before10, ids@);
            lemma_keys_step(&before10, &*world_components, start_ids.len() as int, ids_before10, ids@, B0::component_keys() + B1::component_keys() + B2::component_keys() + B3::component_keys() + B4::component_keys() + B5::component_keys() + B6::component_keys() + B7::component_keys() + B8::component_keys() + B9::component_keys(), B10::component_keys());
            lemma_push_keys_concat(start.component_keys(), start.infos().len(), B0::component_keys() + B1::component_keys() + B2::component_keys() + B3::component_keys() + B4::component_keys() + B5::component_keys() + B6::component_keys() + B7::component_keys() + B8::component_keys() + B9::component_keys(), B10::component_keys());
        }
        let ghost before11 = *world_components;
        let ghost ids_before11 = ids@;
        B11::get_or_register_component_ids(world_components, ids);
        proof {
            lemma_bundle_step(&start, &before11, &*world_components, start_ids, ids_before11, ids@);
            lemma_keys_step(&before11, &*world_components, start_ids.len() as int, ids_before11, ids@, B0::component_keys() + B1::component_keys() + B2::component_keys() + B3::component_keys() + B4::component_keys() + B5::component_keys() + B6::component_keys() + B7::component_keys() + B8::component_keys() + B9::component_keys() + B10::component_keys(), B11::component_keys());
            lemma_push_keys_concat(start.component_keys(), start.infos().len(), B0::component_keys() + B1::component_keys() + B2::component_keys() + B3::component_keys() + B4::component_keys() + B5::component_keys() + B6::component_keys() + B7::component_keys() + B8::component_keys() + B9::component_keys() + B10::component_keys(), B11::component_keys());
        }
        let ghost before12 = *world_components;
        let ghost ids_before12 = ids@;
        B12::get_or_register_component_ids(world_components, ids);
        proof {
            lemma_bundle_step(&start, &before12, &*world_components, start_ids, ids_before12, ids@);
            lemma_keys_step(&before12, &*world_components, start_ids.len() as int, ids_before12, ids@, B0::component_keys() + B1::component_keys() + B2::component_keys() + B3::component_keys() + B4::component_keys() + B5::component_keys() + B6::component_keys() + B7::component_keys() + B8::component_keys() + B9::component_keys() + B10::component_keys() + B11::component_keys(), B12::component_keys());
            lemma_push_keys_concat(start.component_keys(), start.infos().len(), B0::component_keys() + B1::component_keys() + B2::component_keys() + B3::component_keys() + B4::component_keys() + B5::component_keys() + B6::component_keys() + B7::component_keys() + B8::component_keys() + B9::component_keys() + B10::component_keys() + B11::component_keys(), B12::component_keys());
        }
        let ghost before13 = *world_components;
        let ghost ids_before13 = ids@;
        B13::get_or_register_component_ids(world_components, ids);
        proof {
            lemma_bundle_step(&start, &before13, &*world_components, start_ids, ids_before13, ids@);
            lemma_keys_step(&before13, &*world_components, start_ids.len() as int, ids_before13, ids@, B0::component_keys() + B1::component_keys() + B2::component_keys() + B3::component_keys() + B4::component_keys() + B5::component_keys() + B6::component_keys() + B7::component_keys() + B8::component_keys() + B9::component_keys() + B10::component_keys() + B11::component_keys() + B12::component_keys(), B13::component_keys());
            lemma_push_keys_concat(start.component_keys(), start.infos().len(), B0::component_keys() + B1::component_keys() + B2::component_keys() + B3::component_keys() + B4::component_keys() + B5::component_keys() + B6::component_keys() + B7::component_keys() + B8::component_keys() + B9::component_keys() + B10::component_keys() + B11::component_keys() + B12::component_keys(), B13::component_keys());
        }
    }

    fn get_component_ids(world_components: &Components, ids: &mut Vec<Option<ComponentId>>) {
        let ghost start = ids@;
        assert(ids@.subrange(0, start.len() as int) =~= start);
        let ghost before0 = ids@;
        B0::get_component_ids(world_components, ids);
        assert(ids@.subrange(0, start.len() as int) =~= before0.subrange(0, start.len() as int));
        let ghost before1 = ids@;
        B1::get_component_ids(world_components, ids);
        assert(ids@.subrange(0, start.len() as int) =~= before1.subrange(0, start.len() as int));
        proof {
            lemma_lookups_step(world_components.component_keys(), start.len() as int, before1, ids@, B0::component_keys(), B1::component_keys());
        }
        let ghost before2 = ids@;
        B2::get_component_ids(world_components, ids);
        assert(ids@.subrange(0, start.len() as int) =~= before2.subrange(0, start.len() as int));
        proof {
            lemma_lookups_step(world_components.component_keys(), start.len() as int, before2, ids@, B0::component_keys() + B1::component_keys(), B2::component_keys());
        }
        let ghost before3 = ids@;
        B3::get_component_ids(world_components, ids);
        assert(ids@.subrange(0, start.len() as int) =~= before3.subrange(0, start.len() as int));
        proof {
            lemma_lookups_step(world_components.component_keys(), start.len() as int, before3, ids@, B0::component_keys() + B1::component_keys() + B2::component_keys(), B3::component_keys());
        }
        let ghost before4 = ids@;
        B4::get_component_ids(world_components, ids);
        assert(ids@.subrange(0, start.len() as int) =~= before4.subrange(0, start.len() as int));
        proof {
            lemma_lookups_step(world_components.component_keys(), start.len() as int, before4, ids@, B0::component_keys() + B1::component_keys() + B2::component_keys() + B3::component_keys(), B4::component_keys());
        }
        let ghost before5 = ids@;
        B5::get_component_ids(world_components, ids);
        assert(ids@.subrange(0, start.len() as int) =~= before5.subrange(0, start.len() as int));
        proof {
            lemma_lookups_step(world_components.component_keys(), start.len() as int, before5, ids@, B0::component_keys() + B1::component_keys() + B2::component_keys() + B3::component_keys() + B4::component_keys(), B5::component_keys());
        }
        let ghost before6 = ids@;
        B6::get_component_ids(world_components, ids);
        assert(ids@.subrange(0, start.len() as int) =~= before6.subrange(0, start.len() as int));
        proof {
            lemma_lookups_step(world_components.component_keys(), start.len() as int, before6, ids@, B0::component_keys() + B1::component_keys() + B2::component_keys() + B3::component_keys() + B4::component_keys() + B5::component_keys(), B6::component_keys());
        }
        let ghost before7 = ids@;
        B7::get_component_ids(world_components, ids);
        assert(ids@.subrange(0, start.len() as int) =~= before7.subrange(0, start.len() as int));
        proof {
            lemma_lookups_step(world_components.component_keys(), start.len() as int, before7, ids@, B0::component_keys() + B1::component_keys() + B2::component_keys() + B3::component_keys() + B4::component_keys() + B5::component_keys() + B6::component_keys(), B7::component_keys());
        }
        let ghost before8 = ids@;
        B8::get_component_ids(world_components, ids);
        assert(ids@.subrange(0, start.len() as int) =~= before8.subrange(0, start.len() as int));
        proof {
            lemma_lookups_step(world_components.component_keys(), start.len() as int, before8, ids@, B0::component_keys() + B1::component_keys() + B2::component_keys() + B3::component_keys() + B4::component_keys() + B5::component_keys() + B6::component_keys() + B7::component_keys(), B8::component_keys());
        }
        let ghost before9 = ids@;
        B9::get_component_ids(world_components, ids);
        assert(ids@.subrange(0, start.len() as int) =~= before9.subrange(0, start.len() as int));
        proof {
            lemma_lookups_step(world_components.component_keys(), start.len() as int, before9, ids@, B0::component_keys() + B1::component_keys() + B2::component_keys() + B3::component_keys() + B4::component_keys() + B5::component_keys() + B6::component_keys() + B7::component_keys() + B8::component_keys(), B9::component_keys());
        }
        let ghost before10 = ids@;
        B10::get_component_ids(world_components, ids);
        assert(ids@.subrange(0, start.len() as int) =~= before10.subrange(0, start.len() as int));
        proof {
            lemma_lookups_step(world_components.component_keys(), start.len() as int, before10, ids@, B0::component_keys() + B1::component_keys() + B2::component_keys() + B3::component_keys() + B4::component_keys() + B5::component_keys() + B6::component_keys() + B7::component_keys() + B8::component_keys() + B9::component_keys(), B10::component_keys());
        }
        let ghost before11 = ids@;
        B11::get_component_ids(world_components, ids);
        assert(ids@.subrange(0, start.len() as int) =~= before11.subrange(0, start.len() as int));
        proof {
            lemma_lookups_step(world_components.component_keys(), start.len() as int, before11, ids@, B0::component_keys() + B1::component_keys() + B2::component_keys() + B3::component_keys() + B4::component_keys() + B5::component_keys() + B6::component_keys() + B7::component_keys() + B8::component_keys() + B9::component_keys() + B10::component_keys(), B11::component_keys());
        }
        let ghost before12 = ids@;
        B12::get_component_ids(world_components, ids);
        assert(ids@.subrange(0, start.len() as int) =~= before12.subrange(0, start.len() as int));
        proof {
            lemma_lookups_step(world_components.component_keys(), start.len() as int, before12, ids@, B0::component_keys() + B1::component_keys() + B2::component_keys() + B3::component_keys() + B4::component_keys() + B5::component_keys() + B6::component_keys() + B7::component_keys() + B8::component_keys() + B9::component_keys() + B10::component_keys() + B11::component_keys(), B12::component_keys());
        }
        let ghost before13 = ids@;
        B13::get_component_ids(world_components, ids);
        assert(ids@.subrange(0, start.len() as int) =~= before13.subrange(0, start.len() as int));
        proof {
            lemma_lookups_step(world_components.component_keys(), start.len() as int, before13, ids@, B0::component_keys() + B1::component_keys() + B2::component_keys() + B3::component_keys() + B4::component_keys() + B5::component_keys() + B6::component_keys() + B7::component_keys() + B8::component_keys() + B9::component_keys() + B10::component_keys() + B11::component_keys() + B12::component_keys(), B13::component_keys());
        }
    }
}

impl<B0: Bundle, B1: Bundle, B2: Bundle, B3: Bundle, B4: Bundle, B5: Bundle, B6: Bundle, B7: Bundle, B8: Bundle, B9: Bundle, B10: Bundle, B11: Bundle, B12: Bundle, B13: Bundle, B14: Bundle> Bundle for (B0, B1, B2, B3, B4, B5, B6, B7, B8, B9, B10, B11, B12, B13, B14) {
    open spec fn component_count() -> nat {
        B0::component_count() + B1::component_count() + B2::component_count() + B3::component_count() + B4::component_count() + B5::component_count() + B6::component_count() + B7::component_count() + B8::component_count() + B9::component_count() + B10::component_count() + B11::component_count() + B12::component_count() + B13::component_count() + B14::component_count()
    }

    open spec fn component_keys() -> Seq<TypeId> {
        B0::component_keys() + B1::component_keys() + B2::component_keys() + B3::component_keys() + B4::component_keys() + B5::component_keys() + B6::component_keys() + B7::component_keys() + B8::component_keys() + B9::component_keys() + B10::component_keys() + B11::component_keys() + B12::component_keys() + B13::component_keys() + B14::component_keys()
    }

    fn get_or_register_component_ids(world_components: &mut Components, ids: &mut Vec<ComponentId>) {
        let ghost start = *world_components;
        let ghost start_ids = ids@;
        proof {
            lemma_extends_reflexive(&start);
            assert(ids@.subrange(0, start_ids.len() as int) =~= start_ids);
        }
        let ghost before0 = *world_components;
        let ghost ids_before0 = ids@;
        B0::get_or_register_component_ids(world_components, ids);
        proof {
            lemma_bundle_step(&start, &before0, &*world_components, start_ids, ids_before0, ids@);
        }
        let ghost before1 = *world_components;
        let ghost ids_before1 = ids@;
        B1::get_or_register_component_ids(world_components, ids);
        proof {
            lemma_bundle_step(&start, &before1, &*world_components, start_ids, ids_before1, ids@);
            lemma_keys_step(&before1, &*world_components, start_ids.len() as int, ids_before1, ids@, B0::component_keys(), B1::component_keys());
            lemma_push_keys_concat(start.component_keys(), start.infos().len(), B0::component_keys(), B1::component_keys());
        }
        let ghost before2 = *world_components;
        let ghost ids_before2 = ids@;
        B2::get_or_register_component_ids(world_components, ids);
        proof {
            lemma_bundle_step(&start, &before2, &*world_components, start_ids, ids_before2, ids@);
            lemma_keys_step(&before2, &*world_components, start_ids.len() as int, ids_before2, ids@, B0::component_keys() + B1::component_keys(), B2::component_keys());
            lemma_push_keys_concat(start.component_keys(), start.infos().len(), B0::component_keys() + B1::component_keys(), B2::component_keys());
        }
        let ghost before3 = *world_components;
        let ghost ids_before3 = ids@;
        B3::get_or_register_component_ids(world_components, ids);
        proof {
            lemma_bundle_step(&start, &before3, &*world_components, start_ids, ids_before3, ids@);
            lemma_keys_step(&before3, &*world_components, start_ids.len() as int, ids_before3, ids@, B0::component_keys() + B1::component_keys() + B2::component_keys(), B3::component_keys());
            lemma_push_keys_concat(start.component_keys(), start.infos().len(), B0::component_keys() + B1::component_keys() + B2::component_keys(), B3::component_keys());
        }
        let ghost before4 = *world_components;
        let ghost ids_before4 = ids@;
        B4::get_or_register_component_ids(world_components, ids);
        proof {
            lemma_bundle_step(&start, &before4, &*world_components, start_ids, ids_before4, ids@);
            lemma_keys_step(&before4, &*world_components, start_ids.len() as int, ids_before4, ids@, B0::component_keys() + B1::component_keys() + B2::component_keys() + B3::component_keys(), B4::component_keys());
            lemma_push_keys_concat(start.component_keys(), start.infos().len(), B0::component_keys() + B1::component_keys() + B2::component_keys() + B3::component_keys(), B4::component_keys());
        }
        let ghost before5 = *world_components;
        let ghost ids_before5 = ids@;
        B5::get_or_register_component_ids(world_components, ids);
        proof {
            lemma_bundle_step(&start, &before5, &*world_components, start_ids, ids_before5, ids@);
            lemma_keys_step(&before5, &*world_components, start_ids.len() as int, ids_before5, ids@, B0::component_keys() + B1::component_keys() + B2::component_keys() + B3::component_keys() + B4::component_keys(), B5::component_keys());
            lemma_push_keys_concat(start.component_keys(), start.infos().len(), B0::component_keys() + B1::component_keys() + B2::component_keys() + B3::component_keys() + B4::component_keys(), B5::component_keys());
        }
        let ghost before6 = *world_components;
        let ghost ids_before6 = ids@;
        B6::get_or_register_component_ids(world_components, ids);
        proof {
            lemma_bundle_step(&start, &before6, &*world_components, start_ids, ids_before6, ids@);
            lemma_keys_step(&before6, &*world_components, start_ids.len() as int, ids_before6, ids@, B0::component_keys() + B1::component_keys() + B2::component_keys() + B3::component_keys() + B4::component_keys() + B5::component_keys(), B6::component_keys());
            lemma_push_keys_concat(start.component_keys(), start.infos().len(), B0::component_keys() + B1::component_keys() + B2::component_keys() + B3::component_keys() + B4::component_keys() + B5::component_keys(), B6::component_keys());
        }
        let ghost before7 = *world_components;
        let ghost ids_before7 = ids@;
        B7::get_or_register_component_ids(world_components, ids);
        proof {
            lemma_bundle_step(&start, &before7, &*world_components, start_ids, ids_before7, ids@);
            lemma_keys_step(&before7, &*world_components, start_ids.len() as int, ids_before7, ids@, B0::component_keys() + B1::component_keys() + B2::component_keys() + B3::component_keys() + B4::component_keys() + B5::component_keys() + B6::component_keys(), B7::component_keys());
            lemma_push_keys_concat(start.component_keys(), start.infos().len(), B0::component_keys() + B1::component_keys() + B2::component_keys() + B3::component_keys() + B4::component_keys() + B5::component_keys() + B6::component_keys(), B7::component_keys());
        }
        let ghost before8 = *world_components;
        let ghost ids_before8 = ids@;
        B8::get_or_register_component_ids(world_components, ids);
        proof {
            lemma_bundle_step(&start, &before8, &*world_components, start_ids, ids_before8, ids@);
            lemma_keys_step(&before8, &*world_components, start_ids.len() as int, ids_before8, ids@, B0::component_keys() + B1::component_keys() + B2::component_keys() + B3::component_keys() + B4::component_keys() + B5::component_keys() + B6::component_keys() + B7::component_keys(), B8::component_keys());
            lemma_push_keys_concat(start.component_keys(), start.infos().len(), B0::component_keys() + B1::component_keys() + B2::component_keys() + B3::component_keys() + B4::component_keys() + B5::component_keys() + B6::component_keys() + B7::component_keys(), B8::component_keys());
        }
        let ghost before9 = *world_components;
        let ghost ids_before9 = ids@;
        B9::get_or_register_component_ids(world_components, ids);
        proof {
            lemma_bundle_step(&start, &before9, &*world_components, start_ids, ids_before9, ids@);
            lemma_keys_step(&before9, &*world_components, start_ids.len() as int, ids_before9, ids@, B0::component_keys() + B1::component_keys() + B2::component_keys() + B3::component_keys() + B4::component_keys() + B5::component_keys() + B6::component_keys() + B7::component_keys() + B8::component_keys(), B9::component_keys());
            lemma_push_keys_concat(start.component_keys(), start.infos().len(), B0::component_keys() + B1::component_keys() + B2::component_keys() + B3::component_keys() + B4::component_keys() + B5::component_keys() + B6::component_keys() + B7::component_keys() + B8::component_keys(), B9::component_keys());
        }
        let ghost before10 = *world_components;
        let ghost ids_before10 = ids@;
        B10::get_or_register_component_ids(world_components, ids);
        proof {
            lemma_bundle_step(&start, &before10, &*world_components, start_ids, ids_before10, ids@);
            lemma_keys_step(&before10, &*world_components, start_ids.len() as int, ids_before10, ids@, B0::component_keys() + B1::component_keys() + B2::component_keys() + B3::component_keys() + B4::component_keys() + B5::component_keys() + B6::component_keys() + B7::component_keys() + B8::component_keys() + B9::component_keys(), B10::component_keys());
            lemma_push_keys_concat(start.component_keys(), start.infos().len(), B0::component_keys() + B1::component_keys() + B2::component_keys() + B3::component_keys() + B4::component_keys() + B5::component_keys() + B6::component_keys() + B7::component_keys() + B8::component_keys() + B9::component_keys(), B10::component_keys());
        }
        let ghost before11 = *world_components;
        let ghost ids_before11 = ids@;
        B11::get_or_register_component_ids(world_components, ids);
        proof {
            lemma_bundle_step(&start, &before11, &*world_components, start_ids, ids_before11, ids@);
            lemma_keys_step(&before11, &*world_components, start_ids.len() as int, ids_before11, ids@, B0::component_keys() + B1::component_keys() + B2::component_keys() + B3::component_keys() + B4::component_keys() + B5::component_keys() + B6::component_keys() + B7::component_keys() + B8::component_keys() + B9::component_keys() + B10::component_keys(), B11::component_keys());
            lemma_push_keys_concat(start.component_keys(), start.infos().len(), B0::component_keys() + B1::component_keys() + B2::component_keys() + B3::component_keys() + B4::component_keys() + B5::component_keys() + B6::component_keys() + B7::component_keys() + B8::component_keys() + B9::component_keys() + B10::component_keys(), B11::component_keys());
        }
        let ghost before12 = *world_components;
        let ghost ids_before12 = ids@;
        B12::get_or_register_component_ids(world_components, ids);
        proof {
            lemma_bundle_step(&start, &before12, &*world_components, start_ids, ids_before12, ids@);
            lemma_keys_step(&before12, &*world_components, start_ids.len() as int, ids_before12, ids@, B0::component_keys() + B1::component_keys() + B2::component_keys() + B3::component_keys() + B4::component_keys() + B5::component_keys() + B6::component_keys() + B7::component_keys() + B8::component_keys() + B9::component_keys() + B10::component_keys() + B11::component_keys(), B12::component_keys());
            lemma_push_keys_concat(start.component_keys(), start.infos().len(), B0::component_keys() + B1::component_keys() + B2::component_keys() + B3::component_keys() + B4::component_keys() + B5::component_keys() + B6::component_keys() + B7::component_keys() + B8::component_keys() + B9::component_keys() + B10::component_keys() + B11::component_keys(), B12::component_keys());
        }
        let ghost before13 = *world_components;
        let ghost ids_before13 = ids@;
        B13::get_or_register_component_ids(world_components, ids);
        proof {
            lemma_bundle_step(&start, &before13, &*world_components, start_ids, ids_before13, ids@);
            lemma_keys_step(&before13, &*world_components, start_ids.len() as int, ids_before13, ids@, B0::component_keys() + B1::component_keys() + B2::component_keys() + B3::component_keys() + B4::component_keys() + B5::component_keys() + B6::component_keys() + B7::component_keys() + B8::component_keys() + B9::component_keys() + B10::component_keys() + B11::component_keys() + B12::component_keys(), B13::component_keys());
            lemma_push_keys_concat(start.component_keys(), start.infos().len(), B0::component_keys() + B1::component_keys() + B2::component_keys() + B3::component_keys() + B4::component_keys() + B5::component_keys() + B6::component_keys() + B7::component_keys() + B8::component_keys() + B9::component_keys() + B10::component_keys() + B11::component_keys() + B12::component_keys(), B13::component_keys());
        }
        let ghost before14 = *world_components;
        let ghost ids_before14 = ids@;
        B14::get_or_register_component_ids(world_components, ids);
        proof {
            lemma_bundle_step(&start, &before14, &*world_components, start_ids, ids_before14, ids@);
            lemma_keys_step(&before14, &*world_components, start_ids.len() as int, ids_before14, ids@, B0::component_keys() + B1::component_keys() + B2::component_keys() + B3::component_keys() + B4::component_keys() + B5::component_keys() + B6::component_keys() + B7::component_keys() + B8::component_keys() + B9::component_keys() + B10::component_keys() + B11::component_keys() + B12::component_keys() + B13::component_keys(), B14::component_keys());
            lemma_push_keys_concat(start.component_keys(), start.infos().len(), B0::component_keys() + B1::component_keys() + B2::component_keys() + B3::component_keys() + B4::component_keys() + B5::component_keys() + B6::component_keys() + B7::component_keys() + B8::component_keys() + B9::component_keys() + B10::component_keys() + B11::component_keys() + B12::component_keys() + B13::component_keys(), B14::component_keys());
        }
    }

    fn get_component_ids(world_components: &Components, ids: &mut Vec<Option<ComponentId>>) {
        let ghost start = ids@;
        assert(ids@.subrange(0, start.len() as int) =~= start);
        let ghost before0 = ids@;
        B0::get_component_ids(world_components, ids);
        assert(ids@.subrange(0, start.len() as int) =~= before0.subrange(0, start.len() as int));
        let ghost before1 = ids@;
        B1::get_component_ids(world_components, ids);
        assert(ids@.subrange(0, start.len() as int) =~= before1.subrange(0, start.len() as int));
        proof {
            lemma_lookups_step(world_components.component_keys(), start.len() as int, before1, ids@, B0::component_keys(), B1::component_keys());
        }
        let ghost before2 = ids@;
        B2::get_component_ids(world_components, ids);
        assert(ids@.subrange(0, start.len() as int) =~= before2.subrange(0, start.len() as int));
        proof {
            lemma_lookups_step(world_components.component_keys(), start.len() as int, before2, ids@, B0::component_keys() + B1::component_keys(), B2::component_keys());
        }
        let ghost before3 = ids@;
        B3::get_component_ids(world_components, ids);
        assert(ids@.subrange(0, start.len() as int) =~= before3.subrange(0, start.len() as int));
        proof {
            lemma_lookups_step(world_components.component_keys(), start.len() as int, before3, ids@, B0::component_keys() + B1::component_keys() + B2::component_keys(), B3::component_keys());
        }
        let ghost before4 = ids@;
        B4::get_component_ids(world_components, ids);
        assert(ids@.subrange(0, start.len() as int) =~= before4.subrange(0, start.len() as int));
        proof {
            lemma_lookups_step(world_components.component_keys(), start.len() as int, before4, ids@, B0::component_keys() + B1::component_keys() + B2::component_keys() + B3::component_keys(), B4::component_keys());
        }
        let ghost before5 = ids@;
        B5::get_component_ids(world_components, ids);
        assert(ids@.subrange(0, start.len() as int) =~= before5.subrange(0, start.len() as int));
        proof {
            lemma_lookups_step(world_components.component_keys(), start.len() as int, before5, ids@, B0::component_keys() + B1::component_keys() + B2::component_keys() + B3::component_keys() + B4::component_keys(), B5::component_keys());
        }
        let ghost before6 = ids@;
        B6::get_component_ids(world_components, ids);
        assert(ids@.subrange(0, start.len() as int) =~= before6.subrange(0, start.len() as int));
        proof {
            lemma_lookups_step(world_components.component_keys(), start.len() as int, before6, ids@, B0::component_keys() + B1::component_keys() + B2::component_keys() + B3::component_keys() + B4::component_keys() + B5::component_keys(), B6::component_keys());
        }
        let ghost before7 = ids@;
        B7::get_component_ids(world_components, ids);
        assert(ids@.subrange(0, start.len() as int) =~= before7.subrange(0, start.len() as int));
        proof {
            lemma_lookups_step(world_components.component_keys(), start.len() as int, before7, ids@, B0::component_keys() + B1::component_keys() + B2::component_keys() + B3::component_keys() + B4::component_keys() + B5::component_keys() + B6::component_keys(), B7::component_keys());
        }
        let ghost before8 = ids@;
        B8::get_component_ids(world_components, ids);
        assert(ids@.subrange(0, start.len() as int) =~= before8.subrange(0, start.len() as int));
        proof {
            lemma_lookups_step(world_components.component_keys(), start.len() as int, before8, ids@, B0::component_keys() + B1::component_keys() + B2::component_keys() + B3::component_keys() + B4::component_keys() + B5::component_keys() + B6::component_keys() + B7::component_keys(), B8::component_keys());
        }
        let ghost before9 = ids@;
        B9::get_component_ids(world_components, ids);
        assert(ids@.subrange(0, start.len() as int) =~= before9.subrange(0, start.len() as int));
        proof {
            lemma_lookups_step(world_components.component_keys(), start.len() as int, before9, ids@, B0::component_keys() + B1::component_keys() + B2::component_keys() + B3::component_keys() + B4::component_keys() + B5::component_keys() + B6::component_keys() + B7::component_keys() + B8::component_keys(), B9::component_keys());
        }
        let ghost before10 = ids@;
        B10::get_component_ids(world_components, ids);
        assert(ids@.subrange(0, start.len() as int) =~= before10.subrange(0, start.len() as int));
        proof {
            lemma_lookups_step(world_components.component_keys(), start.len() as int, before10, ids@, B0::component_keys() + B1::component_keys() + B2::component_keys() + B3::component_keys() + B4::component_keys() + B5::component_keys() + B6::component_keys() + B7::component_keys() + B8::component_keys() + B9::component_keys(), B10::component_keys());
        }
        let ghost before11 = ids@;
        B11::get_component_ids(world_components, ids);
        assert(ids@.subrange(0, start.len() as int) =~= before11.subrange(0, start.len() as int));
        proof {
            lemma_lookups_step(world_components.component_keys(), start.len() as int, before11, ids@, B0::component_keys() + B1::component_keys() + B2::component_keys() + B3::component_keys() + B4::component_keys() + B5::component_keys() + B6::component_keys() + B7::component_keys() + B8::component_keys() + B9::component_keys() + B10::component_keys(), B11::component_keys());
        }
        let ghost before12 = ids@;
        B12::get_component_ids(world_components, ids);
        assert(ids@.subrange(0, start.len() as int) =~= before12.subrange(0, start.len() as int));
        proof {
            lemma_lookups_step(world_components.component_keys(), start.len() as int, before12, ids@, B0::component_keys() + B1::component_keys() + B2::component_keys() + B3::component_keys() + B4::component_keys() + B5::component_keys() + B6::component_keys() + B7::component_keys() + B8::component_keys() + B9::component_keys() + B10::component_keys() + B11::component_keys(), B12::component_keys());
        }
        let ghost before13 = ids@;
        B13::get_component_ids(world_components, ids);
        assert(ids@.subrange(0, start.len() as int) =~= before13.subrange(0, start.len() as int));
        proof {
            lemma_lookups_step(world_components.component_keys(), start.len() as int, before13, ids@, B0::component_keys() + B1::component_keys() + B2::component_keys() + B3::component_keys() + B4::component_keys() + B5::component_keys() + B6::component_keys() + B7::component_keys() + B8::component_keys() + B9::component_keys() + B10::component_keys() + B11::component_keys() + B12::component_keys(), B13::component_keys());
        }
        let ghost before14 = ids@;
        B14::get_component_ids(world_components, ids);
        assert(ids@.subrange(0, start.len() as int) =~= before14.subrange(0, start.len() as int));
        proof {
            lemma_lookups_step(world_components.component_keys(), start.len() as int, before14, ids@, B0::component_keys() + B1::component_keys() + B2::component_keys() + B3::component_keys() + B4::component_keys() + B5::component_keys() + B6::component_keys() + B7::component_keys() + B8::component_keys() + B9::component_keys() + B10::component_keys() + B11::component_keys() + B12::component_keys() + B13::component_keys(), B14::component_keys());
        }
    }
}

impl<B0: Bundle, B1: Bundle, B2: Bundle, B3: Bundle, B4: Bundle, B5: Bundle, B6: Bundle, B7: Bundle, B8: Bundle, B9: Bundle, B10: Bundle, B11: Bundle, B12: Bundle, B13: Bundle, B14: Bundle, B15: Bundle> Bundle for (B0, B1, B2, B3, B4, B5, B6, B7, B8, B9, B10, B11, B12, B13, B14, B15) {
    open spec fn component_count() -> nat {
        B0::component_count() + B1::component_count() + B2::component_count() + B3::component_count() + B4::component_count() + B5::component_count() + B6::component_count() + B7::component_count() + B8::component_count() + B9::component_count() + B10::component_count() + B11::component_count() + B12::component_count() + B13::component_count() + B14::component_count() + B15::component_count()
    }

    open spec fn component_keys() -> Seq<TypeId> {
        B0::component_keys() + B1::component_keys() + B2::component_keys() + B3::component_keys() + B4::component_keys() + B5::component_keys() + B6::component_keys() + B7::component_keys() + B8::component_keys() + B9::component_keys() + B10::component_keys() + B11::component_keys() + B12::component_keys() + B13::component_keys() + B14::component_keys() + B15::component_keys()
    }

    fn get_or_register_component_ids(world_components: &mut Components, ids: &mut Vec<ComponentId>) {
        let ghost start = *world_components;
        let ghost start_ids = ids@;
        proof {
            lemma_extends_reflexive(&start);
            assert(ids@.subrange(0, start_ids.len() as int) =~= start_ids);
        }
        let ghost before0 = *world_components;
        let ghost ids_before0 = ids@;
        B0::get_or_register_component_ids(world_components, ids);
        proof {
            lemma_bundle_step(&start, &before0, &*world_components, start_ids, ids_before0, ids@);
        }
        let ghost before1 = *world_components;
        let ghost ids_before1 = ids@;
        B1::get_or_register_component_ids(world_components, ids);
        proof {
            lemma_bundle_step(&start, &before1, &*world_components, start_ids, ids_before1, ids@);
            lemma_keys_step(&before1, &*world_components, start_ids.len() as int, ids_before1, ids@, B0::component_keys(), B1::component_keys());
            lemma_push_keys_concat(start.component_keys(), start.infos().len(), B0::component_keys(), B1::component_keys());
        }
        let ghost before2 = *world_components;
        let ghost ids_before2 = ids@;
        B2::get_or_register_component_ids(world_components, ids);
        proof {
            lemma_bundle_step(&start, &before2, &*world_components, start_ids, ids_before2, ids@);
            lemma_keys_step(&before2, &*world_components, start_ids.len() as int, ids_before2, ids@, B0::component_keys() + B1::component_keys(), B2::component_keys());
            lemma_push_keys_concat(start.component_keys(), start.infos().len(), B0::component_keys() + B1::component_keys(), B2::component_keys());
        }
        let ghost before3 = *world_components;
        let ghost ids_before3 = ids@;
        B3::get_or_register_component_ids(world_components, ids);
        proof {
            lemma_bundle_step(&start, &before3, &*world_components, start_ids, ids_before3, ids@);
            lemma_keys_step(&before3, &*world_components, start_ids.len() as int, ids_before3, ids@, B0::component_keys() + B1::component_keys() + B2::component_keys(), B3::component_keys());
            lemma_push_keys_concat(start.component_keys(), start.infos().len(), B0::component_keys() + B1::component_keys() + B2::component_keys(), B3::component_keys());
        }
        let ghost before4 = *world_components;
        let ghost ids_before4 = ids@;
        B4::get_or_register_component_ids(world_components, ids);
        proof {
            lemma_bundle_step(&start, &before4, &*world_components, start_ids, ids_before4, ids@);
            lemma_keys_step(&before4, &*world_components, start_ids.len() as int, ids_before4, ids@, B0::component_keys() + B1::component_keys() + B2::component_keys() + B3::component_keys(), B4::component_keys());
            lemma_push_keys_concat(start.component_keys(), start.infos().len(), B0::component_keys() + B1::component_keys() + B2::component_keys() + B3::component_keys(), B4::component_keys());
        }
        let ghost before5 = *world_components;
        let ghost ids_before5 = ids@;
        B5::get_or_register_component_ids(world_components, ids);
        proof {
            lemma_bundle_step(&start, &before5, &*world_components, start_ids, ids_before5, ids@);
            lemma_keys_step(&before5, &*world_components, start_ids.len() as int, ids_before5, ids@, B0::component_keys() + B1::component_keys() + B2::component_keys() + B3::component_keys() + B4::component_keys(), B5::component_keys());
            lemma_push_keys_concat(start.component_keys(), start.infos().len(), B0::component_keys() + B1::component_keys() + B2::component_keys() + B3::component_keys() + B4::component_keys(), B5::component_keys());
        }
        let ghost before6 = *world_components;
        let ghost ids_before6 = ids@;
        B6::get_or_register_component_ids(world_components, ids);
        proof {
            lemma_bundle_step(&start, &before6, &*world_components, start_ids, ids_before6, ids@);
            lemma_keys_step(&before6, &*world_components, start_ids.len() as int, ids_before6, ids@, B0::component_keys() + B1::component_keys() + B2::component_keys() + B3::component_keys() + B4::component_keys() + B5::component_keys(), B6::component_keys());
            lemma_push_keys_concat(start.component_keys(), start.infos().len(), B0::component_keys() + B1::component_keys() + B2::component_keys() + B3::component_keys() + B4::component_keys() + B5::component_keys(), B6::component_keys());
        }
        let ghost before7 = *world_components;
        let ghost ids_before7 = ids@;
        B7::get_or_register_component_ids(world_components, ids);
        proof {
            lemma_bundle_step(&start, &before7, &*world_components, start_ids, ids_before7, ids@);
            lemma_keys_step(&before7, &*world_components, start_ids.len() as int, ids_before7, ids@, B0::component_keys() + B1::component_keys() + B2::component_keys() + B3::component_keys() + B4::component_keys() + B5::component_keys() + B6::component_keys(), B7::component_keys());
            lemma_push_keys_concat(start.component_keys(), start.infos().len(), B0::component_keys() + B1::component_keys() + B2::component_keys() + B3::component_keys() + B4::component_keys() + B5::component_keys() + B6::component_keys(), B7::component_keys());
        }
        let ghost before8 = *world_components;
        let ghost ids_before8 = ids@;
        B8::get_or_register_component_ids(world_components, ids);
        proof {
            lemma_bundle_step(&start, &before8, &*world_components, start_ids, ids_before8, ids@);
            lemma_keys_step(&before8, &*world_components, start_ids.len() as int, ids_before8, ids@, B0::component_keys() + B1::component_keys() + B2::component_keys() + B3::component_keys() + B4::component_keys() + B5::component_keys() + B6::component_keys() + B7::component_keys(), B8::component_keys());
            lemma_push_keys_concat(start.component_keys(), start.infos().len(), B0::component_keys() + B1::component_keys() + B2::component_keys() + B3::component_keys() + B4::component_keys() + B5::component_keys() + B6::component_keys() + B7::component_keys(), B8::component_keys());
        }
        let ghost before9 = *world_components;
        let ghost ids_before9 = ids@;
        B9::get_or_register_component_ids(world_components, ids);
        proof {
            lemma_bundle_step(&start, &before9, &*world_components, start_ids, ids_before9, ids@);
            lemma_keys_step(&before9, &*world_components, start_ids.len() as int, ids_before9, ids@, B0::component_keys() + B1::component_keys() + B2::component_keys() + B3::component_keys() + B4::component_keys() + B5::component_keys() + B6::component_keys() + B7::component_keys() + B8::component_keys(), B9::component_keys());
            lemma_push_keys_concat(start.component_keys(), start.infos().len(), B0::component_keys() + B1::component_keys() + B2::component_keys() + B3::component_keys() + B4::component_keys() + B5::component_keys() + B6::component_keys() + B7::component_keys() + B8::component_keys(), B9::component_keys());
        }
        let ghost before10 = *world_components;
        let ghost ids_before10 = ids@;
        B10::get_or_register_component_ids(world_components, ids);
        proof {
            lemma_bundle_step(&start, &before10, &*world_components, start_ids, ids_before10, ids@);
            lemma_keys_step(&before10, &*world_components, start_ids.len() as int, ids_before10, ids@, B0::component_keys() + B1::component_keys() + B2::component_keys() + B3::component_keys() + B4::component_keys() + B5::component_keys() + B6::component_keys() + B7::component_keys() + B8::component_keys() + B9::component_keys(), B10::component_keys());
            lemma_push_keys_concat(start.component_keys(), start.infos().len(), B0::component_keys() + B1::component_keys() + B2::component_keys() + B3::component_keys() + B4::component_keys() + B5::component_keys() + B6::component_keys() + B7::component_keys() + B8::component_keys() + B9::component_keys(), B10::component_keys());
        }
        let ghost before11 = *world_components;
        let ghost ids_before11 = ids@;
        B11::get_or_register_component_ids(world_components, ids);
        proof {
            lemma_bundle_step(&start, &before11, &*world_components, start_ids, ids_before11, ids@);
            lemma_keys_step(&before11, &*world_components, start_ids.len() as int, ids_before11, ids@, B0::component_keys() + B1::component_keys() + B2::component_keys() + B3::component_keys() + B4::component_keys() + B5::component_keys() + B6::component_keys() + B7::component_keys() + B8::component_keys() + B9::component_keys() + B10::component_keys(), B11::component_keys());
            lemma_push_keys_concat(start.component_keys(), start.infos().len(), B0::component_keys() + B1::component_keys() + B2::component_keys() + B3::component_keys() + B4::component_keys() + B5::component_keys() + B6::component_keys() + B7::component_keys() + B8::component_keys() + B9::component_keys() + B10::component_keys(), B11::component_keys());
        }
        let ghost before12 = *world_components;
        let ghost ids_before12 = ids@;
        B12::get_or_register_component_ids(world_components, ids);
        proof {
            lemma_bundle_step(&start, &before12, &*world_components, start_ids, ids_before12, ids@);
            lemma_keys_step(&before12, &*world_components, start_ids.len() as int, ids_before12, ids@, B0::component_keys() + B1::component_keys() + B2::component_keys() + B3::component_keys() + B4::component_keys() + B5::component_keys() + B6::component_keys() + B7::component_keys() + B8::component_keys() + B9::component_keys() + B10::component_keys() + B11::component_keys(), B12::component_keys());
            lemma_push_keys_concat(start.component_keys(), start.infos().len(), B0::component_keys() + B1::component_keys() + B2::component_keys() + B3::component_keys() + B4::component_keys() + B5::component_keys() + B6::component_keys() + B7::component_keys() + B8::component_keys() + B9::component_keys() + B10::component_keys() + B11::component_keys(), B12::component_keys());
        }
        let ghost before13 = *world_components;
        let ghost ids_before13 = ids@;
        B13::get_or_register_component_ids(world_components, ids);
        proof {
            lemma_bundle_step(&start, &before13, &*world_components, start_ids, ids_before13, ids@);
            lemma_keys_step(&before13, &*world_components, start_ids.len() as int, ids_before13, ids@, B0::component_keys() + B1::component_keys() + B2::component_keys() + B3::component_keys() + B4::component_keys() + B5::component_keys() + B6::component_keys() + B7::component_keys() + B8::component_keys() + B9::component_keys() + B10::component_keys() + B11::component_keys() + B12::component_keys(), B13::component_keys());
            lemma_push_keys_concat(start.component_keys(), start.infos().len(), B0::component_keys() + B1::component_keys() + B2::component_keys() + B3::component_keys() + B4::component_keys() + B5::component_keys() + B6::component_keys() + B7::component_keys() + B8::component_keys() + B9::component_keys() + B10::component_keys() + B11::component_keys() + B12::component_keys(), B13::component_keys());
        }
        let ghost before14 = *world_components;
        let ghost ids_before14 = ids@;
        B14::get_or_register_component_ids(world_components, ids);
        proof {
            lemma_bundle_step(&start, &before14, &*world_components, start_ids, ids_before14, ids@);
            lemma_keys_step(&before14, &*world_components, start_ids.len() as int, ids_before14, ids@, B0::component_keys() + B1::component_keys() + B2::component_keys() + B3::component_keys() + B4::component_keys() + B5::component_keys() + B6::component_keys() + B7::component_keys() + B8::component_keys() + B9::component_keys() + B10::component_keys() + B11::component_keys() + B12::component_keys() + B13::component_keys(), B14::component_keys());
            lemma_push_keys_concat(start.component_keys(), start.infos().len(), B0::component_keys() + B1::component_keys() + B2::component_keys() + B3::component_keys() + B4::component_keys() + B5::component_keys() + B6::component_keys() + B7::component_keys() + B8::component_keys() + B9::component_keys() + B10::component_keys() + B11::component_keys() + B12::component_keys() + B13::component_keys(), B14::component_keys());
        }
        let ghost before15 = *world_components;
        let ghost ids_before15 = ids@;
        B15::get_or_register_component_ids(world_components, ids);
        proof {
            lemma_bundle_step(&start, &before15, &*world_components, start_ids, ids_before15, ids@);
            lemma_keys_step(&before15, &*world_components, start_ids.len() as int, ids_before15, ids@, B0::component_keys() + B1::component_keys() + B2::component_keys() + B3::component_keys() + B4::component_keys() + B5::component_keys() + B6::component_keys() + B7::component_keys() + B8::component_keys() + B9::component_keys() + B10::component_keys() + B11::component_keys() + B12::component_keys() + B13::component_keys() + B14::component_keys(), B15::component_keys());
            lemma_push_keys_concat(start.component_keys(), start.infos().len(), B0::component_keys() + B1::component_keys() + B2::component_keys() + B3::component_keys() + B4::component_keys() + B5::component_keys() + B6::component_keys() + B7::component_keys() + B8::component_keys() + B9::component_keys() + B10::component_keys() + B11::component_keys() + B12::component_keys() + B13::component_keys() + B14::component_keys(), B15::component_keys());
        }
    }

    fn get_component_ids(world_components: &Components, ids: &mut Vec<Option<ComponentId>>) {
        let ghost start = ids@;
        assert(ids@.subrange(0, start.len() as int) =~= start);
        let ghost before0 = ids@;
        B0::get_component_ids(world_components, ids);
        assert(ids@.subrange(0, start.len() as int) =~= before0.subrange(0, start.len() as int));
        let ghost before1 = ids@;
        B1::get_component_ids(world_components, ids);
        assert(ids@.subrange(0, start.len() as int) =~= before1.subrange(0, start.len() as int));
        proof {
            lemma_lookups_step(world_components.component_keys(), start.len() as int, before1, ids@, B0::component_keys(), B1::component_keys());
        }
        let ghost before2 = ids@;
        B2::get_component_ids(world_components, ids);
        assert(ids@.subrange(0, start.len() as int) =~= before2.subrange(0, start.len() as int));
        proof {
            lemma_lookups_step(world_components.component_keys(), start.len() as int, before2, ids@, B0::component_keys() + B1::component_keys(), B2::component_keys());
        }
        let ghost before3 = ids@;
        B3::get_component_ids(world_components, ids);
        assert(ids@.subrange(0, start.len() as int) =~= before3.subrange(0, start.len() as int));
        proof {
            lemma_lookups_step(world_components.component_keys(), start.len() as int, before3, ids@, B0::component_keys() + B1::component_keys() + B2::component_keys(), B3::component_keys());
        }
        let ghost before4 = ids@;
        B4::get_component_ids(world_components, ids);
        assert(ids@.subrange(0, start.len() as int) =~= before4.subrange(0, start.len() as int));
        proof {
            lemma_lookups_step(world_components.component_keys(), start.len() as int, before4, ids@, B0::component_keys() + B1::component_keys() + B2::component_keys() + B3::component_keys(), B4::component_keys());
        }
        let ghost before5 = ids@;
        B5::get_component_ids(world_components, ids);
        assert(ids@.subrange(0, start.len() as int) =~= before5.subrange(0, start.len() as int));
        proof {
            lemma_lookups_step(world_components.component_keys(), start.len() as int, before5, ids@, B0::component_keys() + B1::component_keys() + B2::component_keys() + B3::component_keys() + B4::component_keys(), B5::component_keys());
        }
        let ghost before6 = ids@;
        B6::get_component_ids(world_components, ids);
        assert(ids@.subrange(0, start.len() as int) =~= before6.subrange(0, start.len() as int));
        proof {
            lemma_lookups_step(world_components.component_keys(), start.len() as int, before6, ids@, B0::component_keys() + B1::component_keys() + B2::component_keys() + B3::component_keys() + B4::component_keys() + B5::component_keys(), B6::component_keys());
        }
        let ghost before7 = ids@;
        B7::get_component_ids(world_components, ids);
        assert(ids@.subrange(0, start.len() as int) =~= before7.subrange(0, start.len() as int));
        proof {
            lemma_lookups_step(world_components.component_keys(), start.len() as int, before7, ids@, B0::component_keys() + B1::component_keys() + B2::component_keys() + B3::component_keys() + B4::component_keys() + B5::component_keys() + B6::component_keys(), B7::component_keys());
        }
        let ghost before8 = ids@;
        B8::get_component_ids(world_components, ids);
        assert(ids@.subrange(0, start.len() as int) =~= before8.subrange(0, start.len() as int));
        proof {
            lemma_lookups_step(world_components.component_keys(), start.len() as int, before8, ids@, B0::component_keys() + B1::component_keys() + B2::component_keys() + B3::component_keys() + B4::component_keys() + B5::component_keys() + B6::component_keys() + B7::component_keys(), B8::component_keys());
        }
        let ghost before9 = ids@;
        B9::get_component_ids(world_components, ids);
        assert(ids@.subrange(0, start.len() as int) =~= before9.subrange(0, start.len() as int));
        proof {
            lemma_lookups_step(world_components.component_keys(), start.len() as int, before9, ids@, B0::component_keys() + B1::component_keys() + B2::component_keys() + B3::component_keys() + B4::component_keys() + B5::component_keys() + B6::component_keys() + B7::component_keys() + B8::component_keys(), B9::component_keys());
        }
        let ghost before10 = ids@;
        B10::get_component_ids(world_components, ids);
        assert(ids@.subrange(0, start.len() as int) =~= before10.subrange(0, start.len() as int));
        proof {
            lemma_lookups_step(world_components.component_keys(), start.len() as int, before10, ids@, B0::component_keys() + B1::component_keys() + B2::component_keys() + B3::component_keys() + B4::component_keys() + B5::component_keys() + B6::component_keys() + B7::component_keys() + B8::component_keys() + B9::component_keys(), B10::component_keys());
        }
        let ghost before11 = ids@;
        B11::get_component_ids(world_components, ids);
        assert(ids@.subrange(0, start.len() as int) =~= before11.subrange(0, start.len() as int));
        proof {
            lemma_lookups_step(world_components.component_keys(), start.len() as int, before11, ids@, B0::component_keys() + B1::component_keys() + B2::component_keys() + B3::component_keys() + B4::component_keys() + B5::component_keys() + B6::component_keys() + B7::component_keys() + B8::component_keys() + B9::component_keys() + B10::component_keys(), B11::component_keys());
        }
        let ghost before12 = ids@;
        B12::get_component_ids(world_components, ids);
        assert(ids@.subrange(0, start.len() as int) =~= before12.subrange(0, start.len() as int));
        proof {
            lemma_lookups_step(world_components.component_keys(), start.len() as int, before12, ids@, B0::component_keys() + B1::component_keys() + B2::component_keys() + B3::component_keys() + B4::component_keys() + B5::component_keys() + B6::component_keys() + B7::component_keys() + B8::component_keys() + B9::component_keys() + B10::component_keys() + B11::component_keys(), B12::component_keys());
        }
        let ghost before13 = ids@;
        B13::get_component_ids(world_components, ids);
        assert(ids@.subrange(0, start.len() as int) =~= before13.subrange(0, start.len() as int));
        proof {
            lemma_lookups_step(world_components.component_keys(), start.len() as int, before13, ids@, B0::component_keys() + B1::component_keys() + B2::component_keys() + B3::component_keys() + B4::component_keys() + B5::component_keys() + B6::component_keys() + B7::component_keys() + B8::component_keys() + B9::component_keys() + B10::component_keys() + B11::component_keys() + B12::component_keys(), B13::component_keys());
        }
        let ghost before14 = ids@;
        B14::get_component_ids(world_components, ids);
        assert(ids@.subrange(0, start.len() as int) =~= before14.subrange(0, start.len() as int));
        proof {
            lemma_lookups_step(world_components.component_keys(), start.len() as int, before14, ids@, B0::component_keys() + B1::component_keys() + B2::component_keys() + B3::component_keys() + B4::component_keys() + B5::component_keys() + B6::component_keys() + B7::component_keys() + B8::component_keys() + B9::component_keys() + B10::component_keys() + B11::component_keys() + B12::component_keys() + B13::component_keys(), B14::component_keys());
        }
        let ghost before15 = ids@;
        B15::get_component_ids(world_components, ids);
        assert(ids@.subrange(0, start.len() as int) =~= before15.subrange(0, start.len() as int));
        proof {
            lemma_lookups_step(world_components.component_keys(), start.len() as int, before15, ids@, B0::component_keys() + B1::component_keys() + B2::component_keys() + B3::component_keys() + B4::component_keys() + B5::component_keys() + B6::component_keys() + B7::component_keys() + B8::component_keys() + B9::component_keys() + B10::component_keys() + B11::component_keys() + B12::component_keys() + B13::component_keys() + B14::component_keys(), B15::component_keys());
        }
    }
}


/// A bundle of 1 member bundle lists the component types of its members in
/// declaration order, and counts them all.
pub proof fn lemma_tuple1_keys_in_order<B0: Bundle>()
    ensures
        <(B0,) as Bundle>::component_keys() == B0::component_keys(),
        <(B0,) as Bundle>::component_count() == B0::component_count(),
{
}

/// A bundle of 2 member bundles lists the component types of its members in
/// declaration order, and counts them all.
pub proof fn lemma_tuple2_keys_in_order<B0: Bundle, B1: Bundle>()
    ensures
        <(B0, B1) as Bundle>::component_keys() == B0::component_keys() + B1::component_keys(),
        <(B0, B1) as Bundle>::component_count() == B0::component_count() + B1::component_count(),
{
}

/// A bundle of 3 member bundles lists the component types of its members in
/// declaration order, and counts them all.
pub proof fn lemma_tuple3_keys_in_order<B0: Bundle, B1: Bundle, B2: Bundle>()
    ensures
        <(B0, B1, B2) as Bundle>::component_keys() == B0::component_keys() + B1::component_keys() + B2::component_keys(),
        <(B0, B1, B2) as Bundle>::component_count() == B0::component_count() + B1::component_count() + B2::component_count(),
{
}

/// A bundle of 4 member bundles lists the component types of its members in
/// declaration order, and counts them all.
pub proof fn lemma_tuple4_keys_in_order<B0: Bundle, B1: Bundle, B2: Bundle, B3: Bundle>()
    ensures
        <(B0, B1, B2, B3) as Bundle>::component_keys() == B0::component_keys() + B1::component_keys() + B2::component_keys() + B3::component_keys(),
        <(B0, B1, B2, B3) as Bundle>::component_count() == B0::component_count() + B1::component_count() + B2::component_count() + B3::component_count(),
{
}

/// A bundle of 5 member bundles lists the component types of its members in
/// declaration order, and counts them all.
pub proof fn lemma_tuple5_keys_in_order<B0: Bundle, B1: Bundle, B2: Bundle, B3: Bundle, B4: Bundle>()
    ensures
        <(B0, B1, B2, B3, B4) as Bundle>::component_keys() == B0::component_keys() + B1::component_keys() + B2::component_keys() + B3::component_keys() + B4::component_keys(),
        <(B0, B1, B2, B3, B4) as Bundle>::component_count() == B0::component_count() + B1::component_count() + B2::component_count() + B3::component_count() + B4::component_count(),
{
}

/// A bundle of 6 member bundles lists the component types of its members in
/// declaration order, and counts them all.
pub proof fn lemma_tuple6_keys_in_order<B0: Bundle, B1: Bundle, B2: Bundle, B3: Bundle, B4: Bundle, B5: Bundle>()
    ensures
        <(B0, B1, B2, B3, B4, B5) as Bundle>::component_keys() == B0::component_keys() + B1::component_keys() + B2::component_keys() + B3::component_keys() + B4::component_keys() + B5::component_keys(),
        <(B0, B1, B2, B3, B4, B5) as Bundle>::component_count() == B0::component_count() + B1::component_count() + B2::component_count() + B3::component_count() + B4::component_count() + B5::component_count(),
{
}

/// A bundle of 7 member bundles lists the component types of its members in
/// declaration order, and counts them all.
pub proof fn lemma_tuple7_keys_in_order<B0: Bundle, B1: Bundle, B2: Bundle, B3: Bundle, B4: Bundle, B5: Bundle, B6: Bundle>()
    ensures
        <(B0, B1, B2, B3, B4, B5, B6) as Bundle>::component_keys() == B0::component_keys() + B1::component_keys() + B2::component_keys() + B3::component_keys() + B4::component_keys() + B5::component_keys() + B6::component_keys(),
        <(B0, B1, B2, B3, B4, B5, B6) as Bundle>::component_count() == B0::component_count() + B1::component_count() + B2::component_count() + B3::component_count() + B4::component_count() + B5::component_count() + B6::component_count(),
{
}

/// A bundle of 8 member bundles lists the component types of its members in
/// declaration order, and counts them all.
pub proof fn lemma_tuple8_keys_in_order<B0: Bundle, B1: Bundle, B2: Bundle, B3: Bundle, B4: Bundle, B5: Bundle, B6: Bundle, B7: Bundle>()
    ensures
        <(B0, B1, B2, B3, B4, B5, B6, B7) as Bundle>::component_keys() == B0::component_keys() + B1::component_keys() + B2::component_keys() + B3::component_keys() + B4::component_keys() + B5::component_keys() + B6::component_keys() + B7::component_keys(),
        <(B0, B1, B2, B3, B4, B5, B6, B7) as Bundle>::component_count() == B0::component_count() + B1::component_count() + B2::component_count() + B3::component_count() + B4::component_count() + B5::component_count() + B6::component_count() + B7::component_count(),
{
}

/// A bundle of 9 member bundles lists the component types of its members in
/// declaration order, and counts them all.
pub proof fn lemma_tuple9_keys_in_order<B0: Bundle, B1: Bundle, B2: Bundle, B3: Bundle, B4: Bundle, B5: Bundle, B6: Bundle, B7: Bundle, B8: Bundle>()
    ensures
        <(B0, B1, B2, B3, B4, B5, B6, B7, B8) as Bundle>::component_keys() == B0::component_keys() + B1::component_keys() + B2::component_keys() + B3::component_keys() + B4::component_keys() + B5::component_keys() + B6::component_keys() + B7::component_keys() + B8::component_keys(),
        <(B0, B1, B2, B3, B4, B5, B6, B7, B8) as Bundle>::component_count() == B0::component_count() + B1::component_count() + B2::component_count() + B3::component_count() + B4::component_count() + B5::component_count() + B6::component_count() + B7::component_count() + B8::component_count(),
{
}

/// A bundle of 10 member bundles lists the component types of its members in
/// declaration order, and counts them all.
pub proof fn lemma_tuple10_keys_in_order<B0: Bundle, B1: Bundle, B2: Bundle, B3: Bundle, B4: Bundle, B5: Bundle, B6: Bundle, B7: Bundle, B8: Bundle, B9: Bundle>()
    ensures
        <(B0, B1, B2, B3, B4, B5, B6, B7, B8, B9) as Bundle>::component_keys() == B0::component_keys() + B1::component_keys() + B2::component_keys() + B3::component_keys() + B4::component_keys() + B5::component_keys() + B6::component_keys() + B7::component_keys() + B8::component_keys() + B9::component_keys(),
        <(B0, B1, B2, B3, B4, B5, B6, B7, B8, B9) as Bundle>::component_count() == B0::component_count() + B1::component_count() + B2::component_count() + B3::component_count() + B4::component_count() + B5::component_count() + B6::component_count() + B7::component_count() + B8::component_count() + B9::component_count(),
{
}

/// A bundle of 11 member bundles lists the component types of its members in
/// declaration order, and counts them all.
pub proof fn lemma_tuple11_keys_in_order<B0: Bundle, B1: Bundle, B2: Bundle, B3: Bundle, B4: Bundle, B5: Bundle, B6: Bundle, B7: Bundle, B8: Bundle, B9: Bundle, B10: Bundle>()
    ensures
        <(B0, B1, B2, B3, B4, B5, B6, B7, B8, B9, B10) as Bundle>::component_keys() == B0::component_keys() + B1::component_keys() + B2::component_keys() + B3::component_keys() + B4::component_keys() + B5::component_keys() + B6::component_keys() + B7::component_keys() + B8::component_keys() + B9::component_keys() + B10::component_keys(),
        <(B0, B1, B2, B3, B4, B5, B6, B7, B8, B9, B10) as Bundle>::component_count() == B0::component_count() + B1::component_count() + B2::component_count() + B3::component_count() + B4::component_count() + B5::component_count() + B6::component_count() + B7::component_count() + B8::component_count() + B9::component_count() + B10::component_count(),
{
}

/// A bundle of 12 member bundles lists the component types of its members in
/// declaration order, and counts them all.
pub proof fn lemma_tuple12_keys_in_order<B0: Bundle, B1: Bundle, B2: Bundle, B3: Bundle, B4: Bundle, B5: Bundle, B6: Bundle, B7: Bundle, B8: Bundle, B9: Bundle, B10: Bundle, B11: Bundle>()
    ensures
        <(B0, B1, B2, B3, B4, B5, B6, B7, B8, B9, B10, B11) as Bundle>::component_keys() == B0::component_keys() + B1::component_keys() + B2::component_keys() + B3::component_keys() + B4::component_keys() + B5::component_keys() + B6::component_keys() + B7::component_keys() + B8::component_keys() + B9::component_keys() + B10::component_keys() + B11::component_keys(),
        <(B0, B1, B2, B3, B4, B5, B6, B7, B8, B9, B10, B11) as Bundle>::component_count() == B0::component_count() + B1::component_count() + B2::component_count() + B3::component_count() + B4::component_count() + B5::component_count() + B6::component_count() + B7::component_count() + B8::component_count() + B9::component_count() + B10::component_count() + B11::component_count(),
{
}

/// A bundle of 13 member bundles lists the component types of its members in
/// declaration order, and counts them all.
pub proof fn lemma_tuple13_keys_in_order<B0: Bundle, B1: Bundle, B2: Bundle, B3: Bundle, B4: Bundle, B5: Bundle, B6: Bundle, B7: Bundle, B8: Bundle, B9: Bundle, B10: Bundle, B11: Bundle, B12: Bundle>()
    ensures
        <(B0, B1, B2, B3, B4, B5, B6, B7, B8, B9, B10, B11, B12) as Bundle>::component_keys() == B0::component_keys() + B1::component_keys() + B2::component_keys() + B3::component_keys() + B4::component_keys() + B5::component_keys() + B6::component_keys() + B7::component_keys() + B8::component_keys() + B9::component_keys() + B10::component_keys() + B11::component_keys() + B12::component_keys(),
        <(B0, B1, B2, B3, B4, B5, B6, B7, B8, B9, B10, B11, B12) as Bundle>::component_count() == B0::component_count() + B1::component_count() + B2::component_count() + B3::component_count() + B4::component_count() + B5::component_count() + B6::component_count() + B7::component_count() + B8::component_count() + B9::component_count() + B10::component_count() + B11::component_count() + B12::component_count(),
{
}

/// A bundle of 14 member bundles lists the component types of its members in
/// declaration order, and counts them all.
pub proof fn lemma_tuple14_keys_in_order<B0: Bundle, B1: Bundle, B2: Bundle, B3: Bundle, B4: Bundle, B5: Bundle, B6: Bundle, B7: Bundle, B8: Bundle, B9: Bundle, B10: Bundle, B11: Bundle, B12: Bundle, B13: Bundle>()
    ensures
        <(B0, B1, B2, B3, B4, B5, B6, B7, B8, B9, B10, B11, B12, B13) as Bundle>::component_keys() == B0::component_keys() + B1::component_keys() + B2::component_keys() + B3::component_keys() + B4::component_keys() + B5::component_keys() + B6::component_keys() + B7::component_keys() + B8::component_keys() + B9::component_keys() + B10::component_keys() + B11::component_keys() + B12::component_keys() + B13::component_keys(),
        <(B0, B1, B2, B3, B4, B5, B6, B7, B8, B9, B10, B11, B12, B13) as Bundle>::component_count() == B0::component_count() + B1::component_count() + B2::component_count() + B3::component_count() + B4::component_count() + B5::component_count() + B6::component_count() + B7::component_count() + B8::component_count() + B9::component_count() + B10::component_count() + B11::component_count() + B12::component_count() + B13::component_count(),
{
}

/// A bundle of 15 member bundles lists the component types of its members in
/// declaration order, and counts them all.
pub proof fn lemma_tuple15_keys_in_order<B0: Bundle, B1: Bundle, B2: Bundle, B3: Bundle, B4: Bundle, B5: Bundle, B6: Bundle, B7: Bundle, B8: Bundle, B9: Bundle, B10: Bundle, B11: Bundle, B12: Bundle, B13: Bundle, B14: Bundle>()
    ensures
        <(B0, B1, B2, B3, B4, B5, B6, B7, B8, B9, B10, B11, B12, B13, B14) as Bundle>::component_keys() == B0::component_keys() + B1::component_keys() + B2::component_keys() + B3::component_keys() + B4::component_keys() + B5::component_keys() + B6::component_keys() + B7::component_keys() + B8::component_keys() + B9::component_keys() + B10::component_keys() + B11::component_keys() + B12::component_keys() + B13::component_keys() + B14::component_keys(),
        <(B0, B1, B2, B3, B4, B5, B6, B7, B8, B9, B10, B11, B12, B13, B14) as Bundle>::component_count() == B0::component_count() + B1::component_count() + B2::component_count() + B3::component_count() + B4::component_count() + B5::component_count() + B6::component_count() + B7::component_count() + B8::component_count() + B9::component_count() + B10::component_count() + B11::component_count() + B12::component_count() + B13::component_count() + B14::component_count(),
{
}

/// A bundle of 16 member bundles lists the component types of its members in
/// declaration order, and counts them all.
pub proof fn lemma_tuple16_keys_in_order<B0: Bundle, B1: Bundle, B2: Bundle, B3: Bundle, B4: Bundle, B5: Bundle, B6: Bundle, B7: Bundle, B8: Bundle, B9: Bundle, B10: Bundle, B11: Bundle, B12: Bundle, B13: Bundle, B14: Bundle, B15: Bundle>()
    ensures
        <(B0, B1, B2, B3, B4, B5, B6, B7, B8, B9, B10, B11, B12, B13, B14, B15) as Bundle>::component_keys() == B0::component_keys() + B1::component_keys() + B2::component_keys() + B3::component_keys() + B4::component_keys() + B5::component_keys() + B6::component_keys() + B7::component_keys() + B8::component_keys() + B9::component_keys() + B10::component_keys() + B11::component_keys() + B12::component_keys() + B13::component_keys() + B14::component_keys() + B15::component_keys(),
        <(B0, B1, B2, B3, B4, B5, B6, B7, B8, B9, B10, B11, B12, B13, B14, B15) as Bundle>::component_count() == B0::component_count() + B1::component_count() + B2::component_count() + B3::component_count() + B4::component_count() + B5::component_count() + B6::component_count() + B7::component_count() + B8::component_count() + B9::component_count() + B10::component_count() + B11::component_count() + B12::component_count() + B13::component_count() + B14::component_count() + B15::component_count(),
{
}

/// A component bundle lists exactly its own component type.
pub proof fn lemma_component_bundle_keys<C: Component>()
    ensures
        <C as Bundle>::component_keys() == seq![C::type_key()],
        <C as Bundle>::component_count() == 1,
{
}

/// Registering the bundle `(C0, C1)` of two distinct component types that are
/// both unregistered gives `C0` the next id and `C1` the one after, and the
/// bundle lists them in that order.
pub proof fn lemma_pair_registered_in_order<C0: Component, C1: Component>(
    ck: Seq<(TypeId, ComponentId)>,
    next: nat,
)
    requires
        C0::type_key() != C1::type_key(),
        lookup(ck, C0::type_key()) is None,
        lookup(ck, C1::type_key()) is None,
        next + 1 <= usize::MAX,
    ensures
        ({
            let keys = <(C0, C1) as Bundle>::component_keys();
            let after = push_keys(ck, next, keys);
            &&& after.0 == ck.push((C0::type_key(), ComponentId(next as usize))).push(
                (C1::type_key(), ComponentId((next + 1) as usize)),
            )
            &&& after.1 == next + 2
            &&& lookup(after.0, C0::type_key()) == Some(ComponentId(next as usize))
            &&& lookup(after.0, C1::type_key()) == Some(ComponentId((next + 1) as usize))
            &&& ids_for(after.0, keys) == seq![ComponentId(next as usize), ComponentId((next + 1) as usize)]
        }),
{
    let k0 = C0::type_key();
    let k1 = C1::type_key();
    let keys = <(C0, C1) as Bundle>::component_keys();
    assert(keys =~= seq![k0, k1]);
    assert(keys.drop_last() =~= seq![k0]);
    assert(seq![k0].drop_last() =~= Seq::<TypeId>::empty());
    let p0 = push_keys(ck, next, Seq::<TypeId>::empty());
    assert(p0 == (ck, next));
    let p1 = push_keys(ck, next, seq![k0]);
    assert(p1 == (ck.push((k0, ComponentId(next as usize))), next + 1));
    lemma_lookup_push(ck, k0, ComponentId(next as usize), k1);
    let after = push_keys(ck, next, keys);
    assert(after == (p1.0.push((k1, ComponentId((next + 1) as usize))), next + 2));
    lemma_lookup_push(p1.0, k1, ComponentId((next + 1) as usize), k0);
    lemma_lookup_push(p1.0, k1, ComponentId((next + 1) as usize), k1);
    lemma_lookup_push(ck, k0, ComponentId(next as usize), k0);
    assert(ids_for(after.0, keys) =~= seq![ComponentId(next as usize), ComponentId((next + 1) as usize)]);
}

/// Whether no id occurs twice in `ids`.
pub open spec fn all_distinct(ids: Seq<ComponentId>) -> bool {
    forall|i: int, j: int| 0 <= i < j < ids.len() ==> ids[i] != ids[j]
}

/// A registered bundle: its id and the ids of its component types, in order.
#[derive(Debug, Clone)]
pub struct BundleInfo {
    id: BundleId,
    component_ids: Vec<ComponentId>,
}

impl BundleInfo {
    pub closed spec fn id_of(&self) -> BundleId {
        self.id
    }

    pub closed spec fn component_ids_of(&self) -> Seq<ComponentId> {
        self.component_ids@
    }

    /// Creates a new `BundleInfo`, or `None` if `component_ids` holds an id twice.
    fn new(id: BundleId, component_ids: Vec<ComponentId>) -> (r: Option<Self>)
        ensures
            r is Some == all_distinct(component_ids@),
            r matches Some(info) ==> info.id_of() == id && info.component_ids_of()
                == component_ids@,
    {
        let n = component_ids.len();
        let mut i: usize = 0;
        while i < n
            invariant
                n == component_ids@.len(),
                i <= n,
                forall|a: int, b: int| 0 <= a < b < n && a < i ==> component_ids@[a] != component_ids@[b],
            decreases n - i,
        {
            let mut j: usize = i + 1;
            while j < n
                invariant
                    n == component_ids@.len(),
                    i < n,
                    i + 1 <= j <= n,
                    forall|a: int, b: int| 0 <= a < b < n && a < i ==> component_ids@[a] != component_ids@[b],
                    forall|b: int| i < b < j ==> component_ids@[i as int] != component_ids@[b],
                decreases n - j,
            {
                if component_ids[i] == component_ids[j] {
                    return None;
                }
                j = j + 1;
            }
            i = i + 1;
        }
        Some(BundleInfo { id, component_ids })
    }

    pub fn id(&self) -> (r: BundleId)
        ensures
            r == self.id_of(),
    {
        self.id
    }

    pub fn component_ids(&self) -> (r: &[ComponentId])
        ensures
            r@ == self.component_ids_of(),
    {
        self.component_ids.as_slice()
    }
}

/// The registry of the bundle types of a `World`.
pub struct Bundles {
    bundle_infos: Vec<BundleInfo>,
    bundle_indices: Vec<(TypeId, BundleId)>,
}

/// Whether `new` is `old` after registering the bundle type `t` whose
/// component ids came out as `ids`, with `r` returned: a known bundle keeps
/// its id; a new one gets the next id, unless a component type occurs twice
/// in it, in which case nothing is registered and `None` comes back.
pub open spec fn bundle_registered(
    old_infos: Seq<BundleInfo>,
    old_keys: Seq<(TypeId, BundleId)>,
    new_infos: Seq<BundleInfo>,
    new_keys: Seq<(TypeId, BundleId)>,
    t: TypeId,
    ids: Seq<ComponentId>,
    r: Option<BundleId>,
) -> bool {
    match lookup(old_keys, t) {
        Some(known) => r == Some(known) && new_infos == old_infos && new_keys == old_keys,
        None => if all_distinct(ids) {
            let id = BundleId(old_infos.len() as usize);
            &&& r == Some(id)
            &&& new_infos.len() == old_infos.len() + 1
            &&& new_infos.drop_last() == old_infos
            &&& new_infos.last().id_of() == id
            &&& new_infos.last().component_ids_of() == ids
            &&& new_keys == old_keys.push((t, id))
        } else {
            r is None && new_infos == old_infos && new_keys == old_keys
        },
    }
}

impl Bundles {
    /// The registered bundles; the one at position `i` has id `i`.
    pub closed spec fn infos(&self) -> Seq<BundleInfo> {
        self.bundle_infos@
    }

    /// The bundle types and their ids.
    pub closed spec fn keys(&self) -> Seq<(TypeId, BundleId)> {
        self.bundle_indices@
    }

    /// Every id is the position of its bundle, no bundle holds a component
    /// type twice, every registered type has a valid id, and no two
    /// registered types share an id.
    pub open spec fn wf(&self) -> bool {
        &&& forall|i: int| 0 <= i < self.infos().len() ==> (#[trigger] self.infos()[i]).id_of().0 == i
        &&& forall|i: int|
            0 <= i < self.infos().len() ==> all_distinct((#[trigger] self.infos()[i]).component_ids_of())
        &&& forall|t: TypeId| #[trigger] bundle_key_ok(self.infos(), self.keys(), t)
        &&& forall|t1: TypeId, t2: TypeId|
            #[trigger] lookup(self.keys(), t1) is Some && #[trigger] lookup(self.keys(), t2) == lookup(
                self.keys(),
                t1,
            ) ==> t1 == t2
        &&& keys_distinct(self.keys())
    }

    /// An empty registry.
    pub fn new() -> (r: Bundles)
        ensures
            r.wf(),
            r.infos() == Seq::<BundleInfo>::empty(),
            r.keys() == Seq::<(TypeId, BundleId)>::empty(),
    {
        Bundles { bundle_infos: Vec::new(), bundle_indices: Vec::new() }
    }

    /// The total number of bundles registered.
    pub fn len(&self) -> (r: usize)
        ensures
            r == self.infos().len(),
    {
        self.bundle_infos.len()
    }

    /// Returns true if no bundle is registered.
    pub fn is_empty(&self) -> (r: bool)
        ensures
            r == (self.infos().len() == 0),
    {
        self.len() == 0
    }

    /// The registered bundle with id `bundle_id`, if any.
    pub fn get(&self, bundle_id: BundleId) -> (r: Option<&BundleInfo>)
        ensures
            r is Some == (bundle_id.0 < self.infos().len()),
            r matches Some(info) ==> *info == self.infos()[bundle_id.0 as int],
    {
        if bundle_id.0 < self.bundle_infos.len() {
            Some(&self.bundle_infos[bundle_id.0])
        } else {
            None
        }
    }

    /// The id of the bundle type `type_id`, if registered.
    pub fn get_id(&self, type_id: TypeId) -> (r: Option<BundleId>)
        ensures
            r == lookup(self.keys(), type_id),
    {
        find_key(&self.bundle_indices, &type_id)
    }

    /// Registers the bundle type `B` if it is not registered yet, registering
    /// its component types as needed. No component type may occur twice in `B`.
    pub fn register_bundle<B: Bundle>(&mut self, world_components: &mut Components) -> (r: BundleId)
        requires
            old(self).wf(),
            old(world_components).wf(),
            old(world_components).infos().len() + B::component_count() < usize::MAX,
            old(self).infos().len() < usize::MAX,
            distinct_keys(B::component_keys()),
        ensures
            final(self).wf(),
            final(world_components).wf(),
            final(world_components).extends(old(world_components)),
            final(world_components).resource_keys() == old(world_components).resource_keys(),
            exists|t: TypeId|
                #[trigger] registration_step(
                    *old(self),
                    *final(self),
                    *old(world_components),
                    *final(world_components),
                    t,
                    B::component_keys(),
                    Some(r),
                    B::component_count(),
                ),
    {
        let type_id = type_id_of::<B>();
        match find_key(&self.bundle_indices, &type_id) {
            Some(id) => {
                proof {
                    lemma_extends_reflexive(world_components);
                    assert(registration_step(
                        *old(self),
                        *self,
                        *old(world_components),
                        *world_components,
                        type_id,
                        B::component_keys(),
                        Some(id),
                        B::component_count(),
                    ));
                }
                id
            },
            None => {
                let mut component_ids: Vec<ComponentId> = Vec::new();
                B::get_or_register_component_ids(world_components, &mut component_ids);
                assert(component_ids@ =~= component_ids@.subrange(0, component_ids@.len() as int));
                let ghost ids = component_ids@;
                proof {
                    lemma_ids_distinct(&*world_components, B::component_keys());
                }
                match self.register_bundle_ids(type_id, component_ids) {
                    Some(id) => {
                        assert(registration_step(
                            *old(self),
                            *self,
                            *old(world_components),
                            *world_components,
                            type_id,
                            B::component_keys(),
                            Some(id),
                            B::component_count(),
                        ));
                        id
                    },
                    None => {
                        // The component types of `B` are distinct, so are their ids.
                        assert(all_distinct(ids));
                        assert(false);
                        BundleId::new(0)
                    },
                }
            },
        }
    }

    /// Registers the bundle type `type_id` with the component ids
    /// `component_ids`, in order, unless it is registered already.
    ///
    /// A known type gets its id back and nothing changes. A new type gets the
    /// next id, unless `component_ids` holds an id twice: then nothing is
    /// registered and `None` comes back.
    pub fn register_bundle_ids(&mut self, type_id: TypeId, component_ids: Vec<ComponentId>) -> (r:
        Option<BundleId>)
        requires
            old(self).wf(),
            old(self).infos().len() < usize::MAX,
        ensures
            final(self).wf(),
            bundle_registered(
                old(self).infos(),
                old(self).keys(),
                final(self).infos(),
                final(self).keys(),
                type_id,
                component_ids@,
                r,
            ),
    {
        match find_key(&self.bundle_indices, &type_id) {
            Some(id) => Some(id),
            None => {
                let ghost ids = component_ids@;
                let id = BundleId::new(self.bundle_infos.len());
                match BundleInfo::new(id, component_ids) {
                    Some(info) => {
                        self.bundle_infos.push(info);
                        self.bundle_indices.push((type_id, id));
                        proof {
                            lemma_push_keeps_keys_distinct(old(self).keys(), type_id, id);
                            assert(self.infos().drop_last() =~= old(self).infos());
                            assert forall|i: int| 0 <= i < self.infos().len() implies (#[trigger] self.infos()[i]).id_of().0 == i by {
                                if i < old(self).infos().len() {
                                    assert(self.infos()[i] == old(self).infos()[i]);
                                }
                            }
                            assert forall|i: int| 0 <= i < self.infos().len() implies all_distinct(
                                (#[trigger] self.infos()[i]).component_ids_of(),
                            ) by {
                                if i < old(self).infos().len() {
                                    assert(self.infos()[i] == old(self).infos()[i]);
                                }
                            }
                            assert forall|u: TypeId| #[trigger] bundle_key_ok(self.infos(), self.keys(), u) by {
                                assert(bundle_key_ok(old(self).infos(), old(self).keys(), u));
                                lemma_lookup_push(old(self).keys(), type_id, id, u);
                            }
                            assert forall|t1: TypeId, t2: TypeId|
                                #[trigger] lookup(self.keys(), t1) is Some && #[trigger] lookup(
                                    self.keys(),
                                    t2,
                                ) == lookup(self.keys(), t1) implies t1 == t2 by {
                                lemma_lookup_push(old(self).keys(), type_id, id, t1);
                                lemma_lookup_push(old(self).keys(), type_id, id, t2);
                                assert(bundle_key_ok(old(self).infos(), old(self).keys(), t1));
                                assert(bundle_key_ok(old(self).infos(), old(self).keys(), t2));
                                if t1 != type_id && t2 != type_id {
                                    assert(lookup(old(self).keys(), t1) is Some);
                                    assert(lookup(old(self).keys(), t2) == lookup(old(self).keys(), t1));
                                }
                            }
                        }
                        Some(id)
                    },
                    None => None,
                }
            },
        }
    }
}

/// One registration of the bundle type `t`, whose component types are
/// `keys` (`count` of them), from the registries `old_bundles` and
/// `old_components` to `new_bundles` and `new_components`, returning `r`.
///
/// A known bundle type gets its id back and no component type is registered.
/// For a new one, the component types not registered yet get registered, in
/// declaration order and nothing else, and the bundle is
/// recorded with their ids in order, unless a component type occurs twice:
/// then `r` is `None`.
pub open spec fn registration_step(
    old_bundles: Bundles,
    new_bundles: Bundles,
    old_components: Components,
    new_components: Components,
    t: TypeId,
    keys: Seq<TypeId>,
    r: Option<BundleId>,
    count: nat,
) -> bool {
    &&& lookup(old_bundles.keys(), t) is Some ==> new_components == old_components
    &&& new_components.resource_keys() == old_components.resource_keys()
    &&& lookup(old_bundles.keys(), t) is None ==> {
        &&& keys.len() == count
        &&& all_registered(new_components.component_keys(), keys)
        &&& new_components.component_keys() == push_keys(
            old_components.component_keys(),
            old_components.infos().len(),
            keys,
        ).0
        &&& new_components.infos().len() == push_keys(
            old_components.component_keys(),
            old_components.infos().len(),
            keys,
        ).1
        &&& (r is None <==> !distinct_keys(keys))
    }
    &&& bundle_registered(
        old_bundles.infos(),
        old_bundles.keys(),
        new_bundles.infos(),
        new_bundles.keys(),
        t,
        ids_for(new_components.component_keys(), keys),
        r,
    )
}

/// A bundle id that a registration hands out is that of a registered bundle,
/// which `get` finds.
pub proof fn lemma_registered_bundle_found(
    old_bundles: Bundles,
    new_bundles: Bundles,
    old_components: Components,
    new_components: Components,
    t: TypeId,
    keys: Seq<TypeId>,
    r: Option<BundleId>,
    count: nat,
)
    requires
        old_bundles.wf(),
        new_bundles.wf(),
        registration_step(old_bundles, new_bundles, old_components, new_components, t, keys, r, count),
    ensures
        r matches Some(id) ==> id.0 < new_bundles.infos().len() && new_bundles.infos()[id.0 as int].id_of()
            == id,
{
    assert(bundle_key_ok(old_bundles.infos(), old_bundles.keys(), t));
}

/// Whether the bundle type `t`, when `keys` has it, has the id of a registered bundle.
pub open spec fn bundle_key_ok(infos: Seq<BundleInfo>, keys: Seq<(TypeId, BundleId)>, t: TypeId) -> bool {
    match lookup(keys, t) {
        Some(id) => id.0 < infos.len(),
        None => true,
    }
}

} // verus!
