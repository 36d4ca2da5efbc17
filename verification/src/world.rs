//! The `World`: the registries of component, resource and bundle types, the
//! entities, and the resource values.
use crate::blob::{Blob, ErasedValue};
use crate::bundle::{registration_step, Bundle, BundleId, Bundles};
use crate::component::{registered, Component, ComponentId, Components, Resource};
use crate::entity::Entities;
use crate::storage::Storages;
use crate::type_key::lookup;
use std::any::TypeId;
use vstd::prelude::*;

verus! {

/// The value left for a resource after storing `value` into a slot that held
/// `current`: stored when `overwrite` is set or when the slot was empty.
pub open spec fn stored_value<S>(current: Option<S>, value: S, overwrite: bool) -> Option<S> {
    if overwrite || current is None {
        Some(value)
    } else {
        current
    }
}

/// Holds everything an application stores: registered types, entities and
/// resource values. `S` is the slot type that holds one resource value.
pub struct World<S> {
    entities: Entities,
    components: Components,
    bundles: Bundles,
    storages: Storages<S>,
}

impl<S> World<S> {
    /// The component and resource registry.
    pub closed spec fn components_view(&self) -> Components {
        self.components
    }

    /// The bundle registry.
    pub closed spec fn bundles_view(&self) -> Bundles {
        self.bundles
    }

    /// The resource value stored for the resource id `id`, if any.
    pub closed spec fn resource_value(&self, id: nat) -> Option<S> {
        if self.storages.resources.blobs().contains_key(id) {
            self.storages.resources.blobs()[id].value()
        } else {
            None
        }
    }

    /// All the parts are consistent.
    pub closed spec fn wf(&self) -> bool {
        &&& self.entities.wf()
        &&& self.components.wf()
        &&& self.bundles.wf()
        &&& self.storages.resources.wf()
    }

    /// The id registered for the component type `C`, if any.
    pub open spec fn component_id_of<C: Component>(&self) -> Option<ComponentId> {
        lookup(self.components_view().component_keys(), C::type_key())
    }

    /// The id registered for the resource type `R`, if any.
    pub open spec fn resource_id_of<R: Resource>(&self) -> Option<ComponentId> {
        lookup(self.components_view().resource_keys(), R::type_key())
    }

    /// Creates an empty `World`.
    pub fn new() -> (r: World<S>)
        ensures
            r.wf(),
            r.components_view().infos().len() == 0,
            r.components_view().component_keys().len() == 0,
            r.components_view().resource_keys().len() == 0,
            r.bundles_view().infos().len() == 0,
            r.bundles_view().keys().len() == 0,
            forall|id: nat| #[trigger] r.resource_value(id) is None,
    {
        World {
            entities: Entities::new(),
            components: Components::new(),
            bundles: Bundles::new(),
            storages: Storages::new(),
        }
    }

    /// The component and resource registry.
    pub fn components(&self) -> (r: &Components)
        ensures
            *r == self.components_view(),
    {
        &self.components
    }

    /// The bundle registry.
    pub fn bundles(&self) -> (r: &Bundles)
        ensures
            *r == self.bundles_view(),
    {
        &self.bundles
    }

    /// Registers the component type `C`, assigning it a unique `ComponentId`
    /// (the one it already has, if registered).
    pub fn register_component<C: Component>(&mut self) -> (r: ComponentId)
        requires
            old(self).wf(),
            old(self).components_view().infos().len() < usize::MAX,
        ensures
            final(self).wf(),
            final(self).components_view().extends(&old(self).components_view()),
            final(self).components_view().resource_keys() == old(self).components_view().resource_keys(),
            final(self).component_id_of::<C>() == Some(r),
            exists|def: crate::component::ComponentDef|
                #![trigger def.type_id_of()]
                def.type_id_of() == C::type_key() && registered(
                    old(self).components_view().infos(),
                    old(self).components_view().component_keys(),
                    final(self).components_view().infos(),
                    final(self).components_view().component_keys(),
                    def,
                    r,
                ),
            final(self).bundles_view() == old(self).bundles_view(),
            forall|id: nat| #[trigger] final(self).resource_value(id) == old(self).resource_value(id),
    {
        self.components.register_component::<C>()
    }

    /// Registers the resource type `R`, assigning it a unique `ComponentId`
    /// (the one it already has, if registered). No value is stored.
    pub fn register_resource<R: Resource>(&mut self) -> (r: ComponentId)
        requires
            old(self).wf(),
            old(self).components_view().infos().len() < usize::MAX,
        ensures
            final(self).wf(),
            final(self).components_view().extends(&old(self).components_view()),
            final(self).components_view().component_keys() == old(self).components_view().component_keys(),
            final(self).resource_id_of::<R>() == Some(r),
            exists|def: crate::component::ComponentDef|
                #![trigger def.type_id_of()]
                def.type_id_of() == R::type_key() && registered(
                    old(self).components_view().infos(),
                    old(self).components_view().resource_keys(),
                    final(self).components_view().infos(),
                    final(self).components_view().resource_keys(),
                    def,
                    r,
                ),
            final(self).bundles_view() == old(self).bundles_view(),
            forall|id: nat| #[trigger] final(self).resource_value(id) == old(self).resource_value(id),
    {
        self.components.register_resource::<R>()
    }

    /// Registers the bundle type `B` and its component types. No component
    /// type may occur twice in `B`.
    pub fn register_bundle<B: Bundle>(&mut self) -> (r: BundleId)
        requires
            old(self).wf(),
            old(self).components_view().infos().len() + B::component_count() < usize::MAX,
            old(self).bundles_view().infos().len() < usize::MAX,
            crate::bundle::distinct_keys(B::component_keys()),
        ensures
            final(self).wf(),
            final(self).components_view().extends(&old(self).components_view()),
            exists|t: TypeId|
                #[trigger] registration_step(
                    old(self).bundles_view(),
                    final(self).bundles_view(),
                    old(self).components_view(),
                    final(self).components_view(),
                    t,
                    B::component_keys(),
                    Some(r),
                    B::component_count(),
                ),
            forall|id: nat| #[trigger] final(self).resource_value(id) == old(self).resource_value(id),
    {
        let r = self.bundles.register_bundle::<B>(&mut self.components);
        proof {
            let t = choose|t: TypeId|
                #[trigger] registration_step(
                    old(self).bundles,
                    self.bundles,
                    old(self).components,
                    self.components,
                    t,
                    B::component_keys(),
                    Some(r),
                    B::component_count(),
                );
            assert(registration_step(
                old(self).bundles_view(),
                self.bundles_view(),
                old(self).components_view(),
                self.components_view(),
                t,
                B::component_keys(),
                Some(r),
                B::component_count(),
            ));
        }
        r
    }

    /// Stores the resource value `value` under the resource id `id`.
    ///
    /// When `OVERRIDE` is `false`, a value already stored is kept.
    pub fn insert_resource_by_id<const OVERRIDE: bool>(&mut self, id: ComponentId, value: S)
        requires
            old(self).wf(),
            id.0 < old(self).components_view().infos().len(),
        ensures
            final(self).wf(),
            final(self).components_view() == old(self).components_view(),
            final(self).bundles_view() == old(self).bundles_view(),
            final(self).resource_value(id.0 as nat) == stored_value(
                old(self).resource_value(id.0 as nat),
                value,
                OVERRIDE,
            ),
            forall|k: nat|
                k != id.0 ==> #[trigger] final(self).resource_value(k) == old(self).resource_value(
                    k,
                ),
    {
        proof {
            self.storages.resources.lemma_blobs_wf();
            self.components.lemma_len_bounded();
        }
        let store = self.storages.resources.fetch_resource_storage(id, &self.components);
        if OVERRIDE || !store.has_value() {
            store.insert_data(value);
        }
    }

    /// The resource value stored under the resource id `id`, if any.
    pub fn get_resource_value(&self, id: ComponentId) -> (r: Option<&S>)
        requires
            self.wf(),
        ensures
            r is Some == self.resource_value(id.0 as nat) is Some,
            r matches Some(v) ==> Some(*v) == self.resource_value(id.0 as nat),
    {
        proof {
            self.storages.resources.lemma_blobs_wf();
        }
        match self.storages.resources.get_resource_storage(id) {
            Some(blob) => blob.get(),
            None => None,
        }
    }

    /// The slot holding the resource `R`'s value, if `R` is registered and
    /// holds one.
    pub open spec fn resource_slot_of<R: Resource>(&self) -> Option<S> {
        match self.resource_id_of::<R>() {
            Some(id) => self.resource_value(id.0 as nat),
            None => None,
        }
    }

    /// The slot holding the resource `R`'s value: `None` when `R` is not
    /// registered or holds no value.
    pub fn resource_slot<R: Resource>(&self) -> (r: Option<&S>)
        requires
            self.wf(),
        ensures
            r is Some == self.resource_slot_of::<R>() is Some,
            r matches Some(v) ==> Some(*v) == self.resource_slot_of::<R>(),
    {
        match self.get_resource_id::<R>() {
            Some(id) => self.get_resource_value(id),
            None => None,
        }
    }

    /// The id of the component type `C`, if registered.
    pub fn get_component_id<C: Component>(&self) -> (r: Option<ComponentId>)
        ensures
            r == self.component_id_of::<C>(),
    {
        self.components.component_id::<C>()
    }

    /// The id of the resource type `R`, if registered.
    pub fn get_resource_id<R: Resource>(&self) -> (r: Option<ComponentId>)
        ensures
            r == self.resource_id_of::<R>(),
    {
        self.components.resource_id::<R>()
    }
}

impl<S> Default for World<S> {
    /// An empty `World`, as `World::new` makes it.
    fn default() -> (r: Self)
        ensures
            r.wf(),
            r.components_view().infos().len() == 0,
            r.bundles_view().infos().len() == 0,
            forall|id: nat| #[trigger] r.resource_value(id) is None,
    {
        World::new()
    }
}

impl<S: ErasedValue> World<S> {
    /// Initializes the resource `R` with its default value, registering it if
    /// needed. A value already stored is kept.
    pub fn init_resource<R: Resource + Default>(&mut self)
        requires
            old(self).wf(),
            old(self).components_view().infos().len() < usize::MAX,
        ensures
            final(self).wf(),
            final(self).components_view().extends(&old(self).components_view()),
            final(self).resource_id_of::<R>() is Some,
            exists|def: crate::component::ComponentDef|
                #![trigger def.type_id_of()]
                def.type_id_of() == R::type_key() && registered(
                    old(self).components_view().infos(),
                    old(self).components_view().resource_keys(),
                    final(self).components_view().infos(),
                    final(self).components_view().resource_keys(),
                    def,
                    final(self).resource_id_of::<R>()->0,
                ),
            ({
                let id = (final(self).resource_id_of::<R>()->0).0 as nat;
                &&& final(self).resource_value(id) is Some
                &&& old(self).resource_value(id) is Some ==> final(self).resource_value(id) == old(
                    self,
                ).resource_value(id)
                &&& forall|k: nat|
                    k != id ==> #[trigger] final(self).resource_value(k) == old(self).resource_value(k)
            }),
    {
        let value = R::default();
        let id = self.register_resource::<R>();
        proof {
            lemma_registered_id_in_range(
                old(self).components_view().infos(),
                old(self).components_view().resource_keys(),
                self.components_view().infos(),
                self.components_view().resource_keys(),
                old(self).components_view(),
                id,
            );
        }
        self.insert_resource_by_id::<false>(id, S::wrap(value));
    }

    /// Stores `value` as the resource `R`, registering it if needed and
    /// replacing any value already stored.
    pub fn insert_resource<R: Resource>(&mut self, value: R)
        requires
            old(self).wf(),
            old(self).components_view().infos().len() < usize::MAX,
        ensures
            final(self).wf(),
            final(self).components_view().extends(&old(self).components_view()),
            final(self).resource_id_of::<R>() is Some,
            exists|def: crate::component::ComponentDef|
                #![trigger def.type_id_of()]
                def.type_id_of() == R::type_key() && registered(
                    old(self).components_view().infos(),
                    old(self).components_view().resource_keys(),
                    final(self).components_view().infos(),
                    final(self).components_view().resource_keys(),
                    def,
                    final(self).resource_id_of::<R>()->0,
                ),
            ({
                let id = (final(self).resource_id_of::<R>()->0).0 as nat;
                &&& final(self).resource_value(id) is Some
                &&& forall|k: nat|
                    k != id ==> #[trigger] final(self).resource_value(k) == old(self).resource_value(k)
            }),
    {
        let id = self.register_resource::<R>();
        proof {
            lemma_registered_id_in_range(
                old(self).components_view().infos(),
                old(self).components_view().resource_keys(),
                self.components_view().infos(),
                self.components_view().resource_keys(),
                old(self).components_view(),
                id,
            );
        }
        self.insert_resource_by_id::<true>(id, S::wrap(value));
    }

    /// A reference to the resource `R`, or `None` when `R` is not registered,
    /// has no value, or its value is not an `R`.
    pub fn get_resource<R: Resource>(&self) -> (r: Option<&R>)
        requires
            self.wf(),
        ensures
            self.resource_slot_of::<R>() is None ==> r is None,
            r is Some ==> (self.resource_id_of::<R>() matches Some(id) && self.resource_value(
                id.0 as nat,
            ) is Some),
    {
        match self.resource_slot::<R>() {
            Some(value) => value.peek::<R>(),
            None => None,
        }
    }

    /// A mutable reference to the resource `R`, or `None` when `R` is not
    /// registered, has no value, or its value is not an `R`.
    pub fn get_resource_mut<R: Resource>(&mut self) -> (r: Option<&mut R>)
        requires
            old(self).wf(),
        ensures
            final(self).wf(),
            final(self).components_view() == old(self).components_view(),
            final(self).bundles_view() == old(self).bundles_view(),
            forall|k: nat| #[trigger] final(self).resource_value(k) is Some == old(
                self,
            ).resource_value(k) is Some,
            r is Some ==> (old(self).resource_id_of::<R>() matches Some(id) && old(
                self,
            ).resource_value(id.0 as nat) is Some),
    {
        proof {
            self.storages.resources.lemma_blobs_wf();
        }
        let found = self.components.resource_id::<R>();
        match found {
            Some(id) => match self.storages.resources.get_resource_storage_mut(id) {
                Some(blob) => match blob.get_mut() {
                    Some(value) => {
                        assert(old(self).resource_value(id.0 as nat) is Some);
                        value.peek_mut::<R>()
                    },
                    None => None,
                },
                None => None,
            },
            None => None,
        }
    }
}

/// The id a registration returns is that of a registered definition.
proof fn lemma_registered_id_in_range(
    old_infos: Seq<crate::component::ComponentInfo>,
    old_keys: Seq<(TypeId, ComponentId)>,
    new_infos: Seq<crate::component::ComponentInfo>,
    new_keys: Seq<(TypeId, ComponentId)>,
    old_components: Components,
    id: ComponentId,
)
    requires
        old_components.wf(),
        old_infos == old_components.infos(),
        old_keys == old_components.resource_keys(),
        exists|def: crate::component::ComponentDef|
            #![trigger def.type_id_of()]
            registered(old_infos, old_keys, new_infos, new_keys, def, id),
    ensures
        id.0 < new_infos.len(),
{
    let def = choose|def: crate::component::ComponentDef|
        #![trigger def.type_id_of()]
        registered(old_infos, old_keys, new_infos, new_keys, def, id);
    assert(crate::component::key_ok(old_infos, old_keys, def.type_id_of()));
}

/// What a read gives back of a write: after storing with `OVERRIDE`, the
/// stored value is the one written; without it, a value already stored stays.
pub proof fn lemma_store_then_read<S>(current: Option<S>, value: S)
    ensures
        stored_value(current, value, true) == Some(value),
        current is None ==> stored_value(current, value, false) == Some(value),
        current is Some ==> stored_value(current, value, false) == current,
{
}

} // verus!
