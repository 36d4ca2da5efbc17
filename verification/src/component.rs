//! Components and resources: the types a `World` stores, and the registry
//! that gives each registered type an incremental `ComponentId`.
use crate::layout::Layout;
use crate::sparse::SparseSetIndex;
use crate::type_key::{
    find_key, keys_distinct, lemma_lookup_push, lemma_push_keeps_keys_distinct, lookup, needs_drop_of, type_key_of,
    TypeKey,
};
use std::any::TypeId;
use vstd::prelude::*;

verus! {

/// A value used to uniquely identify the type of a [`Component`] or
/// [`Resource`] inside one registry.
///
/// Ids are handed out incrementally, in registration order.
#[derive(Debug, Clone, Copy, PartialEq, Eq, Structural, PartialOrd, Ord, Hash)]
pub struct ComponentId(pub usize);

impl ComponentId {
    pub fn new(id: usize) -> (r: Self)
        ensures
            r.0 == id,
    {
        ComponentId(id)
    }

    pub fn index(&self) -> (r: usize)
        ensures
            r == self.0,
    {
        self.0
    }
}

impl SparseSetIndex for ComponentId {
    open spec fn index_of(&self) -> nat {
        self.0 as nat
    }

    open spec fn index_bound() -> nat {
        usize::MAX as nat + 1
    }

    fn sparse_set_index(&self) -> (r: usize) {
        self.0
    }

    fn get_sparse_set_index(value: usize) -> (r: Self) {
        proof {
            vstd::arithmetic::div_mod::lemma_small_mod(value as nat, usize::MAX as nat + 1);
        }
        ComponentId(value)
    }
}

/// How the values of a component type are stored.
#[derive(Debug, Clone, Copy, PartialEq, Eq, Structural)]
pub enum StorageType {
    /// Faster iteration.
    Table,
    /// Faster addition and removal.
    SparseSet,
}

impl Default for StorageType {
    fn default() -> (r: StorageType)
        ensures
            r == StorageType::Table,
    {
        StorageType::Table
    }
}

/// Types that can be stored as components of entities.
pub trait Component: TypeKey + Send + Sync + 'static {
    /// The storage type used for this component.
    const STORAGE_TYPE: StorageType;
}

/// Types that can be stored in a `World` as singletons.
pub trait Resource: TypeKey + Send + Sync + 'static {

}

/// What the registry knows of a registered type.
#[derive(Debug, Clone, Copy)]
pub struct ComponentDef {
    type_id: TypeId,
    storage_type: StorageType,
    layout: Layout,
    drop_fn: bool,
}

/// The registered definition of a type, with its id.
#[derive(Debug, Clone, Copy)]
pub struct ComponentInfo {
    id: ComponentId,
    definition: ComponentDef,
}

/// Whether values of type `T` need to be dropped.
///
/// Trusted wrapper of `std::mem::needs_drop`. Nothing is stated of the
/// result: it depends on the type `T` alone.
#[verifier::external_body]
pub(crate) fn type_needs_drop<T>() -> (r: bool) {
    std::mem::needs_drop::<T>()
}

impl ComponentDef {
    pub closed spec fn type_id_of(&self) -> TypeId {
        self.type_id
    }

    pub closed spec fn storage_type_of(&self) -> StorageType {
        self.storage_type
    }

    pub closed spec fn layout_of(&self) -> Layout {
        self.layout
    }

    pub closed spec fn drops(&self) -> bool {
        self.drop_fn
    }

    /// The layout is one that a Rust type can have: valid, and its size a
    /// multiple of its alignment.
    pub open spec fn wf(&self) -> bool {
        &&& self.layout_of().wf()
        &&& self.layout_of().size_of() % self.layout_of().align_of() == 0
    }

    /// The definition of the component type `T`.
    pub fn new<T: Component>() -> (r: Self)
        ensures
            r.wf(),
            r.type_id_of() == T::type_key(),
            r.drops() == T::needs_drop(),
            r.storage_type_of() == T::STORAGE_TYPE,
            r.layout_of() == Layout::spec_new::<T>(),
    {
        ComponentDef {
            type_id: type_key_of::<T>(),
            storage_type: T::STORAGE_TYPE,
            layout: Layout::new::<T>(),
            drop_fn: needs_drop_of::<T>(),
        }
    }

    /// The definition of the resource type `R`; resources are stored as tables.
    pub fn new_resource<R: Resource>() -> (r: Self)
        ensures
            r.wf(),
            r.type_id_of() == R::type_key(),
            r.drops() == R::needs_drop(),
            r.storage_type_of() == StorageType::Table,
            r.layout_of() == Layout::spec_new::<R>(),
    {
        ComponentDef {
            type_id: type_key_of::<R>(),
            storage_type: StorageType::Table,
            layout: Layout::new::<R>(),
            drop_fn: needs_drop_of::<R>(),
        }
    }
}

impl ComponentInfo {
    pub closed spec fn id_of(&self) -> ComponentId {
        self.id
    }

    pub closed spec fn def_of(&self) -> ComponentDef {
        self.definition
    }

    pub(crate) fn new(id: ComponentId, definition: ComponentDef) -> (r: Self)
        ensures
            r.id_of() == id,
            r.def_of() == definition,
    {
        ComponentInfo { id, definition }
    }

    pub fn id(&self) -> (r: ComponentId)
        ensures
            r == self.id_of(),
    {
        self.id
    }

    pub fn type_id(&self) -> (r: TypeId)
        ensures
            r == self.def_of().type_id_of(),
    {
        self.definition.type_id
    }

    pub fn storage_type(&self) -> (r: StorageType)
        ensures
            r == self.def_of().storage_type_of(),
    {
        self.definition.storage_type
    }

    pub fn layout(&self) -> (r: Layout)
        ensures
            r == self.def_of().layout_of(),
    {
        self.definition.layout
    }

    /// Whether the values of the type need to be dropped.
    pub fn drop_fn(&self) -> (r: bool)
        ensures
            r == self.def_of().drops(),
    {
        self.definition.drop_fn
    }
}

/// The registry of the component and resource types of a `World`.
pub struct Components {
    component_infos: Vec<ComponentInfo>,
    comp_indices: Vec<(TypeId, ComponentId)>,
    res_indices: Vec<(TypeId, ComponentId)>,
}

/// Whether `new` is `old` after registering the type `t` with definition `def`
/// in the list `which` (components or resources) and getting `id` back:
/// a known type keeps its id; a new one gets the next id.
pub open spec fn registered(
    old_infos: Seq<ComponentInfo>,
    old_keys: Seq<(TypeId, ComponentId)>,
    new_infos: Seq<ComponentInfo>,
    new_keys: Seq<(TypeId, ComponentId)>,
    def: ComponentDef,
    id: ComponentId,
) -> bool {
    let t = def.type_id_of();
    match lookup(old_keys, t) {
        Some(known) => id == known && new_infos == old_infos && new_keys == old_keys,
        None => {
            &&& id.0 == old_infos.len()
            &&& new_infos.len() == old_infos.len() + 1
            &&& new_infos.drop_last() == old_infos
            &&& new_infos.last().id_of() == id
            &&& new_infos.last().def_of() == def
            &&& new_keys == old_keys.push((t, id))
        },
    }
}

/// Whether the type `t`, when `keys` has it, has an id whose definition in
/// `infos` is of type `t`.
pub open spec fn key_ok(infos: Seq<ComponentInfo>, keys: Seq<(TypeId, ComponentId)>, t: TypeId) -> bool {
    match lookup(keys, t) {
        Some(id) => id.0 < infos.len() && infos[id.0 as int].def_of().type_id_of() == t,
        None => true,
    }
}

impl Components {
    /// The registered definitions; the one at position `i` has id `i`.
    pub closed spec fn infos(&self) -> Seq<ComponentInfo> {
        self.component_infos@
    }

    /// The component types and their ids.
    pub closed spec fn component_keys(&self) -> Seq<(TypeId, ComponentId)> {
        self.comp_indices@
    }

    /// The resource types and their ids.
    pub closed spec fn resource_keys(&self) -> Seq<(TypeId, ComponentId)> {
        self.res_indices@
    }

    /// Every id is the position of its definition, and every registered type
    /// points at a definition of that type.
    pub open spec fn wf(&self) -> bool {
        &&& forall|i: int| 0 <= i < self.infos().len() ==> (#[trigger] self.infos()[i]).id_of().0 == i
        &&& forall|i: int| 0 <= i < self.infos().len() ==> (#[trigger] self.infos()[i]).def_of().wf()
        &&& forall|t: TypeId| #[trigger] key_ok(self.infos(), self.component_keys(), t)
        &&& forall|t: TypeId| #[trigger] key_ok(self.infos(), self.resource_keys(), t)
        &&& keys_distinct(self.component_keys())
        &&& keys_distinct(self.resource_keys())
    }

    /// `self` registers everything `other` registers, with the same ids.
    pub open spec fn extends(&self, other: &Components) -> bool {
        &&& other.infos().len() <= self.infos().len()
        &&& self.infos().subrange(0, other.infos().len() as int) == other.infos()
        &&& forall|t: TypeId|
            #[trigger] lookup(other.component_keys(), t) is Some ==> lookup(
                self.component_keys(),
                t,
            ) == lookup(other.component_keys(), t)
        &&& forall|t: TypeId|
            #[trigger] lookup(other.resource_keys(), t) is Some ==> lookup(
                self.resource_keys(),
                t,
            ) == lookup(other.resource_keys(), t)
    }

    /// An empty registry.
    pub fn new() -> (r: Components)
        ensures
            r.wf(),
            r.infos() == Seq::<ComponentInfo>::empty(),
            r.component_keys() == Seq::<(TypeId, ComponentId)>::empty(),
            r.resource_keys() == Seq::<(TypeId, ComponentId)>::empty(),
    {
        Components {
            component_infos: Vec::new(),
            comp_indices: Vec::new(),
            res_indices: Vec::new(),
        }
    }

    /// The number of registered types fits in a `usize`.
    pub proof fn lemma_len_bounded(&self)
        ensures
            self.infos().len() <= usize::MAX,
    {
        assert(self.component_infos@.len() == self.component_infos.len());
    }

    /// The number of registered types (components and resources).
    pub fn len(&self) -> (r: usize)
        ensures
            r == self.infos().len(),
    {
        self.component_infos.len()
    }

    /// Whether no type is registered.
    pub fn is_empty(&self) -> (r: bool)
        ensures
            r == (self.infos().len() == 0),
    {
        self.component_infos.len() == 0
    }

    /// Registers `def` as a component type, unless its type already is one.
    pub fn register_component_def(&mut self, def: ComponentDef) -> (r: ComponentId)
        requires
            old(self).wf(),
            def.wf(),
            old(self).infos().len() < usize::MAX,
        ensures
            final(self).wf(),
            final(self).extends(old(self)),
            final(self).resource_keys() == old(self).resource_keys(),
            registered(
                old(self).infos(),
                old(self).component_keys(),
                final(self).infos(),
                final(self).component_keys(),
                def,
                r,
            ),
    {
        match find_key(&self.comp_indices, &def.type_id) {
            Some(id) => {
                assert(self.infos().subrange(0, self.infos().len() as int) =~= self.infos());
                id
            },
            None => {
                let id = ComponentId::new(self.component_infos.len());
                self.component_infos.push(ComponentInfo::new(id, def));
                self.comp_indices.push((def.type_id, id));
                proof {
                    self.lemma_registered_wf(*old(self), def.type_id, id, true);
                }
                id
            },
        }
    }

    /// Registers `def` as a resource type, unless its type already is one.
    pub fn register_resource_def(&mut self, def: ComponentDef) -> (r: ComponentId)
        requires
            old(self).wf(),
            def.wf(),
            old(self).infos().len() < usize::MAX,
        ensures
            final(self).wf(),
            final(self).extends(old(self)),
            final(self).component_keys() == old(self).component_keys(),
            registered(
                old(self).infos(),
                old(self).resource_keys(),
                final(self).infos(),
                final(self).resource_keys(),
                def,
                r,
            ),
    {
        match find_key(&self.res_indices, &def.type_id) {
            Some(id) => {
                assert(self.infos().subrange(0, self.infos().len() as int) =~= self.infos());
                id
            },
            None => {
                let id = ComponentId::new(self.component_infos.len());
                self.component_infos.push(ComponentInfo::new(id, def));
                self.res_indices.push((def.type_id, id));
                proof {
                    self.lemma_registered_wf(*old(self), def.type_id, id, false);
                }
                id
            },
        }
    }

    /// Appending a definition with the next id, and its key, keeps the registry consistent.
    proof fn lemma_registered_wf(&self, old: Components, t: TypeId, id: ComponentId, as_component: bool)
        requires
            old.wf(),
            id.0 == old.infos().len(),
            self.infos() == old.infos().push(self.infos().last()),
            self.infos().last().id_of() == id,
            self.infos().last().def_of().type_id_of() == t,
            self.infos().last().def_of().wf(),
            as_component ==> lookup(old.component_keys(), t) is None,
            !as_component ==> lookup(old.resource_keys(), t) is None,
            as_component ==> self.component_keys() == old.component_keys().push((t, id))
                && self.resource_keys() == old.resource_keys(),
            !as_component ==> self.resource_keys() == old.resource_keys().push((t, id))
                && self.component_keys() == old.component_keys(),
        ensures
            self.wf(),
            self.extends(&old),
    {
        assert(self.infos().subrange(0, old.infos().len() as int) =~= old.infos());
        if as_component {
            lemma_push_keeps_keys_distinct(old.component_keys(), t, id);
        } else {
            lemma_push_keeps_keys_distinct(old.resource_keys(), t, id);
        }
        assert forall|i: int| 0 <= i < self.infos().len() implies (#[trigger] self.infos()[i]).id_of().0 == i
            && self.infos()[i].def_of().wf() by {
            if i < old.infos().len() {
                assert(self.infos()[i] == old.infos()[i]);
            }
        }
        assert forall|u: TypeId| #[trigger] key_ok(self.infos(), self.component_keys(), u) by {
            assert(key_ok(old.infos(), old.component_keys(), u));
            if as_component {
                lemma_lookup_push(old.component_keys(), t, id, u);
            }
            if u != t || !as_component {
                if lookup(old.component_keys(), u) is Some {
                    let x = lookup(old.component_keys(), u)->0;
                    assert(self.infos()[x.0 as int] == old.infos()[x.0 as int]);
                }
            }
        }
        assert forall|u: TypeId| #[trigger] key_ok(self.infos(), self.resource_keys(), u) by {
            assert(key_ok(old.infos(), old.resource_keys(), u));
            if !as_component {
                lemma_lookup_push(old.resource_keys(), t, id, u);
            }
            if u != t || as_component {
                if lookup(old.resource_keys(), u) is Some {
                    let x = lookup(old.resource_keys(), u)->0;
                    assert(self.infos()[x.0 as int] == old.infos()[x.0 as int]);
                }
            }
        }
        assert forall|u: TypeId| #[trigger] lookup(old.component_keys(), u) is Some implies lookup(
            self.component_keys(),
            u,
        ) == lookup(old.component_keys(), u) by {
            if as_component {
                lemma_lookup_push(old.component_keys(), t, id, u);
            }
        }
        assert forall|u: TypeId| #[trigger] lookup(old.resource_keys(), u) is Some implies lookup(
            self.resource_keys(),
            u,
        ) == lookup(old.resource_keys(), u) by {
            if !as_component {
                lemma_lookup_push(old.resource_keys(), t, id, u);
            }
        }
    }

    /// Registers the component type `T`, giving it the next id unless it
    /// already has one.
    pub fn register_component<T: Component>(&mut self) -> (r: ComponentId)
        requires
            old(self).wf(),
            old(self).infos().len() < usize::MAX,
        ensures
            final(self).wf(),
            final(self).extends(old(self)),
            final(self).resource_keys() == old(self).resource_keys(),
            lookup(final(self).component_keys(), T::type_key()) == Some(r),
            r.0 < final(self).infos().len(),
            final(self).infos()[r.0 as int].def_of().type_id_of() == T::type_key(),
            exists|def: ComponentDef|
                #![trigger def.type_id_of()]
                def.type_id_of() == T::type_key() && def.drops() == T::needs_drop()
                    && def.storage_type_of() == T::STORAGE_TYPE
                    && def.layout_of() == Layout::spec_new::<T>() && registered(
                    old(self).infos(),
                    old(self).component_keys(),
                    final(self).infos(),
                    final(self).component_keys(),
                    def,
                    r,
                ),
    {
        let def = ComponentDef::new::<T>();
        let r = self.register_component_def(def);
        proof {
            if lookup(old(self).component_keys(), def.type_id_of()) is None {
                lemma_lookup_push(old(self).component_keys(), def.type_id_of(), r, def.type_id_of());
            }
            assert(key_ok(self.infos(), self.component_keys(), T::type_key()));
        }
        r
    }

    /// Registers the resource type `R`, giving it the next id unless it
    /// already has one.
    pub fn register_resource<R: Resource>(&mut self) -> (r: ComponentId)
        requires
            old(self).wf(),
            old(self).infos().len() < usize::MAX,
        ensures
            final(self).wf(),
            final(self).extends(old(self)),
            final(self).component_keys() == old(self).component_keys(),
            lookup(final(self).resource_keys(), R::type_key()) == Some(r),
            r.0 < final(self).infos().len(),
            final(self).infos()[r.0 as int].def_of().type_id_of() == R::type_key(),
            exists|def: ComponentDef|
                #![trigger def.type_id_of()]
                def.type_id_of() == R::type_key() && def.drops() == R::needs_drop()
                    && def.storage_type_of() == StorageType::Table
                    && def.layout_of() == Layout::spec_new::<R>() && registered(
                    old(self).infos(),
                    old(self).resource_keys(),
                    final(self).infos(),
                    final(self).resource_keys(),
                    def,
                    r,
                ),
    {
        let def = ComponentDef::new_resource::<R>();
        let r = self.register_resource_def(def);
        proof {
            if lookup(old(self).resource_keys(), def.type_id_of()) is None {
                lemma_lookup_push(old(self).resource_keys(), def.type_id_of(), r, def.type_id_of());
            }
            assert(key_ok(self.infos(), self.resource_keys(), R::type_key()));
        }
        r
    }

    /// The definition registered under `id`, if any.
    pub fn get_info(&self, id: ComponentId) -> (r: Option<&ComponentInfo>)
        ensures
            r is Some == (id.0 < self.infos().len()),
            r matches Some(info) ==> *info == self.infos()[id.0 as int],
    {
        if id.0 < self.component_infos.len() {
            Some(&self.component_infos[id.0])
        } else {
            None
        }
    }

    /// The id of the component type `type_id`, if registered.
    pub fn get_id(&self, type_id: TypeId) -> (r: Option<ComponentId>)
        ensures
            r == lookup(self.component_keys(), type_id),
    {
        find_key(&self.comp_indices, &type_id)
    }

    /// The id of the resource type `type_id`, if registered.
    pub fn get_resource_id(&self, type_id: TypeId) -> (r: Option<ComponentId>)
        ensures
            r == lookup(self.resource_keys(), type_id),
    {
        find_key(&self.res_indices, &type_id)
    }

    /// The id of the component type `T`, if registered.
    pub fn component_id<T: Component>(&self) -> (r: Option<ComponentId>)
        ensures
            r == lookup(self.component_keys(), T::type_key()),
    {
        self.get_id(type_key_of::<T>())
    }

    /// The id of the resource type `R`, if registered.
    pub fn resource_id<R: Resource>(&self) -> (r: Option<ComponentId>)
        ensures
            r == lookup(self.resource_keys(), R::type_key()),
    {
        self.get_resource_id(type_key_of::<R>())
    }
}

/// Registering a type that is already registered gives back its id and
/// changes nothing; registering a new type gives the next id.
pub proof fn lemma_register_idempotent(
    old_infos: Seq<ComponentInfo>,
    old_keys: Seq<(TypeId, ComponentId)>,
    mid_infos: Seq<ComponentInfo>,
    mid_keys: Seq<(TypeId, ComponentId)>,
    new_infos: Seq<ComponentInfo>,
    new_keys: Seq<(TypeId, ComponentId)>,
    def: ComponentDef,
    def2: ComponentDef,
    id1: ComponentId,
    id2: ComponentId,
)
    requires
        registered(old_infos, old_keys, mid_infos, mid_keys, def, id1),
        registered(mid_infos, mid_keys, new_infos, new_keys, def2, id2),
        def2.type_id_of() == def.type_id_of(),
    ensures
        id2 == id1,
        new_infos == mid_infos,
        new_keys == mid_keys,
        lookup(old_keys, def.type_id_of()) is None ==> id1.0 == old_infos.len(),
{
    if lookup(old_keys, def.type_id_of()) is None {
        lemma_lookup_push(old_keys, def.type_id_of(), id1, def.type_id_of());
    }
}

/// Ids are unique within a registry: two registered types (components or
/// resources) with the same id are the same type.
pub proof fn lemma_ids_unique(c: &Components, t1: TypeId, t2: TypeId)
    requires
        c.wf(),
    ensures
        lookup(c.component_keys(), t1) is Some && lookup(c.component_keys(), t1) == lookup(
            c.component_keys(),
            t2,
        ) ==> t1 == t2,
        lookup(c.resource_keys(), t1) is Some && lookup(c.resource_keys(), t1) == lookup(
            c.resource_keys(),
            t2,
        ) ==> t1 == t2,
        lookup(c.component_keys(), t1) is Some && lookup(c.component_keys(), t1) == lookup(
            c.resource_keys(),
            t2,
        ) ==> t1 == t2,
{
    assert(key_ok(c.infos(), c.component_keys(), t1));
    assert(key_ok(c.infos(), c.component_keys(), t2));
    assert(key_ok(c.infos(), c.resource_keys(), t1));
    assert(key_ok(c.infos(), c.resource_keys(), t2));
}

/// Extending is transitive.
pub proof fn lemma_extends_transitive(a: &Components, b: &Components, c: &Components)
    requires
        b.extends(a),
        c.extends(b),
    ensures
        c.extends(a),
{
    assert(c.infos().subrange(0, a.infos().len() as int) =~= b.infos().subrange(
        0,
        a.infos().len() as int,
    ));
    assert forall|t: TypeId| #[trigger] lookup(a.component_keys(), t) is Some implies lookup(
        c.component_keys(),
        t,
    ) == lookup(a.component_keys(), t) by {
        assert(lookup(b.component_keys(), t) is Some);
    }
    assert forall|t: TypeId| #[trigger] lookup(a.resource_keys(), t) is Some implies lookup(
        c.resource_keys(),
        t,
    ) == lookup(a.resource_keys(), t) by {
        assert(lookup(b.resource_keys(), t) is Some);
    }
}

/// Every registry extends itself.
pub proof fn lemma_extends_reflexive(a: &Components)
    ensures
        a.extends(a),
{
    assert(a.infos().subrange(0, a.infos().len() as int) =~= a.infos());
}

} // verus!
