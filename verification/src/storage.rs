//! The backing data of a `World`: one blob per resource type.
use crate::blob::Blob;
use crate::component::{ComponentId, Components};
use crate::sparse::SparseSet;
use vstd::prelude::*;

verus! {

/// The storage of resource values: one blob per resource id.
pub struct ResourceStorage<S> {
    resources: SparseSet<ComponentId, Blob<S>>,
}

impl<S> ResourceStorage<S> {
    /// The blob of each resource id that has one.
    pub closed spec fn blobs(&self) -> Map<nat, Blob<S>> {
        self.resources.contents()
    }

    /// The sparse set is consistent and every blob is well formed.
    pub closed spec fn wf(&self) -> bool {
        &&& self.resources.wf()
        &&& forall|j: int|
            0 <= j < self.resources.values_view().len() ==> (
            #[trigger] self.resources.values_view()[j]).wf()
    }

    /// Every stored blob is well formed.
    pub proof fn lemma_blobs_wf(&self)
        requires
            self.wf(),
        ensures
            forall|k: nat| #[trigger] self.blobs().contains_key(k) ==> self.blobs()[k].wf(),
    {
        assert forall|k: nat| #[trigger] self.blobs().contains_key(k) implies self.blobs()[k].wf() by {
            let p = self.resources.position(k as int)->0 as int;
            assert(0 <= p < self.resources.values_view().len());
        }
    }

    /// An empty storage.
    pub fn new() -> (r: ResourceStorage<S>)
        ensures
            r.wf(),
            r.blobs() == Map::<nat, Blob<S>>::empty(),
    {
        let r = ResourceStorage { resources: SparseSet::new() };
        assert(r.blobs() =~= Map::<nat, Blob<S>>::empty());
        r
    }

    /// The blob of the resource `component_id`, if it has one.
    pub fn get_resource_storage(&self, component_id: ComponentId) -> (r: Option<&Blob<S>>)
        requires
            self.wf(),
        ensures
            r is Some == self.blobs().contains_key(component_id.0 as nat),
            r matches Some(b) ==> *b == self.blobs()[component_id.0 as nat],
    {
        proof {
            self.resources.lemma_keys_unique();
        }
        self.resources.get(component_id)
    }

    /// The blob of the resource `component_id`, mutably, if it has one.
    pub fn get_resource_storage_mut(&mut self, component_id: ComponentId) -> (r: Option<&mut Blob<S>>)
        requires
            old(self).wf(),
        ensures
            !old(self).blobs().contains_key(component_id.0 as nat) ==> r is None && final(self).blobs()
                == old(self).blobs(),
            old(self).blobs().contains_key(component_id.0 as nat) ==> (r matches Some(b) && *b
                == old(self).blobs()[component_id.0 as nat] && final(self).blobs() == old(
                self,
            ).blobs().insert(component_id.0 as nat, *final(b))),
            r matches Some(b) ==> (final(b).wf() ==> final(self).wf()),
            r is None ==> final(self).wf(),
    {
        proof {
            self.resources.lemma_keys_unique();
        }
        self.resources.get_mut(component_id)
    }

    /// The blob of the resource `component_id`, created empty, with the layout
    /// its registration gives, when it has none yet.
    pub fn fetch_resource_storage(&mut self, component_id: ComponentId, components: &Components) -> (r:
        &mut Blob<S>)
        requires
            old(self).wf(),
            components.wf(),
            component_id.0 < components.infos().len(),
            component_id.0 < usize::MAX,
        ensures
            old(self).blobs().contains_key(component_id.0 as nat) ==> *r == old(self).blobs()[component_id.0 as nat],
            !old(self).blobs().contains_key(component_id.0 as nat) ==> {
                &&& r.wf()
                &&& r.value() is None
                &&& r.layout_of() == components.infos()[component_id.0 as int].def_of().layout_of()
            },
            final(self).blobs() == old(self).blobs().insert(component_id.0 as nat, *final(r)),
            final(r).wf() ==> final(self).wf(),
            r.wf(),
    {
        proof {
            self.resources.lemma_keys_unique();
        }
        let info = components.get_info(component_id).unwrap();
        let layout = info.layout();
        let drop_fn = info.drop_fn();
        assert(components.infos()[component_id.0 as int].def_of().wf());
        let make = move || -> (b: Blob<S>)
            requires
                layout.wf(),
                layout.size_of() % layout.align_of() == 0,
            ensures
                b.wf(),
                b.value() is None,
                b.layout_of() == layout,
            { Blob::with_layout_unchecked(layout, drop_fn) };
        self.resources.get_or_insert_with(component_id, make)
    }
}

/// The backing data of a `World`.
pub struct Storages<S> {
    pub resources: ResourceStorage<S>,
}

impl<S> Storages<S> {
    /// Empty storages.
    pub fn new() -> (r: Storages<S>)
        ensures
            r.resources.wf(),
            r.resources.blobs() == Map::<nat, Blob<S>>::empty(),
    {
        Storages { resources: ResourceStorage::new() }
    }
}

} // verus!
