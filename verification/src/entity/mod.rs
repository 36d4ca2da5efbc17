//! Entity handles (generational indices) and the bookkeeping of their ids.
use vstd::prelude::*;
use vstd::std_specs::cmp::PartialEqSpecImpl;

pub mod order;

verus! {

/// Unique ID of an `Entity`, that also acts as a handle.
///
/// The IDs are generational indices: an `id` plus a `generation`, so that a
/// stale handle can be told apart from the current one for the same `id`.
#[derive(Clone, Copy, Debug, Hash, Ord)]
pub struct Entity {
    id: u32,
    generation: u32,
}

/// The `u64` whose high half is `id` and whose low half is `generation`.
pub open spec fn entity_bits(id: u32, generation: u32) -> u64 {
    (id as int * 0x1_0000_0000 + generation as int) as u64
}

impl Entity {
    /// The `id` of the entity, in specifications.
    pub closed spec fn id_of(&self) -> u32 {
        self.id
    }

    /// The `generation` of the entity, in specifications.
    pub closed spec fn generation_of(&self) -> u32 {
        self.generation
    }

    /// Two entities are the same handle exactly when id and generation agree.
    pub proof fn lemma_same_handle(a: Entity, b: Entity)
        ensures
            (a.id_of() == b.id_of() && a.generation_of() == b.generation_of()) == (a == b),
    {
    }

    /// A dummy `Entity` that acts as an "uninitialized" entity.
    pub(crate) fn invalid() -> (r: Entity)
        ensures
            r.id_of() == u32::MAX,
            r.generation_of() == 0,
    {
        Entity { id: u32::MAX, generation: 0 }
    }

    /// The `id` of the `Entity`.
    pub fn id(&self) -> (r: u32)
        ensures
            r == self.id_of(),
    {
        self.id
    }

    /// The `generation` of the `Entity`.
    pub fn generation(&self) -> (r: u32)
        ensures
            r == self.generation_of(),
    {
        self.generation
    }

    /// Creates a new `Entity` from a raw entity `id` and a `generation`.
    pub(crate) fn from_raw_id_and_generation(id: u32, generation: u32) -> (r: Entity)
        ensures
            r.id_of() == id,
            r.generation_of() == generation,
    {
        Entity { id, generation }
    }

    /// Creates a new `Entity` from a raw entity `id`, with the generation of
    /// the invalid entity (0).
    pub(crate) fn from_raw_id(id: u32) -> (r: Entity)
        ensures
            r.id_of() == id,
            r.generation_of() == 0,
    {
        let invalid = Entity::invalid();
        Entity { id, generation: invalid.generation }
    }

    /// Converts the entity to its `u64` representation: `id` in the high half,
    /// `generation` in the low half.
    pub fn to_bits(&self) -> (r: u64)
        ensures
            r == entity_bits(self.id_of(), self.generation_of()),
            r as int == self.id_of() as int * 0x1_0000_0000 + self.generation_of() as int,
    {
        let id = self.id;
        let generation = self.generation;
        let r = ((id as u64) << 32u64) | (generation as u64);
        assert(r == (id as u64) * 0x1_0000_0000u64 + (generation as u64)) by (bit_vector)
            requires
                r == ((id as u64) << 32u64) | (generation as u64),
        ;
        r
    }

    /// Reconstructs an `Entity` that was converted to a `u64` by [`Self::to_bits`].
    pub fn from_bits(bits: u64) -> (r: Option<Entity>)
        ensures
            r matches Some(e) && e.id_of() as int == bits as int / 0x1_0000_0000
                && e.generation_of() as int == bits as int % 0x1_0000_0000,
    {
        let id = (bits >> 32u64) as u32;
        let generation = (bits & 0xffff_ffffu64) as u32;
        assert(bits >> 32u64 == bits / 0x1_0000_0000u64) by (bit_vector);
        assert(bits & 0xffff_ffffu64 == bits % 0x1_0000_0000u64) by (bit_vector);
        Some(Entity { id, generation })
    }
}

/// Converting an entity to bits and back gives the same entity.
pub proof fn lemma_bits_round_trip(e: Entity)
    ensures
        ({
            let b = e.id_of() as int * 0x1_0000_0000 + e.generation_of() as int;
            &&& b / 0x1_0000_0000 == e.id_of() as int
            &&& b % 0x1_0000_0000 == e.generation_of() as int
        }),
{
    let b = e.id_of() as int * 0x1_0000_0000 + e.generation_of() as int;
    vstd::arithmetic::div_mod::lemma_fundamental_div_mod_converse(
        b,
        0x1_0000_0000,
        e.id_of() as int,
        e.generation_of() as int,
    );
}

/// Two entities have the same bits exactly when they are the same handle.
pub proof fn lemma_bits_injective(a: Entity, b: Entity)
    ensures
        (a.id_of() as int * 0x1_0000_0000 + a.generation_of() as int == b.id_of() as int
            * 0x1_0000_0000 + b.generation_of() as int) == (a == b),
{
    lemma_bits_round_trip(a);
    lemma_bits_round_trip(b);
    Entity::lemma_same_handle(a, b);
}

/// The number an entity's bits stand for: `id` in the high half, `generation`
/// in the low half.
pub open spec fn entity_value(e: Entity) -> int {
    e.id_of() as int * 0x1_0000_0000 + e.generation_of() as int
}

/// The bits of an entity are the number `entity_value` gives.
pub proof fn lemma_entity_bits_value(e: Entity)
    ensures
        entity_bits(e.id_of(), e.generation_of()) as int == entity_value(e),
{
    let v = entity_value(e);
    assert(e.id_of() as int * 0x1_0000_0000 <= 0xffff_ffff * 0x1_0000_0000) by (nonlinear_arith)
        requires
            e.id_of() as int <= 0xffff_ffff,
    ;
    assert(0 <= e.id_of() as int * 0x1_0000_0000) by (nonlinear_arith)
        requires
            0 <= e.id_of() as int,
    ;
    assert(0 <= v < 0x1_0000_0000_0000_0000);
}

/// Entities are equal when their bits are: same `id` and same `generation`.
impl PartialEq for Entity {
    fn eq(&self, other: &Entity) -> (r: bool) {
        proof {
            lemma_bits_injective(*self, *other);
        }
        self.to_bits() == other.to_bits()
    }
}

impl PartialEqSpecImpl for Entity {
    open spec fn obeys_eq_spec() -> bool {
        true
    }

    open spec fn eq_spec(&self, other: &Entity) -> bool {
        self.id_of() == other.id_of() && self.generation_of() == other.generation_of()
    }
}

impl Eq for Entity {
}

/// Describes the location of an `Entity` inside of the storage.
#[derive(Clone, Copy)]
pub struct EntityLocation {
    pub archetype: u32,
    pub index: u32,
}

impl EntityLocation {
    /// The location of an entity that is stored nowhere.
    pub fn invalid() -> (r: EntityLocation)
        ensures
            r.archetype == u32::MAX,
            r.index == u32::MAX,
    {
        EntityLocation { archetype: u32::MAX, index: u32::MAX }
    }
}

/// Metadata about a managed entity: its current `generation` and location.
#[derive(Clone, Copy)]
pub struct EntityMeta {
    pub generation: u32,
    pub location: EntityLocation,
}

impl EntityMeta {
    /// The metadata of an entity that was never used.
    pub fn empty() -> (r: EntityMeta)
        ensures
            r.generation == 0,
            r.location.archetype == u32::MAX,
            r.location.index == u32::MAX,
    {
        EntityMeta { generation: 0, location: EntityLocation::invalid() }
    }
}

/// The entities reserved by `reserve_entities(count)` when the pending ids are
/// `pending`, the generations of the known ids are `generations` and the
/// requested cursor is `cursor`: first the free ids `pending[max(cursor - count, 0)
/// .. max(cursor, 0)]` with their current generation, then brand new ids (of
/// generation 0) counted from `generations.len()`, skipping those already
/// requested past the end of the free ids.
pub open spec fn reserved_entities(
    pending: Seq<u32>,
    generations: Seq<u32>,
    cursor: int,
    count: int,
) -> Seq<(u32, u32)> {
    let start = cursor - count;
    let lo = if start > 0 {
        start
    } else {
        0
    };
    let hi = if cursor > 0 {
        cursor
    } else {
        0
    };
    let free = Seq::new(
        (hi - lo) as nat,
        |i: int| (pending[lo + i], generations[pending[lo + i] as int]),
    );
    let first_new = generations.len() - (if cursor < 0 {
        cursor
    } else {
        0
    });
    let new_count = if start < 0 {
        generations.len() - start - first_new
    } else {
        0
    };
    free + Seq::new(new_count as nat, |i: int| ((first_new + i) as u32, 0u32))
}

/// The entity reserved by `reserve_entity`, as an `(id, generation)` pair.
pub open spec fn reserved_entity(pending: Seq<u32>, generations: Seq<u32>, cursor: int) -> (
    u32,
    u32,
) {
    if cursor > 0 {
        (pending[cursor - 1], generations[pending[cursor - 1] as int])
    } else {
        ((generations.len() - cursor) as u32, 0u32)
    }
}

/// The `(id, generation)` pair of an entity.
pub open spec fn handle_of(e: Entity) -> (u32, u32) {
    (e.id_of(), e.generation_of())
}

/// Storage for the metadata of all the entities.
///
/// `pending` holds ids that have been freed, to be reused. The ids at positions
/// `0..requested_cursor` are still free; those from `requested_cursor` on have
/// been reserved already. A negative cursor counts the brand new ids reserved
/// beyond the free ones.
pub struct Entities {
    meta: Vec<EntityMeta>,
    pending: Vec<u32>,
    requested_cursor: isize,
}

impl Entities {
    /// The generation of each known id.
    pub closed spec fn generations(&self) -> Seq<u32> {
        self.meta@.map_values(|m: EntityMeta| m.generation)
    }

    /// The ids that were freed, to be reused.
    pub closed spec fn pending_ids(&self) -> Seq<u32> {
        self.pending@
    }

    /// The requested cursor.
    pub closed spec fn cursor(&self) -> int {
        self.requested_cursor as int
    }

    /// The pending ids are known ids, and the cursor is within them.
    pub open spec fn wf(&self) -> bool {
        &&& self.cursor() <= self.pending_ids().len()
        &&& self.pending_ids().len() <= isize::MAX
        &&& self.generations().len() <= isize::MAX
        &&& forall|i: int|
            0 <= i < self.pending_ids().len() ==> (#[trigger] self.pending_ids()[i] as int)
                < self.generations().len()
    }

    /// Creates an empty entity storage.
    pub fn new() -> (r: Entities)
        ensures
            r.wf(),
            r.generations() == Seq::<u32>::empty(),
            r.pending_ids() == Seq::<u32>::empty(),
            r.cursor() == 0,
    {
        let r = Entities { meta: Vec::new(), pending: Vec::new(), requested_cursor: 0 };
        assert(r.generations() =~= Seq::<u32>::empty());
        r
    }

    /// Whether or not there is pending work requiring a flush.
    pub fn needs_flush(&mut self) -> (r: bool)
        requires
            old(self).wf(),
        ensures
            *final(self) == *old(self),
            r == (old(self).cursor() != old(self).pending_ids().len()),
    {
        self.requested_cursor != self.pending.len() as isize
    }

    /// Checks that there is no pending work requiring a flush.
    pub fn assert_flushed(&mut self)
        requires
            old(self).wf(),
            old(self).cursor() == old(self).pending_ids().len(),
        ensures
            *final(self) == *old(self),
    {
        let flushed = !self.needs_flush();
        assert(flushed);
    }

    /// Reserves `count` entity IDs: the free ids first, then brand new ones.
    ///
    /// The metadata for the new entities will be allocated when flushed.
    pub fn reserve_entities(&mut self, count: u32) -> (r: Vec<Entity>)
        requires
            old(self).wf(),
            old(self).cursor() - count >= isize::MIN,
            count <= isize::MAX,
            old(self).cursor() - count < 0 ==> old(self).generations().len() - (old(self).cursor()
                - count) <= u32::MAX,
            old(self).cursor() - count < 0 ==> old(self).generations().len() - (old(self).cursor()
                - count) <= isize::MAX,
        ensures
            final(self).wf(),
            final(self).generations() == old(self).generations(),
            final(self).pending_ids() == old(self).pending_ids(),
            final(self).cursor() == old(self).cursor() - count,
            r@.map_values(|e: Entity| handle_of(e)) == reserved_entities(
                old(self).pending_ids(),
                old(self).generations(),
                old(self).cursor(),
                count as int,
            ),
            r@.len() == count,
    {
        let reserve_end = self.requested_cursor;
        let reserve_start = reserve_end - count as isize;
        self.requested_cursor = reserve_start;
        let ghost expected = reserved_entities(
            old(self).pending_ids(),
            old(self).generations(),
            old(self).cursor(),
            count as int,
        );
        let lo: usize = if reserve_start > 0 {
            reserve_start as usize
        } else {
            0
        };
        let hi: usize = if reserve_end > 0 {
            reserve_end as usize
        } else {
            0
        };
        let mut r: Vec<Entity> = Vec::new();
        let mut i = lo;
        while i < hi
            invariant
                self.wf(),
                self.generations() == old(self).generations(),
                self.pending_ids() == old(self).pending_ids(),
                lo <= i <= hi <= self.pending_ids().len(),
                expected == reserved_entities(
                    old(self).pending_ids(),
                    old(self).generations(),
                    old(self).cursor(),
                    count as int,
                ),
                lo == (if reserve_start > 0 { reserve_start as int } else { 0 }),
                hi == (if reserve_end > 0 { reserve_end as int } else { 0 }),
                reserve_end == old(self).cursor(),
                reserve_start == reserve_end - count,
                r@.len() == i - lo,
                forall|k: int| 0 <= k < r@.len() ==> handle_of(#[trigger] r@[k]) == expected[k],
            decreases hi - i,
        {
            let id = self.pending[i];
            let generation = self.meta[id as usize].generation;
            r.push(Entity::from_raw_id_and_generation(id, generation));
            i = i + 1;
        }
        if reserve_start < 0 {
            let first_new_id = self.meta.len() as isize;
            let new_ids_end = (first_new_id - reserve_start) as u32;
            let new_ids_start = (first_new_id - (if reserve_end < 0 {
                reserve_end
            } else {
                0
            })) as u32;
            let mut id = new_ids_start;
            while id < new_ids_end
                invariant
                    new_ids_start <= id <= new_ids_end,
                    reserve_start < 0,
                    first_new_id == old(self).generations().len(),
                    new_ids_end == first_new_id - reserve_start,
                    new_ids_start == first_new_id - (if reserve_end < 0 { reserve_end as int } else { 0 }),
                    expected == reserved_entities(
                        old(self).pending_ids(),
                        old(self).generations(),
                        old(self).cursor(),
                        count as int,
                    ),
                    reserve_end == old(self).cursor(),
                    reserve_start == reserve_end - count,
                    r@.len() == (hi - lo) + (id - new_ids_start),
                    lo == (if reserve_start > 0 { reserve_start as int } else { 0 }),
                    hi == (if reserve_end > 0 { reserve_end as int } else { 0 }),
                    forall|k: int| 0 <= k < r@.len() ==> handle_of(#[trigger] r@[k]) == expected[k],
                decreases new_ids_end - id,
            {
                r.push(Entity::from_raw_id(id));
                id = id + 1;
            }
        }
        assert(r@.map_values(|e: Entity| handle_of(e)) =~= expected);
        r
    }

    /// Reserves one entity ID: the last free id if there is one, else a brand new one.
    ///
    /// Equivalent to the first entity of `reserve_entities(1)`.
    pub fn reserve_entity(&mut self) -> (r: Entity)
        requires
            old(self).wf(),
            old(self).cursor() - 1 >= isize::MIN,
            old(self).cursor() <= 0 ==> old(self).generations().len() - old(self).cursor()
                <= u32::MAX,
            old(self).cursor() <= 0 ==> old(self).generations().len() - old(self).cursor()
                <= isize::MAX,
        ensures
            final(self).wf(),
            final(self).generations() == old(self).generations(),
            final(self).pending_ids() == old(self).pending_ids(),
            final(self).cursor() == old(self).cursor() - 1,
            handle_of(r) == reserved_entity(
                old(self).pending_ids(),
                old(self).generations(),
                old(self).cursor(),
            ),
    {
        let reserve_end = self.requested_cursor;
        self.requested_cursor = reserve_end - 1;
        if reserve_end > 0 {
            let index = self.pending[(reserve_end - 1) as usize];
            let generation = self.meta[index as usize].generation;
            Entity::from_raw_id_and_generation(index, generation)
        } else {
            Entity::from_raw_id((self.meta.len() as isize - reserve_end) as u32)
        }
    }

    /// Allocates one entity id directly: the last freed id, with its current
    /// generation, when there is one; else a brand new id of generation 0.
    ///
    /// Nothing may be waiting for a flush.
    pub fn alloc_entity(&mut self) -> (r: Entity)
        requires
            old(self).wf(),
            old(self).cursor() == old(self).pending_ids().len(),
            old(self).pending_ids().len() == 0 ==> old(self).generations().len() < u32::MAX,
            old(self).pending_ids().len() == 0 ==> old(self).generations().len() < isize::MAX,
        ensures
            final(self).wf(),
            final(self).cursor() == final(self).pending_ids().len(),
            old(self).pending_ids().len() > 0 ==> {
                let id = old(self).pending_ids().last();
                &&& handle_of(r) == (id, old(self).generations()[id as int])
                &&& final(self).pending_ids() == old(self).pending_ids().drop_last()
                &&& final(self).generations() == old(self).generations()
            },
            old(self).pending_ids().len() == 0 ==> {
                &&& handle_of(r) == (old(self).generations().len() as u32, 0u32)
                &&& final(self).pending_ids() == old(self).pending_ids()
                &&& final(self).generations() == old(self).generations().push(0)
            },
    {
        match self.pending.pop() {
            Some(id) => {
                self.requested_cursor = self.pending.len() as isize;
                let generation = self.meta[id as usize].generation;
                proof {
                    assert(old(self).pending_ids()[old(self).pending_ids().len() - 1] == id);
                    assert forall|i: int| 0 <= i < self.pending_ids().len() implies (
                    #[trigger] self.pending_ids()[i] as int) < self.generations().len() by {
                        assert(self.pending_ids()[i] == old(self).pending_ids()[i]);
                    }
                }
                Entity::from_raw_id_and_generation(id, generation)
            },
            None => {
                let id = self.meta.len() as u32;
                self.meta.push(EntityMeta::empty());
                proof {
                    assert(self.generations() =~= old(self).generations().push(0));
                }
                Entity::from_raw_id(id)
            },
        }
    }

    /// Destroys the entity `entity`, letting its id be reused later: its
    /// generation moves on by one (wrapping) and its id becomes the last freed
    /// id. Returns the handle the id will have when it is reused.
    ///
    /// Nothing may be waiting for a flush, and `entity` must be alive: a known
    /// id, of its current generation, not freed already.
    pub fn free(&mut self, entity: Entity) -> (r: Entity)
        requires
            old(self).wf(),
            old(self).cursor() == old(self).pending_ids().len(),
            (entity.id_of() as int) < old(self).generations().len(),
            old(self).generations()[entity.id_of() as int] == entity.generation_of(),
            !old(self).pending_ids().contains(entity.id_of()),
            old(self).pending_ids().len() < isize::MAX,
        ensures
            final(self).wf(),
            final(self).cursor() == final(self).pending_ids().len(),
            final(self).pending_ids() == old(self).pending_ids().push(entity.id_of()),
            final(self).generations() == old(self).generations().update(
                entity.id_of() as int,
                ((entity.generation_of() + 1) % 0x1_0000_0000) as u32,
            ),
            handle_of(r) == (entity.id_of(), ((entity.generation_of() + 1) % 0x1_0000_0000) as u32),
    {
        let id = entity.id();
        let generation = self.meta[id as usize].generation.wrapping_add(1);
        self.meta.set(id as usize, EntityMeta { generation, location: EntityLocation::invalid() });
        self.pending.push(id);
        self.requested_cursor = self.pending.len() as isize;
        proof {
            assert(self.generations() =~= old(self).generations().update(
                entity.id_of() as int,
                ((entity.generation_of() + 1) % 0x1_0000_0000) as u32,
            ));
            assert forall|i: int| 0 <= i < self.pending_ids().len() implies (
            #[trigger] self.pending_ids()[i] as int) < self.generations().len() by {
                if i < old(self).pending_ids().len() {
                    assert(self.pending_ids()[i] == old(self).pending_ids()[i]);
                }
            }
        }
        Entity::from_raw_id_and_generation(id, generation)
    }
}

/// Allocating right after freeing an entity gives back the handle that `free`
/// returned: the freed id, one generation on.
pub proof fn lemma_free_then_alloc(before: &Entities, after_free: &Entities, e: Entity, freed: Entity)
    requires
        (e.id_of() as int) < before.generations().len(),
        after_free.pending_ids() == before.pending_ids().push(e.id_of()),
        after_free.generations() == before.generations().update(
            e.id_of() as int,
            ((e.generation_of() + 1) % 0x1_0000_0000) as u32,
        ),
        handle_of(freed) == (e.id_of(), ((e.generation_of() + 1) % 0x1_0000_0000) as u32),
    ensures
        after_free.pending_ids().len() > 0,
        ({
            let id = after_free.pending_ids().last();
            (id, after_free.generations()[id as int]) == handle_of(freed)
        }),
{
}

/// A handle handed out by `reserve_entity` is current: a reused id comes with
/// the generation it has now, a brand new id with generation 0.
pub proof fn lemma_reserved_entity_current(pending: Seq<u32>, generations: Seq<u32>, cursor: int)
    requires
        cursor <= pending.len(),
        forall|i: int| 0 <= i < pending.len() ==> (#[trigger] pending[i] as int) < generations.len(),
        cursor <= 0 ==> generations.len() - cursor <= u32::MAX,
    ensures
        ({
            let (id, generation) = reserved_entity(pending, generations, cursor);
            &&& (id as int) < generations.len() ==> generation == generations[id as int]
            &&& (id as int) >= generations.len() ==> generation == 0
            &&& cursor > 0 ==> id == pending[cursor - 1]
            &&& cursor <= 0 ==> id as int == generations.len() - cursor
        }),
{
    if cursor > 0 {
        assert((pending[cursor - 1] as int) < generations.len());
    }
}

/// Every handle handed out by `reserve_entities` is current: a reused id comes
/// with the generation it has now, a brand new id with generation 0.
pub proof fn lemma_reserved_entities_current(
    pending: Seq<u32>,
    generations: Seq<u32>,
    cursor: int,
    count: int,
)
    requires
        0 <= count,
        cursor <= pending.len(),
        forall|i: int| 0 <= i < pending.len() ==> (#[trigger] pending[i] as int) < generations.len(),
        cursor - count < 0 ==> generations.len() - (cursor - count) <= u32::MAX,
    ensures
        forall|i: int|
            0 <= i < reserved_entities(pending, generations, cursor, count).len() ==> {
                let (id, generation) = #[trigger] reserved_entities(pending, generations, cursor, count)[i];
                &&& (id as int) < generations.len() ==> generation == generations[id as int]
                &&& (id as int) >= generations.len() ==> generation == 0
            },
{
    let r = reserved_entities(pending, generations, cursor, count);
    let start = cursor - count;
    let lo = if start > 0 { start } else { 0 };
    let hi = if cursor > 0 { cursor } else { 0 };
    assert forall|i: int| 0 <= i < r.len() implies {
        let (id, generation) = #[trigger] r[i];
        &&& (id as int) < generations.len() ==> generation == generations[id as int]
        &&& (id as int) >= generations.len() ==> generation == 0
    } by {
        if i < hi - lo {
            assert((pending[lo + i] as int) < generations.len());
        }
    }
}

/// Reserving right after freeing an entity gives back the handle that `free`
/// returned: the freed id, one generation on.
pub proof fn lemma_free_then_reserve(before: &Entities, after_free: &Entities, e: Entity, freed: Entity)
    requires
        (e.id_of() as int) < before.generations().len(),
        after_free.pending_ids() == before.pending_ids().push(e.id_of()),
        after_free.generations() == before.generations().update(
            e.id_of() as int,
            ((e.generation_of() + 1) % 0x1_0000_0000) as u32,
        ),
        handle_of(freed) == (e.id_of(), ((e.generation_of() + 1) % 0x1_0000_0000) as u32),
    ensures
        reserved_entity(
            after_free.pending_ids(),
            after_free.generations(),
            after_free.pending_ids().len() as int,
        ) == handle_of(freed),
{
}

/// Reserving `count` entities gives exactly `count` entities.
pub proof fn lemma_reserved_count(pending: Seq<u32>, generations: Seq<u32>, cursor: int, count: nat)
    requires
        cursor <= pending.len(),
    ensures
        reserved_entities(pending, generations, cursor, count as int).len() == count,
{
}

/// Reserving one entity gives the first entity that reserving a batch of one gives.
pub proof fn lemma_reserve_one_is_first_of_batch(pending: Seq<u32>, generations: Seq<u32>, cursor: int)
    requires
        cursor <= pending.len(),
    ensures
        reserved_entities(pending, generations, cursor, 1).len() == 1,
        reserved_entities(pending, generations, cursor, 1)[0] == reserved_entity(
            pending,
            generations,
            cursor,
        ),
{
}

} // verus!
