//! Sparse arrays and sparse sets: values reachable by small integer indices.
//!
//! A `SparseArray` is a vector of optional slots, grown on demand.
//! A `SparseSet` stores its values densely, in insertion order, and keeps a
//! sparse array from each index to the position of its value; removal moves the
//! last value into the freed position.
use core::marker::PhantomData;
use vstd::arithmetic::div_mod::lemma_small_mod;
use vstd::prelude::*;

verus! {

/// A value that stands for a position in a sparse collection.
pub trait SparseSetIndex: Sized {
    /// The position this value stands for.
    spec fn index_of(&self) -> nat;

    /// One past the largest position that a value of this type can stand for.
    spec fn index_bound() -> nat;

    /// Gets the sparse set index of this value.
    fn sparse_set_index(&self) -> (r: usize)
        ensures
            r as nat == self.index_of(),
            self.index_of() < Self::index_bound(),
    ;

    /// Creates a new value from the specified index (wrapping it into the type's range).
    fn get_sparse_set_index(value: usize) -> (r: Self)
        ensures
            r.index_of() == value as nat % Self::index_bound(),
    ;
}

impl SparseSetIndex for u8 {
    open spec fn index_of(&self) -> nat {
        *self as nat
    }

    open spec fn index_bound() -> nat {
        0x100
    }

    fn sparse_set_index(&self) -> (r: usize) {
        *self as usize
    }

    fn get_sparse_set_index(value: usize) -> (r: Self) {
        let r = (value % 0x100) as u8;
        r
    }
}

impl SparseSetIndex for u16 {
    open spec fn index_of(&self) -> nat {
        *self as nat
    }

    open spec fn index_bound() -> nat {
        0x1_0000
    }

    fn sparse_set_index(&self) -> (r: usize) {
        *self as usize
    }

    fn get_sparse_set_index(value: usize) -> (r: Self) {
        (value % 0x1_0000) as u16
    }
}

impl SparseSetIndex for u32 {
    open spec fn index_of(&self) -> nat {
        *self as nat
    }

    open spec fn index_bound() -> nat {
        0x1_0000_0000
    }

    fn sparse_set_index(&self) -> (r: usize) {
        *self as usize
    }

    fn get_sparse_set_index(value: usize) -> (r: Self) {
        ((value as u64) % 0x1_0000_0000u64) as u32
    }
}

impl SparseSetIndex for u64 {
    open spec fn index_of(&self) -> nat {
        (*self as usize) as nat
    }

    open spec fn index_bound() -> nat {
        usize::MAX as nat + 1
    }

    fn sparse_set_index(&self) -> (r: usize) {
        #[verifier::truncate]
        (*self as usize)
    }

    fn get_sparse_set_index(value: usize) -> (r: Self) {
        proof {
            lemma_small_mod(value as nat, usize::MAX as nat + 1);
        }
        value as u64
    }
}

impl SparseSetIndex for usize {
    open spec fn index_of(&self) -> nat {
        *self as nat
    }

    open spec fn index_bound() -> nat {
        usize::MAX as nat + 1
    }

    fn sparse_set_index(&self) -> (r: usize) {
        *self
    }

    fn get_sparse_set_index(value: usize) -> (r: Self) {
        proof {
            lemma_small_mod(value as nat, usize::MAX as nat + 1);
        }
        value
    }
}

/// `s` followed by empty slots up to length `n` (unchanged when already that long).
pub open spec fn padded<T>(s: Seq<Option<T>>, n: int) -> Seq<Option<T>> {
    if n <= s.len() {
        s
    } else {
        s + Seq::new((n - s.len()) as nat, |i: int| None::<T>)
    }
}

/// The slot at position `k`, empty past the end of `s`.
pub open spec fn slot_at<T>(s: Seq<Option<T>>, k: int) -> Option<T> {
    if 0 <= k < s.len() {
        s[k]
    } else {
        None
    }
}

/// A collection of values reachable by index, stored in a vector of optional
/// slots that grows to fit the largest index inserted.
pub struct SparseArray<I, V> {
    values: Vec<Option<V>>,
    marker: PhantomData<I>,
}

impl<I: SparseSetIndex, V> View for SparseArray<I, V> {
    type V = Seq<Option<V>>;

    closed spec fn view(&self) -> Seq<Option<V>> {
        self.values@
    }
}

impl<I: SparseSetIndex, V> SparseArray<I, V> {
    /// The value stored at position `k`, if any.
    pub open spec fn slot(&self, k: int) -> Option<V> {
        slot_at(self@, k)
    }

    /// Constructs a new, empty `SparseArray`.
    pub fn new() -> (r: Self)
        ensures
            r@ == Seq::<Option<V>>::empty(),
    {
        SparseArray { values: Vec::new(), marker: PhantomData }
    }

    /// The number of slots, used or not.
    pub fn slot_count(&self) -> (r: usize)
        ensures
            r == self@.len(),
    {
        self.values.len()
    }

    /// Whether position `k` holds a value.
    pub(crate) fn contains_at(&self, k: usize) -> (r: bool)
        ensures
            r == self.slot(k as int) is Some,
    {
        k < self.values.len() && self.values[k].is_some()
    }

    /// The value at position `k`, if any.
    pub(crate) fn get_at(&self, k: usize) -> (r: Option<&V>)
        ensures
            r is Some == self.slot(k as int) is Some,
            r matches Some(v) ==> Some(*v) == self.slot(k as int),
    {
        if k < self.values.len() {
            self.values[k].as_ref()
        } else {
            None
        }
    }

    /// A mutable reference to the value at position `k`, if any.
    pub(crate) fn get_mut_at(&mut self, k: usize) -> (r: Option<&mut V>)
        ensures
            old(self).slot(k as int) is None ==> r is None && final(self)@ == old(self)@,
            old(self).slot(k as int) is Some ==> (r matches Some(v) && Some(*v) == old(self).slot(
                k as int,
            ) && final(self)@ == old(self)@.update(k as int, Some(*final(v)))),
    {
        if k < self.values.len() {
            self.values[k].as_mut()
        } else {
            None
        }
    }

    /// Stores `value` at position `k`, growing the slots when needed.
    pub(crate) fn insert_at(&mut self, k: usize, value: V)
        requires
            k < usize::MAX,
        ensures
            final(self)@ == padded(old(self)@, k + 1).update(k as int, Some(value)),
    {
        if self.values.len() <= k {
            while self.values.len() <= k
                invariant
                    k < usize::MAX,
                    old(self)@.len() <= self@.len() <= k + 1,
                    self@ == padded(old(self)@, self@.len() as int),
                decreases k + 1 - self@.len(),
            {
                self.values.push(None);
                assert(self@ =~= padded(old(self)@, self@.len() as int));
            }
        }
        assert(self@ =~= padded(old(self)@, k + 1));
        self.values.set(k, Some(value));
    }

    /// Takes the value out of position `k`, if any.
    pub(crate) fn remove_at(&mut self, k: usize) -> (r: Option<V>)
        ensures
            r == old(self).slot(k as int),
            k < old(self)@.len() ==> final(self)@ == old(self)@.update(k as int, None),
            k >= old(self)@.len() ==> final(self)@ == old(self)@,
    {
        if k < self.values.len() {
            let mut taken: Option<V> = None;
            self.values.set_and_swap(k, &mut taken);
            taken
        } else {
            None
        }
    }

    /// Returns `true` if the collection contains a value for the specified `index`.
    pub fn contains(&self, index: I) -> (r: bool)
        ensures
            r == self.slot(index.index_of() as int) is Some,
    {
        self.contains_at(index.sparse_set_index())
    }

    /// Returns a reference to the value at `index`, or `None` if there is none
    /// (also when `index` is out of bounds).
    pub fn get(&self, index: I) -> (r: Option<&V>)
        ensures
            r is Some == self.slot(index.index_of() as int) is Some,
            r matches Some(v) ==> Some(*v) == self.slot(index.index_of() as int),
    {
        self.get_at(index.sparse_set_index())
    }

    /// Inserts `value` at `index`, enlarging the slots to accommodate it.
    pub fn insert(&mut self, index: I, value: V)
        requires
            index.index_of() < usize::MAX,
        ensures
            final(self)@ == padded(old(self)@, index.index_of() + 1int).update(
                index.index_of() as int,
                Some(value),
            ),
    {
        let k = index.sparse_set_index();
        self.insert_at(k, value);
    }

    /// Returns a mutable reference to the value at `index`, or `None` if there is none.
    pub fn get_mut(&mut self, index: I) -> (r: Option<&mut V>)
        ensures
            old(self).slot(index.index_of() as int) is None ==> r is None && final(self)@ == old(
                self,
            )@,
            old(self).slot(index.index_of() as int) is Some ==> (r matches Some(v) && Some(*v)
                == old(self).slot(index.index_of() as int) && final(self)@ == old(self)@.update(
                index.index_of() as int,
                Some(*final(v)),
            )),
    {
        let k = index.sparse_set_index();
        self.get_mut_at(k)
    }

    /// Removes and returns the value stored at `index`, or `None` if there was none.
    pub fn remove(&mut self, index: I) -> (r: Option<V>)
        ensures
            r == old(self).slot(index.index_of() as int),
            index.index_of() < old(self)@.len() ==> final(self)@ == old(self)@.update(
                index.index_of() as int,
                None,
            ),
            index.index_of() >= old(self)@.len() ==> final(self)@ == old(self)@,
    {
        let k = index.sparse_set_index();
        self.remove_at(k)
    }

    /// Removes all of the values stored within.
    pub fn clear(&mut self)
        ensures
            final(self)@ == Seq::<Option<V>>::empty(),
    {
        self.values.clear();
    }
}

/// Returns the capacity of `v`.
///
/// Trusted wrapper of `Vec::capacity`: std documents that the capacity is at
/// least the length; the exact value depends on the allocator and is left unsaid.
#[verifier::external_body]
fn vec_capacity<T>(v: &Vec<T>) -> (r: usize)
    ensures
        r >= v@.len(),
{
    v.capacity()
}

/// Whether the sparse slots `sparse` send index number `k` to position `j`.
pub open spec fn stored_in(sparse: Seq<Option<usize>>, k: int, j: int) -> bool {
    slot_at(sparse, k) matches Some(p) && p as int == j
}

/// The layout of a sparse set: `len` dense values whose indices are `keys`,
/// with the slots `sparse` sending each index number to its position.
pub open spec fn layout_ok<I: SparseSetIndex>(len: nat, keys: Seq<I>, sparse: Seq<Option<usize>>) -> bool {
    &&& len == keys.len()
    &&& forall|j: int|
        0 <= j < keys.len() ==> #[trigger] stored_in(sparse, keys[j].index_of() as int, j)
    &&& forall|k: int|
        #[trigger] slot_at(sparse, k) is Some ==> {
            &&& (slot_at(sparse, k)->0 as int) < keys.len()
            &&& keys[slot_at(sparse, k)->0 as int].index_of() == k
        }
}

/// A data structure that densely stores values while being accessible by sparse indices.
///
/// `I` is the index type, and `V` is the type of the stored values.
pub struct SparseSet<I, V> {
    /// The values, densely stored.
    dense: Vec<V>,
    /// The index of each value in `dense`, at the same position.
    indices: Vec<I>,
    /// For each index number, the position of its value in `dense`.
    sparse: SparseArray<I, usize>,
}

impl<I: SparseSetIndex, V> SparseSet<I, V> {
    /// The stored values, in storage order.
    pub closed spec fn values_view(&self) -> Seq<V> {
        self.dense@
    }

    /// The index of each stored value, at the same position as the value.
    pub closed spec fn keys_view(&self) -> Seq<I> {
        self.indices@
    }

    /// The slots of the sparse array from index numbers to storage positions.
    pub closed spec fn sparse_view(&self) -> Seq<Option<usize>> {
        self.sparse@
    }

    /// The storage position of the value for index number `k`, if any.
    pub open spec fn position(&self, k: int) -> Option<usize> {
        slot_at(self.sparse_view(), k)
    }

    /// The stored values by index number.
    pub open spec fn contents(&self) -> Map<nat, V> {
        Map::new(
            |k: nat| self.position(k as int) is Some,
            |k: nat| self.values_view()[self.position(k as int)->0 as int],
        )
    }

    /// Whether some stored value has index number `k`.
    pub open spec fn has_key(&self, k: int) -> bool {
        exists|j: int| 0 <= j < self.keys_view().len() && #[trigger] self.keys_view()[j].index_of() == k
    }

    /// The consistency of the dense storage and the sparse array.
    pub open spec fn wf(&self) -> bool {
        layout_ok(self.values_view().len(), self.keys_view(), self.sparse_view())
    }

    /// Index numbers are held at most once, and each is found at its position.
    pub proof fn lemma_keys_unique(&self)
        requires
            self.wf(),
        ensures
            forall|i: int, j: int|
                0 <= i < self.keys_view().len() && 0 <= j < self.keys_view().len() && i != j
                    ==> #[trigger] self.keys_view()[i].index_of()
                    != #[trigger] self.keys_view()[j].index_of(),
            forall|k: int| #[trigger] self.has_key(k) == (self.position(k) is Some),
    {
        assert forall|k: int| #[trigger] self.has_key(k) == (self.position(k) is Some) by {
            if self.position(k) is Some {
                let j = self.position(k)->0 as int;
                assert(self.keys_view()[j].index_of() == k);
            }
            if self.has_key(k) {
                let j = choose|j: int|
                    0 <= j < self.keys_view().len() && #[trigger] self.keys_view()[j].index_of()
                        == k;
                assert(stored_in(self.sparse_view(), self.keys_view()[j].index_of() as int, j));
            }
        }
        assert forall|i: int, j: int|
            0 <= i < self.keys_view().len() && 0 <= j < self.keys_view().len() && i != j
                implies #[trigger] self.keys_view()[i].index_of()
                != #[trigger] self.keys_view()[j].index_of() by {
            assert(stored_in(self.sparse_view(), self.keys_view()[i].index_of() as int, i));
            assert(stored_in(self.sparse_view(), self.keys_view()[j].index_of() as int, j));
        }
    }

    /// Constructs a new, empty `SparseSet`.
    pub fn new() -> (r: Self)
        ensures
            r.wf(),
            r.values_view() == Seq::<V>::empty(),
            r.keys_view() == Seq::<I>::empty(),
            r.sparse_view() == Seq::<Option<usize>>::empty(),
    {
        SparseSet { dense: Vec::new(), indices: Vec::new(), sparse: SparseArray::new() }
    }

    /// Creates a new, empty `SparseSet` with room for `capacity` values.
    pub fn with_capacity(capacity: usize) -> (r: Self)
        ensures
            r.wf(),
            r.values_view() == Seq::<V>::empty(),
            r.keys_view() == Seq::<I>::empty(),
            r.sparse_view() == Seq::<Option<usize>>::empty(),
    {
        SparseSet {
            dense: Vec::with_capacity(capacity),
            indices: Vec::with_capacity(capacity),
            sparse: SparseArray::new(),
        }
    }

    /// Returns the number of elements stored in the sparse set.
    pub fn len(&self) -> (r: usize)
        ensures
            r == self.values_view().len(),
    {
        self.dense.len()
    }

    /// Returns the number of elements the set can hold without reallocating.
    pub fn capacity(&self) -> (r: usize)
        ensures
            r >= self.values_view().len(),
    {
        vec_capacity(&self.dense)
    }

    /// Returns `true` if the sparse set contains a value for `index`.
    pub fn contains(&self, index: I) -> (r: bool)
        requires
            self.wf(),
        ensures
            r == self.has_key(index.index_of() as int),
    {
        proof {
            self.lemma_keys_unique();
        }
        self.sparse.contains(index)
    }

    /// Returns `true` if the sparse set contains no elements.
    pub fn is_empty(&self) -> (r: bool)
        ensures
            r == (self.values_view().len() == 0),
    {
        self.dense.len() == 0
    }

    /// The storage position of the value for `index`, if any.
    pub fn dense_index(&self, index: I) -> (r: Option<usize>)
        requires
            self.wf(),
        ensures
            r == self.position(index.index_of() as int),
    {
        match self.sparse.get(index) {
            Some(p) => Some(*p),
            None => None,
        }
    }

    /// The number of slots of the sparse array, used or not.
    pub fn sparse_len(&self) -> (r: usize)
        ensures
            r == self.sparse_view().len(),
    {
        self.sparse.slot_count()
    }

    /// Returns a reference to the value for `index`, or `None` if there is none.
    pub fn get(&self, index: I) -> (r: Option<&V>)
        requires
            self.wf(),
        ensures
            r is Some == self.has_key(index.index_of() as int),
            r is Some == self.contents().contains_key(index.index_of()),
            r matches Some(v) ==> *v == self.contents()[index.index_of()],
    {
        proof {
            self.lemma_keys_unique();
        }
        match self.sparse.get(index) {
            Some(p) => Some(&self.dense[*p]),
            None => None,
        }
    }

    /// Returns a mutable reference to the value for `index`, or `None` if there is none.
    pub fn get_mut(&mut self, index: I) -> (r: Option<&mut V>)
        requires
            old(self).wf(),
        ensures
            final(self).wf(),
            final(self).keys_view() == old(self).keys_view(),
            final(self).sparse_view() == old(self).sparse_view(),
            !old(self).has_key(index.index_of() as int) ==> r is None && final(self).values_view()
                == old(self).values_view(),
            old(self).has_key(index.index_of() as int) ==> (r matches Some(v) && {
                let p = old(self).position(index.index_of() as int)->0 as int;
                &&& *v == old(self).values_view()[p]
                &&& *v == old(self).contents()[index.index_of()]
                &&& final(self).values_view() == old(self).values_view().update(p, *final(v))
                &&& final(self).contents() == old(self).contents().insert(index.index_of(), *final(v))
            }),
            !old(self).has_key(index.index_of() as int) ==> final(self).contents() == old(self).contents(),
    {
        proof {
            self.lemma_keys_unique();
        }
        let k = index.sparse_set_index();
        match self.sparse.get_at(k) {
            Some(p) => {
                let p = *p;
                Some(&mut self.dense[p])
            },
            None => None,
        }
    }

    /// Inserts `value` at `index`, overwriting the value already there if any.
    ///
    /// A new index is appended after the stored ones.
    pub fn insert(&mut self, index: I, value: V)
        requires
            old(self).wf(),
            index.index_of() < usize::MAX,
        ensures
            final(self).wf(),
            final(self).contents() == old(self).contents().insert(index.index_of(), value),
            old(self).has_key(index.index_of() as int) ==> {
                let p = old(self).position(index.index_of() as int)->0 as int;
                &&& final(self).values_view() == old(self).values_view().update(p, value)
                &&& final(self).keys_view() == old(self).keys_view()
                &&& final(self).sparse_view() == old(self).sparse_view()
            },
            !old(self).has_key(index.index_of() as int) ==> {
                &&& final(self).values_view() == old(self).values_view().push(value)
                &&& final(self).keys_view() == old(self).keys_view().push(index)
                &&& final(self).sparse_view() == padded(
                    old(self).sparse_view(),
                    index.index_of() + 1int,
                ).update(index.index_of() as int, Some(old(self).values_view().len() as usize))
            },
    {
        proof {
            self.lemma_keys_unique();
        }
        let k = index.sparse_set_index();
        match self.sparse.get_at(k) {
            Some(p) => {
                let p = *p;
                self.dense.set(p, value);
                assert(self.keys_view() == old(self).keys_view());
                assert(self.sparse_view() == old(self).sparse_view());
                assert(self.values_view().len() == old(self).values_view().len());
                assert(self.wf());
            },
            None => {
                let n = self.dense.len();
                let ghost old_keys = self.indices@;
                self.sparse.insert_at(k, n);
                self.indices.push(index);
                self.dense.push(value);
                proof {
                    assert forall|j: int|
                        0 <= j < self.keys_view().len() implies #[trigger] stored_in(
                        self.sparse_view(),
                        
                        self.keys_view()[j].index_of() as int,
                        j,
                    ) by {
                        if j < old_keys.len() {
                            assert(stored_in(old(self).sparse_view(), old_keys[j].index_of() as int, j));
                            assert(old_keys[j].index_of() != k);
                        }
                    }
                    assert forall|kk: int| #[trigger] slot_at(self.sparse_view(), kk) is Some implies {
                        &&& (slot_at(self.sparse_view(), kk)->0 as int) < self.keys_view().len()
                        &&& self.keys_view()[slot_at(self.sparse_view(), kk)->0 as int].index_of()
                            == kk
                    } by {
                        if kk != k {
                            assert(self.position(kk) == old(self).position(kk));
                        }
                    }
                    assert(self.wf());
                }
            },
        }
    }

    /// Removes and returns the value for `index`, or `None` if there is none.
    ///
    /// The last stored value takes the place of the removed one.
    pub fn remove(&mut self, index: I) -> (r: Option<V>)
        requires
            old(self).wf(),
        ensures
            final(self).wf(),
            final(self).contents() == old(self).contents().remove(index.index_of()),
            r == (if old(self).contents().contains_key(index.index_of()) {
                Some(old(self).contents()[index.index_of()])
            } else {
                None
            }),
            !old(self).has_key(index.index_of() as int) ==> r is None && final(self).values_view()
                == old(self).values_view() && final(self).keys_view() == old(self).keys_view()
                && final(self).sparse_view() == old(self).sparse_view(),
            old(self).has_key(index.index_of() as int) ==> {
                let p = old(self).position(index.index_of() as int)->0 as int;
                let vals = old(self).values_view();
                let keys = old(self).keys_view();
                let k = index.index_of() as int;
                &&& r == Some(vals[p])
                &&& final(self).values_view() == vals.update(p, vals.last()).drop_last()
                &&& final(self).keys_view() == keys.update(p, keys.last()).drop_last()
                &&& final(self).sparse_view() == (if p == vals.len() - 1 {
                    old(self).sparse_view().update(k, None)
                } else {
                    old(self).sparse_view().update(k, None).update(
                        keys.last().index_of() as int,
                        Some(p as usize),
                    )
                })
            },
    {
        proof {
            self.lemma_keys_unique();
        }
        let k = index.sparse_set_index();
        match self.sparse.remove_at(k) {
            None => {
                assert(self.sparse_view() =~= old(self).sparse_view());
                None
            },
            Some(p) => {
                let ghost old_keys = self.indices@;
                let ghost old_sparse = self.sparse@;
                let is_last = p == self.dense.len() - 1;
                let value = self.dense.swap_remove(p);
                let _ = self.indices.swap_remove(p);
                if !is_last {
                    let swapped = self.indices[p].sparse_set_index();
                    proof {
                        let last = old_keys.len() - 1;
                        assert(self.indices@[p as int] == old_keys[last]);
                        assert(stored_in(old(self).sparse_view(), old_keys[last].index_of() as int, last));
                        assert(old_keys[last].index_of() != k);
                    }
                    match self.sparse.get_mut_at(swapped) {
                        Some(slot) => {
                            *slot = p;
                        },
                        None => {},
                    }
                }
                proof {
                    let last = old_keys.len() - 1;
                    assert forall|j: int|
                        0 <= j < self.keys_view().len() implies #[trigger] stored_in(
                        self.sparse_view(),
                        
                        self.keys_view()[j].index_of() as int,
                        j,
                    ) by {
                        if j == p {
                            assert(self.keys_view()[j] == old_keys[last]);
                        } else {
                            assert(self.keys_view()[j] == old_keys[j]);
                            assert(stored_in(old(self).sparse_view(), old_keys[j].index_of() as int, j));
                            assert(old_keys[j].index_of() != k);
                            if !is_last {
                                assert(old_keys[j].index_of() != old_keys[last].index_of());
                            }
                        }
                    }
                    assert forall|kk: int| #[trigger] slot_at(self.sparse_view(), kk) is Some implies {
                        &&& (slot_at(self.sparse_view(), kk)->0 as int) < self.keys_view().len()
                        &&& self.keys_view()[slot_at(self.sparse_view(), kk)->0 as int].index_of()
                            == kk
                    } by {
                        if kk != k && (is_last || kk != old_keys[last].index_of()) {
                            assert(self.position(kk) == old(self).position(kk));
                            let q = old(self).position(kk)->0 as int;
                            assert(old_keys[q].index_of() == kk);
                            if q == last {
                                assert(false);
                            }
                        }
                    }
                    assert(self.wf());
                }
                Some(value)
            },
        }
    }

    /// The indices of the stored values, in storage order.
    pub fn indices(&self) -> (r: &[I])
        ensures
            r@ == self.keys_view(),
    {
        self.indices.as_slice()
    }

    /// The stored values, in storage order.
    pub fn values(&self) -> (r: &[V])
        ensures
            r@ == self.values_view(),
    {
        self.dense.as_slice()
    }

    /// The stored values, mutably, in storage order.
    pub fn values_mut(&mut self) -> (r: &mut [V])
        requires
            old(self).wf(),
        ensures
            final(r)@.len() == r@.len() ==> final(self).wf(),
            r@ == old(self).values_view(),
            final(self).values_view() == final(r)@,
            final(self).keys_view() == old(self).keys_view(),
            final(self).sparse_view() == old(self).sparse_view(),
    {
        self.dense.as_mut_slice()
    }

    /// Returns a mutable reference to the value for `index`, inserting the one
    /// computed by `func` first when there is none.
    pub fn get_or_insert_with<F: FnOnce() -> V>(&mut self, index: I, func: F) -> (r: &mut V)
        requires
            old(self).wf(),
            index.index_of() < usize::MAX,
            call_requires(func, ()),
        ensures
            final(self).wf(),
            final(self).contents() == old(self).contents().insert(index.index_of(), *final(r)),
            old(self).has_key(index.index_of() as int) ==> *r == old(self).contents()[index.index_of()],
            old(self).has_key(index.index_of() as int) ==> {
                let p = old(self).position(index.index_of() as int)->0 as int;
                &&& *r == old(self).values_view()[p]
                &&& final(self).values_view() == old(self).values_view().update(p, *final(r))
                &&& final(self).keys_view() == old(self).keys_view()
                &&& final(self).sparse_view() == old(self).sparse_view()
            },
            !old(self).has_key(index.index_of() as int) ==> {
                &&& call_ensures(func, (), *r)
                &&& final(self).values_view() == old(self).values_view().push(*final(r))
                &&& final(self).keys_view() == old(self).keys_view().push(index)
                &&& final(self).sparse_view() == padded(
                    old(self).sparse_view(),
                    index.index_of() + 1int,
                ).update(index.index_of() as int, Some(old(self).values_view().len() as usize))
            },
    {
        proof {
            self.lemma_keys_unique();
        }
        let k = index.sparse_set_index();
        match self.sparse.get_at(k) {
            Some(p) => {
                let p = *p;
                &mut self.dense[p]
            },
            None => {
                let value = func();
                let n = self.dense.len();
                self.insert(index, value);
                &mut self.dense[n]
            },
        }
    }

    /// Clears all of the elements from the sparse set.
    pub fn clear(&mut self)
        ensures
            final(self).wf(),
            final(self).values_view() == Seq::<V>::empty(),
            final(self).keys_view() == Seq::<I>::empty(),
            final(self).sparse_view() == Seq::<Option<usize>>::empty(),
    {
        self.dense.clear();
        self.indices.clear();
        self.sparse.clear();
    }
}


/// What a read gives back of a write: after `insert` of `value` at index
/// number `k` (which leaves `after.contents()` equal to
/// `before.contents().insert(k, value)`), reading `k` gives `value`, and
/// every other index number reads as before.
pub proof fn lemma_insert_then_read<I: SparseSetIndex, V>(
    before: &SparseSet<I, V>,
    after: &SparseSet<I, V>,
    k: nat,
    value: V,
)
    requires
        after.contents() == before.contents().insert(k, value),
    ensures
        after.contents().contains_key(k),
        after.contents()[k] == value,
        forall|j: nat|
            j != k ==> (#[trigger] after.contents().contains_key(j) == before.contents().contains_key(j)
                && (before.contents().contains_key(j) ==> after.contents()[j] == before.contents()[j])),
{
}

/// Removing an index number that was just inserted, where it held nothing
/// before, gives back the contents from before the insertion.
pub proof fn lemma_insert_then_remove<I: SparseSetIndex, V>(
    before: &SparseSet<I, V>,
    mid: &SparseSet<I, V>,
    after: &SparseSet<I, V>,
    k: nat,
    value: V,
)
    requires
        !before.contents().contains_key(k),
        mid.contents() == before.contents().insert(k, value),
        after.contents() == mid.contents().remove(k),
    ensures
        after.contents() == before.contents(),
{
    assert(after.contents() =~= before.contents());
}

} // verus!
