//! Type-erased storage of values of one type.
//!
//! The values themselves are held by a slot type `S`, able to hold a value of
//! any type; a blob records the layout of the type it stores and whether its
//! values need dropping, and manages a buffer of slots.
use crate::component::type_needs_drop;
use crate::layout::{array_layout, max_layout_size, Layout};
use vstd::prelude::*;

verus! {

/// A container able to hold one value of any type and to give it back when
/// asked for the same type (for example a `Box<dyn Any>`).
///
/// The methods carry no contract: whether `peek` gives a value back is up to
/// the implementation, and the blob and world state what holds whatever it
/// returns.
pub trait ErasedValue: Sized {
    /// Wraps `value`.
    fn wrap<T: 'static>(value: T) -> Self;

    /// The held value, if it is a `T`.
    fn peek<T: 'static>(&self) -> Option<&T>;

    /// The held value, mutably, if it is a `T`.
    fn peek_mut<T: 'static>(&mut self) -> Option<&mut T>;
}

/// The errors of blob accesses.
#[derive(Debug, Clone, Copy, PartialEq, Eq, Structural)]
pub enum BlobError {
    /// A layout could not be built.
    LayoutError,
    /// The layout of the requested type doesn't match the blob's layout.
    LayoutMistmatch,
    /// The blob holds no value (analogous with `Option::None`).
    Empty,
}

/// A buffer of slots for values of one erased type.
///
/// The buffer is allocated lazily; its capacity is tracked by the users of the
/// blob, who must pass it back in. A slot holding `None` is not initialized.
pub struct UnsafeBlob<S> {
    data: Option<Vec<Option<S>>>,
    drop_fn: bool,
    item_layout: Layout,
}

impl<S> UnsafeBlob<S> {
    /// The allocated buffer, if any.
    pub closed spec fn buffer(&self) -> Option<Seq<Option<S>>> {
        match self.data {
            Some(v) => Some(v@),
            None => None,
        }
    }

    /// The layout of the stored values, in specifications.
    pub closed spec fn layout_of(&self) -> Layout {
        self.item_layout
    }

    /// Whether the stored values need dropping, in specifications.
    pub closed spec fn drops(&self) -> bool {
        self.drop_fn
    }

    /// Constructs a new, empty `UnsafeBlob`, allocated lazily.
    pub fn with_layout_unchecked(item_layout: Layout, drop_fn: bool) -> (r: UnsafeBlob<S>)
        ensures
            r.buffer() is None,
            r.layout_of() == item_layout,
            r.drops() == drop_fn,
    {
        UnsafeBlob { data: None, drop_fn, item_layout }
    }

    /// Constructs a new `UnsafeBlob` with room for `capacity` values
    /// (allocated lazily when `capacity` is 0).
    pub fn with_capacity_unchecked(item_layout: Layout, drop_fn: bool, capacity: usize) -> (r:
        UnsafeBlob<S>)
        requires
            item_layout.wf(),
            item_layout.size_of() % item_layout.align_of() == 0,
            item_layout.size_of() * capacity <= max_layout_size(item_layout.align_of()),
        ensures
            capacity == 0 ==> r.buffer() is None,
            capacity > 0 ==> r.buffer() == Some(Seq::new(capacity as nat, |i: int| None::<S>)),
            r.layout_of() == item_layout,
            r.drops() == drop_fn,
    {
        let mut blob = Self::with_layout_unchecked(item_layout, drop_fn);
        if capacity > 0 {
            blob.alloc_buffer(capacity);
        }
        blob
    }

    /// The layout of the values stored inside the `UnsafeBlob`.
    pub fn item_layout(&self) -> (r: Layout)
        ensures
            r == self.layout_of(),
    {
        self.item_layout
    }

    /// Whether or not the `UnsafeBlob` stores zero-sized values.
    pub fn is_zst(&self) -> (r: bool)
        ensures
            r == (self.layout_of().size_of() == 0),
    {
        self.item_layout.size() == 0
    }

    /// Whether or not the `UnsafeBlob` has been allocated.
    pub fn is_allocated(&self) -> (r: bool)
        ensures
            r == self.buffer() is Some,
    {
        self.data.is_some()
    }

    /// Whether or not the stored values need dropping.
    pub fn has_drop(&self) -> (r: bool)
        ensures
            r == self.drops(),
    {
        self.drop_fn
    }

    /// Allocates a buffer for `capacity` values. Only for an `UnsafeBlob` that
    /// is not allocated yet.
    pub fn alloc_buffer(&mut self, capacity: usize)
        requires
            old(self).buffer() is None,
            capacity > 0,
            old(self).layout_of().wf(),
            old(self).layout_of().size_of() % old(self).layout_of().align_of() == 0,
            old(self).layout_of().size_of() * capacity <= max_layout_size(
                old(self).layout_of().align_of(),
            ),
        ensures
            final(self).buffer() == Some(Seq::new(capacity as nat, |i: int| None::<S>)),
            final(self).layout_of() == old(self).layout_of(),
            final(self).drops() == old(self).drops(),
    {
        let _arr_layout = array_layout(&self.item_layout, capacity);
        let mut buffer: Vec<Option<S>> = Vec::new();
        let mut i: usize = 0;
        while i < capacity
            invariant
                i <= capacity,
                buffer@ == Seq::new(i as nat, |k: int| None::<S>),
            decreases capacity - i,
        {
            buffer.push(None);
            i = i + 1;
            assert(buffer@ =~= Seq::new(i as nat, |k: int| None::<S>));
        }
        self.data = Some(buffer);
    }

    /// Grows the buffer from `capacity` values to `new_capacity` values.
    pub fn realloc_buffer(&mut self, capacity: usize, new_capacity: usize)
        requires
            old(self).buffer() matches Some(b) && b.len() == capacity,
            new_capacity > capacity > 0,
            old(self).layout_of().wf(),
            old(self).layout_of().size_of() % old(self).layout_of().align_of() == 0,
            old(self).layout_of().size_of() * new_capacity <= max_layout_size(
                old(self).layout_of().align_of(),
            ),
        ensures
            final(self).buffer() == Some(old(self).buffer()->0 + Seq::new(
                (new_capacity - capacity) as nat,
                |i: int| None::<S>,
            )),
            final(self).layout_of() == old(self).layout_of(),
            final(self).drops() == old(self).drops(),
    {
        proof {
            let size = old(self).layout_of().size_of();
            assert(size * capacity <= size * new_capacity) by (nonlinear_arith)
                requires
                    capacity < new_capacity,
            ;
        }
        let _arr_layout = array_layout(&self.item_layout, capacity);
        let _new_arr_layout = array_layout(&self.item_layout, new_capacity);
        let mut buffer = self.data.take().unwrap();
        let ghost start = buffer@;
        let mut i: usize = capacity;
        while i < new_capacity
            invariant
                capacity <= i <= new_capacity,
                buffer@ == start + Seq::new((i - capacity) as nat, |k: int| None::<S>),
            decreases new_capacity - i,
        {
            buffer.push(None);
            i = i + 1;
            assert(buffer@ =~= start + Seq::new((i - capacity) as nat, |k: int| None::<S>));
        }
        self.data = Some(buffer);
    }

    /// A reference to the value at `index`, which must be initialized.
    pub fn get_unchecked(&self, index: usize) -> (r: &S)
        requires
            self.buffer() matches Some(b) && index < b.len() && b[index as int] is Some,
        ensures
            Some(*r) == self.buffer()->0[index as int],
    {
        let buffer = self.data.as_ref().unwrap();
        buffer[index].as_ref().unwrap()
    }

    /// A mutable reference to the value at `index`, which must be initialized.
    pub fn get_unchecked_mut(&mut self, index: usize) -> (r: &mut S)
        requires
            old(self).buffer() matches Some(b) && index < b.len() && b[index as int] is Some,
        ensures
            Some(*r) == old(self).buffer()->0[index as int],
            final(self).buffer() == Some(old(self).buffer()->0.update(index as int, Some(*final(r)))),
            final(self).layout_of() == old(self).layout_of(),
            final(self).drops() == old(self).drops(),
    {
        let buffer = self.data.as_mut().unwrap();
        let slot = &mut buffer[index];
        slot.as_mut().unwrap()
    }

    /// Drops the values at positions `0..len`, leaving them uninitialized.
    pub fn clear_buffer(&mut self, len: usize)
        requires
            old(self).buffer() matches Some(b) && len <= b.len(),
        ensures
            final(self).buffer() matches Some(b) && b.len() == old(self).buffer()->0.len()
                && (forall|i: int| 0 <= i < len ==> b[i] is None) && (forall|i: int|
                len <= i < b.len() ==> b[i] == old(self).buffer()->0[i]),
            final(self).layout_of() == old(self).layout_of(),
            final(self).drops() == old(self).drops(),
    {
        let mut buffer = self.data.take().unwrap();
        let ghost start = buffer@;
        let mut i: usize = 0;
        while i < len
            invariant
                len <= start.len(),
                buffer@.len() == start.len(),
                i <= len,
                forall|k: int| 0 <= k < i ==> buffer@[k] is None,
                forall|k: int| i <= k < buffer@.len() ==> buffer@[k] == start[k],
            decreases len - i,
        {
            buffer.set(i, None);
            i = i + 1;
        }
        self.data = Some(buffer);
    }

    /// Drops the values at positions `0..len` and frees the buffer.
    pub fn drop(&mut self, len: usize, capacity: usize)
        requires
            old(self).buffer() matches Some(b) ==> b.len() == capacity && len <= capacity,
        ensures
            final(self).buffer() is None,
            final(self).layout_of() == old(self).layout_of(),
            final(self).drops() == old(self).drops(),
    {
        if self.is_allocated() {
            self.clear_buffer(len);
            self.data = None;
        }
    }

    /// Drops the value at `index`, leaving it uninitialized.
    pub fn drop_element(&mut self, index: usize)
        requires
            old(self).buffer() matches Some(b) && index < b.len(),
        ensures
            final(self).buffer() == Some(old(self).buffer()->0.update(index as int, None)),
            final(self).layout_of() == old(self).layout_of(),
            final(self).drops() == old(self).drops(),
    {
        let mut buffer = self.data.take().unwrap();
        buffer.set(index, None);
        self.data = Some(buffer);
    }

    /// Stores `value` at `index`, which must be within the buffer.
    pub fn initialize_unchecked(&mut self, index: usize, value: S)
        requires
            old(self).buffer() matches Some(b) && index < b.len(),
        ensures
            final(self).buffer() == Some(old(self).buffer()->0.update(index as int, Some(value))),
            final(self).layout_of() == old(self).layout_of(),
            final(self).drops() == old(self).drops(),
    {
        let mut buffer = self.data.take().unwrap();
        buffer.set(index, Some(value));
        self.data = Some(buffer);
    }

    /// Replaces the value at `index`, which must be within the buffer, dropping
    /// the old one; when the values need dropping, the slot must be initialized.
    pub fn replace_unchecked(&mut self, index: usize, value: S)
        requires
            old(self).buffer() matches Some(b) && index < b.len() && (old(self).drops()
                ==> b[index as int] is Some),
        ensures
            final(self).buffer() == Some(old(self).buffer()->0.update(index as int, Some(value))),
            final(self).layout_of() == old(self).layout_of(),
            final(self).drops() == old(self).drops(),
    {
        let mut buffer = self.data.take().unwrap();
        let mut taken = Some(value);
        buffer.set_and_swap(index, &mut taken);
        self.data = Some(buffer);
    }
}

/// The error of a result, if it is one.
pub open spec fn error_of<T>(r: &Result<T, BlobError>) -> Option<BlobError> {
    match r {
        Ok(_) => None,
        Err(e) => Some(*e),
    }
}

/// Type-erased storage of a single value.
///
/// The blob is allocated lazily, when a value is first stored in it.
pub struct Blob<S> {
    data: UnsafeBlob<S>,
}

impl<S> Blob<S> {
    /// The stored value, if any.
    pub closed spec fn value(&self) -> Option<S> {
        match self.data.buffer() {
            Some(b) => b[0],
            None => None,
        }
    }

    /// The layout of the values the blob stores, in specifications.
    pub closed spec fn layout_of(&self) -> Layout {
        self.data.layout_of()
    }

    /// Whether the stored values need dropping, in specifications.
    pub closed spec fn drops(&self) -> bool {
        self.data.drops()
    }

    /// The buffer is either not allocated, or allocated for one value that is initialized.
    pub closed spec fn wf(&self) -> bool {
        &&& self.layout_of().wf()
        &&& self.layout_of().size_of() % self.layout_of().align_of() == 0
        &&& match self.data.buffer() {
            Some(b) => b.len() == 1 && b[0] is Some,
            None => true,
        }
    }

    /// Constructs a new, empty `Blob` for values of type `T`, allocated lazily.
    pub fn new<T>() -> (r: Blob<S>)
        ensures
            r.wf(),
            r.value() is None,
            r.layout_of() == Layout::spec_new::<T>(),
    {
        let layout = Layout::new::<T>();
        Blob { data: UnsafeBlob::with_layout_unchecked(layout, type_needs_drop::<T>()) }
    }

    /// Constructs a new, empty `Blob` for values of layout `layout`, allocated lazily.
    pub fn with_layout_unchecked(layout: Layout, drop_fn: bool) -> (r: Blob<S>)
        requires
            layout.wf(),
            layout.size_of() % layout.align_of() == 0,
        ensures
            r.wf(),
            r.value() is None,
            r.layout_of() == layout,
            r.drops() == drop_fn,
    {
        Blob { data: UnsafeBlob::with_layout_unchecked(layout, drop_fn) }
    }

    /// Whether or not the `Blob` holds a value.
    pub fn has_value(&self) -> (r: bool)
        requires
            self.wf(),
        ensures
            r == self.value() is Some,
    {
        self.data.is_allocated()
    }

    /// The layout of the values stored inside the `Blob`.
    pub fn layout(&self) -> (r: Layout)
        ensures
            r == self.layout_of(),
    {
        self.data.item_layout()
    }

    /// Checks the layout of the type `T` against [`Self::layout`].
    pub fn check_layout<T>(&self) -> (r: bool)
        ensures
            r == (self.layout_of() == Layout::spec_new::<T>()),
    {
        let t_layout = Layout::new::<T>();
        let layout = self.layout();
        proof {
            Layout::lemma_eq(layout, t_layout);
        }
        layout.size() == t_layout.size() && layout.align() == t_layout.align()
    }

    /// Stores `value` inside the `Blob`, dropping the old value if there was one.
    pub fn insert_data(&mut self, value: S)
        requires
            old(self).wf(),
        ensures
            final(self).wf(),
            final(self).value() == Some(value),
            final(self).layout_of() == old(self).layout_of(),
            final(self).drops() == old(self).drops(),
    {
        if !self.has_value() {
            proof {
                crate::layout::lemma_valid_layout_pads(
                    self.layout_of().size_of(),
                    self.layout_of().align_of(),
                );
            }
            self.data.alloc_buffer(1);
            self.data.initialize_unchecked(0, value);
        } else {
            self.data.replace_unchecked(0, value);
        }
    }

    /// The stored value, if any.
    pub fn get(&self) -> (r: Option<&S>)
        requires
            self.wf(),
        ensures
            r is Some == self.value() is Some,
            r matches Some(v) ==> Some(*v) == self.value(),
    {
        if self.has_value() {
            Some(self.data.get_unchecked(0))
        } else {
            None
        }
    }

    /// The stored value, mutably, if any.
    pub fn get_mut(&mut self) -> (r: Option<&mut S>)
        requires
            old(self).wf(),
        ensures
            old(self).value() is None ==> r is None && *final(self) == *old(self),
            old(self).value() is Some ==> (r matches Some(v) && Some(*v) == old(self).value()
                && final(self).value() == Some(*final(v))),
            final(self).wf(),
            final(self).layout_of() == old(self).layout_of(),
            final(self).drops() == old(self).drops(),
    {
        if self.has_value() {
            Some(self.data.get_unchecked_mut(0))
        } else {
            None
        }
    }
}

impl<S: ErasedValue> Blob<S> {
    /// Constructs a new `Blob` holding `value`.
    pub fn from<T: 'static>(value: T) -> (r: Blob<S>)
        ensures
            r.wf(),
            r.value() is Some,
            r.layout_of() == Layout::spec_new::<T>(),
    {
        let layout = Layout::new::<T>();
        proof {
            crate::layout::lemma_valid_layout_pads(layout.size_of(), layout.align_of());
        }
        let mut data = UnsafeBlob::with_capacity_unchecked(layout, type_needs_drop::<T>(), 1);
        data.initialize_unchecked(0, S::wrap(value));
        Blob { data }
    }

    /// Stores `value` inside the `Blob`, dropping the old value if there was one.
    pub fn insert<T: 'static>(&mut self, value: T)
        requires
            old(self).wf(),
            old(self).layout_of() == Layout::spec_new::<T>(),
        ensures
            final(self).wf(),
            final(self).value() is Some,
            final(self).layout_of() == old(self).layout_of(),
            final(self).drops() == old(self).drops(),
    {
        self.insert_data(S::wrap(value));
    }

    /// The stored value as a `T`.
    ///
    /// Fails with `LayoutMistmatch` when `T` does not have the blob's layout,
    /// or when the stored value is not a `T`, and with `Empty` when the blob
    /// holds no value.
    pub fn downcast_ref<T: 'static>(&self) -> (r: Result<&T, BlobError>)
        requires
            self.wf(),
        ensures
            self.layout_of() != Layout::spec_new::<T>() ==> r == Err::<&T, BlobError>(
                BlobError::LayoutMistmatch,
            ),
            self.layout_of() == Layout::spec_new::<T>() && self.value() is None ==> r == Err::<
                &T,
                BlobError,
            >(BlobError::Empty),
            self.layout_of() == Layout::spec_new::<T>() && self.value() is Some ==> (r is Ok || r
                == Err::<&T, BlobError>(BlobError::LayoutMistmatch)),
    {
        if self.check_layout::<T>() {
            match self.get() {
                Some(value) => match value.peek::<T>() {
                    Some(r) => Ok(r),
                    None => Err(BlobError::LayoutMistmatch),
                },
                None => Err(BlobError::Empty),
            }
        } else {
            Err(BlobError::LayoutMistmatch)
        }
    }

    /// The stored value as a `T`, mutably; fails as [`Self::downcast_ref`] does.
    pub fn downcast_mut<T: 'static>(&mut self) -> (r: Result<&mut T, BlobError>)
        requires
            old(self).wf(),
        ensures
            old(self).layout_of() != Layout::spec_new::<T>() ==> error_of(&r) == Some(
                BlobError::LayoutMistmatch,
            ),
            old(self).layout_of() == Layout::spec_new::<T>() && old(self).value() is None
                ==> error_of(&r) == Some(BlobError::Empty),
            old(self).layout_of() == Layout::spec_new::<T>() && old(self).value() is Some ==> (r is Ok
                || error_of(&r) == Some(BlobError::LayoutMistmatch)),
            final(self).wf(),
            final(self).value() is Some == old(self).value() is Some,
            final(self).layout_of() == old(self).layout_of(),
            final(self).drops() == old(self).drops(),
    {
        if self.check_layout::<T>() {
            match self.get_mut() {
                Some(value) => match value.peek_mut::<T>() {
                    Some(r) => Ok(r),
                    None => Err(BlobError::LayoutMistmatch),
                },
                None => Err(BlobError::Empty),
            }
        } else {
            Err(BlobError::LayoutMistmatch)
        }
    }
}

} // verus!
