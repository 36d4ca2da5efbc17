//! A blob of raw bytes laid out for one value of a plain (`Copy`) type.
use crate::component::type_needs_drop;
use crate::layout::Layout;
use vstd::arithmetic::power2::is_pow2;
use vstd::prelude::*;

verus! {

/// The errors of byte blob construction.
#[derive(Debug, Clone, Copy, PartialEq, Eq, Structural)]
pub enum ByteBlobError {
    /// The type needs dropping, which raw bytes cannot do.
    CantDropType,
    /// The layout has size zero: there are no bytes to hold.
    ZeroSizedLayout,
    /// The layout of the bytes could not be built.
    LayoutError,
}

/// Storage for the bytes of one value of a given layout, allocated lazily.
pub struct Blob {
    data: Vec<u8>,
    init: bool,
    layout: Layout,
}

impl Blob {
    /// The held bytes, once allocated.
    pub closed spec fn bytes_of(&self) -> Option<Seq<u8>> {
        if self.init {
            Some(self.data@)
        } else {
            None
        }
    }

    /// The layout of the held value, in specifications.
    pub closed spec fn layout_of(&self) -> Layout {
        self.layout
    }

    /// The layout is valid and not empty, and once allocated the blob holds
    /// exactly the layout's size in bytes.
    pub closed spec fn wf(&self) -> bool {
        &&& self.layout.wf()
        &&& self.layout.size_of() > 0
        &&& self.init ==> self.data@.len() == self.layout.size_of()
        &&& !self.init ==> self.data@.len() == 0
    }

    /// An empty blob for a value of the `Copy` type `T`; fails when `T`
    /// needs dropping or has size zero.
    pub fn new<T: Copy>() -> (r: Result<Blob, ByteBlobError>)
        ensures
            r matches Ok(b) ==> b.wf() && b.bytes_of() is None && b.layout_of()
                == Layout::spec_new::<T>(),
            Layout::spec_new::<T>().size_of() == 0 ==> r is Err,
            r matches Err(e) ==> e == ByteBlobError::CantDropType || (e
                == ByteBlobError::ZeroSizedLayout && Layout::spec_new::<T>().size_of() == 0),
    {
        if type_needs_drop::<T>() {
            return Err(ByteBlobError::CantDropType);
        }
        let layout = Layout::new::<T>();
        Self::with_layout(layout)
    }

    /// An empty blob for a value of type `T`, which must not have size zero.
    pub fn new_unchecked<T>() -> (r: Blob)
        requires
            Layout::spec_new::<T>().size_of() > 0,
        ensures
            r.wf(),
            r.bytes_of() is None,
            r.layout_of() == Layout::spec_new::<T>(),
    {
        Self::with_layout_unchecked(Layout::new::<T>())
    }

    /// An empty blob for a value of layout `layout`; fails when the layout has
    /// size zero.
    pub fn with_layout(layout: Layout) -> (r: Result<Blob, ByteBlobError>)
        requires
            layout.wf(),
        ensures
            layout.size_of() == 0 ==> r == Err::<Blob, ByteBlobError>(ByteBlobError::ZeroSizedLayout),
            layout.size_of() > 0 ==> (r matches Ok(b) && b.wf() && b.bytes_of() is None
                && b.layout_of() == layout),
    {
        if layout.size() == 0 {
            return Err(ByteBlobError::ZeroSizedLayout);
        }
        Ok(Self::with_layout_unchecked(layout))
    }

    /// An empty blob for a value of layout `layout`, which must not be empty.
    pub fn with_layout_unchecked(layout: Layout) -> (r: Blob)
        requires
            layout.wf(),
            layout.size_of() > 0,
        ensures
            r.wf(),
            r.bytes_of() is None,
            r.layout_of() == layout,
    {
        Blob { data: Vec::new(), init: false, layout }
    }

    /// A blob holding a copy of `bytes`, laid out as an array of bytes; fails
    /// when there are no bytes or too many for a layout.
    pub fn from_bytes(bytes: &[u8]) -> (r: Result<Blob, ByteBlobError>)
        ensures
            bytes@.len() > isize::MAX ==> r == Err::<Blob, ByteBlobError>(ByteBlobError::LayoutError),
            bytes@.len() == 0 ==> r == Err::<Blob, ByteBlobError>(ByteBlobError::ZeroSizedLayout),
            0 < bytes@.len() <= isize::MAX ==> (r matches Ok(b) && b.wf() && b.bytes_of() == Some(
                bytes@,
            ) && b.layout_of().size_of() == bytes@.len() && b.layout_of().align_of() == 1),
    {
        let layout = match Layout::from_size_align(bytes.len(), 1) {
            Some(l) => l,
            None => {
                proof {
                    reveal(is_pow2);
                    assert(is_pow2(1));
                    assert(isize::MAX as int % 1 == 0);
                }
                return Err(ByteBlobError::LayoutError);
            },
        };
        proof {
            reveal(is_pow2);
            assert(is_pow2(1));
            assert(isize::MAX as int % 1 == 0);
        }
        let mut blob = match Self::with_layout(layout) {
            Ok(b) => b,
            Err(e) => return Err(e),
        };
        blob.replace_bytes(bytes);
        Ok(blob)
    }

    /// Copies `source`, which must have the layout's size, into the blob,
    /// allocating it first if needed.
    pub fn replace_bytes(&mut self, source: &[u8])
        requires
            old(self).wf(),
            source@.len() == old(self).layout_of().size_of(),
        ensures
            final(self).wf(),
            final(self).bytes_of() == Some(source@),
            final(self).layout_of() == old(self).layout_of(),
    {
        self.data = vstd::slice::slice_to_vec(source);
        self.init = true;
    }

    /// Whether the blob has been allocated.
    pub fn is_init(&self) -> (r: bool)
        ensures
            r == self.bytes_of() is Some,
    {
        self.init
    }

    /// The layout of the held value.
    pub fn layout(&self) -> (r: Layout)
        ensures
            r == self.layout_of(),
    {
        self.layout
    }

    /// The held bytes; empty while the blob is not allocated.
    pub fn bytes(&self) -> (r: &[u8])
        requires
            self.wf(),
        ensures
            self.bytes_of() matches Some(b) ==> r@ == b,
            self.bytes_of() is None ==> r@.len() == 0,
    {
        self.data.as_slice()
    }

    /// The held bytes, mutably; empty while the blob is not allocated.
    pub fn bytes_mut(&mut self) -> (r: &mut [u8])
        requires
            old(self).wf(),
        ensures
            old(self).bytes_of() matches Some(b) ==> r@ == b,
            old(self).bytes_of() is None ==> r@.len() == 0,
            final(r)@.len() == r@.len() ==> final(self).wf(),
            final(self).layout_of() == old(self).layout_of(),
            old(self).bytes_of() is Some ==> final(self).bytes_of() == Some(final(r)@),
            old(self).bytes_of() is None ==> final(self).bytes_of() is None,
    {
        self.data.as_mut_slice()
    }
}

} // verus!
