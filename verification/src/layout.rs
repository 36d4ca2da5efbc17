//! Memory layouts of stored values: a size and an alignment, and the layout of
//! an array of such values.
use vstd::arithmetic::power2::is_pow2;
use vstd::layout::{align_of, layout_for_type_is_valid, size_of, valid_layout};
use vstd::prelude::*;

verus! {

/// The size and alignment of a type, as `core::alloc::Layout` describes them.
#[derive(Clone, Copy, Debug, PartialEq, Eq, Structural)]
pub struct Layout {
    size: usize,
    align: usize,
}

/// `size` rounded up to the next multiple of `align`.
pub open spec fn padded_size(size: int, align: int) -> int {
    if size % align == 0 {
        size
    } else {
        size + (align - size % align)
    }
}

impl Layout {
    /// The size, in specifications.
    pub closed spec fn size_of(&self) -> usize {
        self.size
    }

    /// The alignment, in specifications.
    pub closed spec fn align_of(&self) -> usize {
        self.align
    }

    /// A size and an alignment that `core::alloc::Layout` accepts: the
    /// alignment is a power of two and the size, rounded up to it, fits in an `isize`.
    pub open spec fn wf(&self) -> bool {
        valid_layout(self.size_of(), self.align_of())
    }

    /// Two layouts are equal exactly when their sizes and alignments are.
    pub proof fn lemma_eq(a: Layout, b: Layout)
        ensures
            (a == b) == (a.size_of() == b.size_of() && a.align_of() == b.align_of()),
    {
    }

    /// The layout of values of type `T`, in specifications.
    pub closed spec fn spec_new<T>() -> Layout {
        Layout { size: size_of::<T>() as usize, align: align_of::<T>() as usize }
    }

    /// The layout of values of type `T`.
    pub fn new<T>() -> (r: Layout)
        ensures
            r == Layout::spec_new::<T>(),
            r.wf(),
            r.size_of() == size_of::<T>(),
            r.align_of() == align_of::<T>(),
            r.size_of() % r.align_of() == 0,
    {
        layout_for_type_is_valid::<T>();
        Layout { size: core::mem::size_of::<T>(), align: core::mem::align_of::<T>() }
    }

    /// A layout with the given size and alignment, or `None` when
    /// `core::alloc::Layout` would refuse them.
    pub fn from_size_align(size: usize, align: usize) -> (r: Option<Layout>)
        ensures
            r is Some == valid_layout(size, align),
            r matches Some(l) ==> l.size_of() == size && l.align_of() == align,
    {
        if !is_power_of_two(align) {
            return None;
        }
        let max = isize::MAX as usize;
        proof {
            reveal(is_pow2);
            vstd::arithmetic::div_mod::lemma_mod_decreases(max as nat, align as nat);
        }
        if size > max - (max % align) {
            return None;
        }
        Some(Layout { size, align })
    }

    /// The size of the values.
    pub fn size(&self) -> (r: usize)
        ensures
            r == self.size_of(),
    {
        self.size
    }

    /// The alignment of the values.
    pub fn align(&self) -> (r: usize)
        ensures
            r == self.align_of(),
    {
        self.align
    }

    /// The layout with the size rounded up to a multiple of the alignment.
    pub fn pad_to_align(&self) -> (r: Layout)
        requires
            self.wf(),
        ensures
            r.wf(),
            r.align_of() == self.align_of(),
            r.size_of() == padded_size(self.size_of() as int, self.align_of() as int),
    {
        proof {
            lemma_valid_layout_pads(self.size, self.align);
        }
        let rem = self.size % self.align;
        let size = if rem == 0 {
            self.size
        } else {
            self.size + (self.align - rem)
        };
        Layout { size, align: self.align }
    }
}

/// Whether `n` is a power of two.
fn is_power_of_two(n: usize) -> (r: bool)
    ensures
        r == is_pow2(n as int),
{
    reveal(is_pow2);
    if n == 0 {
        return false;
    }
    let mut m = n;
    while m % 2 == 0
        invariant
            m > 0,
            is_pow2(n as int) == is_pow2(m as int),
        decreases m,
    {
        proof {
            reveal(is_pow2);
        }
        m = m / 2;
    }
    m == 1
}

/// Rounding the size of a valid layout up to its alignment stays within the
/// largest multiple of the alignment that fits in an `isize`.
pub proof fn lemma_valid_layout_pads(size: usize, align: usize)
    requires
        valid_layout(size, align),
    ensures
        align > 0,
        padded_size(size as int, align as int) <= isize::MAX as int - (isize::MAX as int) % (align as int),
        padded_size(size as int, align as int) % align as int == 0,
        padded_size(size as int, align as int) >= size,
        size % align == 0 ==> padded_size(size as int, align as int) == size,
{
    let m = isize::MAX as int;
    let a = align as int;
    let s = size as int;
    reveal(is_pow2);
    assert(a > 0);
    vstd::arithmetic::div_mod::lemma_fundamental_div_mod(m, a);
    vstd::arithmetic::div_mod::lemma_fundamental_div_mod(s, a);
    let mq = m / a;
    assert(m - m % a == a * mq);
    if s % a != 0 {
        let q = s / a;
        assert(s == a * q + s % a);
        assert(a * q < a * mq) by (nonlinear_arith)
            requires
                s == a * q + s % a,
                0 < s % a < a,
                s <= a * mq,
        ;
        assert(q < mq) by (nonlinear_arith)
            requires
                a * q < a * mq,
                a > 0,
        ;
        assert(a * (q + 1) <= a * mq) by (nonlinear_arith)
            requires
                q + 1 <= mq,
                a > 0,
        ;
        assert(padded_size(s, a) == a * (q + 1)) by (nonlinear_arith)
            requires
                s == a * q + s % a,
                padded_size(s, a) == s + (a - s % a),
        ;
        vstd::arithmetic::div_mod::lemma_mod_multiples_basic(q + 1, a);
    }
}

/// The largest size a layout of alignment `align` can have: sizes rounded up
/// to `align` must fit in an `isize`.
pub open spec fn max_layout_size(align: usize) -> int {
    isize::MAX as int - (isize::MAX as int) % (align as int)
}

/// The layout of `n` consecutive values of layout `layout`, each padded to its
/// alignment, with the distance between two consecutive values; `None` if the
/// total size is too large for a layout.
pub fn layout_repeat(layout: &Layout, n: usize) -> (r: Option<(Layout, usize)>)
    requires
        layout.wf(),
    ensures
        ({
            let padded = padded_size(layout.size_of() as int, layout.align_of() as int);
            &&& r is Some == (padded * n <= max_layout_size(layout.align_of()))
            &&& r matches Some((arr, offset)) ==> {
                &&& offset == padded
                &&& arr.size_of() == padded * n
                &&& arr.align_of() == layout.align_of()
                &&& arr.wf()
            }
        }),
{
    let padded = layout.pad_to_align();
    proof {
        reveal(is_pow2);
    }
    match padded.size.checked_mul(n) {
        Some(alloc_size) => match Layout::from_size_align(alloc_size, layout.align) {
            Some(arr) => Some((arr, padded.size)),
            None => None,
        },
        None => {
            proof {
                assert(isize::MAX as int - (isize::MAX as int) % (layout.align_of() as int)
                    <= usize::MAX) by {
                    vstd::arithmetic::div_mod::lemma_mod_bound(
                        isize::MAX as int,
                        layout.align_of() as int,
                    );
                }
            }
            None
        },
    }
}

/// The layout of an array of `capacity` values of layout `item_layout`, or
/// `None` if its size is too large for a layout.
pub fn array_layout(item_layout: &Layout, capacity: usize) -> (r: Option<Layout>)
    requires
        item_layout.wf(),
        item_layout.size_of() % item_layout.align_of() == 0,
    ensures
        r is Some == (item_layout.size_of() * capacity <= max_layout_size(item_layout.align_of())),
        r matches Some(arr) ==> arr.size_of() == item_layout.size_of() * capacity
            && arr.align_of() == item_layout.align_of() && arr.wf(),
{
    proof {
        lemma_valid_layout_pads(item_layout.size_of(), item_layout.align_of());
    }
    match layout_repeat(item_layout, capacity) {
        Some((arr, offset)) => Some(arr),
        None => None,
    }
}

} // verus!
