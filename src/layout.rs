//! Size and alignment of a memory request.

use vstd::arithmetic::power2::is_pow2;
use vstd::layout::{align_of, layout_for_type_is_valid, size_of, valid_layout};
use vstd::prelude::*;

verus! {

/// The request could not be described: the alignment is not a power of two,
/// or the size, rounded up to the alignment, would exceed `isize::MAX`.
#[derive(Clone, Copy, Debug, PartialEq, Eq, Structural)]
pub struct LayoutError;

/// A `(size, alignment)` pair. Every value built by this module is valid in
/// the sense of [`Layout::is_valid`].
#[derive(Clone, Copy, Debug, PartialEq, Eq, Structural)]
pub struct Layout {
    size: usize,
    align: usize,
}

/// Whether `n` is a power of two, decided by halving.
fn power_of_two(n: usize) -> (r: bool)
    ensures
        r == is_pow2(n as int),
        r ==> n > 0,
{
    let mut a: usize = n;
    while a > 1 && a % 2 == 0
        invariant
            is_pow2(a as int) == is_pow2(n as int),
        decreases a,
    {
        proof {
            reveal(is_pow2);
        }
        a = a / 2;
    }
    proof {
        reveal(is_pow2);
    }
    a == 1
}

impl Layout {
    pub closed spec fn spec_size(self) -> usize {
        self.size
    }

    pub closed spec fn spec_align(self) -> usize {
        self.align
    }

    /// The alignment is a power of two and the size, rounded up to it, fits
    /// in `isize`.
    pub open spec fn is_valid(self) -> bool {
        valid_layout(self.spec_size(), self.spec_align())
    }

    /// Builds the layout `(size, align)`, or reports why it cannot exist.
    pub fn from_size_align(size: usize, align: usize) -> (r: Result<Layout, LayoutError>)
        ensures
            r is Ok <==> valid_layout(size, align),
            r matches Ok(l) ==> l.spec_size() == size && l.spec_align() == align && l.is_valid(),
    {
        if !power_of_two(align) {
            return Err(LayoutError);
        }
        let max: usize = isize::MAX as usize;
        proof {
            assert(max % align <= max) by (nonlinear_arith)
                requires
                    align > 0,
            ;
        }
        let limit: usize = max - max % align;
        if size > limit {
            return Err(LayoutError);
        }
        Ok(Layout { size, align })
    }

    /// The layout of one value of type `T`.
    pub fn new<T>() -> (r: Layout)
        ensures
            r.spec_size() as nat == size_of::<T>(),
            r.spec_align() as nat == align_of::<T>(),
            r.is_valid(),
    {
        layout_for_type_is_valid::<T>();
        Layout { size: core::mem::size_of::<T>(), align: core::mem::align_of::<T>() }
    }

    /// The layout of `n` consecutive values of type `T`.
    pub fn array<T>(n: usize) -> (r: Result<Layout, LayoutError>)
        ensures
            r is Ok <==> n * size_of::<T>() <= usize::MAX && valid_layout(
                (n * size_of::<T>()) as usize,
                align_of::<T>() as usize,
            ),
            r matches Ok(l) ==> l.spec_size() == n * size_of::<T>() && l.spec_align()
                == align_of::<T>() && l.is_valid(),
    {
        layout_for_type_is_valid::<T>();
        let elem: usize = core::mem::size_of::<T>();
        match elem.checked_mul(n) {
            None => {
                proof {
                    assert(n * size_of::<T>() == elem * n) by (nonlinear_arith)
                        requires elem == size_of::<T>(),
                    ;
                }
                Err(LayoutError)
            },
            Some(total) => {
                proof {
                    assert(n * size_of::<T>() == elem * n) by (nonlinear_arith)
                        requires elem == size_of::<T>(),
                    ;
                }
                Layout::from_size_align(total, core::mem::align_of::<T>())
            },
        }
    }

    pub fn size(&self) -> (r: usize)
        ensures
            r == self.spec_size(),
    {
        self.size
    }

    pub fn align(&self) -> (r: usize)
        ensures
            r == self.spec_align(),
    {
        self.align
    }
}

} // verus!
