//! A growable buffer of slots for values of one type. It knows its capacity
//! and which leading slots have been written; its owner decides what is live.

use crate::alloc_trait::AllocError;
use crate::layout::Layout;
use vstd::layout::{align_of, layout_for_type_is_valid, size_of, valid_layout};
use vstd::prelude::*;

verus! {

/// Whether `n` values of type `T` can be described by a layout.
pub open spec fn array_fits<T>(n: nat) -> bool {
    n * size_of::<T>() <= usize::MAX && valid_layout(
        (n * size_of::<T>()) as usize,
        align_of::<T>() as usize,
    )
}

/// The capacity that `grow` moves to from `cap`.
pub open spec fn grown_capacity(cap: nat) -> nat {
    if cap == 0 {
        1
    } else {
        2 * cap
    }
}

pub struct RawVec<T> {
    items: Vec<T>,
    cap: usize,
}

impl<T> RawVec<T> {
    /// The number of slots.
    pub closed spec fn spec_capacity(&self) -> nat {
        self.cap as nat
    }

    /// The values in the leading written slots, in order.
    pub closed spec fn written(&self) -> Seq<T> {
        self.items@
    }

    /// The written slots fit in the capacity, which fits in `usize`.
    pub open spec fn wf(&self) -> bool {
        self.written().len() <= self.spec_capacity() <= usize::MAX
    }

    /// An empty buffer of capacity zero; nothing is allocated.
    pub fn new() -> (r: Self)
        ensures
            r.wf(),
            r.spec_capacity() == 0,
            r.written() == Seq::<T>::empty(),
    {
        RawVec { items: Vec::new(), cap: 0 }
    }

    /// A buffer with room for exactly `capacity` values. Capacity zero
    /// allocates nothing; a capacity whose layout cannot exist is refused.
    pub fn with_capacity(capacity: usize) -> (r: Result<Self, AllocError>)
        ensures
            r matches Ok(b) ==> b.wf() && b.spec_capacity() == capacity && b.written() == Seq::<
                T,
            >::empty(),
            capacity == 0 ==> r is Ok,
            !array_fits::<T>(capacity as nat) ==> r is Err,
    {
        layout_for_type_is_valid::<T>();
        if capacity == 0 {
            return Ok(Self::new());
        }
        if Layout::array::<T>(capacity).is_err() {
            return Err(AllocError);
        }
        let mut items: Vec<T> = Vec::new();
        if items.try_reserve(capacity).is_err() {
            return Err(AllocError);
        }
        Ok(RawVec { items, cap: capacity })
    }

    /// Doubles the capacity, or takes it to one from zero. On error nothing
    /// changes; the error is owed where the new capacity has no layout.
    pub fn grow(&mut self) -> (r: Result<(), AllocError>)
        requires
            old(self).wf(),
        ensures
            final(self).wf(),
            final(self).written() == old(self).written(),
            r is Ok ==> final(self).spec_capacity() == grown_capacity(old(self).spec_capacity()),
            r is Err ==> final(self).spec_capacity() == old(self).spec_capacity(),
            !array_fits::<T>(grown_capacity(old(self).spec_capacity())) ==> r is Err,
    {
        let new_cap: usize = if self.cap == 0 {
            1
        } else {
            match self.cap.checked_mul(2) {
                Some(c) => c,
                None => {
                    return Err(AllocError);
                },
            }
        };
        if Layout::array::<T>(self.cap).is_err() || Layout::array::<T>(new_cap).is_err() {
            return Err(AllocError);
        }
        if self.items.try_reserve(new_cap - self.items.len()).is_err() {
            return Err(AllocError);
        }
        self.cap = new_cap;
        Ok(())
    }

    pub fn capacity(&self) -> (r: usize)
        ensures
            r == self.spec_capacity(),
    {
        self.cap
    }

    /// The number of written slots.
    pub fn written_len(&self) -> (r: usize)
        ensures
            r == self.written().len(),
    {
        self.items.len()
    }

    /// Writes `value` into the first unwritten slot.
    pub fn write_next(&mut self, value: T)
        requires
            old(self).wf(),
            old(self).written().len() < old(self).spec_capacity(),
        ensures
            final(self).wf(),
            final(self).spec_capacity() == old(self).spec_capacity(),
            final(self).written() == old(self).written().push(value),
    {
        self.items.push(value);
    }

    /// Reads the last written slot back out; that slot is unwritten afterwards.
    pub fn take_last(&mut self) -> (r: T)
        requires
            old(self).wf(),
            old(self).written().len() > 0,
        ensures
            final(self).wf(),
            final(self).spec_capacity() == old(self).spec_capacity(),
            final(self).written() == old(self).written().drop_last(),
            r == old(self).written().last(),
    {
        self.items.pop().unwrap()
    }

    /// Puts `value` into the written slot `i` and hands back what was there.
    pub fn exchange(&mut self, i: usize, value: T) -> (r: T)
        requires
            old(self).wf(),
            i < old(self).written().len(),
        ensures
            final(self).wf(),
            final(self).spec_capacity() == old(self).spec_capacity(),
            final(self).written() == old(self).written().update(i as int, value),
            r == old(self).written()[i as int],
    {
        let mut v = value;
        self.items.set_and_swap(i, &mut v);
        v
    }

    /// The value in the written slot `i`.
    pub fn get(&self, i: usize) -> (r: &T)
        requires
            i < self.written().len(),
        ensures
            *r == self.written()[i as int],
    {
        &self.items[i]
    }

    /// The written slots as a slice.
    pub fn as_slice(&self) -> (r: &[T])
        ensures
            r@ == self.written(),
    {
        self.items.as_slice()
    }

    /// The written slots as a mutable slice.
    pub fn as_mut_slice(&mut self) -> (r: &mut [T])
        ensures
            r@ == old(self).written(),
            final(self).written() == final(r)@,
            final(self).spec_capacity() == old(self).spec_capacity(),
    {
        self.items.as_mut_slice()
    }

    /// A walk over the written slots, first to last.
    pub fn iter(&self) -> (r: RawVecIter<'_, T>)
        ensures
            r.position() == 0,
            r.source() == self.written(),
    {
        RawVecIter { raw_vec: self, index: 0 }
    }
}

pub struct RawVecIter<'a, T> {
    raw_vec: &'a RawVec<T>,
    index: usize,
}

impl<'a, T> RawVecIter<'a, T> {
    /// How many values have been handed out.
    pub closed spec fn position(&self) -> nat {
        self.index as nat
    }

    /// The values walked over.
    pub closed spec fn source(&self) -> Seq<T> {
        self.raw_vec.written()
    }

    /// The next value, or `None` once all have been handed out.
    pub fn next(&mut self) -> (r: Option<&'a T>)
        ensures
            final(self).source() == old(self).source(),
            old(self).position() < old(self).source().len() ==> r == Some(
                &old(self).source()[old(self).position() as int],
            ) && final(self).position() == old(self).position() + 1,
            old(self).position() >= old(self).source().len() ==> r is None && final(self).position()
                == old(self).position(),
    {
        let v: &'a RawVec<T> = self.raw_vec;
        if self.index < v.written_len() {
            let item = v.get(self.index);
            self.index = self.index + 1;
            Some(item)
        } else {
            None
        }
    }
}

} // verus!
