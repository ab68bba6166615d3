//! A dynamic array: a length over a raw buffer whose leading slots hold the
//! elements.

use crate::alloc_trait::AllocError;
use crate::raw_vec::{array_fits, grown_capacity, RawVec};
use vstd::prelude::*;
use vstd::std_specs::cmp::PartialEqSpec;

verus! {

#[derive(Clone, Copy, Debug, PartialEq, Eq, Structural)]
pub enum VecError {
    IndexOutOfBounds,
    AllocationError(AllocError),
}

/// The sequence left by `pop`, and what `pop` returns.
pub open spec fn popped<T>(s: Seq<T>) -> (Seq<T>, Option<T>) {
    if s.len() == 0 {
        (s, None)
    } else {
        (s.drop_last(), Some(s.last()))
    }
}

/// The capacity after a successful `push` or `insert` on `len` elements
/// held in `cap` slots.
pub open spec fn capacity_after_add(len: nat, cap: nat) -> nat {
    if len == cap {
        grown_capacity(cap)
    } else {
        cap
    }
}

pub struct ZenVec<T> {
    buf: RawVec<T>,
    len: usize,
}

impl<T> View for ZenVec<T> {
    type V = Seq<T>;

    closed spec fn view(&self) -> Seq<T> {
        self.buf.written()
    }
}

impl<T> ZenVec<T> {
    pub closed spec fn wf(&self) -> bool {
        &&& self.buf.wf()
        &&& self.len == self.buf.written().len()
    }

    pub closed spec fn spec_capacity(&self) -> nat {
        self.buf.spec_capacity()
    }

    /// An empty array; nothing is allocated.
    pub fn new() -> (r: Self)
        ensures
            r.wf(),
            r@ == Seq::<T>::empty(),
            r.spec_capacity() == 0,
    {
        ZenVec { buf: RawVec::new(), len: 0 }
    }

    /// An empty array with room for `capacity` elements.
    pub fn with_capacity(capacity: usize) -> (r: Result<Self, AllocError>)
        ensures
            r matches Ok(v) ==> v.wf() && v@ == Seq::<T>::empty() && v.spec_capacity()
                == capacity,
            capacity == 0 ==> r is Ok,
            !array_fits::<T>(capacity as nat) ==> r is Err,
    {
        match RawVec::with_capacity(capacity) {
            Ok(buf) => Ok(ZenVec { buf, len: 0 }),
            Err(e) => Err(e),
        }
    }

    pub fn len(&self) -> (r: usize)
        requires
            self.wf(),
        ensures
            r == self@.len(),
    {
        self.len
    }

    pub fn is_empty(&self) -> (r: bool)
        requires
            self.wf(),
        ensures
            r == (self@.len() == 0),
    {
        self.len == 0
    }

    pub fn capacity(&self) -> (r: usize)
        requires
            self.wf(),
        ensures
            r == self.spec_capacity(),
            self@.len() <= r,
    {
        self.buf.capacity()
    }

    /// Makes room for one more element, growing the buffer when it is full.
    fn reserve_one(&mut self) -> (r: Result<(), VecError>)
        requires
            old(self).wf(),
        ensures
            final(self).wf(),
            final(self)@ == old(self)@,
            r is Ok ==> final(self)@.len() < final(self).spec_capacity()
                && final(self).spec_capacity() == capacity_after_add(
                old(self)@.len(),
                old(self).spec_capacity(),
            ),
            r is Err ==> r == Err::<(), VecError>(VecError::AllocationError(AllocError))
                && old(self)@.len() == old(self).spec_capacity() && final(self).spec_capacity()
                == old(self).spec_capacity(),
            old(self)@.len() < old(self).spec_capacity() ==> r is Ok,
            old(self)@.len() == old(self).spec_capacity() && !array_fits::<T>(
                grown_capacity(old(self).spec_capacity()),
            ) ==> r is Err,
    {
        if self.len == self.buf.capacity() {
            match self.buf.grow() {
                Ok(()) => {},
                Err(e) => {
                    return Err(VecError::AllocationError(e));
                },
            }
        }
        Ok(())
    }

    /// Appends `elem`. Fails only when the buffer is full and cannot grow; the
    /// array is then unchanged.
    pub fn push(&mut self, elem: T) -> (r: Result<(), VecError>)
        requires
            old(self).wf(),
        ensures
            final(self).wf(),
            r is Ok ==> final(self)@ == old(self)@.push(elem) && final(self).spec_capacity()
                == capacity_after_add(old(self)@.len(), old(self).spec_capacity()),
            r is Err ==> r == Err::<(), VecError>(VecError::AllocationError(AllocError))
                && final(self)@ == old(self)@ && old(self)@.len() == old(self).spec_capacity()
                && final(self).spec_capacity() == old(self).spec_capacity(),
            old(self)@.len() < old(self).spec_capacity() ==> r is Ok,
            old(self)@.len() == old(self).spec_capacity() && !array_fits::<T>(
                grown_capacity(old(self).spec_capacity()),
            ) ==> r is Err,
    {
        match self.reserve_one() {
            Ok(()) => {},
            Err(e) => {
                return Err(e);
            },
        }
        self.buf.write_next(elem);
        self.len = self.len + 1;
        Ok(())
    }

    /// Removes and returns the last element, or `None` when empty.
    pub fn pop(&mut self) -> (r: Option<T>)
        requires
            old(self).wf(),
        ensures
            final(self).wf(),
            (final(self)@, r) == popped(old(self)@),
            final(self).spec_capacity() == old(self).spec_capacity(),
    {
        if self.len == 0 {
            None
        } else {
            let v = self.buf.take_last();
            self.len = self.len - 1;
            Some(v)
        }
    }

    /// Inserts `elem` at `index`, moving the elements from `index` on one
    /// place towards the end.
    pub fn insert(&mut self, index: usize, elem: T) -> (r: Result<(), VecError>)
        requires
            old(self).wf(),
        ensures
            final(self).wf(),
            r == Err::<(), VecError>(VecError::IndexOutOfBounds) <==> index > old(self)@.len(),
            r is Ok ==> final(self)@ == old(self)@.insert(index as int, elem),
            r is Err ==> final(self)@ == old(self)@,
            r is Err && index <= old(self)@.len() ==> r == Err::<(), VecError>(
                VecError::AllocationError(AllocError),
            ) && old(self)@.len() == old(self).spec_capacity(),
            index <= old(self)@.len() < old(self).spec_capacity() ==> r is Ok,
    {
        if index > self.len {
            return Err(VecError::IndexOutOfBounds);
        }
        match self.reserve_one() {
            Ok(()) => {},
            Err(e) => {
                return Err(e);
            },
        }
        let ghost before = self@;
        let ghost target = before.insert(index as int, elem);
        let ghost cap = self.spec_capacity();
        let mut carry = elem;
        let mut j = index;
        while j < self.len
            invariant
                index <= j <= self.len,
                self.len == before.len(),
                self.buf.wf(),
                self.buf.spec_capacity() == cap,
                before.len() < cap,
                target == before.insert(index as int, elem),
                self.buf.written().len() == before.len(),
                forall|k: int| 0 <= k < j ==> self.buf.written()[k] == target[k],
                forall|k: int| j <= k < before.len() ==> self.buf.written()[k] == before[k],
                carry == target[j as int],
            decreases self.len - j,
        {
            carry = self.buf.exchange(j, carry);
            j = j + 1;
        }
        self.buf.write_next(carry);
        self.len = self.len + 1;
        assert(self@ =~= target);
        Ok(())
    }

    /// Removes and returns the element at `index`, moving the ones after it
    /// one place towards the front.
    pub fn remove(&mut self, index: usize) -> (r: Result<T, VecError>)
        requires
            old(self).wf(),
        ensures
            final(self).wf(),
            r is Err <==> index >= old(self)@.len(),
            r is Err ==> r == Err::<T, VecError>(VecError::IndexOutOfBounds) && final(self)@ == old(
                self,
            )@,
            r matches Ok(v) ==> v == old(self)@[index as int] && final(self)@ == old(
                self,
            )@.remove(index as int),
            final(self).spec_capacity() == old(self).spec_capacity(),
    {
        if index >= self.len {
            return Err(VecError::IndexOutOfBounds);
        }
        let ghost before = self@;
        let mut carry = self.buf.take_last();
        let mut j = self.len - 1;
        while j > index
            invariant
                index <= j < before.len(),
                self.len == before.len(),
                self.buf.wf(),
                self.buf.spec_capacity() == old(self).spec_capacity(),
                self.buf.written().len() == before.len() - 1,
                forall|k: int| 0 <= k < j ==> self.buf.written()[k] == before[k],
                forall|k: int| j <= k < before.len() - 1 ==> self.buf.written()[k] == before[k + 1],
                carry == before[j as int],
            decreases j,
        {
            j = j - 1;
            carry = self.buf.exchange(j, carry);
        }
        self.len = self.len - 1;
        assert(self@ =~= before.remove(index as int));
        Ok(carry)
    }

    /// The element at `index`, if there is one.
    pub fn get(&self, index: usize) -> (r: Option<&T>)
        requires
            self.wf(),
        ensures
            r == (if index < self@.len() {
                Some(&self@[index as int])
            } else {
                None
            }),
    {
        if index < self.len {
            Some(self.buf.get(index))
        } else {
            None
        }
    }

    /// The elements as a slice.
    pub fn as_slice(&self) -> (r: &[T])
        ensures
            r@ == self@,
    {
        self.buf.as_slice()
    }

    /// The elements as a mutable slice; the length cannot change through it.
    pub fn as_mut_slice(&mut self) -> (r: &mut [T])
        requires
            old(self).wf(),
        ensures
            r@ == old(self)@,
            final(self)@ == final(r)@,
            final(self)@.len() == old(self)@.len() ==> final(self).wf(),
    {
        self.buf.as_mut_slice()
    }

    /// A walk over the elements, first to last, with write access to each.
    pub fn iter_mut(&mut self) -> (r: ZenVecIterMut<'_, T>)
        requires
            old(self).wf(),
        ensures
            r.remaining() == old(self)@,
            final(self)@.len() == old(self)@.len() ==> final(self).wf(),
    {
        ZenVecIterMut { rest: Some(self.as_mut_slice()) }
    }

    /// A walk over the elements, first to last.
    pub fn iter(&self) -> (r: ZenVecIter<'_, T>)
        requires
            self.wf(),
        ensures
            r.position() == 0,
            r.source() == self@,
    {
        ZenVecIter { zen_vec: self, index: 0 }
    }
}

/// `a` and `b` have the same length and pairwise equal elements, by `T`'s `==`.
pub open spec fn equal_by_elements<T: PartialEq>(a: Seq<T>, b: Seq<T>) -> bool {
    a.len() == b.len() && forall|i: int| 0 <= i < a.len() ==> (#[trigger] a[i]).eq_spec(&b[i])
}

/// Compares lengths, then the elements pairwise.
fn slices_equal<T: PartialEq>(a: &[T], b: &[T]) -> (r: bool)
    ensures
        T::obeys_eq_spec() ==> r == equal_by_elements(a@, b@),
{
    if a.len() != b.len() {
        return false;
    }
    let mut i: usize = 0;
    while i < a.len()
        invariant
            i <= a@.len(),
            a@.len() == b@.len(),
            T::obeys_eq_spec() ==> forall|j: int| 0 <= j < i ==> (#[trigger] a@[j]).eq_spec(&b@[j]),
        decreases a@.len() - i,
    {
        if !a[i].eq(&b[i]) {
            return false;
        }
        i = i + 1;
    }
    true
}

impl<T: PartialEq> PartialEq for ZenVec<T> {
    fn eq(&self, other: &ZenVec<T>) -> (r: bool) {
        slices_equal(self.as_slice(), other.as_slice())
    }
}

impl<T: PartialEq> vstd::std_specs::cmp::PartialEqSpecImpl for ZenVec<T> {
    open spec fn obeys_eq_spec() -> bool {
        <T as PartialEqSpec>::obeys_eq_spec()
    }

    open spec fn eq_spec(&self, other: &ZenVec<T>) -> bool {
        equal_by_elements(self@, other@)
    }
}

impl<T: PartialEq> PartialEq<[T]> for ZenVec<T> {
    fn eq(&self, other: &[T]) -> (r: bool) {
        slices_equal(self.as_slice(), other)
    }
}

impl<T: PartialEq> vstd::std_specs::cmp::PartialEqSpecImpl<[T]> for ZenVec<T> {
    open spec fn obeys_eq_spec() -> bool {
        <T as PartialEqSpec>::obeys_eq_spec()
    }

    open spec fn eq_spec(&self, other: &[T]) -> bool {
        equal_by_elements(self@, other@)
    }
}

impl<T: PartialEq, const N: usize> PartialEq<[T; N]> for ZenVec<T> {
    fn eq(&self, other: &[T; N]) -> (r: bool) {
        slices_equal(self.as_slice(), other.as_slice())
    }
}

impl<T: PartialEq, const N: usize> vstd::std_specs::cmp::PartialEqSpecImpl<[T; N]> for ZenVec<T> {
    open spec fn obeys_eq_spec() -> bool {
        <T as PartialEqSpec>::obeys_eq_spec()
    }

    open spec fn eq_spec(&self, other: &[T; N]) -> bool {
        equal_by_elements(self@, other@)
    }
}

impl<T> core::ops::Deref for ZenVec<T> {
    type Target = [T];

    fn deref(&self) -> &[T] {
        self.as_slice()
    }
}

impl<T> core::ops::DerefMut for ZenVec<T> {
    fn deref_mut(&mut self) -> &mut [T] {
        self.buf.as_mut_slice()
    }
}

pub struct ZenVecIter<'a, T> {
    zen_vec: &'a ZenVec<T>,
    index: usize,
}

impl<'a, T> ZenVecIter<'a, T> {
    /// How many elements have been handed out.
    pub closed spec fn position(&self) -> nat {
        self.index as nat
    }

    /// The elements walked over.
    pub closed spec fn source(&self) -> Seq<T> {
        self.zen_vec@
    }

    /// The next element, or `None` once all have been handed out.
    pub fn next(&mut self) -> (r: Option<&'a T>)
        ensures
            final(self).source() == old(self).source(),
            old(self).position() < old(self).source().len() ==> r == Some(
                &old(self).source()[old(self).position() as int],
            ) && final(self).position() == old(self).position() + 1,
            old(self).position() >= old(self).source().len() ==> r is None && final(self).position()
                == old(self).position(),
    {
        let v: &'a ZenVec<T> = self.zen_vec;
        let s = v.as_slice();
        if self.index < s.len() {
            let item = &s[self.index];
            self.index = self.index + 1;
            Some(item)
        } else {
            None
        }
    }
}

pub struct ZenVecIterMut<'a, T> {
    rest: Option<&'a mut [T]>,
}

impl<'a, T> ZenVecIterMut<'a, T> {
    /// The elements not handed out yet.
    pub closed spec fn remaining(&self) -> Seq<T> {
        match self.rest {
            Some(s) => s@,
            None => Seq::empty(),
        }
    }

    /// Write access to the next element, or `None` once all have been
    /// handed out.
    pub fn next(&mut self) -> (r: Option<&'a mut T>)
        ensures
            old(self).remaining().len() > 0 ==> (r matches Some(x) && *x == old(
                self,
            ).remaining()[0]) && final(self).remaining() == old(self).remaining().drop_first(),
            old(self).remaining().len() == 0 ==> r is None && final(self).remaining().len() == 0,
    {
        match self.rest.take() {
            None => None,
            Some(slice) => {
                if slice.len() == 0 {
                    None
                } else {
                    let (head, tail) = slice.split_at_mut(1);
                    self.rest = Some(tail);
                    head.first_mut()
                }
            },
        }
    }
}

} // verus!
