//! The clone-on-write owner: clones share one value until one of them asks
//! to change it, and that one then gets a copy of its own.

use crate::alloc_trait::AllocError;
use std::rc::Rc;
use vstd::prelude::*;

verus! {

pub struct ZenCow<T: Clone> {
    inner: Rc<T>,
}

impl<T: Clone> View for ZenCow<T> {
    type V = T;

    closed spec fn view(&self) -> T {
        *self.inner
    }
}

impl<T: Clone> Clone for ZenCow<T> {
    /// Another owner of the same value; nothing is copied.
    fn clone(&self) -> (r: Self)
        ensures
            r@ == self@,
    {
        ZenCow { inner: Rc::clone(&self.inner) }
    }
}

/// Relies on `Rc::make_mut`: a mutable reference to the value of `r`. Where
/// other handles share the allocation, the value is first cloned into a new
/// allocation that `r` alone holds, and the other handles keep the old one.
#[verifier::external_body]
fn rc_make_mut<T: Clone>(r: &mut Rc<T>) -> (v: &mut T)
    ensures
        cloned::<T>(**old(r), *v),
        **final(r) == *final(v),
{
    Rc::make_mut(r)
}

impl<T: Clone> ZenCow<T> {
    /// Moves `value` into a new allocation that this owner alone holds.
    pub fn new(value: T) -> (r: Result<Self, AllocError>)
        ensures
            r matches Ok(c) && c@ == value,
    {
        Ok(ZenCow { inner: Rc::new(value) })
    }

    /// Read access to the current value.
    pub fn as_ref(&self) -> (r: &T)
        ensures
            *r == self@,
    {
        &*self.inner
    }

    /// Write access to this owner's value. When the value is shared, this
    /// owner is first given a copy of its own; the other owners keep theirs.
    pub fn get_mut(&mut self) -> (r: &mut T)
        ensures
            cloned::<T>(old(self)@, *r),
            final(self)@ == *final(r),
    {
        rc_make_mut(&mut self.inner)
    }
}

} // verus!
