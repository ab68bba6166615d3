//! The shared owner for a single thread of execution: clones share one value
//! and a count of owners.

use crate::alloc_trait::AllocError;
use std::rc::Rc;
use vstd::prelude::*;

verus! {

pub struct ZenRc<T> {
    inner: Rc<T>,
}

impl<T> View for ZenRc<T> {
    type V = T;

    closed spec fn view(&self) -> T {
        *self.inner
    }
}

/// Relies on `Rc::strong_count`: the number of `Rc` handles to the
/// allocation, of which `r` is one.
#[verifier::external_body]
fn rc_strong_count<T>(r: &Rc<T>) -> (n: usize)
    ensures
        n >= 1,
{
    Rc::strong_count(r)
}

impl<T> ZenRc<T> {
    /// Moves `value` into a new allocation with a count of one.
    pub fn new(value: T) -> (r: Result<Self, AllocError>)
        ensures
            r matches Ok(p) && p@ == value,
    {
        Ok(ZenRc { inner: Rc::new(value) })
    }

    /// The number of owners sharing the value of `this`.
    pub fn strong_count(this: &Self) -> (n: usize)
        ensures
            n >= 1,
    {
        rc_strong_count(&this.inner)
    }

    /// Another owner of the same value; the count grows by one.
    pub fn clone(this: &Self) -> (r: Self)
        ensures
            r@ == this@,
    {
        ZenRc { inner: Rc::clone(&this.inner) }
    }

    pub fn as_ref(&self) -> (r: &T)
        ensures
            *r == self@,
    {
        &*self.inner
    }
}

impl<T> core::ops::Deref for ZenRc<T> {
    type Target = T;

    fn deref(&self) -> &T {
        self.as_ref()
    }
}

} // verus!
