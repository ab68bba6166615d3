//! The shared owner that may cross threads: the count of owners is kept
//! with atomic operations, so exactly one of the owners dropped last
//! releases the value.

use crate::alloc_trait::AllocError;
use std::sync::Arc;
use vstd::prelude::*;

verus! {

pub struct ZenArc<T> {
    inner: Arc<T>,
}

impl<T> View for ZenArc<T> {
    type V = T;

    closed spec fn view(&self) -> T {
        *self.inner
    }
}

/// Relies on `Arc::strong_count`: the number of `Arc` handles to the
/// allocation, of which `a` is one.
#[verifier::external_body]
fn arc_strong_count<T>(a: &Arc<T>) -> (n: usize)
    ensures
        n >= 1,
{
    Arc::strong_count(a)
}

impl<T> ZenArc<T> {
    /// Moves `value` into a new allocation with a count of one.
    pub fn new(value: T) -> (r: Result<Self, AllocError>)
        ensures
            r matches Ok(p) && p@ == value,
    {
        Ok(ZenArc { inner: Arc::new(value) })
    }

    /// The number of owners sharing the value of `this`, as read at the call.
    pub fn strong_count(this: &Self) -> (n: usize)
        ensures
            n >= 1,
    {
        arc_strong_count(&this.inner)
    }

    /// Another owner of the same value; the count grows by one.
    pub fn clone(this: &Self) -> (r: Self)
        ensures
            r@ == this@,
    {
        ZenArc { inner: Arc::clone(&this.inner) }
    }

    pub fn as_ref(&self) -> (r: &T)
        ensures
            *r == self@,
    {
        &*self.inner
    }
}

impl<T> core::ops::Deref for ZenArc<T> {
    type Target = T;

    fn deref(&self) -> &T {
        self.as_ref()
    }
}

} // verus!
