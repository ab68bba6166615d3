//! The exclusive owner: one value in a heap allocation of its own.

use crate::alloc_trait::AllocError;
use vstd::prelude::*;

verus! {

pub struct ZenBox<T> {
    inner: std::boxed::Box<T>,
}

/// The exclusive owner under its short name.
pub type Box<T> = ZenBox<T>;

impl<T> View for ZenBox<T> {
    type V = T;

    closed spec fn view(&self) -> T {
        *self.inner
    }
}

impl<T> ZenBox<T> {
    /// Moves `value` into a new allocation sized for `T`.
    pub fn new(value: T) -> (r: Result<Self, AllocError>)
        ensures
            r matches Ok(b) && b@ == value,
    {
        Ok(ZenBox { inner: std::boxed::Box::new(value) })
    }

    pub fn as_ref(&self) -> (r: &T)
        ensures
            *r == self@,
    {
        &*self.inner
    }

    pub fn as_mut(&mut self) -> (r: &mut T)
        ensures
            *r == old(self)@,
            final(self)@ == *final(r),
    {
        &mut *self.inner
    }
}

impl<T> core::ops::Deref for ZenBox<T> {
    type Target = T;

    fn deref(&self) -> &T {
        self.as_ref()
    }
}

impl<T> core::ops::DerefMut for ZenBox<T> {
    fn deref_mut(&mut self) -> &mut T {
        self.as_mut()
    }
}

} // verus!
