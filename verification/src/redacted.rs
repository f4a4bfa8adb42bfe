//! Values withheld from display.

use vstd::prelude::*;

verus! {

/// A wrapper that keeps its contents out of any textual output: it offers
/// no way to format the held value, only deliberate access to it.
pub struct Redacted<T> {
    inner: T,
}

impl<T> Redacted<T> {
    /// The held value.
    pub closed spec fn view(&self) -> T {
        self.inner
    }

    /// Wraps a value.
    pub fn new(inner: T) -> (r: Self)
        ensures
            r@ == inner,
    {
        Redacted { inner }
    }

    /// Returns a reference to the inner value. Keep the result away from
    /// logs and displays.
    pub fn as_ref(&self) -> (r: &T)
        ensures
            r == self@,
    {
        &self.inner
    }

    /// Returns a mutable reference to the inner value.
    pub fn as_mut(&mut self) -> (r: &mut T)
        ensures
            *r == old(self)@,
            final(self)@ == *final(r),
    {
        &mut self.inner
    }

    /// Returns the inner value.
    pub fn into_inner(self) -> (r: T)
        ensures
            r == self@,
    {
        self.inner
    }
}

} // verus!
