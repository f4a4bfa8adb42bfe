//! Borrow-or-own boxes.

use vstd::prelude::*;

verus! {

/// A value either borrowed from a longer-lived source or owned in a box.
#[derive(Debug)]
pub enum BoxCow<'l, B> {
    /// Borrowed data.
    Borrowed(&'l B),
    /// Owned data.
    Owned(Box<B>),
}

impl<'l, B> BoxCow<'l, B> {
    /// A reference to the held value, whichever side holds it.
    pub fn get(&self) -> (r: &B)
        ensures
            match self {
                BoxCow::Borrowed(b) => r == *b,
                BoxCow::Owned(o) => *r == **o,
            },
    {
        match self {
            BoxCow::Borrowed(b) => b,
            BoxCow::Owned(o) => &**o,
        }
    }
}

impl<'l, B: Clone> BoxCow<'l, B> {
    /// Extracts the owned data, cloning borrowed data first.
    pub fn into_owned(self) -> (r: Box<B>)
        ensures
            self matches BoxCow::Owned(o) ==> r == o,
    {
        match self {
            BoxCow::Borrowed(b) => Box::new(b.clone()),
            BoxCow::Owned(o) => o,
        }
    }
}

impl<'l, B: Clone> BoxCow<'l, B> {
    /// A mutable reference to the owned form of the data, cloning borrowed
    /// data first.
    pub fn to_mut(&mut self) -> (r: &mut B)
        ensures
            *final(self) matches BoxCow::Owned(o) && *o == *final(r),
            *old(self) matches BoxCow::Owned(o0) ==> *r == *o0,
    {
        match self {
            BoxCow::Borrowed(b) => {
                let owned = Box::new(b.clone());
                *self = BoxCow::Owned(owned);
            },
            BoxCow::Owned(o) => {},
        }
        match self {
            BoxCow::Owned(o) => &mut **o,
            BoxCow::Borrowed(b) => {
                proof {
                    assert(false);
                }
                vstd::pervasive::unreached()
            },
        }
    }
}

} // verus!
