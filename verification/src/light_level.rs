//! Light levels.

use vstd::prelude::*;

verus! {

/// A light level in the range 0 to 15.
#[derive(Clone, Copy, PartialEq, Eq, Structural, Hash, Debug)]
pub struct LightLevel {
    value: u8,
}

impl LightLevel {
    /// The held level.
    pub closed spec fn view(self) -> u8 {
        self.value
    }

    /// Wraps a level below 16, and rejects anything higher.
    pub fn new(n: u8) -> (r: Option<Self>)
        ensures
            n < 16 <==> r is Some,
            r matches Some(l) ==> l@ == n && l@ < 16,
    {
        if n < 16 {
            Some(LightLevel { value: n })
        } else {
            None
        }
    }

    /// Returns the level as a primitive.
    pub fn get(self) -> (r: u8)
        ensures
            r == self@,
    {
        self.value
    }
}

} // verus!
