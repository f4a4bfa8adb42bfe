//! Integers constrained to multiples of 16.

use vstd::prelude::*;

verus! {

/// An integer type which can be held in a [`Multiple16`].
pub trait Multiple16ablePrimitive: Copy + Sized {
    /// The mathematical value.
    spec fn as_int(self) -> int;

    /// Whether the value is divisible by 16.
    fn divisible_by_16(self) -> (r: bool)
        ensures
            r == (self.as_int() % 16 == 0),
    ;
}

impl Multiple16ablePrimitive for u8 {
    open spec fn as_int(self) -> int {
        self as int
    }

    fn divisible_by_16(self) -> (r: bool) {
        self % 16 == 0
    }
}

impl Multiple16ablePrimitive for i8 {
    open spec fn as_int(self) -> int {
        self as int
    }

    fn divisible_by_16(self) -> (r: bool) {
        self % 16 == 0
    }
}

impl Multiple16ablePrimitive for u16 {
    open spec fn as_int(self) -> int {
        self as int
    }

    fn divisible_by_16(self) -> (r: bool) {
        self % 16 == 0
    }
}

impl Multiple16ablePrimitive for i16 {
    open spec fn as_int(self) -> int {
        self as int
    }

    fn divisible_by_16(self) -> (r: bool) {
        self % 16 == 0
    }
}

impl Multiple16ablePrimitive for u32 {
    open spec fn as_int(self) -> int {
        self as int
    }

    fn divisible_by_16(self) -> (r: bool) {
        self % 16 == 0
    }
}

impl Multiple16ablePrimitive for i32 {
    open spec fn as_int(self) -> int {
        self as int
    }

    fn divisible_by_16(self) -> (r: bool) {
        self % 16 == 0
    }
}

impl Multiple16ablePrimitive for u64 {
    open spec fn as_int(self) -> int {
        self as int
    }

    fn divisible_by_16(self) -> (r: bool) {
        self % 16 == 0
    }
}

impl Multiple16ablePrimitive for i64 {
    open spec fn as_int(self) -> int {
        self as int
    }

    fn divisible_by_16(self) -> (r: bool) {
        self % 16 == 0
    }
}

/// An integer which must be a multiple of 16.
#[derive(Clone, Copy, Hash, Debug)]
pub struct Multiple16<T: Multiple16ablePrimitive> {
    value: T,
}

impl<T: Multiple16ablePrimitive> Multiple16<T> {
    /// The held value.
    pub closed spec fn view(self) -> T {
        self.value
    }

    /// The held value is a multiple of 16.
    pub open spec fn wf(self) -> bool {
        self@.as_int() % 16 == 0
    }

    /// Wraps a multiple of 16, and rejects anything else.
    pub fn new(n: T) -> (r: Option<Self>)
        ensures
            (n.as_int() % 16 == 0) <==> r is Some,
            r matches Some(m) ==> m@ == n && m.wf(),
    {
        if n.divisible_by_16() {
            Some(Multiple16 { value: n })
        } else {
            None
        }
    }

    /// Returns the contained value as a primitive.
    pub fn get(self) -> (r: T)
        ensures
            r == self@,
    {
        self.value
    }
}

} // verus!
