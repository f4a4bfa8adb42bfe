//! Chunk positions.

use vstd::prelude::*;

verus! {

/// The absolute difference of two values.
pub open spec fn abs_diff_spec(a: int, b: int) -> int {
    if a >= b {
        a - b
    } else {
        b - a
    }
}

/// The position of a chunk in a dimension.
#[derive(Clone, Copy, PartialEq, Eq, Structural, Hash, Debug)]
pub struct ChunkPos {
    /// X
    pub x: i32,
    /// Z
    pub z: i32,
}

impl ChunkPos {
    /// A `ChunkPos` with all lanes set to 0.
    pub fn zero() -> (r: Self)
        ensures
            r.x == 0 && r.z == 0,
    {
        ChunkPos { x: 0, z: 0 }
    }

    /// Gets the shortest distance along an axis.
    pub fn cardinal_dist(self, other: Self) -> (r: u32)
        ensures
            r == if abs_diff_spec(self.x as int, other.x as int) < abs_diff_spec(
                self.z as int,
                other.z as int,
            ) {
                abs_diff_spec(self.x as int, other.x as int)
            } else {
                abs_diff_spec(self.z as int, other.z as int)
            },
    {
        let dx: i64 = self.x as i64 - other.x as i64;
        let x: u32 = if dx >= 0 {
            dx as u32
        } else {
            (-dx) as u32
        };
        let dz: i64 = self.z as i64 - other.z as i64;
        let z: u32 = if dz >= 0 {
            dz as u32
        } else {
            (-dz) as u32
        };
        if x < z {
            x
        } else {
            z
        }
    }
}

} // verus!
