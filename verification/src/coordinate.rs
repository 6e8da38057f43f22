//! Grid coordinates of chunks and the distance between them.

use vstd::prelude::*;

verus! {

/// The position of one chunk on the grid.
#[derive(Clone, Copy, Debug, PartialEq, Eq, Hash, Structural)]
pub struct ChunkCoordinate {
    pub x: i32,
    pub z: i32,
}

/// The absolute value of an integer.
pub open spec fn abs(v: int) -> int {
    if v < 0 {
        -v
    } else {
        v
    }
}

/// The Chebyshev distance between two grid positions: the larger of the
/// distances along the two axes.
pub open spec fn chebyshev(a: ChunkCoordinate, b: ChunkCoordinate) -> int {
    let dx = abs(a.x - b.x);
    let dz = abs(a.z - b.z);
    if dx >= dz {
        dx
    } else {
        dz
    }
}

impl ChunkCoordinate {
    /// The coordinate with the given indices.
    pub fn new(x: i32, z: i32) -> (c: ChunkCoordinate)
        ensures
            c.x == x,
            c.z == z,
    {
        ChunkCoordinate { x, z }
    }

    /// The Chebyshev distance to `other`, which always fits in 64 bits.
    pub fn distance(&self, other: &ChunkCoordinate) -> (d: i64)
        ensures
            d == chebyshev(*self, *other),
    {
        let dx: i64 = self.x as i64 - other.x as i64;
        let dz: i64 = self.z as i64 - other.z as i64;
        let ax: i64 = if dx < 0 { -dx } else { dx };
        let az: i64 = if dz < 0 { -dz } else { dz };
        if ax >= az {
            ax
        } else {
            az
        }
    }
}

} // verus!
