//! What decorates a chunk. All of it is decided by the chunk's coordinate,
//! so a chunk that is destroyed and created again looks as it did before.

use vstd::prelude::*;

use crate::coordinate::abs;
use crate::coordinate::ChunkCoordinate;

verus! {

/// How many variants of the decoration there are.
pub const VARIANT_COUNT: u8 = 4;

/// The variant of the decoration of a chunk: the sum of the absolute values
/// of its two indices, modulo the number of variants.
pub open spec fn variant_of(coordinate: ChunkCoordinate) -> int {
    (abs(coordinate.x as int) + abs(coordinate.z as int)) % (VARIANT_COUNT as int)
}

/// The variant of the decoration of `coordinate`.
pub fn decoration_variant(coordinate: ChunkCoordinate) -> (variant: u8)
    ensures
        variant == variant_of(coordinate),
        variant < VARIANT_COUNT,
{
    let x: i64 = coordinate.x as i64;
    let z: i64 = coordinate.z as i64;
    let ax: i64 = if x < 0 { -x } else { x };
    let az: i64 = if z < 0 { -z } else { z };
    ((ax + az) % VARIANT_COUNT as i64) as u8
}

/// Decides which chunks get a decoration.
pub trait DecorationPolicy {
    /// Whether the chunk at `coordinate` is decorated.
    spec fn decorates(&self, coordinate: ChunkCoordinate) -> bool;

    /// Computes `decorates` for `coordinate`.
    fn should_decorate(&self, coordinate: ChunkCoordinate) -> (yes: bool)
        ensures
            yes == self.decorates(coordinate),
    ;
}

/// Decorates every chunk but the one at the origin of the grid.
#[derive(Clone, Copy, Debug)]
pub struct SkipOrigin;

impl DecorationPolicy for SkipOrigin {
    open spec fn decorates(&self, coordinate: ChunkCoordinate) -> bool {
        coordinate.x != 0 || coordinate.z != 0
    }

    fn should_decorate(&self, coordinate: ChunkCoordinate) -> (yes: bool) {
        coordinate.x != 0 || coordinate.z != 0
    }
}

/// Decorates every chunk.
#[derive(Clone, Copy, Debug)]
pub struct DecorateAll;

impl DecorationPolicy for DecorateAll {
    open spec fn decorates(&self, coordinate: ChunkCoordinate) -> bool {
        true
    }

    fn should_decorate(&self, coordinate: ChunkCoordinate) -> (yes: bool) {
        true
    }
}

} // verus!
