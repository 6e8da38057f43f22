//! From positions in the continuous world to cells of the chunk grid.
//!
//! Positions and the chunk edge length are whole numbers of one world unit.
//! A host that keeps fractions picks a unit fine enough for its chunk size.

use vstd::arithmetic::div_mod::lemma_fundamental_div_mod;
use vstd::arithmetic::div_mod::lemma_fundamental_div_mod_converse;
use vstd::prelude::*;

use crate::coordinate::ChunkCoordinate;

verus! {

/// A point of the continuous world.
#[derive(Clone, Copy, Debug, PartialEq, Eq, Structural)]
pub struct WorldPosition {
    pub x: i64,
    pub y: i64,
    pub z: i64,
}

/// The index of the cell that holds `v` along one axis: `v` divided by the
/// cell size, rounded towards negative infinity.
pub open spec fn cell_index(v: int, size: int) -> int
    recommends
        size > 0,
{
    v / size
}

/// Whether `v` lies in the half-open interval covered by cell `cell`.
pub open spec fn in_cell(v: int, cell: int, size: int) -> bool {
    cell * size <= v < (cell + 1) * size
}

/// The nearest index that a chunk coordinate can hold.
pub open spec fn clamp_to_grid(index: int) -> int {
    if index < i32::MIN {
        i32::MIN as int
    } else if index > i32::MAX {
        i32::MAX as int
    } else {
        index
    }
}

/// Whether a cell index is one that a chunk coordinate can hold.
pub open spec fn on_grid(index: int) -> bool {
    i32::MIN <= index <= i32::MAX
}

/// The chunk that holds `position`. The height `y` plays no part. A position
/// beyond the last chunk of the grid along an axis maps to that last chunk.
pub open spec fn chunk_of(position: WorldPosition, size: int) -> ChunkCoordinate
    recommends
        size > 0,
{
    ChunkCoordinate {
        x: clamp_to_grid(cell_index(position.x as int, size)) as i32,
        z: clamp_to_grid(cell_index(position.z as int, size)) as i32,
    }
}

/// The world position of the corner of a chunk from which it extends.
pub open spec fn origin_of(coordinate: ChunkCoordinate, size: int) -> WorldPosition {
    WorldPosition { x: (coordinate.x * size) as i64, y: 0, z: (coordinate.z * size) as i64 }
}

/// A value lies in the cell that its index names: the index is the floor
/// of the quotient, also for a negative value.
pub proof fn law_value_lies_in_its_cell(v: int, size: int)
    requires
        size > 0,
    ensures
        in_cell(v, cell_index(v, size), size),
{
    lemma_fundamental_div_mod(v, size);
    let q = v / size;
    assert(size * q == q * size) by (nonlinear_arith);
    assert((q + 1) * size == q * size + size) by (nonlinear_arith);
}

/// A value lies in one cell only.
pub proof fn lemma_cell_index_unique(v: int, cell: int, size: int)
    requires
        size > 0,
        in_cell(v, cell, size),
    ensures
        cell_index(v, size) == cell,
{
    assert((cell + 1) * size == cell * size + size) by (nonlinear_arith);
    lemma_fundamental_div_mod_converse(v, size, cell, v - cell * size);
}

/// Moving a value by any amount that keeps it inside its cell leaves the
/// cell index as it was.
pub proof fn lemma_move_within_cell(v: int, delta: int, size: int)
    requires
        size > 0,
        in_cell(v + delta, cell_index(v, size), size),
    ensures
        cell_index(v + delta, size) == cell_index(v, size),
{
    lemma_cell_index_unique(v + delta, cell_index(v, size), size);
}

/// Moving a value across the upper boundary of its cell into the next cell
/// raises the cell index by one; across the lower boundary into the cell
/// before, it lowers the index by one.
pub proof fn lemma_move_across_boundary(v: int, delta: int, size: int)
    requires
        size > 0,
    ensures
        in_cell(v + delta, cell_index(v, size) + 1, size) ==> cell_index(v + delta, size)
            == cell_index(v, size) + 1,
        in_cell(v + delta, cell_index(v, size) - 1, size) ==> cell_index(v + delta, size)
            == cell_index(v, size) - 1,
{
    if in_cell(v + delta, cell_index(v, size) + 1, size) {
        lemma_cell_index_unique(v + delta, cell_index(v, size) + 1, size);
    }
    if in_cell(v + delta, cell_index(v, size) - 1, size) {
        lemma_cell_index_unique(v + delta, cell_index(v, size) - 1, size);
    }
}

/// A chunk covers the square that starts at its origin and is one chunk size
/// wide. A position whose cells are on the grid lies in the square of its
/// chunk.
pub proof fn law_position_lies_in_its_chunk(position: WorldPosition, size: int)
    requires
        0 < size <= i32::MAX,
        on_grid(cell_index(position.x as int, size)),
        on_grid(cell_index(position.z as int, size)),
    ensures
        origin_of(chunk_of(position, size), size).x <= position.x < origin_of(
            chunk_of(position, size),
            size,
        ).x + size,
        origin_of(chunk_of(position, size), size).z <= position.z < origin_of(
            chunk_of(position, size),
            size,
        ).z + size,
{
    let chunk = chunk_of(position, size);
    law_value_lies_in_its_cell(position.x as int, size);
    law_value_lies_in_its_cell(position.z as int, size);
    lemma_product_fits(chunk.x as int, size);
    lemma_product_fits(chunk.z as int, size);
    assert((chunk.x + 1) * size == chunk.x * size + size) by (nonlinear_arith);
    assert((chunk.z + 1) * size == chunk.z * size + size) by (nonlinear_arith);
}

/// A position that moves without leaving its cell along either axis stays
/// in the same chunk, whatever happens to its height.
pub proof fn law_same_chunk_within_cell(from: WorldPosition, to: WorldPosition, size: int)
    requires
        size > 0,
        in_cell(to.x as int, cell_index(from.x as int, size), size),
        in_cell(to.z as int, cell_index(from.z as int, size), size),
    ensures
        chunk_of(to, size) == chunk_of(from, size),
{
    lemma_move_within_cell(from.x as int, to.x - from.x, size);
    lemma_move_within_cell(from.z as int, to.z - from.z, size);
}

/// A position that crosses one chunk boundary along `x`, into the cell next
/// to its own, changes its chunk by exactly one along `x` and not at all
/// along `z`. `step` is `1` for the boundary above and `-1` for the one
/// below. Both cells must be on the grid.
pub proof fn law_crossing_x_boundary(
    from: WorldPosition,
    to: WorldPosition,
    size: int,
    step: int,
)
    requires
        size > 0,
        step == 1 || step == -1,
        on_grid(cell_index(from.x as int, size)),
        on_grid(cell_index(from.x as int, size) + step),
        in_cell(to.x as int, cell_index(from.x as int, size) + step, size),
        in_cell(to.z as int, cell_index(from.z as int, size), size),
    ensures
        chunk_of(to, size).x == chunk_of(from, size).x + step,
        chunk_of(to, size).z == chunk_of(from, size).z,
{
    lemma_move_across_boundary(from.x as int, to.x - from.x, size);
    lemma_move_within_cell(from.z as int, to.z - from.z, size);
}

/// A position that crosses one chunk boundary along `z`, into the cell next
/// to its own, changes its chunk by exactly one along `z` and not at all
/// along `x`. `step` is `1` for the boundary above and `-1` for the one
/// below. Both cells must be on the grid.
pub proof fn law_crossing_z_boundary(
    from: WorldPosition,
    to: WorldPosition,
    size: int,
    step: int,
)
    requires
        size > 0,
        step == 1 || step == -1,
        on_grid(cell_index(from.z as int, size)),
        on_grid(cell_index(from.z as int, size) + step),
        in_cell(to.z as int, cell_index(from.z as int, size) + step, size),
        in_cell(to.x as int, cell_index(from.x as int, size), size),
    ensures
        chunk_of(to, size).z == chunk_of(from, size).z + step,
        chunk_of(to, size).x == chunk_of(from, size).x,
{
    lemma_move_across_boundary(from.z as int, to.z - from.z, size);
    lemma_move_within_cell(from.x as int, to.x - from.x, size);
}

/// The cell index of `v` along one axis.
pub fn cell_index_of(v: i64, chunk_size: i32) -> (index: i64)
    requires
        chunk_size > 0,
    ensures
        index == cell_index(v as int, chunk_size as int),
{
    let size: i64 = chunk_size as i64;
    let quotient: i64 = v / size;
    let remainder: i64 = v % size;
    if remainder < 0 {
        proof {
            // Rust rounds the quotient of a negative value towards zero.
            let m: int = -(v as int);
            let s: int = size as int;
            lemma_fundamental_div_mod(m, s);
            assert((quotient - 1) * s == quotient * s - s) by (nonlinear_arith);
            assert(quotient * s == -((m / s) * s)) by (nonlinear_arith)
                requires
                    quotient == -(m / s),
            ;
            lemma_fundamental_div_mod_converse(v as int, s, quotient - 1, s + remainder);
        }
        quotient - 1
    } else {
        proof {
            let s: int = size as int;
            if v < 0 {
                let m: int = -(v as int);
                lemma_fundamental_div_mod(m, s);
                assert(quotient * s == -((m / s) * s)) by (nonlinear_arith)
                    requires
                        quotient == -(m / s),
                ;
                lemma_fundamental_div_mod_converse(v as int, s, quotient as int, 0);
            }
        }
        quotient
    }
}

/// The chunk that holds `position`, by flooring division: a position just
/// below zero lies in chunk `-1`, not in chunk `0`.
pub fn world_to_chunk_coordinate(position: WorldPosition, chunk_size: i32) -> (c: ChunkCoordinate)
    requires
        chunk_size > 0,
    ensures
        c == chunk_of(position, chunk_size as int),
{
    ChunkCoordinate {
        x: clamp_index(cell_index_of(position.x, chunk_size)),
        z: clamp_index(cell_index_of(position.z, chunk_size)),
    }
}

/// The world position at which a chunk is placed: its coordinate times the
/// chunk size along each axis, at height zero.
pub fn chunk_origin(coordinate: ChunkCoordinate, chunk_size: i32) -> (p: WorldPosition)
    ensures
        p == origin_of(coordinate, chunk_size as int),
        p.x == coordinate.x * chunk_size,
        p.y == 0,
        p.z == coordinate.z * chunk_size,
{
    proof {
        lemma_product_fits(coordinate.x as int, chunk_size as int);
        lemma_product_fits(coordinate.z as int, chunk_size as int);
    }
    WorldPosition {
        x: coordinate.x as i64 * chunk_size as i64,
        y: 0,
        z: coordinate.z as i64 * chunk_size as i64,
    }
}

fn clamp_index(index: i64) -> (c: i32)
    ensures
        c == clamp_to_grid(index as int),
{
    if index < i32::MIN as i64 {
        i32::MIN
    } else if index > i32::MAX as i64 {
        i32::MAX
    } else {
        index as i32
    }
}

/// The product of two 32-bit values fits in 64 bits.
proof fn lemma_product_fits(a: int, b: int)
    requires
        i32::MIN <= a <= i32::MAX,
        i32::MIN <= b <= i32::MAX,
    ensures
        i64::MIN <= a * b <= i64::MAX,
{
    assert(-0x4000_0000_0000_0000 <= a * b <= 0x4000_0000_0000_0000) by (nonlinear_arith)
        requires
            -0x8000_0000 <= a <= 0x8000_0000,
            -0x8000_0000 <= b <= 0x8000_0000,
    ;
}

} // verus!
