//! The chunks that must exist around a reference chunk.

use vstd::arithmetic::div_mod::lemma_fundamental_div_mod;
use vstd::arithmetic::div_mod::lemma_fundamental_div_mod_converse;
use vstd::prelude::*;

use crate::coordinate::chebyshev;
use crate::coordinate::ChunkCoordinate;
use crate::grid::on_grid;

verus! {

/// Every chunk whose Chebyshev distance from `center` is at most `radius`.
/// For a negative radius there is none.
pub open spec fn required_set(center: ChunkCoordinate, radius: int) -> Set<ChunkCoordinate> {
    Set::new(|c: ChunkCoordinate| chebyshev(c, center) <= radius)
}

/// The lowest index of the window along one axis.
pub open spec fn window_low(center: int, radius: int) -> int {
    if center - radius < i32::MIN {
        i32::MIN as int
    } else {
        center - radius
    }
}

/// The highest index of the window along one axis.
pub open spec fn window_high(center: int, radius: int) -> int {
    if center + radius > i32::MAX {
        i32::MAX as int
    } else {
        center + radius
    }
}

/// How many indices the window holds along one axis.
pub open spec fn window_span(center: int, radius: int) -> nat {
    if radius < 0 {
        0
    } else {
        (window_high(center, radius) - window_low(center, radius) + 1) as nat
    }
}

/// Whether the whole square of side `2 * radius + 1` around `center` lies on
/// the grid, so that the edge of the grid cuts nothing off.
pub open spec fn window_fits(center: ChunkCoordinate, radius: int) -> bool {
    &&& radius >= 0
    &&& on_grid(center.x - radius)
    &&& on_grid(center.x + radius)
    &&& on_grid(center.z - radius)
    &&& on_grid(center.z + radius)
}

/// The required chunks in the order in which they are listed: by rising `x`,
/// and for equal `x` by rising `z`.
pub open spec fn required_seq(center: ChunkCoordinate, radius: int) -> Seq<ChunkCoordinate> {
    let rows = window_span(center.x as int, radius);
    let columns = window_span(center.z as int, radius);
    Seq::new(
        rows * columns,
        |i: int|
            ChunkCoordinate {
                x: (window_low(center.x as int, radius) + i / (columns as int)) as i32,
                z: (window_low(center.z as int, radius) + i % (columns as int)) as i32,
            },
    )
}

/// Where the chunk in row `row` and column `column` of the window stands in
/// the listing.
pub proof fn lemma_required_seq_at(center: ChunkCoordinate, radius: int, row: int, column: int)
    requires
        0 <= row < window_span(center.x as int, radius),
        0 <= column < window_span(center.z as int, radius),
    ensures
        0 <= row * window_span(center.z as int, radius) + column < required_seq(
            center,
            radius,
        ).len(),
        required_seq(center, radius)[row * window_span(center.z as int, radius) + column]
            == (ChunkCoordinate {
            x: (window_low(center.x as int, radius) + row) as i32,
            z: (window_low(center.z as int, radius) + column) as i32,
        }),
{
    let rows = window_span(center.x as int, radius) as int;
    let columns = window_span(center.z as int, radius) as int;
    assert(0 <= row * columns + column < rows * columns) by (nonlinear_arith)
        requires
            0 <= row < rows,
            0 <= column < columns,
    ;
    lemma_fundamental_div_mod_converse(row * columns + column, columns, row, column);
}

/// The row and the column of the chunk at index `i` of the listing.
proof fn lemma_required_seq_row_column(center: ChunkCoordinate, radius: int, i: int)
    requires
        0 <= i < required_seq(center, radius).len(),
    ensures
        0 <= i / (window_span(center.z as int, radius) as int) < window_span(
            center.x as int,
            radius,
        ),
        0 <= i % (window_span(center.z as int, radius) as int) < window_span(
            center.z as int,
            radius,
        ),
        i == (i / (window_span(center.z as int, radius) as int)) * window_span(
            center.z as int,
            radius,
        ) + i % (window_span(center.z as int, radius) as int),
{
    let rows = window_span(center.x as int, radius) as int;
    let columns = window_span(center.z as int, radius) as int;
    assert(columns > 0) by (nonlinear_arith)
        requires
            0 <= i < rows * columns,
            rows >= 0,
            columns >= 0,
    ;
    lemma_fundamental_div_mod(i, columns);
    let q = i / columns;
    let r = i % columns;
    assert(0 <= q < rows && i == q * columns + r) by (nonlinear_arith)
        requires
            i == columns * q + r,
            0 <= r < columns,
            0 <= i < rows * columns,
    ;
}

/// The listing holds each required chunk once and nothing else.
pub proof fn lemma_required_seq_lists_required_set(center: ChunkCoordinate, radius: int)
    ensures
        required_seq(center, radius).no_duplicates(),
        required_seq(center, radius).to_set() == required_set(center, radius),
        required_seq(center, radius).len() == window_span(center.x as int, radius) * window_span(
            center.z as int,
            radius,
        ),
{
    let listing = required_seq(center, radius);
    let columns = window_span(center.z as int, radius) as int;
    assert forall|i: int, j: int|
        0 <= i < listing.len() && 0 <= j < listing.len() && i != j implies listing[i]
        != listing[j] by {
        lemma_required_seq_row_column(center, radius, i);
        lemma_required_seq_row_column(center, radius, j);
        if i / columns == j / columns {
            assert(i % columns != j % columns);
        }
    }
    assert forall|c: ChunkCoordinate| listing.to_set().contains(c) == required_set(
        center,
        radius,
    ).contains(c) by {
        if listing.contains(c) {
            let i = choose|i: int| 0 <= i < listing.len() && listing[i] == c;
            lemma_required_seq_row_column(center, radius, i);
        }
        if chebyshev(c, center) <= radius {
            let row = c.x - window_low(center.x as int, radius);
            let column = c.z - window_low(center.z as int, radius);
            lemma_required_seq_at(center, radius, row, column);
        }
    }
}

/// The number of required chunks is the product of the window's spans; where
/// the grid's edge cuts nothing off, that is the square of `2 * radius + 1`.
pub proof fn law_required_count(center: ChunkCoordinate, radius: int)
    ensures
        required_set(center, radius).finite(),
        required_set(center, radius).len() == window_span(center.x as int, radius) * window_span(
            center.z as int,
            radius,
        ),
        window_fits(center, radius) ==> required_set(center, radius).len() == (2 * radius + 1) * (2
            * radius + 1),
{
    lemma_required_seq_lists_required_set(center, radius);
    required_seq(center, radius).unique_seq_to_set();
}

/// With a radius of zero the reference chunk alone is required.
pub proof fn law_radius_zero_is_reference_alone(center: ChunkCoordinate)
    ensures
        required_set(center, 0) == set![center],
        required_seq(center, 0) == seq![center],
{
    assert(required_set(center, 0) =~= set![center]);
    lemma_required_seq_at(center, 0, 0, 0);
}

/// Lists the chunks within `render_distance` of `reference`: the square of
/// side `2 * render_distance + 1` centred on it, as far as it lies on the
/// grid.
pub fn required_chunks(reference: ChunkCoordinate, render_distance: i32) -> (chunks: Vec<
    ChunkCoordinate,
>)
    ensures
        chunks@ == required_seq(reference, render_distance as int),
        chunks@.to_set() == required_set(reference, render_distance as int),
        chunks@.no_duplicates(),
        window_fits(reference, render_distance as int) ==> chunks@.len() == (2 * render_distance
            + 1) * (2 * render_distance + 1),
{
    let mut chunks: Vec<ChunkCoordinate> = Vec::new();
    let ghost radius = render_distance as int;
    let ghost listing = required_seq(reference, radius);
    proof {
        lemma_required_seq_lists_required_set(reference, radius);
    }
    if render_distance < 0 {
        return chunks;
    }
    let low_x: i64 = lower_bound(reference.x, render_distance);
    let high_x: i64 = upper_bound(reference.x, render_distance);
    let low_z: i64 = lower_bound(reference.z, render_distance);
    let high_z: i64 = upper_bound(reference.z, render_distance);
    let ghost columns = window_span(reference.z as int, radius) as int;
    let mut x: i64 = low_x;
    while x <= high_x
        invariant
            radius >= 0,
            listing == required_seq(reference, radius),
            columns == window_span(reference.z as int, radius),
            low_x == window_low(reference.x as int, radius),
            high_x == window_high(reference.x as int, radius),
            low_z == window_low(reference.z as int, radius),
            high_z == window_high(reference.z as int, radius),
            low_x <= x <= high_x + 1,
            0 <= (x - low_x) * columns <= listing.len(),
            chunks@ == listing.take((x - low_x) * columns),
        decreases high_x + 1 - x,
    {
        let mut z: i64 = low_z;
        while z <= high_z
            invariant
                radius >= 0,
                listing == required_seq(reference, radius),
                columns == window_span(reference.z as int, radius),
                low_x == window_low(reference.x as int, radius),
                high_x == window_high(reference.x as int, radius),
                low_z == window_low(reference.z as int, radius),
                high_z == window_high(reference.z as int, radius),
                low_x <= x <= high_x,
                low_z <= z <= high_z + 1,
                0 <= (x - low_x) * columns + (z - low_z) <= listing.len(),
                chunks@ == listing.take((x - low_x) * columns + (z - low_z)),
            decreases high_z + 1 - z,
        {
            proof {
                lemma_required_seq_at(reference, radius, x - low_x, z - low_z);
            }
            chunks.push(ChunkCoordinate { x: x as i32, z: z as i32 });
            z = z + 1;
        }
        assert((x + 1 - low_x) * columns == (x - low_x) * columns + columns) by (nonlinear_arith);
        x = x + 1;
    }
    assert(chunks@ =~= listing);
    chunks
}

fn lower_bound(center: i32, radius: i32) -> (low: i64)
    requires
        radius >= 0,
    ensures
        low == window_low(center as int, radius as int),
{
    let low: i64 = center as i64 - radius as i64;
    if low < i32::MIN as i64 {
        i32::MIN as i64
    } else {
        low
    }
}

fn upper_bound(center: i32, radius: i32) -> (high: i64)
    requires
        radius >= 0,
    ensures
        high == window_high(center as int, radius as int),
{
    let high: i64 = center as i64 + radius as i64;
    if high > i32::MAX as i64 {
        i32::MAX as i64
    } else {
        high
    }
}

} // verus!
