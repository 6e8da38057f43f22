use chunk_streaming::coordinate::ChunkCoordinate;
use chunk_streaming::grid::{cell_index_of, chunk_origin, world_to_chunk_coordinate, WorldPosition};

/// World units per metre in these tests: positions with a fractional part
/// are written in 256ths.
const UNITS: f64 = 256.0;

fn units(metres: f64) -> i64 {
    (metres * UNITS).floor() as i64
}

fn at(x: f64, z: f64) -> WorldPosition {
    WorldPosition { x: units(x), y: 0, z: units(z) }
}

fn chunk(x: i32, z: i32) -> ChunkCoordinate {
    ChunkCoordinate { x, z }
}

#[test]
fn origin_lies_in_chunk_zero() {
    let size = units(20.0) as i32;
    assert_eq!(world_to_chunk_coordinate(at(0.0, 0.0), size), chunk(0, 0));
}

#[test]
fn position_just_below_zero_lies_in_chunk_minus_one() {
    let size = units(20.0) as i32;
    assert_eq!(size, 5120);
    assert_eq!(units(-0.5), -128);
    let c = world_to_chunk_coordinate(at(-0.5, 0.0), size);
    assert_eq!(c.x, -1);
    assert_ne!(c.x, 0);
    assert_eq!(c, chunk(-1, 0));
}

#[test]
fn position_past_first_boundary_lies_in_chunk_one() {
    let size = units(20.0) as i32;
    assert_eq!(world_to_chunk_coordinate(at(21.0, 0.0), size), chunk(1, 0));
}

#[test]
fn boundary_belongs_to_upper_chunk() {
    assert_eq!(world_to_chunk_coordinate(WorldPosition { x: 19, y: 0, z: 20 }, 20), chunk(0, 1));
    assert_eq!(world_to_chunk_coordinate(WorldPosition { x: 20, y: 0, z: 39 }, 20), chunk(1, 1));
    assert_eq!(world_to_chunk_coordinate(WorldPosition { x: -20, y: 0, z: -21 }, 20), chunk(-1, -2));
    assert_eq!(world_to_chunk_coordinate(WorldPosition { x: -1, y: 0, z: -40 }, 20), chunk(-1, -2));
    assert_eq!(world_to_chunk_coordinate(WorldPosition { x: -41, y: 0, z: 40 }, 20), chunk(-3, 2));
}

#[test]
fn height_plays_no_part() {
    let low = WorldPosition { x: 45, y: -1000, z: -45 };
    let high = WorldPosition { x: 45, y: 1000, z: -45 };
    assert_eq!(world_to_chunk_coordinate(low, 20), chunk(2, -3));
    assert_eq!(world_to_chunk_coordinate(high, 20), chunk(2, -3));
}

#[test]
fn moving_inside_a_chunk_keeps_the_coordinate() {
    for x in 40..60 {
        for z in -20..0 {
            let c = world_to_chunk_coordinate(WorldPosition { x, y: 0, z }, 20);
            assert_eq!(c, chunk(2, -1));
        }
    }
}

#[test]
fn crossing_a_boundary_changes_one_axis_by_one() {
    let before = world_to_chunk_coordinate(WorldPosition { x: 59, y: 0, z: -7 }, 20);
    let after = world_to_chunk_coordinate(WorldPosition { x: 60, y: 0, z: -7 }, 20);
    assert_eq!(after.x, before.x + 1);
    assert_eq!(after.z, before.z);
    let before = world_to_chunk_coordinate(WorldPosition { x: 5, y: 0, z: -20 }, 20);
    let after = world_to_chunk_coordinate(WorldPosition { x: 5, y: 0, z: -21 }, 20);
    assert_eq!(after.z, before.z - 1);
    assert_eq!(after.x, before.x);
}

#[test]
fn cell_index_floors_the_quotient() {
    assert_eq!(cell_index_of(0, 20), 0);
    assert_eq!(cell_index_of(19, 20), 0);
    assert_eq!(cell_index_of(20, 20), 1);
    assert_eq!(cell_index_of(-1, 20), -1);
    assert_eq!(cell_index_of(-20, 20), -1);
    assert_eq!(cell_index_of(-21, 20), -2);
    assert_eq!(cell_index_of(7, 1), 7);
    assert_eq!(cell_index_of(-7, 1), -7);
    assert_eq!(cell_index_of(-7, 2), -4);
    assert_eq!(cell_index_of(7, 2), 3);
    assert_eq!(cell_index_of(i64::MIN, 1), i64::MIN);
    assert_eq!(cell_index_of(i64::MAX, 1), i64::MAX);
    assert_eq!(cell_index_of(i64::MIN, 2), i64::MIN / 2);
    assert_eq!(cell_index_of(i64::MIN + 1, 2), i64::MIN / 2);
    assert_eq!(cell_index_of(i64::MIN, i32::MAX), -4294967299);
    assert_eq!(cell_index_of(i64::MAX, i32::MAX), 4294967298);
}

#[test]
fn cell_index_agrees_with_floating_floor() {
    for v in -100i64..100 {
        for size in 1i32..12 {
            let expected = (v as f64 / size as f64).floor() as i64;
            assert_eq!(cell_index_of(v, size), expected);
        }
    }
}

#[test]
fn position_beyond_the_grid_maps_to_its_last_chunk() {
    let far = WorldPosition { x: i64::MAX, y: 0, z: i64::MIN };
    assert_eq!(world_to_chunk_coordinate(far, 1), chunk(i32::MAX, i32::MIN));
    let edge = WorldPosition { x: i32::MAX as i64, y: 0, z: i32::MIN as i64 };
    assert_eq!(world_to_chunk_coordinate(edge, 1), chunk(i32::MAX, i32::MIN));
    let past = WorldPosition { x: i32::MAX as i64 + 1, y: 0, z: i32::MIN as i64 - 1 };
    assert_eq!(world_to_chunk_coordinate(past, 1), chunk(i32::MAX, i32::MIN));
}

#[test]
fn chunk_origin_is_coordinate_times_size() {
    assert_eq!(chunk_origin(chunk(0, 0), 20), WorldPosition { x: 0, y: 0, z: 0 });
    assert_eq!(chunk_origin(chunk(2, -1), 20), WorldPosition { x: 40, y: 0, z: -20 });
    assert_eq!(chunk_origin(chunk(-3, 7), 5120), WorldPosition { x: -15360, y: 0, z: 35840 });
    assert_eq!(
        chunk_origin(chunk(i32::MIN, i32::MAX), i32::MAX),
        WorldPosition { x: -4611686016279904256, y: 0, z: 4611686014132420609 }
    );
}

#[test]
fn chunk_origin_lies_in_its_own_chunk() {
    for x in -4..4 {
        for z in -4..4 {
            let origin = chunk_origin(chunk(x, z), 20);
            assert_eq!(world_to_chunk_coordinate(origin, 20), chunk(x, z));
        }
    }
}
