use chunk_streaming::coordinate::ChunkCoordinate;
use chunk_streaming::required::required_chunks;

fn chunk(x: i32, z: i32) -> ChunkCoordinate {
    ChunkCoordinate { x, z }
}

#[test]
fn distance_one_around_origin_is_the_nine_neighbours() {
    let required = required_chunks(chunk(0, 0), 1);
    assert_eq!(
        required,
        vec![
            chunk(-1, -1),
            chunk(-1, 0),
            chunk(-1, 1),
            chunk(0, -1),
            chunk(0, 0),
            chunk(0, 1),
            chunk(1, -1),
            chunk(1, 0),
            chunk(1, 1),
        ]
    );
}

#[test]
fn distance_zero_is_the_reference_alone() {
    assert_eq!(required_chunks(chunk(0, 0), 0), vec![chunk(0, 0)]);
    assert_eq!(required_chunks(chunk(-7, 12), 0), vec![chunk(-7, 12)]);
    assert_eq!(required_chunks(chunk(i32::MAX, i32::MIN), 0), vec![chunk(i32::MAX, i32::MIN)]);
}

#[test]
fn negative_distance_requires_nothing() {
    assert_eq!(required_chunks(chunk(0, 0), -1), vec![]);
    assert_eq!(required_chunks(chunk(3, 4), i32::MIN), vec![]);
}

#[test]
fn count_is_the_square_of_the_side() {
    for r in 0..6 {
        let required = required_chunks(chunk(5, -9), r);
        let side = (2 * r + 1) as usize;
        assert_eq!(required.len(), side * side);
    }
    assert_eq!(required_chunks(chunk(0, 0), 2).len(), 25);
    assert_eq!(required_chunks(chunk(0, 0), 10).len(), 441);
}

#[test]
fn required_chunks_are_those_within_chebyshev_distance() {
    let center = chunk(3, -2);
    let r = 2;
    let required = required_chunks(center, r);
    for x in -10..10 {
        for z in -10..10 {
            let c = chunk(x, z);
            let near = c.distance(&center) <= r as i64;
            assert_eq!(required.contains(&c), near);
        }
    }
}

#[test]
fn no_chunk_is_listed_twice() {
    let required = required_chunks(chunk(1, 1), 3);
    for i in 0..required.len() {
        for j in 0..required.len() {
            if i != j {
                assert_ne!(required[i], required[j]);
            }
        }
    }
}

#[test]
fn listing_is_by_rising_x_then_rising_z() {
    let required = required_chunks(chunk(10, 20), 2);
    for i in 1..required.len() {
        let a = required[i - 1];
        let b = required[i];
        assert!(a.x < b.x || (a.x == b.x && a.z < b.z));
    }
    assert_eq!(required[0], chunk(8, 18));
    assert_eq!(required[24], chunk(12, 22));
    assert_eq!(required[7], chunk(9, 20));
}

#[test]
fn window_is_cut_off_at_the_edge_of_the_grid() {
    let required = required_chunks(chunk(i32::MAX, i32::MIN), 1);
    assert_eq!(
        required,
        vec![
            chunk(i32::MAX - 1, i32::MIN),
            chunk(i32::MAX - 1, i32::MIN + 1),
            chunk(i32::MAX, i32::MIN),
            chunk(i32::MAX, i32::MIN + 1),
        ]
    );
}

#[test]
fn chebyshev_distance_is_the_larger_axis_distance() {
    assert_eq!(chunk(0, 0).distance(&chunk(0, 0)), 0);
    assert_eq!(chunk(0, 0).distance(&chunk(3, -1)), 3);
    assert_eq!(chunk(0, 0).distance(&chunk(-2, 5)), 5);
    assert_eq!(chunk(-4, 4).distance(&chunk(4, -4)), 8);
    assert_eq!(chunk(i32::MIN, 0).distance(&chunk(i32::MAX, 0)), 4294967295);
    assert_eq!(ChunkCoordinate::new(2, 3), chunk(2, 3));
}
