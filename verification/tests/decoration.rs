use chunk_streaming::coordinate::ChunkCoordinate;
use chunk_streaming::decoration::{
    decoration_variant, DecorateAll, DecorationPolicy, SkipOrigin, VARIANT_COUNT,
};

fn chunk(x: i32, z: i32) -> ChunkCoordinate {
    ChunkCoordinate { x, z }
}

#[test]
fn variant_is_sum_of_absolute_indices_modulo_four() {
    assert_eq!(decoration_variant(chunk(0, 0)), 0);
    assert_eq!(decoration_variant(chunk(1, 0)), 1);
    assert_eq!(decoration_variant(chunk(-1, 0)), 1);
    assert_eq!(decoration_variant(chunk(-1, -1)), 2);
    assert_eq!(decoration_variant(chunk(2, -1)), 3);
    assert_eq!(decoration_variant(chunk(2, 2)), 0);
    assert_eq!(decoration_variant(chunk(-7, 6)), 1);
    assert_eq!(decoration_variant(chunk(i32::MIN, 0)), 0);
    assert_eq!(decoration_variant(chunk(i32::MIN, i32::MIN)), 0);
    assert_eq!(decoration_variant(chunk(i32::MAX, i32::MAX)), 2);
    assert_eq!(decoration_variant(chunk(i32::MAX, i32::MIN)), 3);
}

#[test]
fn variant_is_below_the_variant_count() {
    assert_eq!(VARIANT_COUNT, 4);
    for x in -9..9 {
        for z in -9..9 {
            assert!(decoration_variant(chunk(x, z)) < VARIANT_COUNT);
        }
    }
}

#[test]
fn variant_depends_on_the_coordinate_alone() {
    for x in -5..5 {
        for z in -5..5 {
            assert_eq!(decoration_variant(chunk(x, z)), decoration_variant(chunk(x, z)));
            assert_eq!(decoration_variant(chunk(x, z)), decoration_variant(chunk(-x, -z)));
        }
    }
}

#[test]
fn skip_origin_leaves_out_the_origin_only() {
    assert!(!SkipOrigin.should_decorate(chunk(0, 0)));
    assert!(SkipOrigin.should_decorate(chunk(1, 0)));
    assert!(SkipOrigin.should_decorate(chunk(0, -1)));
    assert!(SkipOrigin.should_decorate(chunk(-3, 3)));
}

#[test]
fn decorate_all_decorates_the_origin_too() {
    assert!(DecorateAll.should_decorate(chunk(0, 0)));
    assert!(DecorateAll.should_decorate(chunk(4, -4)));
}
