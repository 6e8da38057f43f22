use chunk_streaming::coordinate::ChunkCoordinate;
use chunk_streaming::reconcile::{apply, contains, difference, reconcile, Reconciliation};
use chunk_streaming::required::required_chunks;

fn chunk(x: i32, z: i32) -> ChunkCoordinate {
    ChunkCoordinate { x, z }
}

fn sorted(mut list: Vec<ChunkCoordinate>) -> Vec<(i32, i32)> {
    let mut pairs: Vec<(i32, i32)> = list.drain(..).map(|c| (c.x, c.z)).collect();
    pairs.sort();
    pairs
}

#[test]
fn step_to_the_next_chunk_swaps_one_column() {
    let active = required_chunks(chunk(0, 0), 1);
    let required = required_chunks(chunk(1, 0), 1);
    let changes = reconcile(&active, &required);
    assert_eq!(changes.to_create, vec![chunk(2, -1), chunk(2, 0), chunk(2, 1)]);
    assert_eq!(changes.to_destroy, vec![chunk(-1, -1), chunk(-1, 0), chunk(-1, 1)]);
}

#[test]
fn nothing_active_creates_everything() {
    let required = required_chunks(chunk(0, 0), 1);
    let changes = reconcile(&[], &required);
    assert_eq!(changes.to_create, required);
    assert_eq!(changes.to_destroy, vec![]);
}

#[test]
fn nothing_required_destroys_everything() {
    let active = required_chunks(chunk(4, 4), 1);
    let changes = reconcile(&active, &[]);
    assert_eq!(changes.to_create, vec![]);
    assert_eq!(changes.to_destroy, active);
}

#[test]
fn steady_state_needs_no_change() {
    let active = required_chunks(chunk(-3, 8), 2);
    let mut required = required_chunks(chunk(-3, 8), 2);
    required.reverse();
    let changes = reconcile(&active, &required);
    assert!(changes.to_create.is_empty());
    assert!(changes.to_destroy.is_empty());
}

#[test]
fn changes_are_disjoint_and_touch_no_surviving_chunk() {
    let active = required_chunks(chunk(0, 0), 2);
    let required = required_chunks(chunk(3, -1), 2);
    let changes = reconcile(&active, &required);
    for c in &changes.to_create {
        assert!(!changes.to_destroy.contains(c));
        assert!(!active.contains(c));
        assert!(required.contains(c));
    }
    for c in &changes.to_destroy {
        assert!(active.contains(c));
        assert!(!required.contains(c));
    }
    for c in &active {
        if required.contains(c) {
            assert!(!changes.to_create.contains(c));
            assert!(!changes.to_destroy.contains(c));
        }
    }
}

#[test]
fn applying_the_changes_reaches_the_required_set() {
    let active = required_chunks(chunk(0, 0), 2);
    let required = required_chunks(chunk(1, 1), 2);
    let changes = reconcile(&active, &required);
    let next = apply(&active, &changes);
    assert_eq!(sorted(next), sorted(required));
}

#[test]
fn reconciling_twice_finds_nothing_left() {
    let active = required_chunks(chunk(0, 0), 1);
    let required = required_chunks(chunk(5, 5), 1);
    let changes = reconcile(&active, &required);
    assert_eq!(changes.to_create.len(), 9);
    assert_eq!(changes.to_destroy.len(), 9);
    let next = apply(&active, &changes);
    let again = reconcile(&next, &required);
    assert!(again.to_create.is_empty());
    assert!(again.to_destroy.is_empty());
}

#[test]
fn apply_keeps_survivors_in_order_and_appends_the_new() {
    let active = vec![chunk(0, 0), chunk(1, 0), chunk(2, 0)];
    let changes = Reconciliation {
        to_create: vec![chunk(9, 9), chunk(8, 8)],
        to_destroy: vec![chunk(1, 0)],
    };
    let next = apply(&active, &changes);
    assert_eq!(next, vec![chunk(0, 0), chunk(2, 0), chunk(9, 9), chunk(8, 8)]);
}

#[test]
fn distance_zero_swaps_exactly_one_chunk() {
    let active = required_chunks(chunk(0, 0), 0);
    let required = required_chunks(chunk(0, 1), 0);
    assert_eq!(active.len(), 1);
    assert_eq!(required.len(), 1);
    let changes = reconcile(&active, &required);
    assert_eq!(changes.to_create, vec![chunk(0, 1)]);
    assert_eq!(changes.to_destroy, vec![chunk(0, 0)]);
    let stay = reconcile(&active, &active);
    assert!(stay.to_create.is_empty());
    assert!(stay.to_destroy.is_empty());
    let jump = reconcile(&active, &required_chunks(chunk(-40, 17), 0));
    assert_eq!(jump.to_create, vec![chunk(-40, 17)]);
    assert_eq!(jump.to_destroy, vec![chunk(0, 0)]);
}

#[test]
fn contains_finds_members_only() {
    let list = vec![chunk(1, 2), chunk(3, 4)];
    assert!(contains(&list, chunk(1, 2)));
    assert!(contains(&list, chunk(3, 4)));
    assert!(!contains(&list, chunk(2, 1)));
    assert!(!contains(&[], chunk(0, 0)));
}

#[test]
fn difference_keeps_order() {
    let list = vec![chunk(5, 5), chunk(1, 1), chunk(3, 3), chunk(2, 2)];
    let other = vec![chunk(3, 3), chunk(5, 5), chunk(7, 7)];
    assert_eq!(difference(&list, &other), vec![chunk(1, 1), chunk(2, 2)]);
    assert_eq!(difference(&other, &list), vec![chunk(7, 7)]);
    assert_eq!(difference(&list, &[]), list);
}
