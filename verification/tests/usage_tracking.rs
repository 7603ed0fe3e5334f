use wgpu_bindings::id::{Backend, Id};
use wgpu_bindings::track::{BufferTracker, BufferUsageScope, TrackerIndexAllocator, UsedBuffer};
use wgpu_bindings::usage::{
    can_skip_barrier, is_invalid_state, PendingTransition, ResourceUsageCompatibilityError,
    COPY_DST, COPY_SRC, INDIRECT, MAP_WRITE, QUERY_RESOLVE, STORAGE_READ_ONLY,
    STORAGE_READ_WRITE, UNIFORM, VERTEX,
};

fn used(index: u32, state: u16) -> UsedBuffer {
    UsedBuffer { buffer: Id::zip(index, 1, Backend::Vulkan), index, state }
}

#[test]
fn invalid_states_are_exclusive_uses_with_company() {
    assert!(!is_invalid_state(0));
    assert!(!is_invalid_state(COPY_DST));
    assert!(!is_invalid_state(STORAGE_READ_WRITE));
    assert!(!is_invalid_state(UNIFORM | VERTEX | COPY_SRC | INDIRECT));
    assert!(is_invalid_state(COPY_DST | COPY_SRC));
    assert!(is_invalid_state(STORAGE_READ_WRITE | STORAGE_READ_ONLY));
    assert!(is_invalid_state(MAP_WRITE | COPY_DST));
    assert!(!is_invalid_state(QUERY_RESOLVE | UNIFORM));
}

#[test]
fn barriers_are_skipped_only_for_the_same_ordered_state() {
    assert!(can_skip_barrier(UNIFORM, UNIFORM));
    assert!(can_skip_barrier(MAP_WRITE, MAP_WRITE));
    assert!(!can_skip_barrier(UNIFORM, VERTEX));
    assert!(!can_skip_barrier(STORAGE_READ_WRITE, STORAGE_READ_WRITE));
    assert!(!can_skip_barrier(COPY_DST, COPY_DST));
}

#[test]
fn tracker_indices_are_reused() {
    let mut a = TrackerIndexAllocator::new();
    assert_eq!(a.allocate(), Some(0));
    assert_eq!(a.allocate(), Some(1));
    assert_eq!(a.allocate(), Some(2));
    assert_eq!(a.size(), 3);
    assert!(a.free(1));
    assert!(!a.free(1));
    assert!(!a.free(7));
    assert_eq!(a.allocate(), Some(1));
    assert_eq!(a.allocate(), Some(3));
    assert_eq!(a.size(), 4);
}

#[test]
fn scope_merges_reads_and_rejects_a_write_among_them() {
    let mut scope = BufferUsageScope::new();
    assert_eq!(scope.merge_single(5, UNIFORM), Ok(()));
    assert_eq!(scope.merge_single(5, INDIRECT), Ok(()));
    assert_eq!(scope.get(5), Some(UNIFORM | INDIRECT));
    assert_eq!(
        scope.merge_single(5, STORAGE_READ_WRITE),
        Err(ResourceUsageCompatibilityError {
            index: 5,
            current_state: UNIFORM | INDIRECT,
            new_state: STORAGE_READ_WRITE,
        })
    );
    assert_eq!(scope.get(5), Some(UNIFORM | INDIRECT));
    assert_eq!(scope.get(4), None);
    assert!(!scope.contains(4));
}

#[test]
fn a_state_that_is_invalid_by_itself_is_rejected() {
    let mut scope = BufferUsageScope::new();
    assert_eq!(
        scope.merge_single(0, COPY_DST | UNIFORM),
        Err(ResourceUsageCompatibilityError {
            index: 0,
            current_state: 0,
            new_state: COPY_DST | UNIFORM,
        })
    );
    assert!(!scope.contains(0));
}

#[test]
fn bind_group_merge_stops_at_first_conflict() {
    let mut scope = BufferUsageScope::new();
    let list = vec![used(0, UNIFORM), used(1, STORAGE_READ_WRITE), used(1, UNIFORM), used(2, VERTEX)];
    let r = scope.merge_bind_group(&list);
    assert_eq!(
        r,
        Err(ResourceUsageCompatibilityError {
            index: 1,
            current_state: STORAGE_READ_WRITE,
            new_state: UNIFORM,
        })
    );
    assert_eq!(scope.get(0), Some(UNIFORM));
    assert_eq!(scope.get(1), Some(STORAGE_READ_WRITE));
    assert_eq!(scope.get(2), None);
}

#[test]
fn set_single_returns_the_barrier() {
    let mut t = BufferTracker::new();
    assert_eq!(t.set_single(3, COPY_DST), None);
    assert_eq!(t.get(3), Some(COPY_DST));
    assert_eq!(
        t.set_single(3, COPY_SRC),
        Some(PendingTransition { index: 3, from: COPY_DST, to: COPY_SRC })
    );
    assert_eq!(t.set_single(3, COPY_SRC), None);
    assert_eq!(
        t.set_single(3, STORAGE_READ_WRITE),
        Some(PendingTransition { index: 3, from: COPY_SRC, to: STORAGE_READ_WRITE })
    );
    assert_eq!(
        t.set_single(3, STORAGE_READ_WRITE),
        Some(PendingTransition { index: 3, from: STORAGE_READ_WRITE, to: STORAGE_READ_WRITE })
    );
    assert!(t.drain_transitions().is_empty());
}

#[test]
fn tracker_absorbs_another_tracker_with_barriers() {
    let mut base = BufferTracker::new();
    base.insert_single(0, STORAGE_READ_WRITE);
    base.insert_single(1, UNIFORM);
    base.insert_single(2, COPY_DST);
    let mut head = BufferTracker::new();
    head.insert_single(0, UNIFORM);
    head.set_single(0, INDIRECT);
    head.insert_single(1, UNIFORM);
    head.insert_single(4, VERTEX);
    base.set_from_tracker(&head);
    assert_eq!(
        base.drain_transitions(),
        vec![PendingTransition { index: 0, from: STORAGE_READ_WRITE, to: UNIFORM }]
    );
    assert_eq!(base.get(0), Some(INDIRECT));
    assert_eq!(base.get(1), Some(UNIFORM));
    assert_eq!(base.get(2), Some(COPY_DST));
    assert_eq!(base.get(4), Some(VERTEX));
    assert!(base.drain_transitions().is_empty());
}

#[test]
fn sparse_move_takes_buffers_out_of_the_scope() {
    let mut scope = BufferUsageScope::new();
    scope.merge_single(1, UNIFORM).unwrap();
    scope.merge_single(2, STORAGE_READ_WRITE).unwrap();
    let mut t = BufferTracker::new();
    t.insert_single(2, COPY_DST);
    t.set_and_remove_from_usage_scope_sparse(&mut scope, &vec![2, 9, 2]);
    assert_eq!(scope.get(2), None);
    assert_eq!(scope.get(1), Some(UNIFORM));
    assert_eq!(
        t.drain_transitions(),
        vec![PendingTransition { index: 2, from: COPY_DST, to: STORAGE_READ_WRITE }]
    );
    assert_eq!(t.get(2), Some(STORAGE_READ_WRITE));
    assert_eq!(t.get(1), None);
}

#[test]
fn tracker_absorbs_a_scope() {
    let mut scope = BufferUsageScope::new();
    scope.set_size(8);
    scope.merge_single(1, UNIFORM).unwrap();
    scope.merge_single(6, COPY_SRC).unwrap();
    let mut t = BufferTracker::new();
    t.set_size(2);
    t.insert_single(6, COPY_DST);
    t.set_from_usage_scope(&scope);
    assert_eq!(t.get(1), Some(UNIFORM));
    assert_eq!(t.get(6), Some(COPY_SRC));
    assert_eq!(
        t.drain_transitions(),
        vec![PendingTransition { index: 6, from: COPY_DST, to: COPY_SRC }]
    );
}
