use gc::{DummyObject, GcError, MarkandSweepGC};

#[test]
fn it_works() {}

/// Grows the chain at `root` by `extra` freshly allocated objects.
fn grow_chain(gc: &mut MarkandSweepGC, root: usize, extra: usize) {
    for _ in 0..extra {
        let obj = DummyObject::new_on_heap();
        assert_eq!(gc.refernce_dummy_at_to(root, obj), Ok(()));
    }
}

#[test]
fn scenario_suffix_sweep_after_two_appends() {
    let mut gc = MarkandSweepGC::default();
    let idx = gc.add_root();
    assert_eq!(idx, 0);
    assert_eq!(gc.chain_len(0), 1);

    let obj1 = DummyObject::new_on_heap();
    assert_eq!(gc.refernce_dummy_at_to(0, obj1), Ok(()));
    let obj2 = DummyObject::new_on_heap();
    assert_eq!(gc.refernce_dummy_at_to(0, obj2), Ok(()));
    assert_eq!(gc.chain_len(0), 3);

    let before = gc.chain_nodes(0);
    assert_eq!(gc.mark_unreachable(0, 2), Ok(()));
    gc.sweep();

    let after = gc.chain_nodes(0);
    assert_eq!(after.len(), 2);
    assert_eq!(after[0], before[0]);
    assert_eq!(after[1], before[1]);
    assert!(!after[0].marked);
    assert!(!after[1].marked);
}

#[test]
fn scenario_marked_head_empties_root() {
    let mut gc = MarkandSweepGC::new_with_test_dummy_roots(1);
    let idx = gc.add_root();
    assert_eq!(idx, 1);
    assert_eq!(gc.chain_len(1), 1);

    assert_eq!(gc.mark_unreachable(1, 0), Ok(()));
    gc.sweep();

    assert!(gc.is_root_empty(1));
    assert_eq!(gc.chain_len(1), 0);
    assert!(!gc.is_root_empty(0));
    assert_eq!(gc.chain_len(0), 1);
}

#[test]
fn scenario_sweep_without_marks_changes_nothing() {
    let mut gc = MarkandSweepGC::default();
    gc.add_n_roots(3);
    assert_eq!(gc.root_count(), 3);

    let before: Vec<_> = (0..3).map(|i| gc.chain_nodes(i)).collect();
    for chain in &before {
        assert_eq!(chain.len(), 1);
    }

    gc.sweep();

    for (i, chain) in before.iter().enumerate() {
        assert_eq!(&gc.chain_nodes(i), chain);
    }
}

#[test]
fn scenario_overdeep_mark_fails_loudly() {
    let mut gc = MarkandSweepGC::default();
    gc.add_root();
    grow_chain(&mut gc, 0, 3);
    assert_eq!(gc.chain_len(0), 4);

    assert_eq!(gc.mark_unreachable(0, 3), Ok(()));
    let before = gc.chain_nodes(0);

    assert_eq!(gc.mark_unreachable(0, 10), Err(GcError::DepthOutOfRange));
    assert_eq!(gc.chain_nodes(0), before);

    gc.sweep();
    assert_eq!(gc.chain_len(0), 3);
}

#[test]
fn empty_sweep_is_idempotent_on_long_chains() {
    let mut gc = MarkandSweepGC::default();
    gc.add_n_roots(2);
    grow_chain(&mut gc, 0, 4);
    grow_chain(&mut gc, 1, 2);

    let before0 = gc.chain_nodes(0);
    let before1 = gc.chain_nodes(1);

    gc.sweep();
    gc.sweep();

    assert_eq!(gc.chain_nodes(0), before0);
    assert_eq!(gc.chain_nodes(1), before1);
}

#[test]
fn suffix_reclamation_leaves_depth_nodes() {
    let length = 5;
    for depth in 0..length {
        let mut gc = MarkandSweepGC::default();
        gc.add_root();
        grow_chain(&mut gc, 0, length - 1);
        assert_eq!(gc.chain_len(0), length);

        let before = gc.chain_nodes(0);
        assert_eq!(gc.mark_unreachable(0, depth), Ok(()));
        gc.sweep();

        let after = gc.chain_nodes(0);
        assert_eq!(after.len(), depth);
        for d in 0..depth {
            assert_eq!(after[d], before[d]);
        }
        assert_eq!(gc.is_root_empty(0), depth == 0);
    }
}

#[test]
fn walk_reports_hops_taken() {
    let mut gc = MarkandSweepGC::default();
    gc.add_root();
    grow_chain(&mut gc, 0, 2);

    assert_eq!(gc.walk(0, 0), Ok(0));
    assert_eq!(gc.walk(0, 1), Ok(1));
    assert_eq!(gc.walk(0, 2), Ok(2));
    assert_eq!(gc.walk(0, 9), Ok(2));
    assert_eq!(gc.walk(4, 0), Err(GcError::RootIndexOutOfRange));

    assert_eq!(gc.mark_unreachable(0, 0), Ok(()));
    gc.sweep();
    assert_eq!(gc.walk(0, 0), Err(GcError::EmptyRoot));
}

#[test]
fn appending_to_missing_or_swept_root_is_refused() {
    let mut gc = MarkandSweepGC::default();
    let stray = DummyObject::new_on_heap();
    assert_eq!(
        gc.refernce_dummy_at_to(0, stray),
        Err(GcError::RootIndexOutOfRange)
    );

    gc.add_root();
    assert_eq!(gc.mark_unreachable(0, 0), Ok(()));
    gc.sweep();
    assert!(gc.is_root_empty(0));

    let orphan = DummyObject::new_on_heap();
    assert_eq!(gc.refernce_dummy_at_to(0, orphan), Err(GcError::EmptyRoot));
    assert!(gc.is_root_empty(0));
}

#[test]
fn marking_missing_or_swept_root_is_refused() {
    let mut gc = MarkandSweepGC::default();
    assert_eq!(gc.mark_unreachable(2, 0), Err(GcError::RootIndexOutOfRange));

    gc.add_root();
    assert_eq!(gc.mark_unreachable(0, 0), Ok(()));
    gc.sweep();
    assert_eq!(gc.mark_unreachable(0, 0), Err(GcError::EmptyRoot));
}

#[test]
fn marking_is_idempotent() {
    let mut gc = MarkandSweepGC::default();
    gc.add_root();
    grow_chain(&mut gc, 0, 2);

    assert_eq!(gc.mark_unreachable(0, 1), Ok(()));
    let once = gc.chain_nodes(0);
    assert!(once[1].marked);

    assert_eq!(gc.mark_unreachable(0, 1), Ok(()));
    assert_eq!(gc.chain_nodes(0), once);

    gc.sweep();
    assert_eq!(gc.chain_len(0), 1);
}

#[test]
fn mark_root_flags_the_head_and_tolerates_bad_indices() {
    let mut gc = MarkandSweepGC::new_with_test_dummy_roots(1);
    gc.mark_root(5);
    assert!(!gc.chain_nodes(0)[0].marked);

    gc.mark_root(0);
    assert!(gc.chain_nodes(0)[0].marked);

    gc.sweep();
    assert!(gc.is_root_empty(0));
    gc.mark_root(0);
    assert!(gc.is_root_empty(0));
}

#[test]
fn add_root_with_takes_over_a_built_chain() {
    let mut head = DummyObject::new_on_heap();
    head.reference_to(DummyObject::new_on_heap());
    head.reference_to(DummyObject::new_on_heap());

    let mut gc = MarkandSweepGC::default();
    let idx = gc.add_root_with(head);
    assert_eq!(idx, 0);
    assert_eq!(gc.chain_len(0), 3);
}

#[test]
fn roots_keep_insertion_order_indices() {
    let mut gc = MarkandSweepGC::new_with_test_dummy_roots(2);
    assert_eq!(gc.root_count(), 2);
    assert_eq!(gc.add_root(), 2);
    assert_eq!(gc.add_root(), 3);
    gc.add_n_roots(2);
    assert_eq!(gc.root_count(), 6);
}

#[test]
fn payload_provider_stays_in_range() {
    for _ in 0..32 {
        let mut gc = MarkandSweepGC::default();
        gc.add_root();
        let node = gc.chain_nodes(0)[0];
        assert!(!node.marked);
        assert!((0..100).contains(&node.data1));
        assert!((0..100).contains(&node.data2));
    }
}

#[test]
fn teardown_reclaims_every_chain() {
    let mut gc = MarkandSweepGC::new_with_test_dummy_roots(3);
    grow_chain(&mut gc, 1, 2);

    gc.teardown();

    assert_eq!(gc.root_count(), 3);
    for i in 0..3 {
        assert!(gc.is_root_empty(i));
    }
}

#[test]
fn leak_makes_teardown_abandon_chains() {
    let mut gc = MarkandSweepGC::new_with_test_dummy_roots(2);
    grow_chain(&mut gc, 0, 1);
    let before0 = gc.chain_nodes(0);
    let before1 = gc.chain_nodes(1);

    gc.leak();
    gc.teardown();

    assert_eq!(gc.chain_nodes(0), before0);
    assert_eq!(gc.chain_nodes(1), before1);
}
