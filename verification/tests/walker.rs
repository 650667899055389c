use integrity_watcher::walk::{
    Walker, ChildAction, RootAction, classify_root, FLUSH_THRESHOLD,
};
use integrity_watcher::fileops::PathSet;

#[test]
fn exclusion_honored() {
    let exclude = PathSet::from_paths(&vec![String::from("/data/secret")]);
    let mut walker = Walker::new();

    assert!(matches!(
        classify_root(&String::from("/data"), true, false, &exclude),
        RootAction::TraverseDir
    ));
    assert!(matches!(
        classify_root(&String::from("/data/secret"), true, false, &exclude),
        RootAction::SkipExcluded
    ));

    // Walking /data: the excluded child gets no unit of work and is never
    // queued for traversal, so nothing under it can ever produce a record.
    let a = walker.on_child(&String::from("/data/secret"), true, false, &exclude);
    assert!(matches!(a, ChildAction::Skip));
    assert_eq!(walker.in_flight, 0);
    assert_eq!(walker.dqueue.len(), 0);

    let b = walker.on_child(&String::from("/data/sub"), true, false, &exclude);
    assert!(matches!(b, ChildAction::Spawn { traverse: true }));
    let c = walker.on_child(&String::from("/data/file.txt"), false, false, &exclude);
    assert!(matches!(c, ChildAction::Spawn { traverse: false }));
    assert_eq!(walker.in_flight, 2);
    assert_eq!(walker.dqueue, vec![String::from("/data/sub")]);
}

#[test]
fn symlinked_directory_not_traversed() {
    let exclude = PathSet::new();
    let mut walker = Walker::new();
    let a = walker.on_child(&String::from("/data/link"), true, true, &exclude);
    assert!(matches!(a, ChildAction::Spawn { traverse: false }));
    assert_eq!(walker.dqueue.len(), 0, "a symlink to a directory is one unit, not a subtree");
    assert!(matches!(
        classify_root(&String::from("/root-link"), true, true, &exclude),
        RootAction::SingleUnit
    ));
}

#[test]
fn queue_is_first_in_first_out() {
    let mut walker = Walker::new();
    walker.enqueue_dir(&String::from("/a"));
    walker.enqueue_dir(&String::from("/b"));
    assert_eq!(walker.next_dir(), Some(String::from("/a")));
    assert_eq!(walker.next_dir(), Some(String::from("/b")));
    assert_eq!(walker.next_dir(), None);
}

#[test]
fn backpressure_bounds_in_flight_units() {
    let exclude = PathSet::new();
    let mut walker = Walker::new();
    let mut max_in_flight: usize = 0;

    // A tree with far more entries than the threshold, with units that only
    // complete when the driver blocks on one: the worst case for the bound.
    for i in 0..(4 * FLUSH_THRESHOLD) {
        let path = format!("/data/file{}", i);
        let action = walker.on_child(&path, false, false, &exclude);
        assert!(matches!(action, ChildAction::Spawn { .. }));
        max_in_flight = max_in_flight.max(walker.in_flight);

        if walker.over_threshold() {
            // Drain already completed units: none have completed.
        }
        if walker.over_threshold() {
            // Block on the oldest outstanding unit until it completes.
            walker.unit_joined();
        }
        max_in_flight = max_in_flight.max(walker.in_flight);
    }

    assert!(
        max_in_flight <= FLUSH_THRESHOLD + 1,
        "in-flight units stayed at {} > bound {}",
        max_in_flight,
        FLUSH_THRESHOLD + 1
    );
    assert_eq!(walker.in_flight, FLUSH_THRESHOLD);
}
