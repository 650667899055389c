use integrity_watcher::types::{FileMetadata, DirMetadata, SymlinkMetadata, FileMetadataExt};
use integrity_watcher::store::FilesDb;
use integrity_watcher::fileops::{
    PathSet, WriteToDB, UpdateDB, CheckDB, CheckEvent, UpdateEvent, removed_paths, prune_missing,
};

fn fresh_db(name: &str) -> FilesDb {
    let path = format!("/tmp/integrity_watcher_test_{}.redb", name);
    let mut db = FilesDb::create(&path).expect("create store");
    prune_missing(&mut db, &PathSet::new()).expect("clear store");
    db
}

fn file_rec(seed: u8, permissions: u32, modified: u64, size: u64) -> FileMetadataExt {
    let mut h = [0u8; 32];
    for i in 0..32 {
        h[i] = seed.wrapping_add(i as u8);
    }
    FileMetadataExt::File(FileMetadata::new(h, permissions, Some(modified), size))
}

#[test]
fn populate_counts_and_stores() {
    let mut db = fresh_db("populate");
    let mut writer = WriteToDB::new();
    let batch = vec![
        (String::from("/data/a"), file_rec(1, 0o644, 10, 100)),
        (String::from("/data/b"), file_rec(2, 0o644, 20, 200)),
    ];
    writer.add_file_info(&mut db, &batch).expect("write batch");
    assert_eq!(writer.get_counter(), 2);
    let rows = db.scan_records().expect("scan");
    assert_eq!(rows.len(), 2);
    let got = db.get_record(&String::from("/data/a")).expect("get");
    assert!(got == Some(file_rec(1, 0o644, 10, 100)));
    assert!(db.get_record(&String::from("/data/c")).expect("get").is_none());
}

#[test]
fn time_only_change_suppressed_without_flag() {
    let mut db = fresh_db("timeonly_off");
    let mut writer = WriteToDB::new();
    let batch = vec![(String::from("/data/f"), file_rec(1, 0o644, 10, 100))];
    writer.add_file_info(&mut db, &batch).expect("write");
    let mut checker = CheckDB::new(false);
    let walk = vec![(String::from("/data/f"), file_rec(1, 0o644, 99, 100))];
    checker.add_file_info(&db, &walk).expect("check");
    assert!(checker.events.is_empty(), "a time-only change is suppressed without the flag");
}

#[test]
fn time_only_change_reported_with_flag() {
    let mut db = fresh_db("timeonly_on");
    let mut writer = WriteToDB::new();
    let batch = vec![(String::from("/data/f"), file_rec(1, 0o644, 10, 100))];
    writer.add_file_info(&mut db, &batch).expect("write");
    let mut checker = CheckDB::new(true);
    let walk = vec![(String::from("/data/f"), file_rec(1, 0o644, 99, 100))];
    checker.add_file_info(&db, &walk).expect("check");
    assert_eq!(checker.events.len(), 1);
    match &checker.events[0] {
        CheckEvent::Changed { path, fields, .. } => {
            assert_eq!(path, "/data/f");
            assert!(fields.modified);
            assert!(!fields.hash && !fields.target && !fields.permissions && !fields.size);
        },
        other => panic!("expected exactly one time delta, got {:?}", other),
    }
}

#[test]
fn variant_change_reported_under_both_flags() {
    for compare_time in [false, true] {
        let mut db = fresh_db(if compare_time { "variant_on" } else { "variant_off" });
        let mut writer = WriteToDB::new();
        let batch = vec![(String::from("/data/x"), file_rec(1, 0o644, 10, 100))];
        writer.add_file_info(&mut db, &batch).expect("write");
        let mut checker = CheckDB::new(compare_time);
        let walk = vec![(
            String::from("/data/x"),
            FileMetadataExt::Dir(DirMetadata::new(0o644, Some(10), 100)),
        )];
        checker.add_file_info(&db, &walk).expect("check");
        assert_eq!(checker.events.len(), 1);
        assert!(matches!(&checker.events[0], CheckEvent::VariantChanged { .. }));
    }
}

#[test]
fn symlink_target_change_reported() {
    let mut db = fresh_db("symlink_target");
    let mut writer = WriteToDB::new();
    let old_link = FileMetadataExt::Symlink(SymlinkMetadata::new(
        String::from("/old"),
        0o777,
        Some(5),
        4,
    ));
    let new_link = FileMetadataExt::Symlink(SymlinkMetadata::new(
        String::from("/new"),
        0o777,
        Some(5),
        4,
    ));
    writer
        .add_file_info(&mut db, &vec![(String::from("/data/l"), old_link)])
        .expect("write");
    let mut checker = CheckDB::new(false);
    checker
        .add_file_info(&db, &vec![(String::from("/data/l"), new_link)])
        .expect("check");
    assert_eq!(checker.events.len(), 1);
    match &checker.events[0] {
        CheckEvent::Changed { fields, .. } => {
            assert!(fields.target);
            assert!(!fields.modified);
        },
        other => panic!("expected a target delta, got {:?}", other),
    }
}

#[test]
fn stale_path_reported_as_new() {
    let db = fresh_db("stale_new");
    let mut checker = CheckDB::new(false);
    checker
        .add_file_info(&db, &vec![(String::from("/data/n"), file_rec(3, 0o644, 1, 1))])
        .expect("check");
    assert_eq!(checker.events.len(), 1);
    assert!(matches!(&checker.events[0], CheckEvent::New { path } if path == "/data/n"));
}

#[test]
fn removal_detection_three_records() {
    let mut db = fresh_db("removal");
    let mut writer = WriteToDB::new();
    let a = (String::from("/data/a"), file_rec(1, 0o644, 10, 100));
    let b = (String::from("/data/b"), file_rec(2, 0o644, 20, 200));
    let c = (String::from("/data/c"), file_rec(3, 0o644, 30, 300));
    writer
        .add_file_info(&mut db, &vec![a.clone(), b.clone(), c])
        .expect("write");
    let mut checker = CheckDB::new(false);
    checker.add_file_info(&db, &vec![a, b]).expect("check");
    assert!(checker.events.is_empty(), "unchanged records are not reported");
    let removed = removed_paths(&db, &checker.files).expect("removed");
    assert_eq!(removed, vec![String::from("/data/c")]);
}

#[test]
fn update_twice_is_idempotent() {
    let mut db = fresh_db("idempotent");
    let batch = vec![
        (String::from("/data/a"), file_rec(1, 0o644, 10, 100)),
        (String::from("/data/b"), file_rec(2, 0o600, 20, 200)),
    ];

    let mut first = UpdateDB::new();
    first.add_file_info(&mut db, &batch).expect("first run");
    assert_eq!(first.get_counter(), 2);
    assert_eq!(first.events.len(), 2);
    assert!(first.events.iter().all(|e| matches!(e, UpdateEvent::New { .. })));
    let pruned = prune_missing(&mut db, &first.files).expect("first prune");
    assert!(pruned.is_empty());

    let mut second = UpdateDB::new();
    second.add_file_info(&mut db, &batch).expect("second run");
    assert_eq!(second.get_counter(), 2);
    assert!(second.events.is_empty(), "a second identical run reports nothing new or changed");
    let pruned = prune_missing(&mut db, &second.files).expect("second prune");
    assert!(pruned.is_empty(), "a second identical run removes nothing");
}

#[test]
fn update_reports_changes_and_prunes() {
    let mut db = fresh_db("update_prune");
    let mut first = UpdateDB::new();
    first
        .add_file_info(
            &mut db,
            &vec![
                (String::from("/data/keep"), file_rec(1, 0o644, 10, 100)),
                (String::from("/data/gone"), file_rec(2, 0o644, 20, 200)),
            ],
        )
        .expect("first run");
    prune_missing(&mut db, &first.files).expect("first prune");

    let mut second = UpdateDB::new();
    second
        .add_file_info(&mut db, &vec![(String::from("/data/keep"), file_rec(9, 0o644, 10, 100))])
        .expect("second run");
    assert_eq!(second.events.len(), 1);
    assert!(matches!(&second.events[0], UpdateEvent::Updated { path, .. } if path == "/data/keep"));
    let pruned = prune_missing(&mut db, &second.files).expect("second prune");
    assert_eq!(pruned, vec![String::from("/data/gone")]);
    let rows = db.scan_records().expect("scan");
    assert_eq!(rows.len(), 1);
    assert_eq!(rows[0].0, "/data/keep");
}

#[test]
fn open_missing_store_fails() {
    let r = FilesDb::open("/tmp/integrity_watcher_test_missing_dir/none.redb");
    assert!(matches!(r, Err(integrity_watcher::error::IntegrityWatcherError::DB)));
}

#[test]
fn path_set_deduplicates() {
    let mut s = PathSet::new();
    s.insert(&String::from("/a"));
    s.insert(&String::from("/b"));
    s.insert(&String::from("/a"));
    assert_eq!(s.len(), 2);
    assert!(s.contains(&String::from("/a")));
    assert!(!s.contains(&String::from("/c")));
}
