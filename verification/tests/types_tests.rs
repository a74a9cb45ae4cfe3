use syncdir::error::SyncError;
use syncdir::types::{
    is_metadata_up_to_date_raw, safe_epoch_duration_millis, ConnectivityState, FileMetadataSnapshot,
    FileRecord, FileSyncTask, RelativePath, WatcherState,
};

fn snap(size: i64, millis: i64) -> FileMetadataSnapshot {
    FileMetadataSnapshot::new(size, millis)
}

#[test]
fn test_is_metadata_up_to_date_raw() {
    let record = FileRecord::new("file.txt", 100, 10_000).with_id(1);

    // Exact match
    assert!(is_metadata_up_to_date_raw(&snap(100, 10_000), &snap(100, 10_000), Some(&record)));

    // Within 2000ms SMB tolerance
    assert!(is_metadata_up_to_date_raw(&snap(100, 11_500), &snap(100, 10_000), Some(&record)));
    assert!(is_metadata_up_to_date_raw(&snap(100, 8_500), &snap(100, 10_000), Some(&record)));

    // Beyond 2000ms tolerance
    assert!(!is_metadata_up_to_date_raw(&snap(100, 12_500), &snap(100, 10_000), Some(&record)));
    assert!(!is_metadata_up_to_date_raw(&snap(100, 7_500), &snap(100, 10_000), Some(&record)));

    // Size mismatch
    assert!(!is_metadata_up_to_date_raw(&snap(101, 10_000), &snap(100, 10_000), Some(&record)));

    // No record
    assert!(!is_metadata_up_to_date_raw(&snap(100, 10_000), &snap(100, 10_000), None));
}

#[test]
fn test_file_sync_task_construction_and_timestamp_helpers() {
    let src = "C:\\src\\file.txt";
    let dest = "C:\\dst\\file.txt";
    let dest_dir = "C:\\dst";
    let rel = RelativePath::try_new("file.txt").unwrap();
    let task = FileSyncTask::new(&rel, src, dest, dest_dir, 1024, 1700000000, Some(42));
    assert_eq!(task.src_size, 1024);
    assert_eq!(task.src_mod, 1700000000);
    assert_eq!(task.cached_id, Some(42));
    assert_eq!(task.rel_path, &rel);

    assert_eq!(safe_epoch_duration_millis(5500), 5500);
    assert_eq!(safe_epoch_duration_millis(-500), 0);
}

#[test]
fn test_file_sync_task_builder_fluent_and_rel_path() {
    let rel = RelativePath::try_new("docs/readme.md").unwrap();
    let src = "C:/source/docs/readme.md";
    let dest = "D:/dest/docs/readme.md";
    let dest_dir = "D:/dest";

    let task = FileSyncTask::builder(&rel)
        .src_path(src)
        .dest_path(dest)
        .dest_dir(dest_dir)
        .src_size(1024)
        .src_mod(1700000000)
        .cached_id(Some(42))
        .build()
        .unwrap();

    assert_eq!(task.rel_path, &rel);
    assert_eq!(task.src_path, src);
    assert_eq!(task.dest_path, dest);
    assert_eq!(task.dest_dir, dest_dir);
    assert_eq!(task.src_size, 1024);
    assert_eq!(task.src_mod, 1700000000);
    assert_eq!(task.cached_id, Some(42));

    let incomplete = FileSyncTask::builder(&rel).build();
    assert!(incomplete.is_err());
}

#[test]
fn test_safe_epoch_duration_millis_positive() {
    assert_eq!(safe_epoch_duration_millis(1000), 1000);
}

#[test]
fn test_safe_epoch_duration_millis_negative() {
    assert_eq!(safe_epoch_duration_millis(-500), 0);
}

#[test]
fn types_builder_reports_first_missing_field() {
    let rel = RelativePath::try_new("a.txt").unwrap();
    match FileSyncTask::builder(&rel).build() {
        Err(SyncError::Generic { message }) => assert_eq!(message, "src_path is required"),
        other => panic!("unexpected {:?}", other),
    }
    match FileSyncTask::builder(&rel).src_path("s").build() {
        Err(SyncError::Generic { message }) => assert_eq!(message, "dest_path is required"),
        other => panic!("unexpected {:?}", other),
    }
    match FileSyncTask::builder(&rel).src_path("s").dest_path("d").build() {
        Err(SyncError::Generic { message }) => assert_eq!(message, "dest_dir is required"),
        other => panic!("unexpected {:?}", other),
    }
    match FileSyncTask::builder(&rel).src_path("s").dest_path("d").dest_dir("x").build() {
        Err(SyncError::Generic { message }) => assert_eq!(message, "src_size is required"),
        other => panic!("unexpected {:?}", other),
    }
}

#[test]
fn types_metadata_tolerance_is_symmetric_at_the_edge() {
    let record = FileRecord::new("f", 7, 50_000).with_id(3);
    assert!(is_metadata_up_to_date_raw(&snap(7, 52_000), &snap(7, 50_000), Some(&record)));
    assert!(is_metadata_up_to_date_raw(&snap(7, 48_000), &snap(7, 50_000), Some(&record)));
    assert!(!is_metadata_up_to_date_raw(&snap(7, 52_001), &snap(7, 50_000), Some(&record)));
    assert!(!is_metadata_up_to_date_raw(&snap(7, 47_999), &snap(7, 50_000), Some(&record)));
    // a record of another size or time never matches
    let stale = FileRecord::new("f", 7, 49_000);
    assert!(!is_metadata_up_to_date_raw(&snap(7, 50_000), &snap(7, 50_000), Some(&stale)));
}

#[test]
fn types_state_enums_convert_to_and_from_bool() {
    assert_eq!(ConnectivityState::from(true), ConnectivityState::Online);
    assert_eq!(ConnectivityState::from(false), ConnectivityState::Offline);
    assert!(bool::from(ConnectivityState::Online));
    assert!(!bool::from(ConnectivityState::Offline));
    assert_eq!(WatcherState::from(true), WatcherState::Active);
    assert!(!bool::from(WatcherState::Inactive));
}
