use std::collections::hash_map::DefaultHasher;
use std::collections::HashSet;
use std::hash::{Hash, Hasher};
use std::sync::atomic::AtomicBool;
use syncdir::error::{IoErrorKind, SyncError};
use syncdir::full_scan::{
    calculate_remaining_files, paths_match, FullScanCoordinator, FullScanDriver, NormalizedCaseFoldedPath,
    SyncStats,
};
use syncdir::full_scan::BlockHash;
use syncdir::mock::MockFullScanDriver;
use syncdir::types::FileRecord;
use syncdir::types::ScanOutcome;

#[test]
fn test_full_scan_coordinator_stages2_3_case_insensitive_matching() {
    let p1 = "nested\\FILE.TXT";
    let p2 = "nested/file.txt";
    let p3 = "other/file.txt";

    let n1 = NormalizedCaseFoldedPath::new(p1);
    let n2 = NormalizedCaseFoldedPath::new(p2);
    let n3 = NormalizedCaseFoldedPath::new(p3);

    assert_eq!(n1, n2);
    assert_ne!(n1, n3);

    let mut h1 = DefaultHasher::new();
    let mut h2 = DefaultHasher::new();
    n1.hash(&mut h1);
    n2.hash(&mut h2);
    assert_eq!(h1.finish(), h2.finish());

    let mut set = HashSet::new();
    set.insert(n1);
    assert!(set.contains(&n2));
    assert!(!set.contains(&n3));
}

#[test]
fn full_scan_test_mock_full_scan_driver_in_memory() {
    let mut driver = MockFullScanDriver::new()
        .with_source_files(vec!["a.txt".to_string()])
        .with_cached_records(vec![("b.txt".to_string(), 50, 1000)])
        .with_scan_complete(true);
    let cancel = AtomicBool::new(false);
    let (files, complete) = driver.scan_source_files(&cancel).unwrap();
    assert!(complete);
    assert_eq!(files.len(), 1);
    assert!(files.contains(&"a.txt".to_string()));
    let records = driver.load_cached_records().unwrap();
    assert_eq!(records.len(), 1);
    assert_eq!(records[0].relative_path, "b.txt");
}

#[test]
fn mock_test_mock_full_scan_driver_in_memory() {
    let mut driver = MockFullScanDriver::new()
        .with_source_files(vec!["a.txt".to_string()])
        .with_cached_records(vec![("b.txt".to_string(), 50, 1000)])
        .with_scan_complete(true);
    let cancel = AtomicBool::new(false);
    let (files, complete) = driver.scan_source_files(&cancel).unwrap();
    assert!(complete);
    assert_eq!(files.len(), 1);
    assert!(files.contains(&"a.txt".to_string()));
    let records = driver.load_cached_records().unwrap();
    assert_eq!(records.len(), 1);
    assert!(records.iter().any(|r| r.relative_path == "b.txt"));
}

#[test]
fn test_full_scan_driver_cancellation_guards_deletions() {
    let dst = "dst";
    let cancel = AtomicBool::new(false);
    let driver = MockFullScanDriver::new()
        .with_source_files(vec!["file1.txt".to_string()])
        .with_scan_complete(false)
        .with_propagate_deletions(true)
        .with_cached_records(vec![("file1.txt".to_string(), 10, 100), ("file2.txt".to_string(), 20, 200)]);
    let mut coordinator = FullScanCoordinator::new(driver, dst, &cancel);
    let outcome = coordinator.run().unwrap();
    assert_eq!(outcome, ScanOutcome::Success { synced: 1 });
    assert_eq!(coordinator.driver().deleted_files().len(), 0);
    assert_eq!(coordinator.driver().synced_files().len(), 1);

    let driver_complete = MockFullScanDriver::new()
        .with_source_files(vec!["file1.txt".to_string()])
        .with_scan_complete(true)
        .with_propagate_deletions(true)
        .with_cached_records(vec![("file1.txt".to_string(), 10, 100), ("file2.txt".to_string(), 20, 200)]);
    let mut coordinator_complete = FullScanCoordinator::new(driver_complete, dst, &cancel);
    let outcome_complete = coordinator_complete.run().unwrap();
    assert_eq!(outcome_complete, ScanOutcome::Success { synced: 1 });
    assert_eq!(coordinator_complete.driver().deleted_files().len(), 1);
    assert_eq!(coordinator_complete.driver().deleted_files()[0], "file2.txt".to_string());
}

#[test]
fn test_full_scan_local_io_error_not_destination_unreachable() {
    let mut stats = SyncStats::default();
    let io_err = SyncError::Io { kind: IoErrorKind::PermissionDenied, os_code: None };

    if io_err.is_network_offline() {
        stats.network_offline = true;
    }

    assert!(!stats.network_offline, "Local permission denied must NOT mark network offline");
}

#[test]
fn full_scan_unreachable_destination_stops_early() {
    let cancel = AtomicBool::new(false);
    let driver = MockFullScanDriver::new()
        .with_source_files(vec!["a.txt".to_string()])
        .with_scan_complete(true)
        .with_dest_unreachable(true);
    let mut c = FullScanCoordinator::new(driver, "dst", &cancel);
    assert_eq!(c.run().unwrap(), ScanOutcome::DestinationUnreachable);
    assert!(c.driver().synced_files().is_empty());
    assert!(c.driver().deleted_files().is_empty());
}

#[test]
fn full_scan_cancellation_before_start_is_reported() {
    let cancel = AtomicBool::new(true);
    let driver = MockFullScanDriver::new()
        .with_source_files(vec!["a.txt".to_string()])
        .with_scan_complete(true)
        .with_propagate_deletions(true)
        .with_cached_records(vec![("gone.txt".to_string(), 1, 1)]);
    let mut c = FullScanCoordinator::new(driver, "dst", &cancel);
    let r = c.run();
    assert!(matches!(r, Err(SyncError::Cancelled)));
    assert!(c.driver().deleted_files().is_empty());
}

#[test]
fn full_scan_case_insensitive_match_keeps_record() {
    let cancel = AtomicBool::new(false);
    let driver = MockFullScanDriver::new()
        .with_source_files(vec!["Docs/Readme.md".to_string()])
        .with_scan_complete(true)
        .with_propagate_deletions(true)
        .with_cached_records(vec![("docs\\readme.md".to_string(), 5, 5), ("old.txt".to_string(), 5, 5)]);
    let mut c = FullScanCoordinator::new(driver, "dst", &cancel);
    assert_eq!(c.run().unwrap(), ScanOutcome::Success { synced: 1 });
    assert_eq!(c.driver().deleted_files(), vec!["old.txt".to_string()]);
}

#[test]
fn full_scan_remaining_files_saturates() {
    assert_eq!(calculate_remaining_files(10, 3, 2), 5);
    assert_eq!(calculate_remaining_files(10, 8, 5), 0);
    assert_eq!(calculate_remaining_files(0, 0, 0), 0);
    assert_eq!(calculate_remaining_files(usize::MAX, usize::MAX, 1), 0);
}

#[test]
fn full_scan_paths_match_ignores_case_and_separators() {
    assert!(paths_match("A\\B.TXT", "a/b.txt"));
    assert!(!paths_match("a/b.txt", "a/c.txt"));
    assert!(!paths_match("a/b", "a/b/c"));
}

#[test]
fn full_scan_reconcile_archives_exactly_the_missing_files() {
    let cancel = AtomicBool::new(false);
    let driver = MockFullScanDriver::new()
        .with_source_files(vec!["keep.txt".to_string()])
        .with_scan_complete(true)
        .with_propagate_deletions(true)
        .with_cached_records(vec![
            ("gone1.txt".to_string(), 1, 1),
            ("keep.txt".to_string(), 2, 2),
            ("gone2.txt".to_string(), 3, 3),
        ]);
    let mut coordinator = FullScanCoordinator::new(driver, "dst", &cancel);
    assert_eq!(coordinator.run().unwrap(), ScanOutcome::Success { synced: 1 });
    let driver = coordinator.into_driver();
    assert_eq!(driver.archived_files(), vec!["gone1.txt".to_string(), "gone2.txt".to_string()]);
    assert_eq!(driver.deleted_files(), vec!["gone1.txt".to_string(), "gone2.txt".to_string()]);
}

#[test]
fn full_scan_empty_source_with_cached_files_succeeds_without_archiving() {
    let cancel = AtomicBool::new(false);
    let driver = MockFullScanDriver::new()
        .with_source_files(Vec::new())
        .with_scan_complete(true)
        .with_propagate_deletions(true)
        .with_cached_records(vec![("kept.txt".to_string(), 1, 1)]);
    let mut c = FullScanCoordinator::new(driver, "dst", &cancel);
    assert_eq!(c.run().unwrap(), ScanOutcome::Success { synced: 0 });
    assert!(c.driver().archived_files().is_empty());
    assert!(c.driver().deleted_files().is_empty());
    assert_eq!(c.driver().pruned_archives().len(), 1);
}

/// A driver whose every file synchronisation fails with a local error.
struct FailingDriver {
    files: Vec<String>,
    attempts: usize,
}

impl FullScanDriver for FailingDriver {
    fn resolve_active_destination(&self, dest_dir: &str) -> Result<Option<String>, SyncError> {
        Ok(Some(dest_dir.to_string()))
    }

    fn scan_source_files(&mut self, _cancel: &AtomicBool) -> Result<(Vec<String>, bool), SyncError> {
        Ok((self.files.clone(), true))
    }

    fn load_cached_records(&mut self) -> Result<Vec<FileRecord>, SyncError> {
        Ok(Vec::new())
    }

    fn sync_file_core(
        &mut self,
        _rel_path: &str,
        _dest_dir: &str,
        _scratch: &mut Vec<u8>,
        _cached: Option<&FileRecord>,
    ) -> Result<Option<(FileRecord, Vec<BlockHash>)>, SyncError> {
        self.attempts += 1;
        Err(SyncError::Io { kind: IoErrorKind::PermissionDenied, os_code: None })
    }

    fn archive_dest_file_only(&mut self, _rel_path: &str, _dest_dir: &str) -> Result<(), SyncError> {
        Ok(())
    }

    fn delete_files_batch(&mut self, _paths: &Vec<String>) -> Result<(), SyncError> {
        Ok(())
    }

    fn flush_record_batch(&mut self, batch: &mut Vec<(FileRecord, Vec<BlockHash>)>) -> Result<(), SyncError> {
        batch.clear();
        Ok(())
    }

    fn prune_destination_archive(&mut self, _dest_dir: &str) -> Result<(), SyncError> {
        Ok(())
    }

    fn propagate_deletions(&self) -> bool {
        true
    }

    fn block_size_bytes(&self) -> u64 {
        16
    }
}

#[test]
fn full_scan_every_file_failing_means_unreachable() {
    let cancel = AtomicBool::new(false);
    let driver = FailingDriver { files: vec!["a.txt".to_string(), "b.txt".to_string()], attempts: 0 };
    let mut c = FullScanCoordinator::new(driver, "dst", &cancel);
    assert_eq!(c.run().unwrap(), ScanOutcome::DestinationUnreachable);
    assert_eq!(c.driver().attempts, 2);
}
