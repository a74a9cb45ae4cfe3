use std::sync::atomic::AtomicBool;
use syncdir::error::SyncError;
use syncdir::mock::MockSyncEngine;
use syncdir::reachability::{MockNetworkResolver, NetworkResolver};
use syncdir::traits::{ArchiveEngine, BatchFlusher, FileDeleter, FileSynchronizer, ScanEngine, SyncEngine};
use syncdir::types::ScanOutcome;

#[test]
fn test_mock_sync_engine_role_trait_implementations() {
    let engine = MockSyncEngine::new();
    let _: &dyn FileSynchronizer = &engine;
    let _: &dyn FileDeleter = &engine;
    let _: &dyn BatchFlusher = &engine;
    let _: &dyn ScanEngine = &engine;
    let _: &dyn ArchiveEngine = &engine;
    let _: &dyn SyncEngine = &engine;
}

#[test]
fn test_mock_sync_engine_export_and_initialization() {
    let engine = MockSyncEngine::new();
    assert_eq!(engine.synced_calls().len(), 0);
}

#[test]
fn test_mock_network_resolver_export_and_initialization() {
    let resolver = MockNetworkResolver::new();
    assert!(resolver.is_destination_accessible("\\\\server\\share"));
}

#[test]
fn mock_test_mock_sync_engine_recording_and_errors() {
    let mut mock = MockSyncEngine::new();
    let mut scratch = vec![0u8; 64];
    let p1 = "a.txt";
    let d1 = "C:\\dest1";

    assert!(mock.sync_file_to_dest_buffered(p1, d1, &mut scratch).is_ok());
    assert_eq!(mock.synced_calls(), vec![(p1.to_string(), d1.to_string())]);

    let p2 = "b.txt";
    let d2 = "C:\\dest2";
    assert!(mock.delete_file_from_dest(p2, d2).is_ok());
    assert_eq!(mock.deleted_calls(), vec![(p2.to_string(), d2.to_string())]);

    mock.set_sync_error(SyncError::validation("simulated failure"));
    assert!(mock.sync_file_to_dest_buffered(p1, d1, &mut scratch).is_err());
    assert!(mock.delete_file_from_dest(p2, d2).is_err());
    assert_eq!(
        mock.failed_calls(),
        vec![
            (p1.to_string(), "Validation error: simulated failure".to_string()),
            (p2.to_string(), "Validation error: simulated failure".to_string()),
        ]
    );

    mock.clear_sync_error();
    assert!(mock.sync_file_to_dest_buffered(p1, d1, &mut scratch).is_ok());

    assert_eq!(mock.full_scans_count(), 0);
    let outcome = mock.run_full_scan(d1).unwrap();
    assert_eq!(outcome, ScanOutcome::Success { synced: 0 });
    assert_eq!(mock.full_scans_count(), 1);

    assert!(mock.prune_archive(d1).is_ok());
    assert_eq!(mock.prune_archive_calls(), vec![d1.to_string()]);
    assert_eq!(mock.prune_calls(), vec![d1.to_string()]);
}

#[test]
fn sync_test_mock_sync_engine_recording_and_errors() {
    let mut mock = MockSyncEngine::new();
    let mut scratch = vec![0u8; 64];
    assert!(mock.sync_file_to_dest_buffered("a.txt", "C:\\dest1", &mut scratch).is_ok());
    assert_eq!(mock.synced_calls().len(), 1);
    mock.set_sync_error(SyncError::validation("simulated failure"));
    assert!(mock.sync_file_to_dest_buffered("a.txt", "C:\\dest1", &mut scratch).is_err());
    assert_eq!(mock.failed_calls().len(), 1);
    mock.clear_sync_error();
    assert_eq!(mock.run_full_scan("C:\\dest1").unwrap(), ScanOutcome::Success { synced: 0 });
    assert_eq!(mock.full_scans_count(), 1);
}

#[test]
fn mock_handlers_fail_only_the_listed_paths() {
    let mut mock = MockSyncEngine::new();
    mock.set_sync_handler(vec![("bad.txt".to_string(), SyncError::generic("boom"))]);
    mock.set_delete_handler(vec![("keep.txt".to_string(), SyncError::validation("no"))]);
    let mut scratch = Vec::new();
    assert!(mock.sync_file_to_dest_buffered("good.txt", "d", &mut scratch).is_ok());
    assert!(mock.sync_file_to_dest_buffered("bad.txt", "d", &mut scratch).is_err());
    assert!(mock.delete_file_from_dest("other.txt", "d").is_ok());
    assert!(mock.delete_file_from_dest("keep.txt", "d").is_err());
    assert_eq!(mock.synced_calls(), vec![("good.txt".to_string(), "d".to_string())]);
    assert_eq!(mock.deleted_calls(), vec![("other.txt".to_string(), "d".to_string())]);
    assert_eq!(mock.failed_calls().len(), 2);
    mock.clear_sync_handler();
    mock.clear_delete_handler();
    assert!(mock.sync_file_to_dest_buffered("bad.txt", "d", &mut scratch).is_ok());
    assert!(mock.delete_file_from_dest("keep.txt", "d").is_ok());
}

#[test]
fn mock_scan_outcome_and_cancellation() {
    let mut mock = MockSyncEngine::new();
    mock.set_scan_outcome(Some(ScanOutcome::PartialFailure { synced: 2, failed: 1, delete_failed: 0 }));
    assert_eq!(
        mock.run_full_scan("d").unwrap(),
        ScanOutcome::PartialFailure { synced: 2, failed: 1, delete_failed: 0 }
    );
    let cancel = AtomicBool::new(true);
    assert!(matches!(mock.run_cancellable_full_scan("d", &cancel), Err(SyncError::Cancelled)));
    assert_eq!(mock.full_scans_count(), 1);
    mock.set_sync_error(SyncError::generic("down"));
    assert!(mock.prune_archive("d").is_err());
    assert!(mock.prune_archive_calls().is_empty());
}

#[test]
fn mock_sync_file_uses_empty_destination() {
    let mut mock = MockSyncEngine::new();
    assert!(mock.sync_file("x.txt").is_ok());
    assert!(mock.delete_file("y.txt").is_ok());
    assert_eq!(mock.synced_calls(), vec![("x.txt".to_string(), String::new())]);
    assert_eq!(mock.deleted_calls(), vec![("y.txt".to_string(), String::new())]);
}

#[test]
fn mock_scan_answers_the_configured_error() {
    let mut engine = MockSyncEngine::new();
    assert_eq!(engine.run_full_scan("d").unwrap(), ScanOutcome::Success { synced: 0 });
    assert_eq!(engine.full_scans_count(), 1);
    engine.set_sync_error(SyncError::validation("scan refused"));
    let r = engine.run_full_scan("d");
    assert!(matches!(r, Err(SyncError::Validation { .. })));
    assert_eq!(engine.full_scans_count(), 2);
    let cancel = AtomicBool::new(true);
    assert!(matches!(engine.run_cancellable_full_scan("d", &cancel), Err(SyncError::Cancelled)));
    assert_eq!(engine.full_scans_count(), 2);
}
