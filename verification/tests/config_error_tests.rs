use syncdir::config::{TargetSyncConfig, VerificationMode};
use syncdir::error::{IoErrorKind, SyncError, ValidationKind};
use syncdir::runner::{classify_delete_failure, classify_sync_failure, FailureClass};
use syncdir::state::{FailureTracker, SyncWorkerState};

#[test]
fn config_defaults_and_builders() {
    let c = TargetSyncConfig::new("C:/src", "D:/dst");
    assert_eq!(c.source_dir(), "C:/src");
    assert_eq!(c.dest_dir(), "D:/dst");
    assert_eq!(c.debounce_seconds(), 3);
    assert_eq!(c.retry_interval_seconds(), 10);
    assert!(c.propagate_deletions());
    assert_eq!(c.block_sync_threshold_bytes(), 10 * 1024 * 1024);
    assert_eq!(c.block_size_bytes(), 1024 * 1024);
    assert_eq!(c.verification_mode(), VerificationMode::Sampled);
    assert!(c.verify_writes());

    let c2 = c.clone().with_debounce_seconds(1).with_retry_interval_seconds(2).with_block_sync_threshold_bytes(10);
    assert_eq!(c2.debounce_seconds(), 1);
    assert_eq!(c2.retry_interval_seconds(), 2);
    assert_eq!(c2.block_sync_threshold_bytes(), 10);
    assert!(c2.clone().with_block_size_bytes(0).is_none());
    assert_eq!(c2.clone().with_block_size_bytes(4).unwrap().block_size_bytes(), 4);
    let off = c2.with_verification_mode(VerificationMode::Disabled);
    assert!(!off.verify_writes());
}

#[test]
fn error_messages() {
    assert_eq!(SyncError::validation("bad").to_message(), "Validation error: bad");
    assert_eq!(SyncError::generic("plain").to_message(), "plain");
    assert_eq!(SyncError::Cancelled.to_message(), "Operation cancelled");
    assert_eq!(SyncError::from_os_code(53).to_message(), "I/O error: os error 53");
    assert_eq!(SyncError::io(IoErrorKind::NotFound).to_message(), "I/O error");
    assert_eq!(SyncError::write_verification_failed("f.txt").to_message(), "Write verification failed: f.txt");
}

#[test]
fn error_classification() {
    assert!(SyncError::from_os_code(53).is_network_offline());
    assert!(SyncError::from_os_code(64).is_network_offline());
    assert!(!SyncError::from_os_code(5).is_network_offline());
    assert!(!SyncError::io(IoErrorKind::PermissionDenied).is_network_offline());
    assert!(SyncError::validation_security("x").is_permanent_validation_failure());
    assert!(SyncError::validation_reparse("x").is_permanent_validation_failure());
    assert!(matches!(
        SyncError::validation_invariant("x"),
        SyncError::Validation { kind: ValidationKind::Invariant, .. }
    ));
}

#[test]
fn failure_classes_of_sync_and_delete_errors() {
    let offline = SyncError::from_os_code(53);
    let security = SyncError::validation_security("no");
    let other = SyncError::generic("x");
    assert_ne!(classify_sync_failure(&offline, true), classify_sync_failure(&other, true));
    assert_ne!(classify_sync_failure(&security, true), classify_sync_failure(&other, true));
    let _: FailureClass = classify_delete_failure(&other);
}

#[test]
fn failure_tracker_counts_and_resets() {
    let mut t = FailureTracker::new(2);
    let a = "a".to_string();
    let b = "b".to_string();
    assert_eq!(t.record_failure(&a), 1);
    assert_eq!(t.record_failure(&a), 2);
    assert_eq!(t.get(&a), Some(2));
    assert_eq!(t.record_failure(&b), 1);
    assert!(t.contains_key(&b));
    t.reset_failure(&a);
    assert_eq!(t.get(&a), None);
    t.clear();
    assert!(t.is_empty());
}

#[test]
fn worker_state_prune_clock() {
    let mut s = SyncWorkerState::new(16, 1000);
    assert!(!s.should_prune_archive(1000));
    let interval = s.hourly_prune_interval;
    assert!(s.should_prune_archive(1000 + interval));
    s.record_prune(5000);
    assert!(!s.should_prune_archive(5000 + interval - 1));
    assert!(s.should_prune_archive(5000 + interval));
}

#[test]
fn error_database_message() {
    let e = SyncError::Db { message: "disk I/O error".to_string() };
    assert_eq!(e.to_message(), "Database error: disk I/O error");
    assert!(!e.is_network_offline());
    assert!(!e.is_permanent_validation_failure());
}
