use syncdir::error::{IoErrorKind, SyncError};
use syncdir::scan::{depth_allowed, dir_read_failure, scan_entry_step, ScanEntryKind, ScanStep, MAX_SCAN_DEPTH};

#[test]
fn scan_depth_limit_is_inclusive() {
    assert!(depth_allowed(0));
    assert!(depth_allowed(MAX_SCAN_DEPTH));
    assert!(!depth_allowed(MAX_SCAN_DEPTH + 1));
}

#[test]
fn scan_entries_are_collected_descended_or_skipped() {
    assert_eq!(scan_entry_step("", "a.txt", ScanEntryKind::File), ScanStep::Collect("a.txt".to_string()));
    assert_eq!(scan_entry_step("x/y", "b", ScanEntryKind::Directory), ScanStep::Descend("x/y/b".to_string()));
    assert_eq!(scan_entry_step("x", "link", ScanEntryKind::Link), ScanStep::Skip);
    assert_eq!(scan_entry_step("x", "fifo", ScanEntryKind::Other), ScanStep::Skip);
    assert_eq!(scan_entry_step("x", "", ScanEntryKind::Unreadable), ScanStep::Incomplete);
}

#[test]
fn scan_permission_denied_only_makes_the_scan_incomplete() {
    assert!(dir_read_failure(SyncError::io(IoErrorKind::PermissionDenied)).is_ok());
    assert!(matches!(
        dir_read_failure(SyncError::io(IoErrorKind::NotFound)),
        Err(SyncError::Io { kind: IoErrorKind::NotFound, .. })
    ));
}
