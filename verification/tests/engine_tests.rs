use syncdir::config::TargetSyncConfig;
use syncdir::engine::{plan_file_sync, LocalSyncEngine, SyncPlan};
use syncdir::types::{FileMetadataSnapshot, FileRecord, RelativePath};

fn snap(size: i64, millis: i64) -> FileMetadataSnapshot {
    FileMetadataSnapshot::new(size, millis)
}

#[test]
fn engine_plan_skips_verified_cache_hit() {
    let rel = RelativePath::try_new("docs/a.txt").unwrap();
    let rec = FileRecord::new("docs/a.txt", 100, 5_000).with_id(9);
    let plan = plan_file_sync(&rel, &snap(100, 5_000), Some(&snap(100, 6_500)), Some(&rec), 1000);
    assert_eq!(plan, SyncPlan::UpToDate);
}

#[test]
fn engine_plan_refreshes_record_spelled_otherwise() {
    let rel = RelativePath::try_new("docs/a.txt").unwrap();
    let rec = FileRecord::new("Docs/A.txt", 100, 5_000).with_id(9);
    let plan = plan_file_sync(&rel, &snap(100, 5_000), Some(&snap(100, 5_000)), Some(&rec), 1000);
    assert_eq!(plan, SyncPlan::RefreshRecord);
}

#[test]
fn engine_plan_transfers_when_anything_differs() {
    let rel = RelativePath::try_new("a.bin").unwrap();
    let rec = FileRecord::new("a.bin", 100, 5_000).with_id(4);
    // destination too old
    assert_eq!(
        plan_file_sync(&rel, &snap(100, 5_000), Some(&snap(100, 2_999)), Some(&rec), 1000),
        SyncPlan::Transfer { small: true, align_casing: false, cached_id: Some(4) }
    );
    // record not stored yet
    let unsaved = FileRecord::new("a.bin", 100, 5_000);
    assert_eq!(
        plan_file_sync(&rel, &snap(100, 5_000), Some(&snap(100, 5_000)), Some(&unsaved), 1000),
        SyncPlan::Transfer { small: true, align_casing: true, cached_id: None }
    );
    // no destination, large file
    assert_eq!(
        plan_file_sync(&rel, &snap(5000, 5_000), None, None, 1000),
        SyncPlan::Transfer { small: false, align_casing: false, cached_id: None }
    );
}

#[test]
fn engine_resolved_destination_and_cache() {
    let cfg = TargetSyncConfig::new("C:/src", "D:/dst");
    let mut e = LocalSyncEngine::new(cfg);
    assert_eq!(e.resolved_dest(), None);
    assert_eq!(e.active_dest(), "D:/dst");
    e.reparse_cache_mut().insert_ancestor("D:/dst", "D:/dst/docs");
    e.reparse_cache_mut().insert_ancestor("C:/src", "C:/src/docs");
    e.reparse_cache_mut().insert_ancestor("D:/dst", "D:/dst/other");
    assert_eq!(e.reparse_cache().len(), 3);
    let rel = RelativePath::try_new("docs/a.txt").unwrap();
    let forget = e.finish_deletion(&rel, "D:/dst", true);
    assert!(forget); // deletions propagate by default
    assert!(!e.reparse_cache().contains("D:/dst/docs"));
    assert!(!e.reparse_cache().contains("C:/src/docs"));
    assert!(e.reparse_cache().contains("D:/dst/other"));
    e.evict_verified_dir("D:/dst");
    assert!(e.reparse_cache().is_empty());
    let mut e = e.with_resolved_dest("\\\\server\\share");
    assert_eq!(e.resolved_dest(), Some("\\\\server\\share"));
    assert_eq!(e.active_dest(), "\\\\server\\share");
    e.invalidate_verified_dirs();
    assert!(e.reparse_cache().is_empty());
}

#[test]
fn engine_deletion_keeps_record_when_file_remains_and_not_propagating() {
    let cfg = TargetSyncConfig::new("C:/src", "D:/dst").with_propagate_deletions(false);
    let mut e = LocalSyncEngine::new(cfg);
    let rel = RelativePath::try_new("a.txt").unwrap();
    assert!(!e.finish_deletion(&rel, "D:/dst", true));
    assert!(e.finish_deletion(&rel, "D:/dst", false));
    assert_eq!(e.config().block_sync_threshold_bytes(), 10_485_760);
}

#[test]
fn engine_scan_destination_choice() {
    let cfg = TargetSyncConfig::new("C:/src", "D:/dst");
    let e = LocalSyncEngine::new(cfg);
    assert!(e.resolve_scan_destination("D:/dst", false, true, true).is_err());
    assert_eq!(e.resolve_scan_destination("D:/dst", true, false, true).unwrap(), Some("D:/dst".to_string()));
    assert_eq!(e.resolve_scan_destination("D:/dst", true, false, false).unwrap(), None);
    let e = e.with_resolved_dest("\\\\srv\\share");
    assert_eq!(e.resolve_scan_destination("D:/dst", true, true, false).unwrap(), Some("\\\\srv\\share".to_string()));
    assert_eq!(e.resolve_scan_destination("D:/dst", true, false, true).unwrap(), Some("D:/dst".to_string()));
}
