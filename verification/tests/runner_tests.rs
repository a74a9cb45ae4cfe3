use std::sync::mpsc::channel;
use std::sync::Arc;
use syncdir::config::TargetSyncConfig;
use syncdir::error::{IoErrorKind, SyncError};
use syncdir::context::{SourceConnectivityTracker, SyncWorkerContext};
use syncdir::mock::MockSyncEngine;
use syncdir::reachability::{MockNetworkResolver, ReachabilityMonitor};
use syncdir::runner::{SyncWorkerRunner, WorkerTickOutcome};
use syncdir::traits::SyncStatusObserver;
use syncdir::types::{ConnectivityState, RelativePath, SyncCommand};

struct Silent;

impl SyncStatusObserver for Silent {
    fn on_target_status_change(&self, _target_index: usize, _state: ConnectivityState) {}
}

fn runner(accessible: bool, source_online: bool) -> SyncWorkerRunner<MockSyncEngine, Silent, MockNetworkResolver> {
    let (_tx, rx) = channel();
    let ctx = SyncWorkerContext::new(
        0,
        TargetSyncConfig::new("C:/src", "D:/dst"),
        MockSyncEngine::new(),
        rx,
        None::<Arc<Silent>>,
        SourceConnectivityTracker::new(source_online),
        Arc::new(MockNetworkResolver::with_accessible(accessible)),
    );
    SyncWorkerRunner::new(ctx, 0)
}

fn modified(p: &str) -> SyncCommand {
    SyncCommand::FileModified(RelativePath::try_new(p).unwrap())
}

#[test]
fn runner_tick_offline_destination_keeps_the_queue() {
    let mut r = runner(false, true);
    // first tick probes (never probed before) and finds the destination offline
    assert!(matches!(r.tick(0), Ok(WorkerTickOutcome::Continue)));
    assert!(!r.reachability.is_dest_online());
    assert!(r.handle_command(modified("a.txt"), 0));
    assert_eq!(r.queue.pending_count(), 1);
    // the debounce delay is over, but no probe is due before the retry interval
    assert!(matches!(r.tick(5_000), Ok(WorkerTickOutcome::Continue)));
    assert_eq!(r.queue.pending_count(), 1);
    assert!(r.context.engine.synced_calls().is_empty());
}

#[test]
fn runner_tick_drains_due_paths_when_both_ends_are_online() {
    let mut r = runner(true, true);
    assert!(r.handle_command(modified("a.txt"), 0));
    assert!(r.handle_command(modified("b.txt"), 2_000));
    // a.txt is due at 3000, b.txt at 5000
    assert!(matches!(r.tick(3_000), Ok(WorkerTickOutcome::Continue)));
    assert!(r.reachability.is_dest_online());
    assert_eq!(r.queue.pending_count(), 1);
    let synced = r.context.engine.synced_calls();
    assert_eq!(synced.len(), 1);
    assert_eq!(synced[0].0, "a.txt");
    assert_eq!(synced[0].1, "D:/dst");
    assert!(matches!(r.tick(5_000), Ok(WorkerTickOutcome::Continue)));
    assert_eq!(r.queue.pending_count(), 0);
    assert_eq!(r.context.engine.synced_calls().len(), 2);
}

#[test]
fn runner_tick_waits_for_an_offline_source() {
    let mut r = runner(true, false);
    assert!(r.handle_command(modified("a.txt"), 0));
    assert!(matches!(r.tick(10_000), Ok(WorkerTickOutcome::Continue)));
    assert_eq!(r.queue.pending_count(), 1);
    r.context.source_connectivity.set_online(true);
    assert!(matches!(r.tick(10_001), Ok(WorkerTickOutcome::Continue)));
    assert_eq!(r.queue.pending_count(), 0);
}

#[test]
fn test_sync_worker_preserves_retry_on_non_permanent_validation_error() {
    let mut r = runner(true, true);
    r.context.engine.set_sync_error(SyncError::validation("temporary lock conflict"));
    assert!(r.handle_command(modified("transient.txt"), 0));
    assert!(matches!(r.tick(3_000), Ok(WorkerTickOutcome::Continue)));
    assert_eq!(r.queue.pending_count(), 1);
    assert!(r.context.engine.synced_calls().is_empty());
    assert_eq!(r.context.engine.failed_calls().len(), 1);
}

#[test]
fn runner_settle_failure_classes() {
    let mut r = runner(true, true);
    // a permanent validation failure drops the path and forgets it
    let off = r.settle_sync_failure("p.txt".to_string(), SyncError::validation_security("bad path"), true, 10_000, 100);
    assert!(!off);
    assert_eq!(r.queue.pending_count(), 0);
    assert_eq!(r.state.failure_tracker.get(&"p.txt".to_string()), None);
    // any other failure is counted and retried after its backoff (the base interval first)
    let off = r.settle_sync_failure("t.txt".to_string(), SyncError::validation("busy"), true, 10_000, 100);
    assert!(!off);
    assert_eq!(r.queue.pending_count(), 1);
    assert_eq!(r.queue.earliest_deadline(), Some(10_100));
    assert_eq!(r.state.failure_tracker.get(&"t.txt".to_string()), Some(1));
    // a vanished source drops the path
    let mut r2 = runner(true, true);
    let off = r2.settle_sync_failure("gone.txt".to_string(), SyncError::io(IoErrorKind::NotFound), false, 10_000, 100);
    assert!(!off);
    assert_eq!(r2.queue.pending_count(), 0);
}

#[test]
fn runner_tick_observed_cancellation_does_nothing() {
    let mut r = runner(true, true);
    assert!(r.handle_command(modified("a.txt"), 0));
    assert!(matches!(r.tick_observed(5_000, true, true), Ok(WorkerTickOutcome::ShutdownRequested)));
    assert_eq!(r.queue.pending_count(), 1);
    assert!(r.context.engine.synced_calls().is_empty());
}

#[test]
fn runner_tick_observed_offline_source_hands_nothing_on() {
    let mut r = runner(true, true);
    assert!(r.handle_command(modified("a.txt"), 0));
    assert!(r.handle_command(SyncCommand::FileDeleted(RelativePath::try_new("b.txt").unwrap()), 0));
    assert!(matches!(r.tick_observed(10_000, false, false), Ok(WorkerTickOutcome::Continue)));
    assert_eq!(r.queue.pending_count(), 2);
    assert!(r.context.engine.synced_calls().is_empty());
    assert!(r.context.engine.deleted_calls().is_empty());
    assert_eq!(r.context.engine.full_scans_count(), 0);
}

#[test]
fn runner_full_scan_command_with_the_source_offline_changes_nothing() {
    let mut r = runner(true, true);
    assert!(r.handle_command_observed(SyncCommand::TriggerFullScan, 0, false));
    assert_eq!(r.context.engine.full_scans_count(), 0);
    assert!(!r.reachability.is_dest_online());
    assert_eq!(r.queue.pending_count(), 0);
}

#[test]
fn runner_full_scan_command_with_the_source_online_scans_and_marks_online() {
    let mut r = runner(true, true);
    r.state.mark_needs_catchup_scan();
    assert!(r.handle_command_observed(SyncCommand::TriggerFullScan, 0, true));
    assert_eq!(r.context.engine.full_scans_count(), 1);
    assert!(r.reachability.is_dest_online());
    assert!(!r.state.needs_catchup_scan);
}

#[test]
fn runner_full_scan_command_unreachable_marks_offline() {
    let mut r = runner(true, true);
    r.context.engine.set_scan_outcome(Some(syncdir::types::ScanOutcome::DestinationUnreachable));
    assert!(r.handle_command_observed(SyncCommand::TriggerFullScan, 0, true));
    assert_eq!(r.context.engine.full_scans_count(), 1);
    assert!(!r.reachability.is_dest_online());
}

#[test]
fn runner_tick_evicts_a_permanent_failure() {
    let mut r = runner(true, true);
    r.context.engine.set_sync_error(SyncError::validation_security("Unsafe path traversal detected: ../secret"));
    assert!(r.handle_command(modified("bad.txt"), 0));
    assert!(matches!(r.tick(3_000), Ok(WorkerTickOutcome::Continue)));
    assert_eq!(r.queue.pending_count(), 0);
    assert_eq!(r.context.engine.failed_calls().len(), 1);
    assert_eq!(r.state.failure_tracker.get(&"bad.txt".to_string()), None);
}

#[test]
fn runner_tick_prunes_once_per_interval_while_online() {
    let mut r = runner(true, true);
    let interval = r.state.hourly_prune_interval;
    assert!(matches!(r.tick(interval), Ok(WorkerTickOutcome::Continue)));
    assert_eq!(r.state.last_archive_prune, interval);
    assert_eq!(r.context.engine.prune_archive_calls().len(), 1);
    assert!(matches!(r.tick(interval + 1), Ok(WorkerTickOutcome::Continue)));
    assert_eq!(r.context.engine.prune_archive_calls().len(), 1);
}

struct Recorder {
    failed: std::sync::Mutex<Vec<String>>,
}

impl SyncStatusObserver for Recorder {
    fn on_target_status_change(&self, _target_index: usize, _state: ConnectivityState) {}

    fn on_write_verification_failed(&self, path: &str) {
        self.failed.lock().unwrap().push(path.to_string());
    }
}

#[test]
fn runner_permanent_failure_is_reported_once() {
    let (_tx, rx) = channel();
    let observer = Arc::new(Recorder { failed: std::sync::Mutex::new(Vec::new()) });
    let ctx = SyncWorkerContext::new(
        0,
        TargetSyncConfig::new("C:/src", "D:/dst"),
        MockSyncEngine::new(),
        rx,
        Some(observer.clone()),
        SourceConnectivityTracker::new(true),
        Arc::new(MockNetworkResolver::with_accessible(true)),
    );
    let mut r = SyncWorkerRunner::new(ctx, 0);
    r.context.engine.set_sync_error(SyncError::validation_security("Unsafe path traversal detected: ../secret"));
    assert!(r.handle_command(modified("bad.txt"), 0));
    assert!(matches!(r.tick(3_000), Ok(WorkerTickOutcome::Continue)));
    assert_eq!(r.queue.pending_count(), 0);
    assert_eq!(*observer.failed.lock().unwrap(), vec!["bad.txt".to_string()]);
    assert!(matches!(r.tick(4_000), Ok(WorkerTickOutcome::Continue)));
    assert_eq!(observer.failed.lock().unwrap().len(), 1);
}

#[test]
fn runner_tick_carries_out_due_deletions() {
    let mut r = runner(true, true);
    assert!(r.handle_command(SyncCommand::FileDeleted(RelativePath::try_new("old.txt").unwrap()), 0));
    assert!(matches!(r.tick_observed(3_000, false, true), Ok(WorkerTickOutcome::Continue)));
    assert_eq!(r.queue.pending_count(), 0);
    let deleted = r.context.engine.deleted_calls();
    assert_eq!(deleted.len(), 1);
    assert_eq!(deleted[0].0, "old.txt");
}

struct StatusRecorder {
    changes: std::sync::Mutex<Vec<ConnectivityState>>,
}

impl SyncStatusObserver for StatusRecorder {
    fn on_target_status_change(&self, _target_index: usize, state: ConnectivityState) {
        self.changes.lock().unwrap().push(state);
    }
}

#[test]
fn reachability_reports_each_change_once() {
    let observer = Arc::new(StatusRecorder { changes: std::sync::Mutex::new(Vec::new()) });
    let mut m = ReachabilityMonitor::new(3, "D:/dst", 5, Arc::new(MockNetworkResolver::with_accessible(true)));
    m.mark_offline(Some(&observer));
    m.mark_offline(Some(&observer));
    m.check_reachability(0, Some(&observer));
    assert!(m.is_dest_online());
    m.mark_online(Some(&observer));
    assert_eq!(*observer.changes.lock().unwrap(), vec![ConnectivityState::Offline, ConnectivityState::Online]);
}
