use std::sync::atomic::Ordering;
use std::sync::Arc;
use syncdir::context::SourceConnectivityTracker;
use syncdir::queue::DebounceQueue;
use syncdir::reachability::{MockNetworkResolver, ReachabilityMonitor};
use syncdir::runner::calculate_worker_poll_timeout;
use syncdir::state::{calculate_exponential_backoff, SyncWorkerState};
use syncdir::traits::SyncStatusObserver;
use syncdir::types::ConnectivityState;

struct NoObserver;

impl SyncStatusObserver for NoObserver {
    fn on_target_status_change(&self, _target_index: usize, _state: ConnectivityState) {}
}

#[test]
fn sync_test_source_connectivity_tracker() {
    let tracker = SourceConnectivityTracker::new(true);
    assert!(tracker.is_online());
    tracker.set_online(false);
    assert!(!tracker.is_online());
    let raw = tracker.raw_arc();
    assert!(!raw.load(Ordering::Relaxed));
}

#[test]
fn worker_test_source_connectivity_tracker() {
    let tracker = SourceConnectivityTracker::new(true);
    assert!(tracker.is_online());
    tracker.set_online(false);
    assert!(!tracker.is_online());
    let raw = tracker.raw_arc();
    assert!(!raw.load(Ordering::Relaxed));
}

fn stress(queue: &mut DebounceQueue) {
    for i in 0..10_000u64 {
        let path = format!("dir/file_{}.txt", i);
        let delay = i % 500 + 1;
        queue.enqueue_sync(path, 0, delay);
    }
    let start = std::time::Instant::now();
    for _ in 0..1000 {
        let dl = queue.earliest_deadline();
        assert!(dl.is_some());
    }
    let elapsed = start.elapsed();
    assert!(
        elapsed < std::time::Duration::from_millis(50),
        "1000 earliest_deadline queries on 10k items took {:?}, expected < 50ms (O(1) peek)",
        elapsed
    );
}

#[test]
fn sync_test_debounce_queue_stress_10k_entries() {
    let mut queue = DebounceQueue::new(20_000);
    stress(&mut queue);
}

#[test]
fn worker_test_debounce_queue_stress_10k_entries() {
    let mut queue = DebounceQueue::new(20_000);
    stress(&mut queue);
}

#[test]
fn sync_test_worker_io_backoff() {
    let base = 2000;
    let b1 = calculate_exponential_backoff(1, base);
    let b2 = calculate_exponential_backoff(2, base);
    let b3 = calculate_exponential_backoff(3, base);
    assert!(b1 <= b2);
    assert!(b2 <= b3);
}

#[test]
fn worker_test_worker_io_backoff() {
    let base = 2000;
    let b1 = calculate_exponential_backoff(1, base);
    let b2 = calculate_exponential_backoff(2, base);
    let b3 = calculate_exponential_backoff(3, base);
    assert!(b1 <= b2);
    assert!(b2 <= b3);
}

#[test]
fn worker_test_calculate_exponential_backoff() {
    let base = 5000;
    assert_eq!(calculate_exponential_backoff(1, base), 5000);
    assert_eq!(calculate_exponential_backoff(2, base), 10_000);
    assert_eq!(calculate_exponential_backoff(3, base), 20_000);
    assert_eq!(calculate_exponential_backoff(4, base), 40_000);
    assert_eq!(calculate_exponential_backoff(10, base), 300_000);
}

#[test]
fn sync_test_calculate_exponential_backoff() {
    let base = 5000;
    assert_eq!(calculate_exponential_backoff(1, base), 5000);
    assert_eq!(calculate_exponential_backoff(2, base), 10_000);
    assert_eq!(calculate_exponential_backoff(3, base), 20_000);
    assert_eq!(calculate_exponential_backoff(4, base), 40_000);
    assert_eq!(calculate_exponential_backoff(10, base), 300_000);
}

#[test]
fn worker_backoff_saturates_at_the_cap() {
    assert_eq!(calculate_exponential_backoff(0, 5000), 5000);
    assert_eq!(calculate_exponential_backoff(u32::MAX, u64::MAX), 300_000);
    assert_eq!(calculate_exponential_backoff(64, 1), 300_000);
}

fn queue_operations() {
    let mut queue = DebounceQueue::new(2);
    let p1 = "a.txt".to_string();
    let p2 = "b.txt".to_string();
    let p3 = "c.txt".to_string();
    let now = 1_000;

    assert!(queue.enqueue_sync(p1.clone(), now, 10));
    assert!(queue.enqueue_delete(p2.clone(), now, 20));
    assert!(!queue.enqueue_sync(p3, now, 10));
    assert!(queue.enqueue_sync(p1.clone(), now, 50));

    assert_eq!(queue.pending_sync_count(), 1);
    assert_eq!(queue.pending_delete_count(), 1);

    let drained = queue.drain_ready_syncs(now);
    assert!(drained.is_empty());

    let future = now + 1000;
    let ready_syncs = queue.drain_ready_syncs(future);
    assert_eq!(ready_syncs, vec![p1.clone()]);
    assert_eq!(queue.pending_sync_count(), 0);

    let ready_deletes = queue.drain_ready_deletes(future);
    assert_eq!(ready_deletes, vec![p2]);
    assert_eq!(queue.pending_delete_count(), 0);

    queue.requeue_sync_retry(p1.clone(), future, 50);
    assert_eq!(queue.pending_sync_count(), 1);
}

#[test]
fn worker_test_debounce_queue_operations() {
    queue_operations();
}

#[test]
fn sync_test_debounce_queue_operations() {
    queue_operations();
}

fn queue_min_heap_correctness() {
    let mut queue = DebounceQueue::new(10);
    let t0 = 10_000;
    queue.enqueue_sync("a.txt".to_string(), t0, 50);
    queue.enqueue_sync("b.txt".to_string(), t0, 10);
    queue.enqueue_delete("c.txt".to_string(), t0, 30);

    let dl1 = queue.earliest_deadline().unwrap();
    assert!(dl1 <= t0 + 20);

    queue.enqueue_sync("b.txt".to_string(), t0, 100);
    let dl2 = queue.earliest_deadline().unwrap();
    assert!(dl2 <= t0 + 40);

    queue.requeue_sync_retry("d.txt".to_string(), t0, 5);
    let dl3 = queue.earliest_deadline().unwrap();
    assert!(dl3 <= t0 + 15);

    let drained_sync = queue.drain_ready_syncs(t0 + 35);
    assert_eq!(drained_sync, vec!["d.txt".to_string()]);
    let drained_del = queue.drain_ready_deletes(t0 + 35);
    assert_eq!(drained_del, vec!["c.txt".to_string()]);

    let dl4 = queue.earliest_deadline().unwrap();
    assert!(dl4 <= t0 + 60);
}

#[test]
fn worker_test_debounce_queue_min_heap_correctness() {
    queue_min_heap_correctness();
}

#[test]
fn sync_test_debounce_queue_min_heap_correctness() {
    queue_min_heap_correctness();
}

#[test]
fn test_debounce_queue_action_replacement_at_capacity() {
    let mut q = DebounceQueue::new(2);
    let path1 = "file1.txt".to_string();
    let path2 = "file2.txt".to_string();
    let path3 = "file3.txt".to_string();

    assert!(q.enqueue_delete(path1.clone(), 0, 10_000));
    assert!(q.enqueue_delete(path2.clone(), 0, 10_000));
    assert_eq!(q.len(), 2);

    assert!(!q.enqueue_sync(path3.clone(), 0, 10_000));
    assert_eq!(q.len(), 2);

    assert!(q.enqueue_sync(path1.clone(), 0, 5000));
    assert_eq!(q.len(), 2);

    assert!(q.enqueue_delete(path1.clone(), 0, 5000));
    assert_eq!(q.len(), 2);
}

#[test]
fn test_debounce_queue_heap_compaction() {
    let mut q = DebounceQueue::new(100);
    let path = "frequently_edited.txt".to_string();
    for i in 1..=1000u64 {
        q.enqueue_sync(path.clone(), 0, i * 10);
    }
    assert_eq!(q.len(), 1);
    assert_eq!(q.earliest_deadline(), Some(10_000));
}

#[test]
fn worker_queue_drain_orders_by_deadline_and_empties() {
    let mut q = DebounceQueue::new(10);
    assert!(q.drain_ready_syncs(0).is_empty());
    assert!(q.drain_ready_deletes(0).is_empty());
    assert!(q.is_empty());
    q.enqueue_sync("late".to_string(), 0, 30);
    q.enqueue_sync("early".to_string(), 0, 10);
    q.enqueue_sync("mid".to_string(), 0, 20);
    q.enqueue_delete("del".to_string(), 0, 60);
    assert_eq!(q.drain_ready_syncs(25), vec!["early".to_string(), "mid".to_string()]);
    assert_eq!(q.drain_ready_syncs(25), Vec::<String>::new());
    assert_eq!(q.pending_count(), 2);
    assert_eq!(q.drain_ready_syncs(u64::MAX), vec!["late".to_string()]);
    assert_eq!(q.earliest_deadline(), Some(60));
}

#[test]
fn test_calculate_worker_poll_timeout() {
    let now = 50_000;
    assert_eq!(calculate_worker_poll_timeout(None, now, true), 1000);
    assert_eq!(calculate_worker_poll_timeout(None, now, false), 1000);

    let timeout_future = calculate_worker_poll_timeout(Some(now + 500), now, true);
    assert!(timeout_future <= 500);
    assert!(timeout_future >= 400);

    assert_eq!(calculate_worker_poll_timeout(Some(now + 2000), now, true), 1000);

    let past = now - 100;
    assert_eq!(calculate_worker_poll_timeout(Some(past), now, true), 0);
    assert_eq!(calculate_worker_poll_timeout(Some(past), now, false), 1000);
}

fn failure_tracking() {
    let mut state = SyncWorkerState::new(1024, 0);
    assert_eq!(state.scratch.len(), 1024);
    let p = "failed.txt".to_string();
    assert_eq!(state.record_failure(&p), 1);
    assert_eq!(state.record_failure(&p), 2);
    state.reset_failure(&p);
    assert_eq!(state.record_failure(&p), 1);

    assert!(!state.needs_catchup_scan());
    state.mark_needs_catchup_scan();
    assert!(state.needs_catchup_scan());
    assert!(!state.should_trigger_catchup_scan(0, 100, 50, true, true));
    assert!(!state.should_trigger_catchup_scan(0, 50, 50, false, true));
    assert!(!state.should_trigger_catchup_scan(0, 50, 50, true, false));
    assert!(state.should_trigger_catchup_scan(0, 50, 50, true, true));
    state.clear_needs_catchup_scan();
    assert!(!state.needs_catchup_scan());
}

#[test]
fn worker_test_sync_worker_state_failure_tracking() {
    failure_tracking();
}

#[test]
fn sync_test_sync_worker_state_failure_tracking() {
    failure_tracking();
}

fn reachability() {
    let target = "/tmp/target_dir";
    let mock_resolver = Arc::new(MockNetworkResolver::new());
    let mut monitor = ReachabilityMonitor::new(0, target, 5, mock_resolver);

    assert_eq!(monitor.active_dest(), target);
    assert!(!monitor.is_dest_online());

    monitor.check_reachability(0, None::<&Arc<NoObserver>>);
    assert!(monitor.is_dest_online());
}

#[test]
fn worker_test_reachability_monitor() {
    reachability();
}

#[test]
fn sync_test_reachability_monitor() {
    reachability();
}

#[test]
fn worker_reachability_probes_on_its_interval() {
    let mut monitor = ReachabilityMonitor::new(1, "d", 5, Arc::new(MockNetworkResolver::with_accessible(false)));
    assert!(monitor.should_check_reachability(0));
    monitor.check_reachability(1000, None::<&Arc<NoObserver>>);
    assert!(!monitor.is_dest_online());
    assert!(!monitor.should_check_reachability(5999));
    assert!(monitor.should_check_reachability(6000));
}

#[test]
fn worker_reachability_prefers_an_accessible_alternate_path() {
    let mut monitor = ReachabilityMonitor::new(0, "Z:/backup", 5, Arc::new(MockNetworkResolver::new()));
    monitor.record_probe(10, "//server/share/backup".to_string(), true, false, None::<&Arc<NoObserver>>);
    assert_eq!(monitor.active_dest(), "//server/share/backup");
    assert!(monitor.is_dest_online());
    // the alternate path went away but the configured one answers
    monitor.record_probe(20, "//server/share/backup".to_string(), false, true, None::<&Arc<NoObserver>>);
    assert_eq!(monitor.active_dest(), "Z:/backup");
    assert!(monitor.is_dest_online());
    // neither answers
    monitor.record_probe(30, "//server/share/backup".to_string(), false, false, None::<&Arc<NoObserver>>);
    assert_eq!(monitor.active_dest(), "Z:/backup");
    assert!(!monitor.is_dest_online());
    assert!(!monitor.should_check_reachability(5_029));
    assert!(monitor.should_check_reachability(5_030));
}
