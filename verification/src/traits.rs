//! Role interfaces of the synchronisation engine and of its status observers.

use vstd::prelude::*;
use std::sync::atomic::AtomicBool;
use crate::error::SyncError;
use crate::types::{ConnectivityState, WatcherState, ScanOutcome};

verus! {

/// Receives status changes of the sync workers, decoupling them from the user interface.
pub trait SyncStatusObserver: Send + Sync {
    /// Connectivity of target `target_index` changed.
    fn on_target_status_change(&self, target_index: usize, state: ConnectivityState);

    /// Source connectivity or watcher state changed.
    fn on_watcher_status_change(&self, source: ConnectivityState, watcher: WatcherState) {
    }

    /// Writing `path` failed verification for good.
    fn on_write_verification_failed(&self, path: &str) {
    }
}

/// Synchronises files.
pub trait FileSynchronizer {
    /// Synchronise `path` to the configured destination.
    fn sync_file(&mut self, path: &str) -> Result<(), SyncError>;

    /// Synchronise `path` to `dest_dir` with a caller-provided block buffer.
    fn sync_file_to_dest_buffered(&mut self, path: &str, dest_dir: &str, scratch: &mut Vec<u8>) -> Result<(), SyncError>;

    /// Synchronise `path` to `dest_dir`, staging its cache update for a later batch flush.
    fn sync_file_to_dest_staged(&mut self, path: &str, dest_dir: &str, scratch: &mut Vec<u8>) -> Result<(), SyncError> {
        self.sync_file_to_dest_buffered(path, dest_dir, scratch)
    }
}

/// Handles deletions.
pub trait FileDeleter {
    /// Archive `path` on the configured destination.
    fn delete_file(&mut self, path: &str) -> Result<(), SyncError>;

    /// Archive `path` on `dest_dir`.
    fn delete_file_from_dest(&mut self, path: &str, dest_dir: &str) -> Result<(), SyncError>;
}

/// Flushes staged cache updates.
pub trait BatchFlusher {
    /// Store every staged record in one transaction; by default nothing is staged, and
    /// this succeeds.
    fn flush_staged_syncs(&mut self) -> (r: Result<(), SyncError>)
        default_ensures
            r is Ok,
    {
        Ok(())
    }
}

/// Runs full directory scans.
pub trait ScanEngine {
    /// A full scan of `dest_dir`, cancellable through `cancel`.
    fn run_cancellable_full_scan(&mut self, dest_dir: &str, cancel: &AtomicBool) -> Result<ScanOutcome, SyncError>;

    /// A full scan of `dest_dir` that is never cancelled.
    fn run_full_scan(&mut self, dest_dir: &str) -> Result<ScanOutcome, SyncError> {
        let never = AtomicBool::new(false);
        self.run_cancellable_full_scan(dest_dir, &never)
    }
}

/// Maintains destination archives.
pub trait ArchiveEngine {
    /// Prune old and excess archived files on `dest_dir`; by default there is no archive,
    /// and this succeeds.
    fn prune_archive(&mut self, dest_dir: &str) -> (r: Result<(), SyncError>)
        default_ensures
            r is Ok,
    {
        Ok(())
    }
}

/// The whole synchronisation engine.
pub trait SyncEngine: FileSynchronizer + FileDeleter + BatchFlusher + ScanEngine + ArchiveEngine {
    /// Forget cached directory checks (e.g. after a reconnect).
    fn invalidate_verified_dirs(&mut self) {
    }
}

/// Aligns the letter case of destination names with the source on case-insensitive file systems.
pub trait CasingAligner {
    fn align_casing_if_needed(&mut self, dest_dir: &str, rel_path: &str) -> Result<(), SyncError>;
}

/// Archives deleted files and prunes archives.
pub trait ArchiveManager {
    fn archive_file(&mut self, dest_dir: &str, rel_path: &str) -> Result<(), SyncError>;

    fn prune(&mut self, dest_dir: &str) -> Result<(), SyncError>;
}

} // verus!
