//! In-memory test doubles: a sync engine that records its calls and answers with
//! configured failures, and a full-scan driver over in-memory files and records.

use vstd::prelude::*;
use std::sync::atomic::AtomicBool;
use crate::error::SyncError;
use crate::full_scan::{BlockHash, FullScanDriver, batch_records, record_paths};
use crate::path_safety::is_safe_relative_path;
use crate::queue::string_views;
use crate::text::str_eq;
use crate::traits::{ArchiveEngine, BatchFlusher, FileDeleter, FileSynchronizer, ScanEngine, SyncEngine};
use crate::types::{FileRecord, ScanOutcome};
use crate::context::load_flag;

verus! {

/// The character sequences of a sequence of string pairs.
pub open spec fn pair_views(s: Seq<(String, String)>) -> Seq<(Seq<char>, Seq<char>)> {
    s.map_values(|p: (String, String)| (p.0@, p.1@))
}

/// A copy of a list of string pairs.
fn copy_pairs(v: &Vec<(String, String)>) -> (r: Vec<(String, String)>)
    ensures
        pair_views(r@) == pair_views(v@),
{
    let mut r: Vec<(String, String)> = Vec::new();
    let mut i: usize = 0;
    while i < v.len()
        invariant
            i <= v@.len(),
            r@.len() == i,
            forall|k: int| 0 <= k < i ==> (#[trigger] r@[k]).0@ == v@[k].0@ && r@[k].1@ == v@[k].1@,
        decreases v@.len() - i,
    {
        let a = v[i].0.as_str().to_owned();
        let b = v[i].1.as_str().to_owned();
        r.push((a, b));
        i += 1;
    }
    assert(pair_views(r@) =~= pair_views(v@));
    r
}

/// A copy of a list of strings.
fn copy_strings(v: &Vec<String>) -> (r: Vec<String>)
    ensures
        string_views(r@) == string_views(v@),
{
    let mut r: Vec<String> = Vec::new();
    let mut i: usize = 0;
    while i < v.len()
        invariant
            i <= v@.len(),
            r@.len() == i,
            forall|k: int| 0 <= k < i ==> (#[trigger] r@[k])@ == v@[k]@,
        decreases v@.len() - i,
    {
        r.push(v[i].as_str().to_owned());
        i += 1;
    }
    assert(string_views(r@) =~= string_views(v@));
    r
}

proof fn lemma_push_contains(s: Seq<Seq<char>>, x: Seq<char>)
    ensures
        forall|p: Seq<char>| #[trigger] s.push(x).contains(p) <==> (s.contains(p) || p == x),
{
    assert forall|p: Seq<char>| #[trigger] s.push(x).contains(p) implies (s.contains(p) || p == x) by {
        let k = choose|k: int| 0 <= k < s.push(x).len() && s.push(x)[k] == p;
        if k < s.len() {
            assert(s[k] == p);
        }
    }
    assert forall|p: Seq<char>| (s.contains(p) || p == x) implies #[trigger] s.push(x).contains(p) by {
        if s.contains(p) {
            let k = choose|k: int| 0 <= k < s.len() && s[k] == p;
            assert(s.push(x)[k] == p);
        } else {
            assert(s.push(x)[s.len() as int] == p);
        }
    }
}

/// The configured failure for `path` in `table`, if any.
fn lookup_failure(table: &Vec<(String, SyncError)>, path: &str) -> (r: Option<SyncError>)
    ensures
        r == first_failure(table@, path@, 0),
{
    let mut i: usize = 0;
    while i < table.len()
        invariant
            i <= table@.len(),
            first_failure(table@, path@, 0) == first_failure(table@, path@, i as int),
        decreases table@.len() - i,
    {
        if str_eq(table[i].0.as_str(), path) {
            return Some(table[i].1.copy());
        }
        i += 1;
    }
    None
}

/// The error of the first entry of `table` from index `i` on that names `p`, if any.
pub open spec fn first_failure(table: Seq<(String, SyncError)>, p: Seq<char>, i: int) -> Option<SyncError>
    decreases table.len() - i,
{
    if i < 0 || i >= table.len() {
        None
    } else if table[i].0@ == p {
        Some(table[i].1)
    } else {
        first_failure(table, p, i + 1)
    }
}

/// The answer of a table (when set) or else of the configured error to an operation on `p`.
pub open spec fn mock_answer(table: Option<Vec<(String, SyncError)>>, error: Option<SyncError>, p: Seq<char>) -> Result<(), SyncError> {
    match table {
        Some(t) => match first_failure(t@, p, 0) {
            Some(e) => Err(e),
            None => Ok(()),
        },
        None => match error {
            Some(e) => Err(e),
            None => Ok(()),
        },
    }
}

/// A sync engine for tests: records each call and fails as configured.
#[derive(Debug)]
pub struct MockSyncEngine {
    synced_calls: Vec<(String, String)>,
    deleted_calls: Vec<(String, String)>,
    failed_calls: Vec<(String, String)>,
    prune_calls: Vec<String>,
    full_scans: usize,
    sync_error: Option<SyncError>,
    sync_handler: Option<Vec<(String, SyncError)>>,
    delete_handler: Option<Vec<(String, SyncError)>>,
    scan_outcome: Option<ScanOutcome>,
}

impl MockSyncEngine {
    /// Successful synchronisations, as (path, destination) pairs.
    pub closed spec fn spec_synced(&self) -> Seq<(Seq<char>, Seq<char>)> {
        pair_views(self.synced_calls@)
    }

    /// Successful deletions, as (path, destination) pairs.
    pub closed spec fn spec_deleted(&self) -> Seq<(Seq<char>, Seq<char>)> {
        pair_views(self.deleted_calls@)
    }

    /// Failed calls, as (path, error message) pairs.
    pub closed spec fn spec_failed(&self) -> Seq<(Seq<char>, Seq<char>)> {
        pair_views(self.failed_calls@)
    }

    /// Destinations of successful archive prunes.
    pub closed spec fn spec_pruned(&self) -> Seq<Seq<char>> {
        string_views(self.prune_calls@)
    }

    /// Number of full scans run.
    pub closed spec fn spec_full_scans(&self) -> nat {
        self.full_scans as nat
    }

    /// Whether an error is configured for every operation.
    pub closed spec fn spec_fails(&self) -> bool {
        self.sync_error is Some
    }

    /// What a synchronisation of `p` answers: the error of the first entry naming `p` in
    /// the per-path table when one is set, else the configured error, else success.
    pub closed spec fn spec_sync_answer(&self, p: Seq<char>) -> Result<(), SyncError> {
        mock_answer(self.sync_handler, self.sync_error, p)
    }

    /// What a deletion of `p` answers, as [`Self::spec_sync_answer`] with the deletion table.
    pub closed spec fn spec_delete_answer(&self, p: Seq<char>) -> Result<(), SyncError> {
        mock_answer(self.delete_handler, self.sync_error, p)
    }

    /// The error configured for every operation, if any.
    pub closed spec fn spec_error(&self) -> Option<SyncError> {
        self.sync_error
    }

    /// Whether a per-path table decides synchronisations.
    pub closed spec fn spec_has_sync_handler(&self) -> bool {
        self.sync_handler is Some
    }

    /// Whether a per-path table decides deletions.
    pub closed spec fn spec_has_delete_handler(&self) -> bool {
        self.delete_handler is Some
    }

    /// The outcome that scans report when they do not fail.
    pub closed spec fn spec_scan_outcome(&self) -> ScanOutcome {
        match self.scan_outcome {
            Some(o) => o,
            None => ScanOutcome::Success { synced: 0 },
        }
    }

    /// What a full scan that is not cancelled answers: the configured error when one is
    /// set, else the configured outcome.
    pub closed spec fn spec_scan_answer(&self) -> Result<ScanOutcome, SyncError> {
        match self.sync_error {
            Some(e) => Err(e),
            None => Ok(self.spec_scan_outcome()),
        }
    }

    /// An engine that has recorded nothing and fails nothing.
    pub fn new() -> (m: Self)
        ensures
            m.spec_synced() == Seq::<(Seq<char>, Seq<char>)>::empty(),
            m.spec_deleted() == Seq::<(Seq<char>, Seq<char>)>::empty(),
            m.spec_failed() == Seq::<(Seq<char>, Seq<char>)>::empty(),
            m.spec_pruned() == Seq::<Seq<char>>::empty(),
            m.spec_full_scans() == 0,
            !m.spec_fails(),
            !m.spec_has_sync_handler(),
            !m.spec_has_delete_handler(),
    {
        let m = MockSyncEngine {
            synced_calls: Vec::new(),
            deleted_calls: Vec::new(),
            failed_calls: Vec::new(),
            prune_calls: Vec::new(),
            full_scans: 0,
            sync_error: None,
            sync_handler: None,
            delete_handler: None,
            scan_outcome: None,
        };
        assert(m.spec_synced() =~= Seq::<(Seq<char>, Seq<char>)>::empty());
        assert(m.spec_deleted() =~= Seq::<(Seq<char>, Seq<char>)>::empty());
        assert(m.spec_failed() =~= Seq::<(Seq<char>, Seq<char>)>::empty());
        assert(m.spec_pruned() =~= Seq::<Seq<char>>::empty());
        m
    }

    /// Makes every later synchronisation, deletion, scan and prune fail with `error`
    /// (unless a per-path table decides).
    pub fn set_sync_error(&mut self, error: SyncError)
        ensures
            final(self).spec_fails(),
            final(self).spec_error() == Some(error),
            forall|p: Seq<char>| !final(self).spec_has_sync_handler() ==> #[trigger] final(self).spec_sync_answer(p)
                == Err::<(), SyncError>(error),
            forall|p: Seq<char>| !final(self).spec_has_delete_handler() ==> #[trigger] final(self).spec_delete_answer(p)
                == Err::<(), SyncError>(error),
            final(self).spec_synced() == old(self).spec_synced(),
            final(self).spec_deleted() == old(self).spec_deleted(),
            final(self).spec_failed() == old(self).spec_failed(),
            final(self).spec_has_sync_handler() == old(self).spec_has_sync_handler(),
            final(self).spec_has_delete_handler() == old(self).spec_has_delete_handler(),
    {
        self.sync_error = Some(error);
    }

    /// Removes the configured error.
    pub fn clear_sync_error(&mut self)
        ensures
            !final(self).spec_fails(),
            final(self).spec_synced() == old(self).spec_synced(),
            final(self).spec_deleted() == old(self).spec_deleted(),
            final(self).spec_failed() == old(self).spec_failed(),
            final(self).spec_has_sync_handler() == old(self).spec_has_sync_handler(),
            final(self).spec_has_delete_handler() == old(self).spec_has_delete_handler(),
    {
        self.sync_error = None;
    }

    /// Decides synchronisations per path: paths listed in `failures` fail with their
    /// error, all others succeed.
    pub fn set_sync_handler(&mut self, failures: Vec<(String, SyncError)>)
        ensures
            final(self).spec_has_sync_handler(),
            final(self).spec_fails() == old(self).spec_fails(),
            final(self).spec_has_delete_handler() == old(self).spec_has_delete_handler(),
    {
        self.sync_handler = Some(failures);
    }

    /// Removes the per-path synchronisation table.
    pub fn clear_sync_handler(&mut self)
        ensures
            !final(self).spec_has_sync_handler(),
            final(self).spec_fails() == old(self).spec_fails(),
            final(self).spec_has_delete_handler() == old(self).spec_has_delete_handler(),
    {
        self.sync_handler = None;
    }

    /// Decides deletions per path: paths listed in `failures` fail with their error, all
    /// others succeed.
    pub fn set_delete_handler(&mut self, failures: Vec<(String, SyncError)>)
        ensures
            final(self).spec_has_delete_handler(),
            final(self).spec_fails() == old(self).spec_fails(),
            final(self).spec_has_sync_handler() == old(self).spec_has_sync_handler(),
    {
        self.delete_handler = Some(failures);
    }

    /// Removes the per-path deletion table.
    pub fn clear_delete_handler(&mut self)
        ensures
            !final(self).spec_has_delete_handler(),
            final(self).spec_fails() == old(self).spec_fails(),
            final(self).spec_has_sync_handler() == old(self).spec_has_sync_handler(),
    {
        self.delete_handler = None;
    }

    /// Sets the outcome of later full scans (`None`: success with nothing synced).
    pub fn set_scan_outcome(&mut self, outcome: Option<ScanOutcome>)
        ensures
            final(self).spec_full_scans() == old(self).spec_full_scans(),
            final(self).spec_fails() == old(self).spec_fails(),
            final(self).spec_scan_outcome() == match outcome {
                Some(o) => o,
                None => ScanOutcome::Success { synced: 0 },
            },
            final(self).spec_synced() == old(self).spec_synced(),
            final(self).spec_deleted() == old(self).spec_deleted(),
            final(self).spec_failed() == old(self).spec_failed(),
            final(self).spec_pruned() == old(self).spec_pruned(),
            final(self).spec_has_sync_handler() == old(self).spec_has_sync_handler(),
            final(self).spec_has_delete_handler() == old(self).spec_has_delete_handler(),
    {
        self.scan_outcome = outcome;
    }

    /// Successful synchronisations, as (path, destination) pairs.
    pub fn synced_calls(&self) -> (r: Vec<(String, String)>)
        ensures
            pair_views(r@) == self.spec_synced(),
    {
        copy_pairs(&self.synced_calls)
    }

    /// Successful deletions, as (path, destination) pairs.
    pub fn deleted_calls(&self) -> (r: Vec<(String, String)>)
        ensures
            pair_views(r@) == self.spec_deleted(),
    {
        copy_pairs(&self.deleted_calls)
    }

    /// Failed calls, as (path, error message) pairs.
    pub fn failed_calls(&self) -> (r: Vec<(String, String)>)
        ensures
            pair_views(r@) == self.spec_failed(),
    {
        copy_pairs(&self.failed_calls)
    }

    /// Destinations of successful archive prunes.
    pub fn prune_archive_calls(&self) -> (r: Vec<String>)
        ensures
            string_views(r@) == self.spec_pruned(),
    {
        copy_strings(&self.prune_calls)
    }

    /// Same as [`Self::prune_archive_calls`].
    pub fn prune_calls(&self) -> (r: Vec<String>)
        ensures
            string_views(r@) == self.spec_pruned(),
    {
        self.prune_archive_calls()
    }

    /// Number of full scans run.
    pub fn full_scans_count(&self) -> (r: usize)
        ensures
            r == self.spec_full_scans(),
    {
        self.full_scans
    }

    /// Synchronises `path` to the empty destination; see [`FileSynchronizer::sync_file`].
    pub fn sync_file(&mut self, path: &str) -> (r: Result<(), SyncError>)
        ensures
            !old(self).spec_has_sync_handler() ==> (r is Err <==> old(self).spec_fails()),
            r == old(self).spec_sync_answer(path@),
            r is Ok ==> final(self).spec_synced() == old(self).spec_synced().push((path@, Seq::<char>::empty()))
                && final(self).spec_failed() == old(self).spec_failed(),
            r is Err ==> final(self).spec_failed() == old(self).spec_failed().push(
                (path@, r->Err_0.spec_message()),
            ) && final(self).spec_synced() == old(self).spec_synced(),
            final(self).spec_deleted() == old(self).spec_deleted(),
            final(self).spec_full_scans() == old(self).spec_full_scans(),
    {
        FileSynchronizer::sync_file(self, path)
    }

    /// Synchronises `path` to `dest_dir`; see [`FileSynchronizer::sync_file_to_dest_buffered`].
    pub fn sync_file_to_dest_buffered(&mut self, path: &str, dest_dir: &str, scratch: &mut Vec<u8>) -> (r: Result<(), SyncError>)
        ensures
            !old(self).spec_has_sync_handler() ==> (r is Err <==> old(self).spec_fails()),
            r == old(self).spec_sync_answer(path@),
            r is Ok ==> final(self).spec_synced() == old(self).spec_synced().push((path@, dest_dir@))
                && final(self).spec_failed() == old(self).spec_failed(),
            r is Err ==> final(self).spec_failed() == old(self).spec_failed().push(
                (path@, r->Err_0.spec_message()),
            ) && final(self).spec_synced() == old(self).spec_synced(),
            final(self).spec_deleted() == old(self).spec_deleted(),
            final(self).spec_full_scans() == old(self).spec_full_scans(),
    {
        FileSynchronizer::sync_file_to_dest_buffered(self, path, dest_dir, scratch)
    }

    /// Deletes `path` from the empty destination; see [`FileDeleter::delete_file`].
    pub fn delete_file(&mut self, path: &str) -> (r: Result<(), SyncError>)
        ensures
            !old(self).spec_has_delete_handler() ==> (r is Err <==> old(self).spec_fails()),
            r == old(self).spec_delete_answer(path@),
            r is Ok ==> final(self).spec_deleted() == old(self).spec_deleted().push((path@, Seq::<char>::empty()))
                && final(self).spec_failed() == old(self).spec_failed(),
            r is Err ==> final(self).spec_failed() == old(self).spec_failed().push(
                (path@, r->Err_0.spec_message()),
            ) && final(self).spec_deleted() == old(self).spec_deleted(),
            final(self).spec_synced() == old(self).spec_synced(),
            final(self).spec_full_scans() == old(self).spec_full_scans(),
    {
        FileDeleter::delete_file(self, path)
    }

    /// Deletes `path` from `dest_dir`; see [`FileDeleter::delete_file_from_dest`].
    pub fn delete_file_from_dest(&mut self, path: &str, dest_dir: &str) -> (r: Result<(), SyncError>)
        ensures
            !old(self).spec_has_delete_handler() ==> (r is Err <==> old(self).spec_fails()),
            r == old(self).spec_delete_answer(path@),
            r is Ok ==> final(self).spec_deleted() == old(self).spec_deleted().push((path@, dest_dir@))
                && final(self).spec_failed() == old(self).spec_failed(),
            r is Err ==> final(self).spec_failed() == old(self).spec_failed().push(
                (path@, r->Err_0.spec_message()),
            ) && final(self).spec_deleted() == old(self).spec_deleted(),
            final(self).spec_synced() == old(self).spec_synced(),
            final(self).spec_full_scans() == old(self).spec_full_scans(),
    {
        FileDeleter::delete_file_from_dest(self, path, dest_dir)
    }

    /// Prunes the archive of `dest_dir`; see [`ArchiveEngine::prune_archive`].
    pub fn prune_archive(&mut self, dest_dir: &str) -> (r: Result<(), SyncError>)
        ensures
            r is Err <==> old(self).spec_fails(),
            r is Ok ==> final(self).spec_pruned() == old(self).spec_pruned().push(dest_dir@),
            r is Err ==> final(self).spec_pruned() == old(self).spec_pruned(),
            final(self).spec_synced() == old(self).spec_synced(),
            final(self).spec_deleted() == old(self).spec_deleted(),
            final(self).spec_failed() == old(self).spec_failed(),
            final(self).spec_full_scans() == old(self).spec_full_scans(),
    {
        ArchiveEngine::prune_archive(self, dest_dir)
    }

    /// A full scan of `dest_dir` that is never cancelled; see [`ScanEngine::run_full_scan`].
    pub fn run_full_scan(&mut self, dest_dir: &str) -> (r: Result<ScanOutcome, SyncError>)
        ensures
            r is Ok ==> r->Ok_0 == old(self).spec_scan_outcome(),
            (r is Err <==> old(self).spec_fails()),
            r == old(self).spec_scan_answer(),
            old(self).spec_full_scans() < usize::MAX ==> final(self).spec_full_scans() == old(self).spec_full_scans() + 1,
            old(self).spec_full_scans() == usize::MAX ==> final(self).spec_full_scans() == old(self).spec_full_scans(),
            final(self).spec_synced() == old(self).spec_synced(),
            final(self).spec_deleted() == old(self).spec_deleted(),
            final(self).spec_failed() == old(self).spec_failed(),
            final(self).spec_pruned() == old(self).spec_pruned(),
    {
        ScanEngine::run_full_scan(self, dest_dir)
    }

    /// A full scan of `dest_dir`, cancellable through `cancel`; see
    /// [`ScanEngine::run_cancellable_full_scan`].
    pub fn run_cancellable_full_scan(&mut self, dest_dir: &str, cancel: &AtomicBool) -> (r: Result<ScanOutcome, SyncError>)
        ensures
            final(self).spec_full_scans() == old(self).spec_full_scans() || final(self).spec_full_scans()
                == old(self).spec_full_scans() + 1,
            r is Ok ==> r->Ok_0 == old(self).spec_scan_outcome(),
            (r == Err::<ScanOutcome, SyncError>(SyncError::Cancelled) && final(self).spec_full_scans()
                == old(self).spec_full_scans()) || ((r is Err <==> old(self).spec_fails()) && r == old(self).spec_scan_answer()
                && final(self).spec_full_scans() == if old(self).spec_full_scans() < usize::MAX {
                old(self).spec_full_scans() + 1
            } else {
                old(self).spec_full_scans()
            }),
            final(self).spec_synced() == old(self).spec_synced(),
            final(self).spec_deleted() == old(self).spec_deleted(),
            final(self).spec_failed() == old(self).spec_failed(),
            final(self).spec_pruned() == old(self).spec_pruned(),
    {
        ScanEngine::run_cancellable_full_scan(self, dest_dir, cancel)
    }

    /// The answer to a synchronisation (`sync` true) or deletion of `path`.
    fn respond(&self, path: &str, sync: bool) -> (r: Result<(), SyncError>)
        ensures
            (if sync { self.sync_handler is None } else { self.delete_handler is None }) ==> (r is Err
                <==> self.sync_error is Some),
            r == (if sync { self.spec_sync_answer(path@) } else { self.spec_delete_answer(path@) }),
    {
        let table = if sync { &self.sync_handler } else { &self.delete_handler };
        match table {
            Some(t) => match lookup_failure(t, path) {
                Some(e) => Err(e),
                None => Ok(()),
            },
            None => match &self.sync_error {
                Some(e) => Err(e.copy()),
                None => Ok(()),
            },
        }
    }

    /// Records the outcome of an operation on `path` towards `dest_dir`.
    fn record(&mut self, sync: bool, path: &str, dest_dir: &str, res: &Result<(), SyncError>)
        ensures
            res is Ok && sync ==> final(self).spec_synced() == old(self).spec_synced().push((path@, dest_dir@))
                && final(self).spec_deleted() == old(self).spec_deleted() && final(self).spec_failed()
                == old(self).spec_failed(),
            res is Ok && !sync ==> final(self).spec_deleted() == old(self).spec_deleted().push(
                (path@, dest_dir@),
            ) && final(self).spec_synced() == old(self).spec_synced() && final(self).spec_failed()
                == old(self).spec_failed(),
            res is Err ==> final(self).spec_failed() == old(self).spec_failed().push(
                (path@, res->Err_0.spec_message()),
            ) && final(self).spec_synced() == old(self).spec_synced() && final(self).spec_deleted()
                == old(self).spec_deleted(),
            final(self).spec_pruned() == old(self).spec_pruned(),
            final(self).spec_full_scans() == old(self).spec_full_scans(),
            final(self).sync_error == old(self).sync_error,
            final(self).sync_handler == old(self).sync_handler,
            final(self).delete_handler == old(self).delete_handler,
            final(self).scan_outcome == old(self).scan_outcome,
    {
        match res {
            Ok(()) => {
                if sync {
                    self.synced_calls.push((path.to_owned(), dest_dir.to_owned()));
                    assert(pair_views(self.synced_calls@) =~= pair_views(old(self).synced_calls@).push(
                        (path@, dest_dir@),
                    ));
                } else {
                    self.deleted_calls.push((path.to_owned(), dest_dir.to_owned()));
                    assert(pair_views(self.deleted_calls@) =~= pair_views(old(self).deleted_calls@).push(
                        (path@, dest_dir@),
                    ));
                }
            },
            Err(e) => {
                self.failed_calls.push((path.to_owned(), e.to_message()));
                assert(pair_views(self.failed_calls@) =~= pair_views(old(self).failed_calls@).push(
                    (path@, e.spec_message()),
                ));
            },
        }
    }
}

impl FileSynchronizer for MockSyncEngine {
    /// Records a synchronisation of `path` to the empty destination.
    fn sync_file(&mut self, path: &str) -> (r: Result<(), SyncError>)
        ensures
            !old(self).spec_has_sync_handler() ==> (r is Err <==> old(self).spec_fails()),
            r == old(self).spec_sync_answer(path@),
            r is Ok ==> final(self).spec_synced() == old(self).spec_synced().push((path@, Seq::<char>::empty()))
                && final(self).spec_failed() == old(self).spec_failed(),
            r is Err ==> final(self).spec_failed() == old(self).spec_failed().push(
                (path@, r->Err_0.spec_message()),
            ) && final(self).spec_synced() == old(self).spec_synced(),
            final(self).spec_deleted() == old(self).spec_deleted(),
            final(self).spec_full_scans() == old(self).spec_full_scans(),
    {
        let mut scratch: Vec<u8> = Vec::new();
        let empty: &str = "";
        proof {
            reveal_strlit("");
            assert(empty@ =~= Seq::<char>::empty());
        }
        self.sync_file_to_dest_buffered(path, empty, &mut scratch)
    }

    /// Records a synchronisation of `path` to `dest_dir`, failing as configured.
    fn sync_file_to_dest_buffered(&mut self, path: &str, dest_dir: &str, scratch: &mut Vec<u8>) -> (r: Result<(), SyncError>)
        ensures
            !old(self).spec_has_sync_handler() ==> (r is Err <==> old(self).spec_fails()),
            r == old(self).spec_sync_answer(path@),
            r is Ok ==> final(self).spec_synced() == old(self).spec_synced().push((path@, dest_dir@))
                && final(self).spec_failed() == old(self).spec_failed(),
            r is Err ==> final(self).spec_failed() == old(self).spec_failed().push(
                (path@, r->Err_0.spec_message()),
            ) && final(self).spec_synced() == old(self).spec_synced(),
            final(self).spec_deleted() == old(self).spec_deleted(),
            final(self).spec_full_scans() == old(self).spec_full_scans(),
    {
        let res = self.respond(path, true);
        self.record(true, path, dest_dir, &res);
        res
    }
}

impl FileDeleter for MockSyncEngine {
    /// Records a deletion of `path` from the empty destination.
    fn delete_file(&mut self, path: &str) -> (r: Result<(), SyncError>)
        ensures
            !old(self).spec_has_delete_handler() ==> (r is Err <==> old(self).spec_fails()),
            r == old(self).spec_delete_answer(path@),
            r is Ok ==> final(self).spec_deleted() == old(self).spec_deleted().push((path@, Seq::<char>::empty()))
                && final(self).spec_failed() == old(self).spec_failed(),
            r is Err ==> final(self).spec_failed() == old(self).spec_failed().push(
                (path@, r->Err_0.spec_message()),
            ) && final(self).spec_deleted() == old(self).spec_deleted(),
            final(self).spec_synced() == old(self).spec_synced(),
            final(self).spec_full_scans() == old(self).spec_full_scans(),
    {
        let empty: &str = "";
        proof {
            reveal_strlit("");
            assert(empty@ =~= Seq::<char>::empty());
        }
        self.delete_file_from_dest(path, empty)
    }

    /// Records a deletion of `path` from `dest_dir`, failing as configured.
    fn delete_file_from_dest(&mut self, path: &str, dest_dir: &str) -> (r: Result<(), SyncError>)
        ensures
            !old(self).spec_has_delete_handler() ==> (r is Err <==> old(self).spec_fails()),
            r == old(self).spec_delete_answer(path@),
            r is Ok ==> final(self).spec_deleted() == old(self).spec_deleted().push((path@, dest_dir@))
                && final(self).spec_failed() == old(self).spec_failed(),
            r is Err ==> final(self).spec_failed() == old(self).spec_failed().push(
                (path@, r->Err_0.spec_message()),
            ) && final(self).spec_deleted() == old(self).spec_deleted(),
            final(self).spec_synced() == old(self).spec_synced(),
            final(self).spec_full_scans() == old(self).spec_full_scans(),
    {
        let res = self.respond(path, false);
        self.record(false, path, dest_dir, &res);
        res
    }
}

impl BatchFlusher for MockSyncEngine {
}

impl ScanEngine for MockSyncEngine {
    /// Counts a scan and answers with the configured error or outcome; a raised
    /// cancellation flag cancels it first.
    fn run_cancellable_full_scan(&mut self, dest_dir: &str, cancel: &AtomicBool) -> (r: Result<ScanOutcome, SyncError>)
        ensures
            final(self).spec_full_scans() == old(self).spec_full_scans() || final(self).spec_full_scans()
                == old(self).spec_full_scans() + 1,
            r is Ok ==> r->Ok_0 == old(self).spec_scan_outcome(),
            (r == Err::<ScanOutcome, SyncError>(SyncError::Cancelled) && final(self).spec_full_scans()
                == old(self).spec_full_scans()) || ((r is Err <==> old(self).spec_fails()) && r == old(self).spec_scan_answer()
                && final(self).spec_full_scans() == if old(self).spec_full_scans() < usize::MAX {
                old(self).spec_full_scans() + 1
            } else {
                old(self).spec_full_scans()
            }),
            final(self).spec_synced() == old(self).spec_synced(),
            final(self).spec_deleted() == old(self).spec_deleted(),
            final(self).spec_failed() == old(self).spec_failed(),
            final(self).spec_pruned() == old(self).spec_pruned(),
    {
        if load_flag(cancel) {
            return Err(SyncError::Cancelled);
        }
        self.answer_scan()
    }

    /// Counts a scan and answers with the configured error or outcome.
    fn run_full_scan(&mut self, dest_dir: &str) -> (r: Result<ScanOutcome, SyncError>)
        ensures
            r is Ok ==> r->Ok_0 == old(self).spec_scan_outcome(),
            (r is Err <==> old(self).spec_fails()),
            r == old(self).spec_scan_answer(),
            old(self).spec_full_scans() < usize::MAX ==> final(self).spec_full_scans() == old(self).spec_full_scans() + 1,
            old(self).spec_full_scans() == usize::MAX ==> final(self).spec_full_scans() == old(self).spec_full_scans(),
            final(self).spec_synced() == old(self).spec_synced(),
            final(self).spec_deleted() == old(self).spec_deleted(),
            final(self).spec_failed() == old(self).spec_failed(),
            final(self).spec_pruned() == old(self).spec_pruned(),
    {
        self.answer_scan()
    }
}

impl MockSyncEngine {
    /// Counts a scan and answers with the configured error or outcome.
    fn answer_scan(&mut self) -> (r: Result<ScanOutcome, SyncError>)
        ensures
            r is Ok ==> r->Ok_0 == old(self).spec_scan_outcome(),
            (r is Err <==> old(self).spec_fails()),
            r == old(self).spec_scan_answer(),
            old(self).spec_full_scans() < usize::MAX ==> final(self).spec_full_scans() == old(self).spec_full_scans() + 1,
            old(self).spec_full_scans() == usize::MAX ==> final(self).spec_full_scans() == old(self).spec_full_scans(),
            final(self).spec_synced() == old(self).spec_synced(),
            final(self).spec_deleted() == old(self).spec_deleted(),
            final(self).spec_failed() == old(self).spec_failed(),
            final(self).spec_pruned() == old(self).spec_pruned(),
            final(self).sync_error == old(self).sync_error,
            final(self).sync_handler == old(self).sync_handler,
            final(self).delete_handler == old(self).delete_handler,
            final(self).scan_outcome == old(self).scan_outcome,
    {
        if self.full_scans < usize::MAX {
            self.full_scans = self.full_scans + 1;
        }
        match &self.sync_error {
            Some(e) => {
                return Err(e.copy());
            },
            None => {},
        }
        match self.scan_outcome {
            Some(o) => Ok(o),
            None => Ok(ScanOutcome::Success { synced: 0 }),
        }
    }
}

impl ArchiveEngine for MockSyncEngine {
    /// Records a prune of `dest_dir`, or fails with the configured error.
    fn prune_archive(&mut self, dest_dir: &str) -> (r: Result<(), SyncError>)
        ensures
            r is Err <==> old(self).spec_fails(),
            r is Ok ==> final(self).spec_pruned() == old(self).spec_pruned().push(dest_dir@),
            r is Err ==> final(self).spec_pruned() == old(self).spec_pruned(),
            final(self).spec_synced() == old(self).spec_synced(),
            final(self).spec_deleted() == old(self).spec_deleted(),
            final(self).spec_failed() == old(self).spec_failed(),
            final(self).spec_full_scans() == old(self).spec_full_scans(),
    {
        match &self.sync_error {
            Some(e) => {
                return Err(e.clone());
            },
            None => {},
        }
        self.prune_calls.push(dest_dir.to_owned());
        assert(string_views(self.prune_calls@) =~= string_views(old(self).prune_calls@).push(dest_dir@));
        Ok(())
    }
}

impl SyncEngine for MockSyncEngine {
}

/// Index of `path` in `files`, if present.
fn find_string(files: &Vec<String>, path: &str) -> (r: Option<usize>)
    ensures
        match r {
            Some(i) => i < files@.len() && files@[i as int]@ == path@,
            None => forall|j: int| 0 <= j < files@.len() ==> (#[trigger] files@[j])@ != path@,
        },
{
    let mut i: usize = 0;
    while i < files.len()
        invariant
            i <= files@.len(),
            forall|j: int| 0 <= j < i ==> (#[trigger] files@[j])@ != path@,
        decreases files@.len() - i,
    {
        if str_eq(files[i].as_str(), path) {
            return Some(i);
        }
        i += 1;
    }
    None
}

/// A full-scan driver over in-memory source files and cached records, recording the
/// files it synchronises, archives and forgets.
pub struct MockFullScanDriver {
    source_files: Vec<String>,
    scan_complete: bool,
    cached_records: Vec<FileRecord>,
    synced_files: Vec<(String, String)>,
    deleted_files: Vec<String>,
    archived_files: Vec<String>,
    pruned_archives: Vec<String>,
    propagate_deletions: bool,
    block_size: u64,
    dest_unreachable: bool,
    last_scan: Ghost<Option<(Seq<Seq<char>>, bool)>>,
    last_load: Ghost<Option<Seq<Seq<char>>>>,
    returned: Ghost<Seq<FileRecord>>,
    stored: Ghost<Seq<FileRecord>>,
}

impl MockFullScanDriver {
    /// The source files, without repetition.
    pub closed spec fn spec_source_files(&self) -> Seq<Seq<char>> {
        string_views(self.source_files@)
    }

    /// Whether scans report completeness.
    pub closed spec fn spec_scan_complete(&self) -> bool {
        self.scan_complete
    }

    /// The cached records.
    pub closed spec fn spec_cached(&self) -> Seq<FileRecord> {
        self.cached_records@
    }

    /// Whether the destination is reported unreachable.
    pub closed spec fn spec_dest_unreachable(&self) -> bool {
        self.dest_unreachable
    }

    /// Destinations whose archive was pruned.
    pub closed spec fn spec_pruned(&self) -> Seq<Seq<char>> {
        string_views(self.pruned_archives@)
    }

    /// The block size reported to the coordinator.
    pub closed spec fn spec_block_size(&self) -> u64 {
        self.block_size
    }

    /// A driver with no files or records, complete scans, deletions propagated,
    /// 4096-byte blocks and a reachable destination.
    pub fn new() -> (d: Self)
        ensures
            d.spec_source_files() == Seq::<Seq<char>>::empty(),
            d.spec_scan_complete(),
            d.spec_cached() == Seq::<FileRecord>::empty(),
            d.spec_propagate_deletions(),
            !d.spec_dest_unreachable(),
            d.sync_log() == Seq::<Seq<char>>::empty(),
            d.archive_log() == Seq::<Seq<char>>::empty(),
            d.deletion_log() == Seq::<Seq<char>>::empty(),
    {
        let d = MockFullScanDriver {
            source_files: Vec::new(),
            scan_complete: true,
            cached_records: Vec::new(),
            synced_files: Vec::new(),
            deleted_files: Vec::new(),
            archived_files: Vec::new(),
            pruned_archives: Vec::new(),
            propagate_deletions: true,
            block_size: 4096,
            dest_unreachable: false,
            last_scan: Ghost(None),
            last_load: Ghost(None),
            returned: Ghost(Seq::empty()),
            stored: Ghost(Seq::empty()),
        };
        assert(d.spec_source_files() =~= Seq::<Seq<char>>::empty());
        assert(d.sync_log() =~= Seq::<Seq<char>>::empty());
        assert(d.archive_log() =~= Seq::<Seq<char>>::empty());
        assert(d.deletion_log() =~= Seq::<Seq<char>>::empty());
        d
    }

    /// The same driver with `files` added to the source files (each at most once).
    pub fn with_source_files(self, files: Vec<String>) -> (d: Self)
        ensures
            forall|p: Seq<char>| #[trigger] d.spec_source_files().contains(p) <==> (self.spec_source_files().contains(p)
                || string_views(files@).contains(p)),
            d.spec_scan_complete() == self.spec_scan_complete(),
            d.spec_cached() == self.spec_cached(),
            d.spec_propagate_deletions() == self.spec_propagate_deletions(),
            d.spec_dest_unreachable() == self.spec_dest_unreachable(),
    {
        let mut d = self;
        let mut i: usize = 0;
        while i < files.len()
            invariant
                i <= files@.len(),
                forall|p: Seq<char>| #[trigger] string_views(d.source_files@).contains(p) <==> (string_views(
                    self.source_files@,
                ).contains(p) || string_views(files@).take(i as int).contains(p)),
                d.scan_complete == self.scan_complete,
                d.cached_records == self.cached_records,
                d.propagate_deletions == self.propagate_deletions,
                d.dest_unreachable == self.dest_unreachable,
            decreases files@.len() - i,
        {
            let ghost before = string_views(d.source_files@);
            let ghost x = files@[i as int]@;
            proof {
                assert(string_views(files@).take(i + 1) =~= string_views(files@).take(i as int).push(x));
                lemma_push_contains(string_views(files@).take(i as int), x);
            }
            match find_string(&d.source_files, files[i].as_str()) {
                Some(j) => {
                    assert(before[j as int] == x);
                    assert(before.contains(x));
                },
                None => {
                    d.source_files.push(files[i].as_str().to_owned());
                    assert(string_views(d.source_files@) =~= before.push(x));
                    proof {
                        lemma_push_contains(before, x);
                    }
                },
            }
            i += 1;
        }
        assert(string_views(files@).take(files@.len() as int) =~= string_views(files@));
        d
    }

    /// The same driver with scans reporting completeness `complete`.
    pub fn with_scan_complete(self, complete: bool) -> (d: Self)
        ensures
            d.spec_scan_complete() == complete,
            d.spec_source_files() == self.spec_source_files(),
            d.spec_cached() == self.spec_cached(),
            d.spec_propagate_deletions() == self.spec_propagate_deletions(),
            d.spec_dest_unreachable() == self.spec_dest_unreachable(),
    {
        MockFullScanDriver { scan_complete: complete, ..self }
    }

    /// The same driver with records (path, size, modification time) appended to the cache,
    /// numbered from one; an unsafe path is recorded as `fallback.txt`.
    pub fn with_cached_records(self, records: Vec<(String, u64, u64)>) -> (d: Self)
        ensures
            d.spec_cached().len() == self.spec_cached().len() + records@.len(),
            d.spec_cached().take(self.spec_cached().len() as int) == self.spec_cached(),
            forall|k: int| 0 <= k < records@.len() ==> (#[trigger] d.spec_cached()[self.spec_cached().len() + k]).id
                == Some(#[verifier::truncate] ((k + 1) as i64)),
            d.spec_source_files() == self.spec_source_files(),
            d.spec_scan_complete() == self.spec_scan_complete(),
            d.spec_propagate_deletions() == self.spec_propagate_deletions(),
            d.spec_dest_unreachable() == self.spec_dest_unreachable(),
    {
        let mut d = self;
        let n0 = d.cached_records.len();
        let mut i: usize = 0;
        while i < records.len()
            invariant
                i <= records@.len(),
                n0 == self.cached_records@.len(),
                d.cached_records@.len() == n0 + i,
                d.cached_records@.take(n0 as int) == self.cached_records@,
                forall|k: int| 0 <= k < i ==> (#[trigger] d.cached_records@[n0 + k]).id == Some(#[verifier::truncate] ((k + 1) as i64)),
                d.source_files == self.source_files,
                d.scan_complete == self.scan_complete,
                d.propagate_deletions == self.propagate_deletions,
                d.dest_unreachable == self.dest_unreachable,
            decreases records@.len() - i,
        {
            let path: &str = records[i].0.as_str();
            let rel = if is_safe_relative_path(path) { path.to_owned() } else { "fallback.txt".to_owned() };
            let id: i64 = #[verifier::truncate] (((i as u64) + 1) as i64);
            let ghost before = d.cached_records@;
            d.cached_records.push(FileRecord {
                id: Some(id),
                relative_path: rel,
                file_size: #[verifier::truncate] (records[i].1 as i64),
                last_modified: #[verifier::truncate] (records[i].2 as i64),
            });
            assert(d.cached_records@.take(n0 as int) =~= before.take(n0 as int));
            i += 1;
        }
        d
    }

    /// The same driver with deletions propagated or not.
    pub fn with_propagate_deletions(self, propagate: bool) -> (d: Self)
        ensures
            d.spec_propagate_deletions() == propagate,
            d.spec_source_files() == self.spec_source_files(),
            d.spec_scan_complete() == self.spec_scan_complete(),
            d.spec_cached() == self.spec_cached(),
            d.spec_dest_unreachable() == self.spec_dest_unreachable(),
    {
        MockFullScanDriver { propagate_deletions: propagate, ..self }
    }

    /// The same driver with the destination reported unreachable or not.
    pub fn with_dest_unreachable(self, unreachable: bool) -> (d: Self)
        ensures
            d.spec_dest_unreachable() == unreachable,
            d.spec_source_files() == self.spec_source_files(),
            d.spec_scan_complete() == self.spec_scan_complete(),
            d.spec_cached() == self.spec_cached(),
            d.spec_propagate_deletions() == self.spec_propagate_deletions(),
    {
        MockFullScanDriver { dest_unreachable: unreachable, ..self }
    }

    /// Synchronised (path, destination) pairs.
    pub fn synced_files(&self) -> (r: Vec<(String, String)>)
        ensures
            pair_views(r@).map_values(|p: (Seq<char>, Seq<char>)| p.0) == self.sync_log(),
    {
        copy_pairs(&self.synced_files)
    }

    /// Forgotten paths.
    pub fn deleted_files(&self) -> (r: Vec<String>)
        ensures
            string_views(r@) == self.deletion_log(),
    {
        copy_strings(&self.deleted_files)
    }

    /// Archived paths.
    pub fn archived_files(&self) -> (r: Vec<String>)
        ensures
            string_views(r@) == self.archive_log(),
    {
        copy_strings(&self.archived_files)
    }

    /// Destinations whose archive was pruned.
    pub fn pruned_archives(&self) -> (r: Vec<String>)
        ensures
            string_views(r@) == self.spec_pruned(),
    {
        copy_strings(&self.pruned_archives)
    }
}

impl FullScanDriver for MockFullScanDriver {
    closed spec fn last_scan(&self) -> Option<(Seq<Seq<char>>, bool)> {
        self.last_scan@
    }

    closed spec fn last_load(&self) -> Option<Seq<Seq<char>>> {
        self.last_load@
    }

    closed spec fn sync_log(&self) -> Seq<Seq<char>> {
        pair_views(self.synced_files@).map_values(|p: (Seq<char>, Seq<char>)| p.0)
    }

    closed spec fn archive_log(&self) -> Seq<Seq<char>> {
        string_views(self.archived_files@)
    }

    closed spec fn deletion_log(&self) -> Seq<Seq<char>> {
        string_views(self.deleted_files@)
    }

    closed spec fn spec_propagate_deletions(&self) -> bool {
        self.propagate_deletions
    }

    closed spec fn prune_log(&self) -> Seq<Seq<char>> {
        string_views(self.pruned_archives@)
    }

    closed spec fn resolution(&self, dest_dir: Seq<char>) -> Option<Option<Seq<char>>> {
        Some(if self.dest_unreachable { None } else { Some(dest_dir) })
    }

    closed spec fn keeps_record(&self) -> bool {
        true
    }

    closed spec fn returned_log(&self) -> Seq<FileRecord> {
        self.returned@
    }

    closed spec fn stored_log(&self) -> Seq<FileRecord> {
        self.stored@
    }

    closed spec fn reliable(&self) -> bool {
        true
    }

    fn resolve_active_destination(&self, dest_dir: &str) -> (r: Result<Option<String>, SyncError>)
        ensures
            r is Ok,
            self.spec_dest_unreachable() ==> r->Ok_0 is None,
            !self.spec_dest_unreachable() ==> r->Ok_0 is Some && r->Ok_0->Some_0@ == dest_dir@,
    {
        if self.dest_unreachable {
            Ok(None)
        } else {
            Ok(Some(dest_dir.to_owned()))
        }
    }

    fn scan_source_files(&mut self, cancel: &AtomicBool) -> (r: Result<(Vec<String>, bool), SyncError>)
        ensures
            r is Ok ==> string_views(r->Ok_0.0@) == old(self).spec_source_files() && r->Ok_0.1
                == old(self).spec_scan_complete(),
            r is Err ==> r->Err_0 is Cancelled,
    {
        if load_flag(cancel) {
            return Err(SyncError::Cancelled);
        }
        let files = copy_strings(&self.source_files);
        let complete = self.scan_complete;
        self.last_scan = Ghost(Some((string_views(files@), complete)));
        Ok((files, complete))
    }

    fn load_cached_records(&mut self) -> (r: Result<Vec<FileRecord>, SyncError>)
        ensures
            r is Ok,
            record_paths(r->Ok_0@) == record_paths(old(self).spec_cached()),
    {
        let mut out: Vec<FileRecord> = Vec::new();
        let mut i: usize = 0;
        while i < self.cached_records.len()
            invariant
                i <= self.cached_records@.len(),
                out@.len() == i,
                forall|k: int| 0 <= k < i ==> (#[trigger] out@[k]).relative_path@ == self.cached_records@[k].relative_path@,
            decreases self.cached_records@.len() - i,
        {
            let r = &self.cached_records[i];
            out.push(FileRecord {
                id: r.id,
                relative_path: r.relative_path.as_str().to_owned(),
                file_size: r.file_size,
                last_modified: r.last_modified,
            });
            i += 1;
        }
        assert(record_paths(out@) =~= record_paths(self.cached_records@));
        self.last_load = Ghost(Some(record_paths(out@)));
        Ok(out)
    }

    fn sync_file_core(
        &mut self,
        rel_path: &str,
        dest_dir: &str,
        scratch: &mut Vec<u8>,
        cached: Option<&FileRecord>,
    ) -> (r: Result<Option<(FileRecord, Vec<BlockHash>)>, SyncError>)
        ensures
            r is Ok,
    {
        self.synced_files.push((rel_path.to_owned(), dest_dir.to_owned()));
        proof {
            assert(pair_views(self.synced_files@) =~= pair_views(old(self).synced_files@).push((rel_path@, dest_dir@)));
            assert(self.sync_log() =~= old(self).sync_log().push(rel_path@));
        }
        let rel = if is_safe_relative_path(rel_path) { rel_path.to_owned() } else { "fallback.txt".to_owned() };
        let rec = FileRecord { id: None, relative_path: rel, file_size: 100, last_modified: 1000 };
        proof {
            self.returned = Ghost(self.returned@.push(rec));
        }
        Ok(Some((rec, Vec::new())))
    }

    fn archive_dest_file_only(&mut self, rel_path: &str, dest_dir: &str) -> (r: Result<(), SyncError>)
        ensures
            r is Ok,
    {
        self.archived_files.push(rel_path.to_owned());
        assert(string_views(self.archived_files@) =~= string_views(old(self).archived_files@).push(rel_path@));
        Ok(())
    }

    fn delete_files_batch(&mut self, paths: &Vec<String>) -> (r: Result<(), SyncError>)
        ensures
            r is Ok,
    {
        let mut i: usize = 0;
        while i < paths.len()
            invariant
                i <= paths@.len(),
                self.deleted_files@.len() == old(self).deleted_files@.len() + i,
                forall|k: int| 0 <= k < old(self).deleted_files@.len() ==> (#[trigger] self.deleted_files@[k])@ == old(self).deleted_files@[k]@,
                forall|k: int| 0 <= k < i ==> (#[trigger] self.deleted_files@[old(self).deleted_files@.len() + k])@ == paths@[k]@,
                self.synced_files == old(self).synced_files,
                self.archived_files == old(self).archived_files,
                self.last_scan == old(self).last_scan,
                self.last_load == old(self).last_load,
                self.propagate_deletions == old(self).propagate_deletions,
                self.pruned_archives == old(self).pruned_archives,
                self.returned == old(self).returned,
                self.stored == old(self).stored,
            decreases paths@.len() - i,
        {
            self.deleted_files.push(paths[i].as_str().to_owned());
            i += 1;
        }
        let ghost n0 = old(self).deleted_files@.len();
        assert forall|k: int| 0 <= k < self.deleted_files@.len() implies #[trigger] string_views(self.deleted_files@)[k]
            == (string_views(old(self).deleted_files@) + string_views(paths@))[k] by {
            if k >= n0 {
                assert(self.deleted_files@[n0 + (k - n0)]@ == paths@[k - n0]@);
            }
        }
        assert(string_views(self.deleted_files@) =~= string_views(old(self).deleted_files@) + string_views(paths@));
        let mut kept: Vec<FileRecord> = Vec::new();
        let mut j: usize = 0;
        while j < self.cached_records.len()
            invariant
                j <= self.cached_records@.len(),
            decreases self.cached_records@.len() - j,
        {
            if find_string(paths, self.cached_records[j].relative_path.as_str()).is_none() {
                let r = &self.cached_records[j];
                kept.push(FileRecord {
                    id: r.id,
                    relative_path: r.relative_path.as_str().to_owned(),
                    file_size: r.file_size,
                    last_modified: r.last_modified,
                });
            }
            j += 1;
        }
        self.cached_records = kept;
        Ok(())
    }

    fn flush_record_batch(&mut self, batch: &mut Vec<(FileRecord, Vec<BlockHash>)>) -> (r: Result<(), SyncError>)
        ensures
            r is Ok,
            final(batch)@.len() == 0,
    {
        proof {
            self.stored = Ghost(self.stored@ + batch_records(batch@));
        }
        batch.clear();
        Ok(())
    }

    fn prune_destination_archive(&mut self, dest_dir: &str) -> (r: Result<(), SyncError>)
        ensures
            r is Ok,
            final(self).spec_pruned() == old(self).spec_pruned().push(dest_dir@),
    {
        self.pruned_archives.push(dest_dir.to_owned());
        assert(string_views(self.pruned_archives@) =~= string_views(old(self).pruned_archives@).push(dest_dir@));
        Ok(())
    }

    fn propagate_deletions(&self) -> (r: bool) {
        self.propagate_deletions
    }

    fn block_size_bytes(&self) -> (r: u64)
        ensures
            r == self.spec_block_size(),
    {
        self.block_size
    }
}

} // verus!
