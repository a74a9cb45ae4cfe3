//! The sync worker's state machine: commands feed the debounce queue; each tick probes
//! reachability, prunes the archive, drains due work through the engine with retries and
//! exponential backoff, and runs catch-up scans. Times are milliseconds on the worker's clock.

use vstd::prelude::*;
use std::sync::Arc;
use crate::config::TargetSyncConfig;
use crate::context::{load_flag, SyncWorkerContext};
use crate::error::{SyncError, IoErrorKind, ValidationKind};
use crate::queue::{DebounceQueue, string_views, drained_exactly};
use crate::reachability::{NetworkResolver, ReachabilityMonitor};
use crate::state::{SyncWorkerState, backoff_ms, calculate_exponential_backoff, secs_to_ms, spec_secs_to_ms};
use crate::text::push_str;
use crate::traits::{SyncEngine, SyncStatusObserver};
use crate::types::{ScanOutcome, SyncCommand};

verus! {

/// Attempts after which a failing path is given up.
pub const MAX_RETRY_ATTEMPTS: u32 = 10;

/// Number of staged synchronisations stored per batch.
pub const STAGED_FLUSH_BATCH: usize = 500;

/// Longest wait of the worker's command poll, in milliseconds.
pub const MAX_POLL_TIMEOUT_MS: u64 = 1000;

/// How long the worker waits for a command before ticking again: until the earliest
/// deadline (at most one second), immediately when work is due and can be drained, and one
/// second when nothing is pending or due work cannot be drained.
pub open spec fn poll_timeout(queue_earliest: Option<u64>, now: u64, can_drain: bool) -> u64 {
    match queue_earliest {
        Some(dl) => if dl > now {
            if dl - now < MAX_POLL_TIMEOUT_MS { (dl - now) as u64 } else { MAX_POLL_TIMEOUT_MS }
        } else if can_drain {
            0
        } else {
            MAX_POLL_TIMEOUT_MS
        },
        None => MAX_POLL_TIMEOUT_MS,
    }
}

/// Exec form of [`poll_timeout`].
pub fn calculate_worker_poll_timeout(queue_earliest: Option<u64>, now: u64, can_drain: bool) -> (r: u64)
    ensures
        r == poll_timeout(queue_earliest, now, can_drain),
{
    match queue_earliest {
        Some(dl) => {
            if dl > now {
                let d = dl - now;
                if d < MAX_POLL_TIMEOUT_MS {
                    d
                } else {
                    MAX_POLL_TIMEOUT_MS
                }
            } else if can_drain {
                0
            } else {
                MAX_POLL_TIMEOUT_MS
            }
        },
        None => MAX_POLL_TIMEOUT_MS,
    }
}

/// Result of one tick of the worker.
#[derive(Debug, Clone, Copy, PartialEq, Eq, Structural)]
pub enum WorkerTickOutcome {
    /// Keep running.
    Continue,
    /// Cancellation or shutdown was requested.
    ShutdownRequested,
}

/// What the worker does with a path whose operation failed.
#[derive(Debug, Clone, Copy, PartialEq, Eq, Structural)]
pub enum FailureClass {
    /// A validation failure that no retry can cure: drop the path.
    Permanent,
    /// The destination went offline: mark it so and retry after the retry interval.
    NetworkOffline,
    /// The source file no longer exists: drop the path.
    SourceGone,
    /// Count the failure and retry with backoff, up to the attempt limit.
    Retryable,
}

/// Classification of a failed synchronisation; `source_exists` is consulted only for a
/// not-found I/O error.
pub open spec fn sync_failure_class(e: SyncError, source_exists: bool) -> FailureClass {
    match e {
        SyncError::WriteVerificationFailed { .. } => FailureClass::Retryable,
        SyncError::Validation { .. } => if e.spec_is_permanent_validation_failure() {
            FailureClass::Permanent
        } else {
            FailureClass::Retryable
        },
        SyncError::Io { kind, .. } => if e.spec_is_network_offline() {
            FailureClass::NetworkOffline
        } else if kind == IoErrorKind::NotFound && !source_exists {
            FailureClass::SourceGone
        } else {
            FailureClass::Retryable
        },
        _ => FailureClass::Retryable,
    }
}

/// How failed synchronisations are settled: only a security or reparse-point validation
/// failure is permanent, so a failed write verification (or any other validation failure)
/// is retried; only a network-offline I/O error takes the destination offline; only a
/// not-found I/O error whose source has vanished drops the path as gone; and a failed write
/// verification keeps its path queued exactly while its failure count stays within the
/// attempt limit.
pub proof fn lemma_sync_failure_classes(e: SyncError, source_exists: bool, counts: Map<Seq<char>, u32>, p: Seq<char>)
    ensures
        (sync_failure_class(e, source_exists) == FailureClass::Permanent) <==> (e matches SyncError::Validation { kind, .. }
            && (kind == ValidationKind::Security || kind == ValidationKind::ReparsePoint)),
        e is WriteVerificationFailed ==> sync_failure_class(e, source_exists) == FailureClass::Retryable,
        e is WriteVerificationFailed ==> (kept_queued(e, counts, p) <==> next_failure_count(counts, p) <= 10),
        (sync_failure_class(e, source_exists) == FailureClass::NetworkOffline) <==> (e is Io && e.spec_is_network_offline()),
        (sync_failure_class(e, source_exists) == FailureClass::SourceGone) <==> (e matches SyncError::Io { kind, .. }
            && kind == IoErrorKind::NotFound && !e.spec_is_network_offline() && !source_exists),
{
}

/// Classification of a failed deletion.
pub open spec fn delete_failure_class(e: SyncError) -> FailureClass {
    if e.spec_is_permanent_validation_failure() {
        FailureClass::Permanent
    } else if e.spec_is_network_offline() {
        FailureClass::NetworkOffline
    } else {
        FailureClass::Retryable
    }
}

/// How failed deletions are settled: only a security or reparse-point validation failure
/// is permanent, only a network-offline I/O error takes the destination offline, and every
/// other failure is retried.
pub proof fn lemma_delete_failure_classes(e: SyncError)
    ensures
        (delete_failure_class(e) == FailureClass::Permanent) <==> (e matches SyncError::Validation { kind, .. } && (kind
            == ValidationKind::Security || kind == ValidationKind::ReparsePoint)),
        (delete_failure_class(e) == FailureClass::NetworkOffline) <==> (e is Io && e.spec_is_network_offline()),
        delete_failure_class(e) != FailureClass::SourceGone,
{
}

/// Whether a failed synchronisation needs the source existence check.
pub open spec fn needs_source_check(e: SyncError) -> bool {
    e matches SyncError::Io { kind: IoErrorKind::NotFound, .. } && !e.spec_is_network_offline()
}

/// Exec form of [`sync_failure_class`].
pub fn classify_sync_failure(e: &SyncError, source_exists: bool) -> (r: FailureClass)
    ensures
        r == sync_failure_class(*e, source_exists),
{
    match e {
        SyncError::WriteVerificationFailed { .. } => FailureClass::Retryable,
        SyncError::Validation { .. } => {
            if e.is_permanent_validation_failure() {
                FailureClass::Permanent
            } else {
                FailureClass::Retryable
            }
        },
        SyncError::Io { kind, .. } => {
            if e.is_network_offline() {
                FailureClass::NetworkOffline
            } else if *kind == IoErrorKind::NotFound && !source_exists {
                FailureClass::SourceGone
            } else {
                FailureClass::Retryable
            }
        },
        _ => FailureClass::Retryable,
    }
}

/// Exec form of [`delete_failure_class`].
pub fn classify_delete_failure(e: &SyncError) -> (r: FailureClass)
    ensures
        r == delete_failure_class(*e),
{
    if e.is_permanent_validation_failure() {
        FailureClass::Permanent
    } else if e.is_network_offline() {
        FailureClass::NetworkOffline
    } else {
        FailureClass::Retryable
    }
}

/// Whether `e` is a not-found I/O error that is not a network failure.
fn is_not_found(e: &SyncError) -> (r: bool)
    ensures
        r == needs_source_check(*e),
{
    match e {
        SyncError::Io { kind: IoErrorKind::NotFound, .. } => !e.is_network_offline(),
        _ => false,
    }
}

/// `rel` under `dir`, joined with a slash unless `dir` already ends with a separator.
pub open spec fn joined_path(dir: Seq<char>, rel: Seq<char>) -> Seq<char> {
    if dir.len() == 0 || dir.last() == '/' || dir.last() == '\\' {
        dir + rel
    } else {
        dir + "/"@ + rel
    }
}

/// Exec form of [`joined_path`].
pub fn join_path(dir: &str, rel: &str) -> (r: String)
    ensures
        r@ == joined_path(dir@, rel@),
{
    let cs = crate::text::chars_of(dir);
    let mut s = dir.to_owned();
    if cs.len() > 0 && cs[cs.len() - 1] != '/' && cs[cs.len() - 1] != '\\' {
        push_str(&mut s, "/");
    }
    push_str(&mut s, rel);
    s
}

/// `Path::exists`: whether something exists at `path` on disk now.
#[verifier::external_body]
fn path_exists(path: &str) -> bool {
    std::path::Path::new(path).exists()
}

/// Whether the queue maps moved from `before` to `after` within one tick at `now`: no path
/// was added, paths not yet due kept their deadline, and any changed deadline lies at or
/// after `now`.
/// Whether an archive prune is due at `now` for worker state `st`.
pub open spec fn prune_due(st: SyncWorkerState, now: u64) -> bool {
    (now >= st.last_archive_prune && now - st.last_archive_prune >= st.hourly_prune_interval)
        || (now < st.last_archive_prune && st.hourly_prune_interval == 0)
}

/// Worker state `st` with its latest prune recorded at `now`.
pub open spec fn pruned_at(st: SyncWorkerState, now: u64) -> SyncWorkerState {
    SyncWorkerState { last_archive_prune: now, ..st }
}

/// Whether worker state `st` asks for a catch-up scan at `now` with `pending` queued paths,
/// the destination being `dest_online` (the source must also be online).
pub open spec fn catchup_wanted(st: SyncWorkerState, now: u64, pending: nat, threshold: usize, dest_online: bool) -> bool {
    &&& st.needs_catchup_scan
    &&& pending <= threshold
    &&& dest_online
    &&& match st.next_catchup_scan_attempt {
        None => true,
        Some(earliest) => now >= earliest,
    }
}

/// `after` is worker state `before` after a successful catch-up scan: no scan is wanted,
/// no retry is scheduled and no failure is counted.
pub open spec fn scan_succeeded(before: SyncWorkerState, after: SyncWorkerState) -> bool {
    &&& !after.needs_catchup_scan
    &&& after.catchup_scan_failures == 0
    &&& after.next_catchup_scan_attempt is None
    &&& after.failure_tracker.counts() == Map::<Seq<char>, u32>::empty()
    &&& after.last_archive_prune == before.last_archive_prune
    &&& after.hourly_prune_interval == before.hourly_prune_interval
}

/// The consecutive failure count of `p` after one more failure, saturating.
pub open spec fn next_failure_count(counts: Map<Seq<char>, u32>, p: Seq<char>) -> int {
    if counts.dom().contains(p) {
        if counts[p] == u32::MAX { u32::MAX as int } else { counts[p] + 1 }
    } else {
        1
    }
}

/// The two worker states agree on everything but the failure counts and the scratch buffer.
pub open spec fn same_but_failures(a: SyncWorkerState, b: SyncWorkerState) -> bool {
    &&& a.hourly_prune_interval == b.hourly_prune_interval
    &&& a.last_archive_prune == b.last_archive_prune
    &&& a.needs_catchup_scan == b.needs_catchup_scan
    &&& a.catchup_scan_failures == b.catchup_scan_failures
    &&& a.next_catchup_scan_attempt == b.next_catchup_scan_attempt
    &&& a.failure_tracker.spec_capacity() == b.failure_tracker.spec_capacity()
}

/// `after` is the record `before` of paths handed to the engine, followed by distinct paths
/// that were all due at `now` in the queue `queue`.
pub open spec fn handed_due(before: Seq<Seq<char>>, after: Seq<Seq<char>>, queue: Map<Seq<char>, u64>, now: u64) -> bool {
    &&& before.len() <= after.len()
    &&& after.take(before.len() as int) == before
    &&& after.skip(before.len() as int).no_duplicates()
    &&& forall|k: int| before.len() <= k < after.len() ==> queue.dom().contains(#[trigger] after[k]) && queue[after[k]] <= now
}

/// Whether a failed synchronisation with error `e` drops its path and reports it failed for
/// good, `n` being its failure count after this one: a permanent validation failure, or a
/// retryable one past the attempt limit.
pub open spec fn dropped_for_good(e: SyncError, source_exists: bool, n: int) -> bool {
    ||| sync_failure_class(e, source_exists) == FailureClass::Permanent
    ||| (sync_failure_class(e, source_exists) == FailureClass::Retryable && n > MAX_RETRY_ATTEMPTS)
}

/// Whether a synchronisation that answered `r` may leave its path queued: it failed, and
/// not for a permanent validation reason.
pub open spec fn may_stay_queued(r: Result<(), SyncError>) -> bool {
    r matches Err(e) && sync_failure_class(e, true) != FailureClass::Permanent
}

/// Whether a synchronisation of `p` that failed with `e`, the failure counts being
/// `counts`, certainly leaves `p` queued for a retry: the destination went offline, or the
/// failure is a retryable one within the attempt limit (not-found errors, which depend on
/// the source still existing, aside).
pub open spec fn kept_queued(e: SyncError, counts: Map<Seq<char>, u32>, p: Seq<char>) -> bool {
    &&& !needs_source_check(e)
    &&& (sync_failure_class(e, true) == FailureClass::NetworkOffline
        || (sync_failure_class(e, true) == FailureClass::Retryable && next_failure_count(counts, p) <= MAX_RETRY_ATTEMPTS))
}

/// The failure counts `a` and `b` agree at `p`.
pub open spec fn same_count_at(a: Map<Seq<char>, u32>, b: Map<Seq<char>, u32>, p: Seq<char>) -> bool {
    &&& a.dom().contains(p) == b.dom().contains(p)
    &&& b.dom().contains(p) ==> a[p] == b[p]
}

/// Whether every store of staged synchronisations logged after `before`, in `after`,
/// succeeded.
pub open spec fn flushes_ok_since(before: Seq<Result<(), SyncError>>, after: Seq<Result<(), SyncError>>) -> bool {
    forall|j: int| before.len() <= j < after.len() ==> #[trigger] after[j] is Ok
}

/// Where the synchronisation of `p` that answered `r` leaves `p` in the queue `queue`,
/// the failure counts having been `counts` before it: a success stored with every batch
/// leaves it out, a permanent validation failure leaves it out, and a failure that keeps
/// it (see [`kept_queued`]) leaves it in.
pub open spec fn settled(
    r: Result<(), SyncError>,
    p: Seq<char>,
    counts: Map<Seq<char>, u32>,
    queue: Map<Seq<char>, u64>,
    stores_ok: bool,
) -> bool {
    &&& (r is Ok && stores_ok) ==> !queue.dom().contains(p)
    &&& (r is Err && !may_stay_queued(r)) ==> !queue.dom().contains(p)
    &&& (r matches Err(e) && kept_queued(e, counts, p)) ==> queue.dom().contains(p)
}

/// Why each path of the sync queue `q` is there during a drain of `orig` at `now` that
/// started with `h0` paths handed and `f0` stores logged: it was not due, it was not handed
/// on, or it was handed on and either failed in a way that may keep it queued or succeeded
/// in a batch whose store failed.
pub open spec fn queued_reasons(
    q: Map<Seq<char>, u64>,
    orig: Map<Seq<char>, u64>,
    now: u64,
    h: Seq<Seq<char>>,
    res: Seq<Result<(), SyncError>>,
    h0: int,
    f0: Seq<Result<(), SyncError>>,
    f: Seq<Result<(), SyncError>>,
) -> bool {
    forall|p: Seq<char>| #[trigger] q.dom().contains(p) ==> (orig.dom().contains(p) && orig[p] > now)
        || !h.skip(h0).contains(p)
        || exists|m: int| h0 <= m < h.len() && #[trigger] h[m] == p && (may_stay_queued(res[m])
            || (res[m] is Ok && !flushes_ok_since(f0, f)))
}

/// Handing one more path `p`, not queued, to the engine keeps [`queued_reasons`].
proof fn lemma_queued_reasons_push(
    q: Map<Seq<char>, u64>,
    orig: Map<Seq<char>, u64>,
    now: u64,
    h: Seq<Seq<char>>,
    res: Seq<Result<(), SyncError>>,
    h0: int,
    f0: Seq<Result<(), SyncError>>,
    f: Seq<Result<(), SyncError>>,
    p: Seq<char>,
    r: Result<(), SyncError>,
)
    requires
        queued_reasons(q, orig, now, h, res, h0, f0, f),
        0 <= h0 <= h.len(),
        h.len() == res.len(),
        !q.dom().contains(p),
    ensures
        queued_reasons(q, orig, now, h.push(p), res.push(r), h0, f0, f),
{
    let h2 = h.push(p);
    let res2 = res.push(r);
    assert(h2.skip(h0) =~= h.skip(h0).push(p));
    assert forall|x: Seq<char>| #[trigger] q.dom().contains(x) implies (orig.dom().contains(x) && orig[x] > now)
        || !h2.skip(h0).contains(x)
        || exists|m: int| h0 <= m < h2.len() && #[trigger] h2[m] == x && (may_stay_queued(res2[m])
            || (res2[m] is Ok && !flushes_ok_since(f0, f))) by {
        if h.skip(h0).contains(x) && !(orig.dom().contains(x) && orig[x] > now) {
            let m = choose|m: int| h0 <= m < h.len() && #[trigger] h[m] == x && (may_stay_queued(res[m])
                || (res[m] is Ok && !flushes_ok_since(f0, f)));
            assert(h2[m] == h[m] && res2[m] == res[m]);
        } else if !h.skip(h0).contains(x) {
            if h2.skip(h0).contains(x) {
                let t = choose|t: int| 0 <= t < h2.skip(h0).len() && h2.skip(h0)[t] == x;
                if t < h.skip(h0).len() {
                    assert(h.skip(h0)[t] == x);
                }
            }
        }
    }
}

/// A failed synchronisation of the last handed path `p` that requeues it only when the
/// failure may keep it queued keeps [`queued_reasons`].
proof fn lemma_queued_reasons_failure(
    q: Map<Seq<char>, u64>,
    q2: Map<Seq<char>, u64>,
    orig: Map<Seq<char>, u64>,
    now: u64,
    h: Seq<Seq<char>>,
    res: Seq<Result<(), SyncError>>,
    h0: int,
    f0: Seq<Result<(), SyncError>>,
    f: Seq<Result<(), SyncError>>,
)
    requires
        queued_reasons(q, orig, now, h, res, h0, f0, f),
        0 <= h0 < h.len(),
        h.len() == res.len(),
        forall|x: Seq<char>| #[trigger] q2.dom().contains(x) ==> q.dom().contains(x) || x == h.last(),
        q2.dom().contains(h.last()) && !q.dom().contains(h.last()) ==> may_stay_queued(res.last()),
    ensures
        queued_reasons(q2, orig, now, h, res, h0, f0, f),
{
    assert forall|x: Seq<char>| #[trigger] q2.dom().contains(x) implies (orig.dom().contains(x) && orig[x] > now)
        || !h.skip(h0).contains(x)
        || exists|m: int| h0 <= m < h.len() && #[trigger] h[m] == x && (may_stay_queued(res[m])
            || (res[m] is Ok && !flushes_ok_since(f0, f))) by {
        if !q.dom().contains(x) {
            let m = h.len() - 1;
            assert(h[m] == x);
        }
    }
}

/// A store of staged synchronisations keeps [`queued_reasons`]: the paths it requeues
/// succeeded, and their batch failed to be stored.
proof fn lemma_queued_reasons_flush(
    q: Map<Seq<char>, u64>,
    q2: Map<Seq<char>, u64>,
    orig: Map<Seq<char>, u64>,
    now: u64,
    h: Seq<Seq<char>>,
    res: Seq<Result<(), SyncError>>,
    h0: int,
    f0: Seq<Result<(), SyncError>>,
    f: Seq<Result<(), SyncError>>,
    f2: Seq<Result<(), SyncError>>,
    staged: Seq<String>,
    idx: Seq<int>,
)
    requires
        queued_reasons(q, orig, now, h, res, h0, f0, f),
        0 <= h0 <= h.len(),
        f0.len() <= f.len(),
        f2 == f || f2 == f.push(f2.last()),
        forall|p: Seq<char>| #[trigger] q2.dom().contains(p) ==> q.dom().contains(p) || exists|k: int| 0 <= k < staged.len() && staged[k]@ == p,
        forall|p: Seq<char>| #[trigger] q2.dom().contains(p) && !q.dom().contains(p) ==> staged.len() > 0 && f2 == f.push(f2.last()) && f2.last() is Err,
        idx.len() == staged.len(),
        forall|k: int| 0 <= k < staged.len() ==> h0 <= #[trigger] idx[k] < h.len() && h[idx[k]] == staged[k]@ && res[idx[k]] is Ok,
    ensures
        queued_reasons(q2, orig, now, h, res, h0, f0, f2),
{
    assert forall|p: Seq<char>| #[trigger] q2.dom().contains(p) implies (orig.dom().contains(p) && orig[p] > now)
        || !h.skip(h0).contains(p)
        || exists|m: int| h0 <= m < h.len() && #[trigger] h[m] == p && (may_stay_queued(res[m])
            || (res[m] is Ok && !flushes_ok_since(f0, f2))) by {
        if q.dom().contains(p) {
            if h.skip(h0).contains(p) && !(orig.dom().contains(p) && orig[p] > now) {
                let m = choose|m: int| h0 <= m < h.len() && #[trigger] h[m] == p && (may_stay_queued(res[m])
                    || (res[m] is Ok && !flushes_ok_since(f0, f)));
                if !may_stay_queued(res[m]) {
                    let j = choose|j: int| f0.len() <= j < f.len() && !(#[trigger] f[j] is Ok);
                    assert(f2[j] == f[j]);
                }
            }
        } else {
            let k = choose|k: int| 0 <= k < staged.len() && staged[k]@ == p;
            let m = idx[k];
            assert(h[m] == p);
            assert(!(f2[f.len() as int] is Ok));
        }
    }
}

/// No path of `m` falls due before `now`.
pub open spec fn none_due_before(m: Map<Seq<char>, u64>, now: u64) -> bool {
    forall|p: Seq<char>| #[trigger] m.dom().contains(p) ==> m[p] >= now
}

pub open spec fn queue_frame(before: Map<Seq<char>, u64>, after: Map<Seq<char>, u64>, now: u64) -> bool {
    &&& forall|p: Seq<char>| #[trigger] after.dom().contains(p) ==> before.dom().contains(p)
    &&& forall|p: Seq<char>| #[trigger] before.dom().contains(p) && before[p] > now ==> after.dom().contains(p)
        && after[p] == before[p]
    &&& forall|p: Seq<char>| #[trigger] after.dom().contains(p) ==> after[p] == before[p] || after[p] >= now
}

/// A tick's effect on the queue composes.
pub proof fn lemma_queue_frame_trans(a: Map<Seq<char>, u64>, b: Map<Seq<char>, u64>, c: Map<Seq<char>, u64>, now: u64)
    requires
        queue_frame(a, b, now),
        queue_frame(b, c, now),
    ensures
        queue_frame(a, c, now),
{
    assert forall|p: Seq<char>| #[trigger] c.dom().contains(p) implies c[p] == a[p] || c[p] >= now by {
        assert(b.dom().contains(p));
    }
}

/// Leaving the queue alone is within a tick's frame.
pub proof fn lemma_queue_frame_refl(a: Map<Seq<char>, u64>, now: u64)
    ensures
        queue_frame(a, a, now),
{
}

/// Requeueing a due path with a deadline at or after `now` stays within the frame.
proof fn lemma_queue_frame_requeue(a: Map<Seq<char>, u64>, b: Map<Seq<char>, u64>, p: Seq<char>, d: u64, now: u64)
    requires
        queue_frame(a, b, now),
        a.dom().contains(p),
        a[p] <= now,
        d >= now,
    ensures
        queue_frame(a, b.insert(p, d), now),
{
}

/// Draining due paths stays within the frame.
proof fn lemma_queue_frame_drain(a: Map<Seq<char>, u64>, b: Map<Seq<char>, u64>, out: Seq<Seq<char>>, now: u64)
    requires
        drained_exactly(a, b, out, now),
    ensures
        queue_frame(a, b, now),
{
    assert forall|p: Seq<char>| #[trigger] b.dom().contains(p) implies a.dom().contains(p) && b[p] == a[p] by {
    }
    assert forall|p: Seq<char>| #[trigger] a.dom().contains(p) && a[p] > now implies b.dom().contains(p) && b[p] == a[p] by {
        assert(b.dom().contains(p) <==> (a.dom().contains(p) && a[p] > now));
    }
}

/// There is room to requeue a due path that left the queue.
proof fn lemma_room_for_requeue(
    orig_mine: Set<Seq<char>>,
    orig_other: Set<Seq<char>>,
    mine: Set<Seq<char>>,
    other: Set<Seq<char>>,
    p: Seq<char>,
)
    requires
        orig_mine.finite(),
        orig_other.finite(),
        mine.subset_of(orig_mine),
        other.subset_of(orig_other),
        orig_mine.contains(p),
        !mine.contains(p),
        orig_mine.len() + orig_other.len() <= usize::MAX,
    ensures
        mine.len() + other.len() < usize::MAX,
        mine.finite(),
        other.finite(),
{
    assert(mine.subset_of(orig_mine.remove(p)));
    vstd::set_lib::lemma_len_subset(mine, orig_mine.remove(p));
    vstd::set_lib::lemma_len_subset(other, orig_other);
}

/// The sync worker of one target.
pub struct SyncWorkerRunner<E: SyncEngine, O: SyncStatusObserver + ?Sized, R: NetworkResolver + ?Sized> {
    pub context: SyncWorkerContext<E, O, R>,
    pub queue: DebounceQueue,
    pub reachability: ReachabilityMonitor<R>,
    pub state: SyncWorkerState,
    pub drain_threshold: usize,
    /// The paths handed to the engine for synchronisation so far, in order: a record kept
    /// by the verified code at the point where it makes the call.
    pub handed: Ghost<Seq<Seq<char>>>,
    /// The engine's answer to each of those synchronisations, in the same order.
    pub results: Ghost<Seq<Result<(), SyncError>>>,
    /// The engine's answer to each request to store the staged synchronisations, in order.
    pub flushes: Ghost<Seq<Result<(), SyncError>>>,
    /// The paths handed to the engine for deletion so far, in order.
    pub deleted: Ghost<Seq<Seq<char>>>,
    /// The engine's answer to each full scan requested so far, in order.
    pub scans: Ghost<Seq<Result<ScanOutcome, SyncError>>>,
    /// How many times the engine was asked to forget its cached directory checks.
    pub invalidations: Ghost<nat>,
    /// The paths reported to the observer as failed for good, in order.
    pub reported: Ghost<Seq<Seq<char>>>,
    /// The destinations whose archive the engine was asked to prune, in order.
    pub prunes: Ghost<Seq<Seq<char>>>,
    /// The readings of the cancellation flag taken while draining the queue, in order.
    pub reads: Ghost<Seq<bool>>,
}

impl<E: SyncEngine, O: SyncStatusObserver + ?Sized, R: NetworkResolver + ?Sized> SyncWorkerRunner<E, O, R> {
    /// Internal consistency of the queue and the worker state.
    pub open spec fn wf(&self) -> bool {
        &&& self.queue.wf()
        &&& self.state.wf()
        &&& self.handed@.len() == self.results@.len()
    }

    /// The records of every call made to the engine.
    pub open spec fn logs(&self) -> (Seq<Seq<char>>, Seq<Result<(), SyncError>>, Seq<Result<(), SyncError>>, Seq<Seq<char>>, Seq<Result<ScanOutcome, SyncError>>, nat, Seq<Seq<char>>, Seq<Seq<char>>, Seq<bool>) {
        (self.handed@, self.results@, self.flushes@, self.deleted@, self.scans@, self.invalidations@, self.reported@, self.prunes@, self.reads@)
    }

    /// A worker for `context` started at time `now`: an empty queue of the context's
    /// capacity, an unprobed destination, fresh state, and a catch-up drain threshold of
    /// half the capacity, at most 1000.
    pub fn new(context: SyncWorkerContext<E, O, R>, now: u64) -> (r: Self)
        requires
            context.config.block_size_bytes <= usize::MAX,
        ensures
            r.wf(),
            r.queue.pending_syncs() == Map::<Seq<char>, u64>::empty(),
            r.queue.pending_deletes() == Map::<Seq<char>, u64>::empty(),
            r.queue.capacity() == context.max_pending_queue,
            r.drain_threshold == if context.max_pending_queue / 2 < 1000 {
                context.max_pending_queue / 2
            } else {
                1000
            },
            r.reachability.configured_dest@ == context.config.dest_dir@,
            !r.reachability.dest_online,
            r.state.last_archive_prune == now,
            !r.state.needs_catchup_scan,
            r.handed@ == Seq::<Seq<char>>::empty(),
            r.results@ == Seq::<Result<(), SyncError>>::empty(),
            r.flushes@ == Seq::<Result<(), SyncError>>::empty(),
            r.deleted@ == Seq::<Seq<char>>::empty(),
            r.scans@ == Seq::<Result<ScanOutcome, SyncError>>::empty(),
            r.invalidations@ == 0,
            r.reported@ == Seq::<Seq<char>>::empty(),
            r.prunes@ == Seq::<Seq<char>>::empty(),
            r.reads@ == Seq::<bool>::empty(),
    {
        let max_pending_queue = context.max_pending_queue;
        let queue = DebounceQueue::new(max_pending_queue);
        let reachability = ReachabilityMonitor::new(
            context.target_index,
            context.config.dest_dir(),
            context.config.retry_interval_seconds(),
            context.resolver.clone(),
        );
        let state = SyncWorkerState::new(context.config.block_size_bytes(), now);
        let half = max_pending_queue / 2;
        let drain_threshold = if half < 1000 { half } else { 1000 };
        SyncWorkerRunner {
            context,
            queue,
            reachability,
            state,
            drain_threshold,
            handed: Ghost(Seq::empty()),
            results: Ghost(Seq::empty()),
            flushes: Ghost(Seq::empty()),
            deleted: Ghost(Seq::empty()),
            scans: Ghost(Seq::empty()),
            invalidations: Ghost(0),
            reported: Ghost(Seq::empty()),
            prunes: Ghost(Seq::empty()),
            reads: Ghost(Seq::empty()),
        }
    }

    /// The observer, borrowed.
    fn observer_ref(o: &Option<Arc<O>>) -> (r: Option<&Arc<O>>)
        ensures
            r is Some <==> o is Some,
            r is Some ==> *r->Some_0 == o->Some_0,
    {
        match o {
            Some(x) => Some(x),
            None => None,
        }
    }

    /// `self` is `before` after one more full scan, logged last in `scans`: an unreachable
    /// destination was marked offline; any other outcome marked it online, recorded the
    /// catch-up scan as done and forgot the failure counts; an error changed nothing.
    pub open spec fn scan_recorded(&self, before: &Self) -> bool {
        &&& self.scans@.len() == before.scans@.len() + 1
        &&& self.scans@.drop_last() == before.scans@
        &&& self.context.config == before.context.config
        &&& self.prunes == before.prunes
        &&& self.reads == before.reads
        &&& self.handed == before.handed
        &&& self.results == before.results
        &&& self.flushes == before.flushes
        &&& self.deleted == before.deleted
        &&& self.queue == before.queue
        &&& self.drain_threshold == before.drain_threshold
        &&& self.reachability.last_status_check == before.reachability.last_status_check
        &&& match self.scans@.last() {
            Ok(ScanOutcome::DestinationUnreachable) => self.state == before.state && !self.reachability.dest_online,
            Ok(_) => scan_succeeded(before.state, self.state) && self.reachability.dest_online,
            Err(_) => self.state == before.state && self.reachability == before.reachability,
        }
    }

    /// Runs a full scan on the active destination and records its outcome: reachable
    /// scans mark the destination online and clear failures and the catch-up flag;
    /// unreachable ones mark it offline. Returns `true` when the scan was cancelled.
    fn run_scan_and_record(&mut self) -> (cancelled: bool)
        requires
            old(self).wf(),
        ensures
            final(self).wf(),
            final(self).context.config == old(self).context.config,
            final(self).context.observer == old(self).context.observer,
            final(self).scan_recorded(&*old(self)),
            final(self).invalidations == old(self).invalidations,
            final(self).prunes == old(self).prunes,
            final(self).reads == old(self).reads,
            cancelled == (final(self).scans@.last() == Err::<ScanOutcome, SyncError>(SyncError::Cancelled)),
    {
        let res = self.context.engine.run_cancellable_full_scan(self.reachability.active_dest(), &*self.context.cancellation);
        proof {
            self.scans = Ghost(self.scans@.push(res));
            assert(self.scans@.drop_last() =~= old(self).scans@);
        }
        match res {
            Ok(ScanOutcome::DestinationUnreachable) => {
                self.reachability.mark_offline(Self::observer_ref(&self.context.observer));
            },
            Ok(_) => {
                self.reachability.mark_online(Self::observer_ref(&self.context.observer));
                self.state.record_catchup_scan_success();
                self.state.clear_failures();
            },
            Err(SyncError::Cancelled) => {
                return true;
            },
            Err(_) => {},
        }
        false
    }

    /// What a command does to the worker, the source having been read as `source_online`
    /// (consulted for a full-scan request alone): changes are debounced into the queue,
    /// forgetting the path's failures (a refusal at capacity schedules a catch-up scan);
    /// a full-scan request with the source offline changes nothing, and with it online
    /// makes the engine forget its cached directory checks and runs one scan, recorded as
    /// [`Self::scan_recorded`] says. Only a cancelled scan stops the worker.
    pub open spec fn command_handled(&self, before: &Self, cmd: SyncCommand, now: u64, source_online: bool, keep_running: bool) -> bool {
        let debounce = spec_secs_to_ms(before.context.config.debounce_seconds);
        let deadline = if now + debounce > u64::MAX { u64::MAX } else { (now + debounce) as u64 };
        let q0 = before.queue;
        let q1 = self.queue;
        &&& self.wf()
        &&& self.context.config == before.context.config
        &&& q1.capacity() == q0.capacity()
        &&& match cmd {
            SyncCommand::FileModified(p) => {
                let accepted = q0.pending_syncs().dom().contains(p.view()) || q0.pending_deletes().dom().contains(
                    p.view(),
                ) || q0.spec_pending_count() < q0.capacity();
                &&& keep_running
                &&& self.logs() == before.logs()
                &&& self.reachability == before.reachability
                &&& self.state.failure_tracker.counts() == before.state.failure_tracker.counts().remove(p.view())
                &&& accepted ==> q1.pending_syncs() == q0.pending_syncs().insert(p.view(), deadline)
                    && q1.pending_deletes() == q0.pending_deletes().remove(p.view())
                &&& !accepted ==> q1.pending_syncs() == q0.pending_syncs() && q1.pending_deletes()
                    == q0.pending_deletes() && self.state.needs_catchup_scan
            },
            SyncCommand::FileDeleted(p) => {
                let accepted = q0.pending_syncs().dom().contains(p.view()) || q0.pending_deletes().dom().contains(
                    p.view(),
                ) || q0.spec_pending_count() < q0.capacity();
                &&& keep_running
                &&& self.logs() == before.logs()
                &&& self.reachability == before.reachability
                &&& self.state.failure_tracker.counts() == before.state.failure_tracker.counts().remove(p.view())
                &&& accepted ==> q1.pending_deletes() == q0.pending_deletes().insert(p.view(), deadline)
                    && q1.pending_syncs() == q0.pending_syncs().remove(p.view())
                &&& !accepted ==> q1.pending_syncs() == q0.pending_syncs() && q1.pending_deletes()
                    == q0.pending_deletes() && self.state.needs_catchup_scan
            },
            SyncCommand::TriggerFullScan => if source_online {
                &&& self.invalidations@ == before.invalidations@ + 1
                &&& self.scan_recorded(before)
                &&& keep_running == (self.scans@.last() != Err::<ScanOutcome, SyncError>(SyncError::Cancelled))
            } else {
                &&& keep_running
                &&& self.logs() == before.logs()
                &&& q1 == q0
                &&& self.reachability == before.reachability
                &&& self.state == before.state
            },
        }
    }

    /// Routes a command: changes are debounced into the queue (a refusal at capacity
    /// schedules a catch-up scan), and a full-scan request runs a scan when the source is
    /// online. Returns `false` when a scan was cancelled, asking the worker to stop. See
    /// [`Self::handle_command_observed`].
    pub fn handle_command(&mut self, cmd: SyncCommand, now: u64) -> (keep_running: bool)
        requires
            old(self).wf(),
        ensures
            exists|source_online: bool| final(self).command_handled(&*old(self), cmd, now, source_online, keep_running),
    {
        let source_online = self.context.source_connectivity.is_online();
        self.handle_command_observed(cmd, now, source_online)
    }

    /// Routes a command, the source connectivity flag having been read as `source_online`;
    /// see [`Self::command_handled`].
    pub fn handle_command_observed(&mut self, cmd: SyncCommand, now: u64, source_online: bool) -> (keep_running: bool)
        requires
            old(self).wf(),
        ensures
            final(self).command_handled(&*old(self), cmd, now, source_online, keep_running),
    {
        let debounce = secs_to_ms(self.context.config.debounce_seconds());
        match cmd {
            SyncCommand::FileModified(p) => {
                let path: String = p.as_str().to_owned();
                self.state.reset_failure(&path);
                if !self.queue.enqueue_sync(path, now, debounce) {
                    self.state.mark_needs_catchup_scan();
                }
                true
            },
            SyncCommand::FileDeleted(p) => {
                let path: String = p.as_str().to_owned();
                self.state.reset_failure(&path);
                if !self.queue.enqueue_delete(path, now, debounce) {
                    self.state.mark_needs_catchup_scan();
                }
                true
            },
            SyncCommand::TriggerFullScan => {
                if source_online {
                    self.context.engine.invalidate_verified_dirs();
                    proof {
                        self.invalidations = Ghost(self.invalidations@ + 1);
                    }
                    if self.run_scan_and_record() {
                        return false;
                    }
                }
                true
            },
        }
    }

    /// Tick phase 1: probe the destination when due; on reconnection forget cached
    /// directory checks and, the source having been read as `source_online`, run a
    /// catch-up scan if it is online. Returns `true` when that scan was cancelled.
    fn check_destination(&mut self, now: u64, source_online: bool) -> (cancelled: bool)
        requires
            old(self).wf(),
        ensures
            final(self).wf(),
            final(self).context.config == old(self).context.config,
            final(self).context.observer == old(self).context.observer,
            final(self).handed == old(self).handed,
            final(self).results == old(self).results,
            final(self).flushes == old(self).flushes,
            final(self).deleted == old(self).deleted,
            final(self).prunes == old(self).prunes,
            final(self).reads == old(self).reads,
            final(self).queue == old(self).queue,
            final(self).drain_threshold == old(self).drain_threshold,
            !old(self).reachability.probe_due(now) ==> final(self).reachability == old(self).reachability
                && final(self).logs() == old(self).logs() && final(self).state == old(self).state,
            final(self).reachability.last_status_check == (if old(self).reachability.probe_due(now) { Some(now) } else { old(self).reachability.last_status_check }),
            final(self).scans == old(self).scans || (source_online && {
                let mid_scans = final(self).scans@.drop_last();
                mid_scans == old(self).scans@ && final(self).scans@.len() == old(self).scans@.len() + 1
            }),
            final(self).state == old(self).state || scan_succeeded(old(self).state, final(self).state),
            cancelled ==> final(self).scans@.len() == old(self).scans@.len() + 1
                && final(self).scans@.last() == Err::<ScanOutcome, SyncError>(SyncError::Cancelled),
    {
        let was_offline = !self.reachability.is_dest_online();
        if self.reachability.should_check_reachability(now) {
            self.reachability.check_reachability(now, Self::observer_ref(&self.context.observer));
            if was_offline && self.reachability.is_dest_online() {
                self.context.engine.invalidate_verified_dirs();
                proof {
                    self.invalidations = Ghost(self.invalidations@ + 1);
                }
                if source_online {
                    if self.run_scan_and_record() {
                        return true;
                    }
                }
            }
        }
        false
    }

    /// Tick phase 2: prune the destination archive once per interval while it is online;
    /// a failed prune is ignored.
    fn prune_if_due(&mut self, now: u64)
        requires
            old(self).wf(),
        ensures
            final(self).handed == old(self).handed,
            final(self).results == old(self).results,
            final(self).flushes == old(self).flushes,
            final(self).deleted == old(self).deleted,
            final(self).scans == old(self).scans,
            final(self).invalidations == old(self).invalidations,
            final(self).reported == old(self).reported,
            final(self).drain_threshold == old(self).drain_threshold,
            final(self).reads == old(self).reads,
            final(self).prunes@ == if old(self).reachability.dest_online && prune_due(old(self).state, now) {
                old(self).prunes@.push(old(self).reachability.active_dest@)
            } else {
                old(self).prunes@
            },
            final(self).wf(),
            final(self).context.config == old(self).context.config,
            final(self).context.observer == old(self).context.observer,
            final(self).queue == old(self).queue,
            final(self).reachability == old(self).reachability,
            old(self).reachability.dest_online && prune_due(old(self).state, now) ==> final(self).state
                == pruned_at(old(self).state, now),
            !(old(self).reachability.dest_online && prune_due(old(self).state, now)) ==> final(self).state
                == old(self).state,
    {
        if self.reachability.is_dest_online() && self.state.should_prune_archive(now) {
            self.state.record_prune(now);
            let ghost st = self.state;
            let _ = self.context.engine.prune_archive(self.reachability.active_dest());
            proof {
                self.prunes = Ghost(self.prunes@.push(self.reachability.active_dest@));
            }
            assert(self.state == st);
        }
    }

    /// Requeues the synchronisation of the due path `path` after `delay`.
    fn requeue_sync(&mut self, path: String, now: u64, delay: u64, Ghost(orig_s): Ghost<Map<Seq<char>, u64>>, Ghost(orig_d): Ghost<Map<Seq<char>, u64>>)
        requires
            old(self).wf(),
            orig_s.dom().finite(),
            orig_d.dom().finite(),
            orig_s.dom().len() + orig_d.dom().len() <= usize::MAX,
            queue_frame(orig_s, old(self).queue.pending_syncs(), now),
            old(self).queue.pending_deletes().dom().subset_of(orig_d.dom()),
            orig_s.dom().contains(path@),
            orig_s[path@] <= now,
        ensures
            final(self).logs() == old(self).logs(),
            final(self).wf(),
            final(self).context.config == old(self).context.config,
            final(self).context.observer == old(self).context.observer,
            final(self).queue.capacity() == old(self).queue.capacity(),
            queue_frame(orig_s, final(self).queue.pending_syncs(), now),
            final(self).queue.pending_deletes() == old(self).queue.pending_deletes(),
            final(self).state == old(self).state,
            final(self).reachability == old(self).reachability,
            final(self).queue.pending_syncs() == old(self).queue.pending_syncs().insert(path@, now.saturating_add(delay) as u64),
    {
        proof {
            self.queue.lemma_counts();
            if !self.queue.pending_syncs().dom().contains(path@) {
                lemma_room_for_requeue(orig_s.dom(), orig_d.dom(), self.queue.pending_syncs().dom(), self.queue.pending_deletes().dom(), path@);
            }
            lemma_queue_frame_requeue(orig_s, self.queue.pending_syncs(), path@, now.saturating_add(delay) as u64, now);
        }
        self.queue.requeue_sync_retry(path, now, delay);
    }

    /// Requeues the deletion of the due path `path` after `delay`.
    fn requeue_delete(&mut self, path: String, now: u64, delay: u64, Ghost(orig_s): Ghost<Map<Seq<char>, u64>>, Ghost(orig_d): Ghost<Map<Seq<char>, u64>>)
        requires
            old(self).wf(),
            orig_s.dom().finite(),
            orig_d.dom().finite(),
            orig_s.dom().len() + orig_d.dom().len() <= usize::MAX,
            queue_frame(orig_d, old(self).queue.pending_deletes(), now),
            old(self).queue.pending_syncs().dom().subset_of(orig_s.dom()),
            orig_d.dom().contains(path@),
            orig_d[path@] <= now,
        ensures
            final(self).logs() == old(self).logs(),
            final(self).wf(),
            final(self).context.config == old(self).context.config,
            final(self).context.observer == old(self).context.observer,
            final(self).queue.capacity() == old(self).queue.capacity(),
            queue_frame(orig_d, final(self).queue.pending_deletes(), now),
            final(self).queue.pending_syncs() == old(self).queue.pending_syncs(),
            final(self).state == old(self).state,
            final(self).reachability == old(self).reachability,
            final(self).queue.pending_deletes() == old(self).queue.pending_deletes().insert(path@, now.saturating_add(delay) as u64),
    {
        proof {
            self.queue.lemma_counts();
            if !self.queue.pending_deletes().dom().contains(path@) {
                lemma_room_for_requeue(orig_d.dom(), orig_s.dom(), self.queue.pending_deletes().dom(), self.queue.pending_syncs().dom(), path@);
            }
            lemma_queue_frame_requeue(orig_d, self.queue.pending_deletes(), path@, now.saturating_add(delay) as u64, now);
        }
        self.queue.requeue_delete_retry(path, now, delay);
    }

    /// Notifies the observer, when there is one, that `path` failed for good, and records it.
    fn notify_failed(&mut self, path: &str)
        ensures
            *final(self) == (Self { reported: final(self).reported, ..*old(self) }),
            final(self).reported@ == if old(self).context.observer is Some {
                old(self).reported@.push(path@)
            } else {
                old(self).reported@
            },
    {
        match &self.context.observer {
            Some(o) => {
                o.on_write_verification_failed(path);
                proof {
                    self.reported = Ghost(self.reported@.push(path@));
                }
            },
            None => {},
        }
    }

    /// Stores the staged synchronisations, logging the engine's answer in `flushes`; if
    /// that fails, every staged path counts a failure and is requeued with backoff.
    /// Empties `staged`.
    fn flush_staged_paths(
        &mut self,
        staged: &mut Vec<String>,
        retry_ms: u64,
        now: u64,
        Ghost(orig_s): Ghost<Map<Seq<char>, u64>>,
        Ghost(orig_d): Ghost<Map<Seq<char>, u64>>,
    )
        requires
            old(self).wf(),
            orig_s.dom().finite(),
            orig_d.dom().finite(),
            orig_s.dom().len() + orig_d.dom().len() <= usize::MAX,
            queue_frame(orig_s, old(self).queue.pending_syncs(), now),
            old(self).queue.pending_deletes().dom().subset_of(orig_d.dom()),
            forall|k: int| 0 <= k < old(staged)@.len() ==> orig_s.dom().contains(#[trigger] old(staged)@[k]@)
                && orig_s[old(staged)@[k]@] <= now,
        ensures
            final(self).handed == old(self).handed,
            final(self).results == old(self).results,
            final(self).deleted == old(self).deleted,
            final(self).scans == old(self).scans,
            final(self).invalidations == old(self).invalidations,
            final(self).prunes == old(self).prunes,
            final(self).reads == old(self).reads,
            final(self).reported == old(self).reported,
            old(staged)@.len() == 0 ==> final(self).flushes == old(self).flushes,
            old(staged)@.len() > 0 ==> final(self).flushes@ == old(self).flushes@.push(final(self).flushes@.last()),
            final(self).wf(),
            final(self).context.config == old(self).context.config,
            final(self).context.observer == old(self).context.observer,
            final(self).queue.capacity() == old(self).queue.capacity(),
            queue_frame(orig_s, final(self).queue.pending_syncs(), now),
            final(self).queue.pending_deletes() == old(self).queue.pending_deletes(),
            final(staged)@.len() == 0,
            final(self).reachability == old(self).reachability,
            same_but_failures(old(self).state, final(self).state),
            none_due_before(old(self).queue.pending_syncs(), now) ==> none_due_before(final(self).queue.pending_syncs(), now),
            old(self).queue.pending_syncs().dom().subset_of(final(self).queue.pending_syncs().dom()),
            (old(staged)@.len() == 0 || final(self).flushes@.last() is Ok) ==> final(self).queue.pending_syncs()
                == old(self).queue.pending_syncs(),
            forall|p: Seq<char>| #[trigger] final(self).queue.pending_syncs().dom().contains(p) ==> old(self).queue.pending_syncs().dom().contains(p) || exists|k: int| 0 <= k < old(staged)@.len() && old(staged)@[k]@ == p,
            forall|p: Seq<char>| #[trigger] final(self).queue.pending_syncs().dom().contains(p) && !old(self).queue.pending_syncs().dom().contains(p)
                ==> old(staged)@.len() > 0 && final(self).flushes@.last() is Err,
            forall|p: Seq<char>| (forall|k: int| 0 <= k < old(staged)@.len() ==> old(staged)@[k]@ != p) ==> #[trigger] same_count_at(
                final(self).state.failure_tracker.counts(), old(self).state.failure_tracker.counts(), p),
    {
        if staged.len() == 0 {
            return;
        }
        let res = self.context.engine.flush_staged_syncs();
        proof {
            self.flushes = Ghost(self.flushes@.push(res));
        }
        let ok = match res {
            Ok(()) => true,
            Err(_) => false,
        };
        let n = staged.len();
        let mut i: usize = 0;
        while i < n
            invariant
                self.handed == old(self).handed,
                self.results == old(self).results,
                self.deleted == old(self).deleted,
                self.scans == old(self).scans,
                self.invalidations == old(self).invalidations,
                self.prunes == old(self).prunes,
                self.reads == old(self).reads,
                self.reported == old(self).reported,
                self.flushes@ == old(self).flushes@.push(res),
                ok == (res is Ok),
                ok ==> self.queue.pending_syncs() == old(self).queue.pending_syncs(),
                old(self).queue.pending_syncs().dom().subset_of(self.queue.pending_syncs().dom()),
                same_but_failures(old(self).state, self.state),
                forall|p: Seq<char>| (forall|k: int| 0 <= k < i ==> old(staged)@[k]@ != p) ==> #[trigger] same_count_at(
                    self.state.failure_tracker.counts(), old(self).state.failure_tracker.counts(), p),
                forall|p: Seq<char>| #[trigger] self.queue.pending_syncs().dom().contains(p) ==> old(self).queue.pending_syncs().dom().contains(p) || exists|k: int| 0 <= k < old(staged)@.len() && old(staged)@[k]@ == p,
                none_due_before(old(self).queue.pending_syncs(), now) ==> none_due_before(self.queue.pending_syncs(), now),
                self.reachability == old(self).reachability,
                n == staged@.len(),
                staged@ == old(staged)@,
                i <= n,
                self.wf(),
                self.context.config == old(self).context.config,
                self.context.observer == old(self).context.observer,
                self.queue.capacity() == old(self).queue.capacity(),
                orig_s.dom().finite(),
                orig_d.dom().finite(),
                orig_s.dom().len() + orig_d.dom().len() <= usize::MAX,
                queue_frame(orig_s, self.queue.pending_syncs(), now),
                self.queue.pending_deletes() == old(self).queue.pending_deletes(),
                old(self).queue.pending_deletes().dom().subset_of(orig_d.dom()),
                forall|k: int| 0 <= k < staged@.len() ==> orig_s.dom().contains(#[trigger] staged@[k]@)
                    && orig_s[staged@[k]@] <= now,
            decreases n - i,
        {
            let p: String = staged[i].as_str().to_owned();
            assert(p@ == old(staged)@[i as int]@);
            let ghost c0 = self.state.failure_tracker.counts();
            if ok {
                self.state.reset_failure(&p);
            } else {
                let attempts = self.state.record_failure(&p);
                let backoff = calculate_exponential_backoff(attempts, retry_ms);
                self.requeue_sync(p, now, backoff, Ghost(orig_s), Ghost(orig_d));
            }
            proof {
                assert forall|q: Seq<char>| (forall|k: int| 0 <= k < i + 1 ==> old(staged)@[k]@ != q) implies #[trigger] same_count_at(
                    self.state.failure_tracker.counts(), old(self).state.failure_tracker.counts(), q) by {
                    assert(old(staged)@[i as int]@ != q);
                    assert(forall|k: int| 0 <= k < i ==> old(staged)@[k]@ != q);
                    assert(same_count_at(c0, old(self).state.failure_tracker.counts(), q));
                    assert(same_count_at(self.state.failure_tracker.counts(), c0, q));
                }
            }
            i += 1;
        }
        staged.clear();
    }

    /// Settles a failed synchronisation of `path`, just taken off the queue, at `now`, given
    /// whether its source file still exists: a permanent validation failure drops the path,
    /// forgets its failures and reports it to the observer; a vanished source drops it and
    /// forgets its failures; a network failure marks the destination offline and retries
    /// after `retry_ms`; any other failure is counted and retried after the backoff of its
    /// count, or, past the attempt limit, dropped, forgotten and reported. Each report to the
    /// observer is recorded in `reported`. Returns whether the destination went offline.
    pub fn settle_sync_failure(&mut self, path: String, err: SyncError, source_exists: bool, retry_ms: u64, now: u64) -> (offline: bool)
        requires
            old(self).wf(),
            !old(self).queue.pending_syncs().dom().contains(path@),
            old(self).queue.spec_pending_count() < usize::MAX,
        ensures
            final(self).handed == old(self).handed,
            final(self).results == old(self).results,
            final(self).flushes == old(self).flushes,
            final(self).deleted == old(self).deleted,
            final(self).scans == old(self).scans,
            final(self).invalidations == old(self).invalidations,
            final(self).prunes == old(self).prunes,
            final(self).reads == old(self).reads,
            final(self).reported@ == if old(self).context.observer is Some && dropped_for_good(
                err,
                source_exists,
                next_failure_count(old(self).state.failure_tracker.counts(), path@),
            ) {
                old(self).reported@.push(path@)
            } else {
                old(self).reported@
            },
            final(self).wf(),
            final(self).context.config == old(self).context.config,
            final(self).context.observer == old(self).context.observer,
            final(self).queue.capacity() == old(self).queue.capacity(),
            final(self).queue.pending_deletes() == old(self).queue.pending_deletes(),
            final(self).reachability.last_status_check == old(self).reachability.last_status_check,
            same_but_failures(old(self).state, final(self).state),
            offline == (sync_failure_class(err, source_exists) == FailureClass::NetworkOffline),
            offline ==> !final(self).reachability.dest_online,
            !offline ==> final(self).reachability == old(self).reachability,
            ({
                let f0 = old(self).state.failure_tracker.counts();
                let q0 = old(self).queue.pending_syncs();
                let n = next_failure_count(f0, path@);
                match sync_failure_class(err, source_exists) {
                    FailureClass::Permanent | FailureClass::SourceGone => {
                        &&& final(self).queue.pending_syncs() == q0
                        &&& final(self).state.failure_tracker.counts() == f0.remove(path@)
                    },
                    FailureClass::NetworkOffline => {
                        &&& final(self).queue.pending_syncs() == q0.insert(path@, now.saturating_add(retry_ms) as u64)
                        &&& final(self).state.failure_tracker.counts() == f0
                    },
                    FailureClass::Retryable => if n <= MAX_RETRY_ATTEMPTS {
                        &&& final(self).queue.pending_syncs() == q0.insert(
                            path@,
                            now.saturating_add(backoff_ms(n as u32, retry_ms) as u64) as u64,
                        )
                        &&& final(self).state.failure_tracker.counts() == f0.insert(path@, n as u32)
                    } else {
                        &&& final(self).queue.pending_syncs() == q0
                        &&& final(self).state.failure_tracker.counts() == f0.insert(path@, n as u32).remove(path@)
                    },
                }
            }),
    {
        match classify_sync_failure(&err, source_exists) {
            FailureClass::Permanent => {
                self.state.reset_failure(&path);
                self.notify_failed(path.as_str());
                false
            },
            FailureClass::NetworkOffline => {
                self.reachability.mark_offline(Self::observer_ref(&self.context.observer));
                self.queue.requeue_sync_retry(path, now, retry_ms);
                true
            },
            FailureClass::SourceGone => {
                self.state.reset_failure(&path);
                false
            },
            FailureClass::Retryable => {
                let attempts = self.state.record_failure(&path);
                if attempts <= MAX_RETRY_ATTEMPTS {
                    let backoff = calculate_exponential_backoff(attempts, retry_ms);
                    self.queue.requeue_sync_retry(path, now, backoff);
                } else {
                    self.state.reset_failure(&path);
                    self.notify_failed(path.as_str());
                }
                false
            },
        }
    }

    /// Handles a failed synchronisation of the due path `path`. Returns `true` when the
    /// failure means the destination went offline.
    fn handle_sync_failure(
        &mut self,
        path: String,
        err: SyncError,
        retry_ms: u64,
        now: u64,
        Ghost(orig_s): Ghost<Map<Seq<char>, u64>>,
        Ghost(orig_d): Ghost<Map<Seq<char>, u64>>,
    ) -> (offline: bool)
        requires
            !old(self).queue.pending_syncs().dom().contains(path@),
            old(self).wf(),
            orig_s.dom().finite(),
            orig_d.dom().finite(),
            orig_s.dom().len() + orig_d.dom().len() <= usize::MAX,
            queue_frame(orig_s, old(self).queue.pending_syncs(), now),
            old(self).queue.pending_deletes().dom().subset_of(orig_d.dom()),
            orig_s.dom().contains(path@),
            orig_s[path@] <= now,
        ensures
            final(self).handed == old(self).handed,
            final(self).results == old(self).results,
            final(self).flushes == old(self).flushes,
            final(self).deleted == old(self).deleted,
            final(self).scans == old(self).scans,
            final(self).invalidations == old(self).invalidations,
            final(self).prunes == old(self).prunes,
            final(self).reads == old(self).reads,
            final(self).reported@ == old(self).reported@ || final(self).reported@ == old(self).reported@.push(path@),
            !may_stay_queued(Err(err)) && old(self).context.observer is Some ==> final(self).reported@ == old(self).reported@.push(path@),
            final(self).wf(),
            final(self).context.config == old(self).context.config,
            final(self).context.observer == old(self).context.observer,
            final(self).queue.capacity() == old(self).queue.capacity(),
            queue_frame(orig_s, final(self).queue.pending_syncs(), now),
            final(self).queue.pending_deletes() == old(self).queue.pending_deletes(),
            offline == err.spec_is_network_offline(),
            final(self).reachability.last_status_check == old(self).reachability.last_status_check,
            none_due_before(old(self).queue.pending_syncs(), now) ==> none_due_before(final(self).queue.pending_syncs(), now),
            offline ==> !final(self).reachability.dest_online,
            !offline ==> final(self).reachability == old(self).reachability,
            forall|p: Seq<char>| #[trigger] final(self).queue.pending_syncs().dom().contains(p) ==> old(self).queue.pending_syncs().dom().contains(p) || p == path@,
            same_but_failures(old(self).state, final(self).state),
            old(self).queue.pending_syncs().dom().subset_of(final(self).queue.pending_syncs().dom()),
            !may_stay_queued(Err(err)) ==> final(self).queue.pending_syncs() == old(self).queue.pending_syncs(),
            kept_queued(err, old(self).state.failure_tracker.counts(), path@) ==> final(self).queue.pending_syncs().dom().contains(path@),
            forall|p: Seq<char>| p != path@ ==> (
                #[trigger] final(self).state.failure_tracker.counts().dom().contains(p)
                    == old(self).state.failure_tracker.counts().dom().contains(p)
                && (old(self).state.failure_tracker.counts().dom().contains(p) ==> final(self).state.failure_tracker.counts()[p]
                    == old(self).state.failure_tracker.counts()[p])),
    {
        let source_exists = if is_not_found(&err) {
            let full = join_path(self.context.config.source_dir(), path.as_str());
            path_exists(full.as_str())
        } else {
            true
        };
        let ghost q0 = self.queue.pending_syncs();
        proof {
            self.queue.lemma_counts();
            if !self.queue.pending_syncs().dom().contains(path@) {
                lemma_room_for_requeue(orig_s.dom(), orig_d.dom(), self.queue.pending_syncs().dom(), self.queue.pending_deletes().dom(), path@);
            }
        }
        let offline = self.settle_sync_failure(path, err, source_exists, retry_ms, now);
        proof {
            let q1 = self.queue.pending_syncs();
            if q1 != q0 {
                let d = q1[path@];
                lemma_queue_frame_requeue(orig_s, q0, path@, d, now);
            }
        }
        offline
    }

    /// Tick phase 3: drains the due synchronisations and, the source having been read as
    /// `source_online`, hands each to the engine while both ends are online (logging the
    /// path and the answer), staging successful ones and handling failures; the others are
    /// requeued. Stops early on cancellation. Returns (cancelled, destination found offline).
    #[verifier::rlimit(60)]
    fn drain_syncs(&mut self, now: u64, retry_ms: u64, source_online: bool) -> (r: (bool, bool))
        requires
            old(self).wf(),
        ensures
            handed_due(old(self).handed@, final(self).handed@, old(self).queue.pending_syncs(), now),
            final(self).wf(),
            final(self).context.config == old(self).context.config,
            final(self).context.observer == old(self).context.observer,
            final(self).deleted == old(self).deleted,
            final(self).scans == old(self).scans,
            final(self).invalidations == old(self).invalidations,
            final(self).prunes == old(self).prunes,
            final(self).reads@.len() >= old(self).reads@.len(),
            r.0 ==> final(self).reads@.len() > old(self).reads@.len() && final(self).reads@.last(),
            same_but_failures(old(self).state, final(self).state),
            final(self).queue.capacity() == old(self).queue.capacity(),
            queue_frame(old(self).queue.pending_syncs(), final(self).queue.pending_syncs(), now),
            final(self).queue.pending_deletes() == old(self).queue.pending_deletes(),
            final(self).reachability.last_status_check == old(self).reachability.last_status_check,
            !old(self).reachability.dest_online ==> final(self).reachability == old(self).reachability,
            none_due_before(final(self).queue.pending_syncs(), now),
            r.1 ==> !final(self).reachability.dest_online,
            final(self).flushes@.len() >= old(self).flushes@.len(),
            forall|j: int| 0 <= j < old(self).flushes@.len() ==> #[trigger] final(self).flushes@[j] == old(self).flushes@[j],
            !r.0 && source_online && final(self).reachability.dest_online ==> forall|p: Seq<char>|
                #[trigger] final(self).handed@.skip(old(self).handed@.len() as int).contains(p)
                    <==> (old(self).queue.pending_syncs().dom().contains(p) && old(self).queue.pending_syncs()[p] <= now),
            !r.0 ==> forall|m: int| old(self).handed@.len() <= m < final(self).handed@.len() && #[trigger] final(self).results@[m] is Err
                && !may_stay_queued(final(self).results@[m]) && old(self).context.observer is Some ==> final(self).reported@.contains(
                final(self).handed@[m],
            ),
            !r.0 ==> forall|m: int| old(self).handed@.len() <= m < final(self).handed@.len() ==> settled(
                final(self).results@[m],
                final(self).handed@[m],
                old(self).state.failure_tracker.counts(),
                final(self).queue.pending_syncs(),
                flushes_ok_since(old(self).flushes@, final(self).flushes@),
            ),
    {
        let ghost orig_s = self.queue.pending_syncs();
        let ghost orig_d = self.queue.pending_deletes();
        let ghost h0 = self.handed@.len();
        let ghost f0 = self.flushes@;
        let ghost c0 = self.state.failure_tracker.counts();
        proof {
            self.queue.lemma_counts();
        }
        let ready = self.queue.drain_ready_syncs(now);
        let ghost q_drained = self.queue.pending_syncs();
        proof {
            lemma_queue_frame_drain(orig_s, self.queue.pending_syncs(), string_views(ready@), now);
            assert forall|k: int| 0 <= k < ready@.len() implies orig_s.dom().contains(#[trigger] ready@[k]@)
                && orig_s[ready@[k]@] <= now by {
                assert(string_views(ready@)[k] == ready@[k]@);
                assert(string_views(ready@).contains(ready@[k]@));
            }
        }
        proof {
            assert(self.handed@.take(self.handed@.len() as int) =~= self.handed@);
            assert(self.handed@.skip(self.handed@.len() as int) =~= Seq::<Seq<char>>::empty());
            assert(string_views(ready@).take(0) =~= Seq::<Seq<char>>::empty());
        }
        let mut staged: Vec<String> = Vec::new();
        let ghost mut staged_idx: Seq<int> = Seq::empty();
        let mut offline = false;
        let n = ready.len();
        let mut i: usize = 0;
        while i < n
            invariant
                h0 == old(self).handed@.len(),
                f0 == old(self).flushes@,
                c0 == old(self).state.failure_tracker.counts(),
                self.handed@.len() >= h0,
                self.handed@.take(h0 as int) == old(self).handed@,
                self.handed@.skip(h0 as int).no_duplicates(),
                forall|k: int| h0 <= k < self.handed@.len() ==> exists|j: int| 0 <= j < i
                    && (#[trigger] self.handed@[k]) == ready@[j]@,
                source_online && self.reachability.dest_online ==> self.handed@.skip(h0 as int) == string_views(ready@).take(i as int),
                !old(self).reachability.dest_online ==> self.reachability == old(self).reachability,
                self.deleted == old(self).deleted,
                self.scans == old(self).scans,
                self.invalidations == old(self).invalidations,
                self.prunes == old(self).prunes,
                self.reads@.len() >= old(self).reads@.len(),
                self.flushes@.len() >= f0.len(),
                forall|j: int| 0 <= j < f0.len() ==> #[trigger] self.flushes@[j] == f0[j],
                same_but_failures(old(self).state, self.state),
                forall|j: int| i <= j < n ==> same_count_at(self.state.failure_tracker.counts(), c0, #[trigger] ready@[j]@),
                queued_reasons(self.queue.pending_syncs(), orig_s, now, self.handed@, self.results@, h0 as int, f0, self.flushes@),
                forall|m: int| h0 <= m < self.handed@.len() ==> (#[trigger] self.results@[m] matches Err(e) && kept_queued(e, c0, self.handed@[m]))
                    ==> self.queue.pending_syncs().dom().contains(self.handed@[m]),
                forall|m: int| h0 <= m < self.handed@.len() && #[trigger] self.results@[m] is Err && !may_stay_queued(self.results@[m])
                    && old(self).context.observer is Some ==> self.reported@.contains(self.handed@[m]),
                staged_idx.len() == staged@.len(),
                forall|k: int| 0 <= k < staged@.len() ==> h0 <= #[trigger] staged_idx[k] < self.handed@.len()
                    && self.handed@[staged_idx[k]] == staged@[k]@ && self.results@[staged_idx[k]] is Ok,
                string_views(ready@).no_duplicates(),
                forall|j: int| i <= j < n ==> !self.queue.pending_syncs().dom().contains(#[trigger] ready@[j]@),
                forall|k: int| 0 <= k < staged@.len() ==> exists|j: int| 0 <= j < i && (#[trigger] staged@[k])@ == ready@[j]@,
                none_due_before(self.queue.pending_syncs(), now),
                offline ==> !self.reachability.dest_online,
                self.reachability.last_status_check == old(self).reachability.last_status_check,
                n == ready@.len(),
                i <= n,
                self.wf(),
                self.context.config == old(self).context.config,
                self.context.observer == old(self).context.observer,
                self.queue.capacity() == old(self).queue.capacity(),
                orig_s == old(self).queue.pending_syncs(),
                orig_d == old(self).queue.pending_deletes(),
                orig_s.dom().finite(),
                orig_d.dom().finite(),
                orig_s.dom().len() + orig_d.dom().len() <= usize::MAX,
                queue_frame(orig_s, self.queue.pending_syncs(), now),
                drained_exactly(orig_s, q_drained, string_views(ready@), now),
                self.queue.pending_deletes() == orig_d,
                forall|k: int| 0 <= k < ready@.len() ==> orig_s.dom().contains(#[trigger] ready@[k]@)
                    && orig_s[ready@[k]@] <= now,
                forall|k: int| 0 <= k < staged@.len() ==> orig_s.dom().contains(#[trigger] staged@[k]@)
                    && orig_s[staged@[k]@] <= now,
            decreases n - i,
        {
            let stop = load_flag(&*self.context.cancellation);
            proof {
                self.reads = Ghost(self.reads@.push(stop));
            }
            if stop {
                self.flush_staged_paths(&mut staged, retry_ms, now, Ghost(orig_s), Ghost(orig_d));
                return (true, offline);
            }
            let ghost q_start = self.queue.pending_syncs();
            let ghost st_start = staged@;
            let ghost pre = *self;
            let path: String = ready[i].as_str().to_owned();
            let ghost path_view = path;
            if offline || !source_online || !self.reachability.is_dest_online() {
                self.requeue_sync(path, now, retry_ms, Ghost(orig_s), Ghost(orig_d));
                proof {
                    let pi = ready@[i as int]@;
                    assert(string_views(ready@)[i as int] == pi);
                    assert(!self.handed@.skip(h0 as int).contains(pi)) by {
                        if self.handed@.skip(h0 as int).contains(pi) {
                            let t = choose|t: int| 0 <= t < self.handed@.skip(h0 as int).len() && self.handed@.skip(h0 as int)[t] == pi;
                            assert(self.handed@[h0 + t] == pi);
                            let j = choose|j: int| 0 <= j < i && self.handed@[h0 + t] == ready@[j]@;
                            assert(string_views(ready@)[j] == ready@[j]@);
                        }
                    }
                }
            } else {
                proof {
                    let h0s = old(self).handed@;
                    let hs = self.handed@;
                    let pi = ready@[i as int]@;
                    assert(string_views(ready@)[i as int] == pi);
                    assert forall|k: int| h0s.len() <= k < hs.len() implies #[trigger] hs[k] != pi by {
                        let j = choose|j: int| 0 <= j < i && hs[k] == ready@[j]@;
                        assert(string_views(ready@)[j] == ready@[j]@);
                    }
                    let nh = hs.push(pi);
                    assert(nh.take(h0s.len() as int) =~= hs.take(h0s.len() as int));
                    assert(nh.skip(h0s.len() as int) =~= hs.skip(h0s.len() as int).push(pi));
                    assert(string_views(ready@).take(i + 1) =~= string_views(ready@).take(i as int).push(pi));
                    self.handed = Ghost(nh);
                }
                let res = self.context.engine.sync_file_to_dest_staged(
                    path.as_str(),
                    self.reachability.active_dest(),
                    &mut self.state.scratch,
                );
                proof {
                    lemma_queued_reasons_push(self.queue.pending_syncs(), orig_s, now, pre.handed@, pre.results@, h0 as int, f0,
                        self.flushes@, ready@[i as int]@, res);
                    self.results = Ghost(self.results@.push(res));
                    assert(self.handed@ == pre.handed@.push(ready@[i as int]@));
                }
                match res {
                    Ok(()) => {
                        staged.push(path);
                        proof {
                            let m = self.handed@.len() - 1;
                            let old_idx = staged_idx;
                            staged_idx = staged_idx.push(m);
                            assert forall|k: int| 0 <= k < staged@.len() implies h0 <= #[trigger] staged_idx[k] < self.handed@.len()
                                && self.handed@[staged_idx[k]] == staged@[k]@ && self.results@[staged_idx[k]] is Ok by {
                                if k < st_start.len() {
                                    assert(staged@[k] == st_start[k]);
                                    assert(staged_idx[k] == old_idx[k]);
                                    assert(self.handed@[old_idx[k]] == pre.handed@[old_idx[k]]);
                                    assert(self.results@[old_idx[k]] == pre.results@[old_idx[k]]);
                                }
                            }
                        }
                        if staged.len() >= STAGED_FLUSH_BATCH {
                            let ghost qf = self.queue.pending_syncs();
                            let ghost ff = self.flushes@;
                            let ghost sf = staged@;
                            self.flush_staged_paths(&mut staged, retry_ms, now, Ghost(orig_s), Ghost(orig_d));
                            proof {
                                lemma_queued_reasons_flush(qf, self.queue.pending_syncs(), orig_s, now, self.handed@, self.results@,
                                    h0 as int, f0, ff, self.flushes@, sf, staged_idx);
                                staged_idx = Seq::empty();
                                let pi = ready@[i as int]@;
                                assert(string_views(ready@)[i as int] == pi);
                                assert(sf == st_start.push(path_view));
                                assert forall|j: int| i + 1 <= j < n implies same_count_at(self.state.failure_tracker.counts(),
                                    pre.state.failure_tracker.counts(), #[trigger] ready@[j]@) by {
                                    assert(string_views(ready@)[j] == ready@[j]@);
                                    assert forall|k: int| 0 <= k < sf.len() implies sf[k]@ != ready@[j]@ by {
                                        if k < st_start.len() {
                                            assert(sf[k] == st_start[k]);
                                            let j2 = choose|j2: int| 0 <= j2 < i && (#[trigger] st_start[k])@ == ready@[j2]@;
                                            assert(string_views(ready@)[j2] == ready@[j2]@);
                                        } else {
                                            assert(sf[k]@ == pi);
                                        }
                                    }
                                }
                            }
                        }
                        assert(forall|j: int| i + 1 <= j < n ==> same_count_at(self.state.failure_tracker.counts(),
                            pre.state.failure_tracker.counts(), #[trigger] ready@[j]@));
                    },
                    Err(e) => {
                        let ghost qe = self.queue.pending_syncs();
                        if self.handle_sync_failure(path, e, retry_ms, now, Ghost(orig_s), Ghost(orig_d)) {
                            offline = true;
                        }
                        proof {
                            assert forall|m: int| h0 <= m < self.handed@.len() && #[trigger] self.results@[m] is Err && !may_stay_queued(
                                self.results@[m]) && old(self).context.observer is Some implies self.reported@.contains(self.handed@[m]) by {
                                if m == self.handed@.len() - 1 {
                                    assert(self.reported@ == pre.reported@.push(path_view@));
                                    assert(self.reported@[pre.reported@.len() as int] == path_view@);
                                } else {
                                    assert(pre.results@[m] == self.results@[m]);
                                    assert(pre.handed@[m] == self.handed@[m]);
                                    assert(pre.reported@.contains(pre.handed@[m]));
                                    let j = choose|j: int| 0 <= j < pre.reported@.len() && pre.reported@[j] == pre.handed@[m];
                                    assert(self.reported@[j] == pre.reported@[j]);
                                }
                            }
                            assert forall|j: int| i + 1 <= j < n implies same_count_at(self.state.failure_tracker.counts(),
                                pre.state.failure_tracker.counts(), #[trigger] ready@[j]@) by {
                                assert(string_views(ready@)[j] == ready@[j]@);
                                assert(string_views(ready@)[i as int] == ready@[i as int]@);
                            }
                            lemma_queued_reasons_failure(qe, self.queue.pending_syncs(), orig_s, now, self.handed@, self.results@,
                                h0 as int, f0, self.flushes@);
                            assert forall|k: int| 0 <= k < staged@.len() implies h0 <= #[trigger] staged_idx[k] < self.handed@.len()
                                && self.handed@[staged_idx[k]] == staged@[k]@ && self.results@[staged_idx[k]] is Ok by {
                                assert(staged@[k] == st_start[k]);
                                assert(self.handed@[staged_idx[k]] == pre.handed@[staged_idx[k]]);
                                assert(self.results@[staged_idx[k]] == pre.results@[staged_idx[k]]);
                            }
                        }
                    },
                }
            }
            proof {
                let pi = ready@[i as int]@;
                assert(string_views(ready@)[i as int] == pi);
                assert forall|p: Seq<char>| #[trigger] self.queue.pending_syncs().dom().contains(p) implies q_start.dom().contains(p)
                    || p == pi || exists|k: int| 0 <= k < st_start.len() && st_start[k]@ == p by {
                }
                assert forall|j: int| i + 1 <= j < n implies !self.queue.pending_syncs().dom().contains(#[trigger] ready@[j]@) by {
                    assert(string_views(ready@)[j] == ready@[j]@);
                    if exists|k: int| 0 <= k < st_start.len() && st_start[k]@ == ready@[j]@ {
                        let k = choose|k: int| 0 <= k < st_start.len() && st_start[k]@ == ready@[j]@;
                        let j2 = choose|j2: int| 0 <= j2 < i && st_start[k]@ == ready@[j2]@;
                        assert(string_views(ready@)[j2] == ready@[j2]@);
                    }
                }
                assert forall|k: int| 0 <= k < staged@.len() implies exists|j: int| 0 <= j < i + 1 && (#[trigger] staged@[k])@ == ready@[j]@ by {
                    if k < st_start.len() && staged@[k] == st_start[k] {
                        let j2 = choose|j2: int| 0 <= j2 < i && st_start[k]@ == ready@[j2]@;
                        assert(0 <= j2 < i + 1 && staged@[k]@ == ready@[j2]@);
                    } else {
                        assert(staged@[k]@ == pi);
                    }
                }
                assert forall|j: int| i + 1 <= j < n implies same_count_at(self.state.failure_tracker.counts(), c0, #[trigger] ready@[j]@) by {
                    assert(same_count_at(pre.state.failure_tracker.counts(), c0, ready@[j]@));
                    assert(same_count_at(self.state.failure_tracker.counts(), pre.state.failure_tracker.counts(), ready@[j]@));
                }
            }
            i += 1;
        }
        let ghost qf = self.queue.pending_syncs();
        let ghost ff = self.flushes@;
        let ghost sf = staged@;
        self.flush_staged_paths(&mut staged, retry_ms, now, Ghost(orig_s), Ghost(orig_d));
        proof {
            lemma_queued_reasons_flush(qf, self.queue.pending_syncs(), orig_s, now, self.handed@, self.results@,
                h0 as int, f0, ff, self.flushes@, sf, staged_idx);
            assert(string_views(ready@).take(n as int) =~= string_views(ready@));
            let h = self.handed@;
            let q = self.queue.pending_syncs();
            assert forall|m: int| h0 <= m < h.len() implies settled(
                self.results@[m],
                #[trigger] h[m],
                c0,
                q,
                flushes_ok_since(f0, self.flushes@),
            ) by {
                let p = h[m];
                let j = choose|j: int| 0 <= j < i && h[m] == ready@[j]@;
                assert(orig_s.dom().contains(p) && orig_s[p] <= now);
                assert(h.skip(h0 as int)[m - h0] == p);
                assert(h.skip(h0 as int).contains(p));
                if q.dom().contains(p) {
                    let m2 = choose|m2: int| h0 <= m2 < h.len() && #[trigger] h[m2] == p && (may_stay_queued(self.results@[m2])
                        || (self.results@[m2] is Ok && !flushes_ok_since(f0, self.flushes@)));
                    assert(h.skip(h0 as int)[m2 - h0] == h.skip(h0 as int)[m - h0]);
                }
            }
        }
        (false, offline)
    }

    /// Tick phase 4: drains the due deletions and, the source having been read as
    /// `source_online`, while both ends are online and deletions are propagated, hands each
    /// to the engine (logging the path) with retries; without propagation due deletions are
    /// dropped; the others are requeued. Returns `true` when cancelled.
    #[verifier::rlimit(40)]
    fn drain_deletes(&mut self, now: u64, retry_ms: u64, offline_before: bool, source_online: bool) -> (cancelled: bool)
        requires
            old(self).wf(),
            offline_before ==> !old(self).reachability.dest_online,
        ensures
            final(self).handed == old(self).handed,
            final(self).results == old(self).results,
            final(self).flushes == old(self).flushes,
            final(self).scans == old(self).scans,
            final(self).invalidations == old(self).invalidations,
            final(self).prunes == old(self).prunes,
            final(self).reads@.len() >= old(self).reads@.len(),
            cancelled ==> final(self).reads@.len() > old(self).reads@.len() && final(self).reads@.last(),
            final(self).reported == old(self).reported,
            same_but_failures(old(self).state, final(self).state),
            final(self).wf(),
            final(self).context.config == old(self).context.config,
            final(self).context.observer == old(self).context.observer,
            final(self).queue.capacity() == old(self).queue.capacity(),
            queue_frame(old(self).queue.pending_deletes(), final(self).queue.pending_deletes(), now),
            final(self).queue.pending_syncs() == old(self).queue.pending_syncs(),
            final(self).reachability.last_status_check == old(self).reachability.last_status_check,
            final(self).reachability.dest_online ==> old(self).reachability.dest_online,
            !old(self).reachability.dest_online ==> final(self).reachability == old(self).reachability,
            none_due_before(final(self).queue.pending_deletes(), now),
            final(self).deleted@.len() >= old(self).deleted@.len(),
            final(self).deleted@.take(old(self).deleted@.len() as int) == old(self).deleted@,
            !cancelled && source_online && final(self).reachability.dest_online ==> forall|p: Seq<char>|
                #[trigger] final(self).deleted@.skip(old(self).deleted@.len() as int).contains(p)
                    <==> (old(self).context.config.propagate_deletions && old(self).queue.pending_deletes().dom().contains(p)
                        && old(self).queue.pending_deletes()[p] <= now),
    {
        let ghost orig_s = self.queue.pending_syncs();
        let ghost orig_d = self.queue.pending_deletes();
        let ghost d0 = self.deleted@.len();
        proof {
            self.queue.lemma_counts();
        }
        let ready = self.queue.drain_ready_deletes(now);
        let ghost q_drained = self.queue.pending_deletes();
        proof {
            lemma_queue_frame_drain(orig_d, self.queue.pending_deletes(), string_views(ready@), now);
            assert forall|k: int| 0 <= k < ready@.len() implies orig_d.dom().contains(#[trigger] ready@[k]@)
                && orig_d[ready@[k]@] <= now by {
                assert(string_views(ready@)[k] == ready@[k]@);
                assert(string_views(ready@).contains(ready@[k]@));
            }
            assert(self.deleted@.take(d0 as int) =~= self.deleted@);
            assert(self.deleted@.skip(d0 as int) =~= Seq::<Seq<char>>::empty());
            assert(string_views(ready@).take(0) =~= Seq::<Seq<char>>::empty());
        }
        let propagate = self.context.config.propagate_deletions();
        let mut offline = offline_before;
        let n = ready.len();
        let mut i: usize = 0;
        while i < n
            invariant
                d0 == old(self).deleted@.len(),
                self.deleted@.len() >= d0,
                self.deleted@.take(d0 as int) == old(self).deleted@,
                propagate == old(self).context.config.propagate_deletions,
                source_online && self.reachability.dest_online ==> self.deleted@.skip(d0 as int) == (if propagate {
                    string_views(ready@).take(i as int)
                } else {
                    Seq::<Seq<char>>::empty()
                }),
                offline ==> !self.reachability.dest_online,
                self.reachability.dest_online ==> old(self).reachability.dest_online,
                !old(self).reachability.dest_online ==> self.reachability == old(self).reachability,
                self.handed == old(self).handed,
                self.results == old(self).results,
                self.flushes == old(self).flushes,
                self.scans == old(self).scans,
                self.invalidations == old(self).invalidations,
                self.prunes == old(self).prunes,
                self.reads@.len() >= old(self).reads@.len(),
                self.reported == old(self).reported,
                same_but_failures(old(self).state, self.state),
                none_due_before(self.queue.pending_deletes(), now),
                self.reachability.last_status_check == old(self).reachability.last_status_check,
                n == ready@.len(),
                i <= n,
                self.wf(),
                self.context.config == old(self).context.config,
                self.context.observer == old(self).context.observer,
                self.queue.capacity() == old(self).queue.capacity(),
                orig_s == old(self).queue.pending_syncs(),
                orig_d == old(self).queue.pending_deletes(),
                orig_s.dom().finite(),
                orig_d.dom().finite(),
                orig_s.dom().len() + orig_d.dom().len() <= usize::MAX,
                queue_frame(orig_d, self.queue.pending_deletes(), now),
                drained_exactly(orig_d, q_drained, string_views(ready@), now),
                self.queue.pending_syncs() == orig_s,
                forall|k: int| 0 <= k < ready@.len() ==> orig_d.dom().contains(#[trigger] ready@[k]@)
                    && orig_d[ready@[k]@] <= now,
            decreases n - i,
        {
            let stop = load_flag(&*self.context.cancellation);
            proof {
                self.reads = Ghost(self.reads@.push(stop));
            }
            if stop {
                return true;
            }
            let path: String = ready[i].as_str().to_owned();
            proof {
                assert(string_views(ready@)[i as int] == ready@[i as int]@);
                assert(string_views(ready@).take(i + 1) =~= string_views(ready@).take(i as int).push(ready@[i as int]@));
            }
            if offline || !source_online || !self.reachability.is_dest_online() {
                self.requeue_delete(path, now, retry_ms, Ghost(orig_s), Ghost(orig_d));
            } else if propagate {
                proof {
                    let nd = self.deleted@.push(path@);
                    assert(nd.take(d0 as int) =~= self.deleted@.take(d0 as int));
                    assert(nd.skip(d0 as int) =~= self.deleted@.skip(d0 as int).push(path@));
                    self.deleted = Ghost(nd);
                }
                let res = self.context.engine.delete_file_from_dest(path.as_str(), self.reachability.active_dest());
                match res {
                    Ok(()) => {
                        self.state.reset_failure(&path);
                    },
                    Err(e) => {
                        match classify_delete_failure(&e) {
                            FailureClass::Permanent => {
                                self.state.reset_failure(&path);
                            },
                            FailureClass::NetworkOffline => {
                                offline = true;
                                self.reachability.mark_offline(Self::observer_ref(&self.context.observer));
                                self.requeue_delete(path, now, retry_ms, Ghost(orig_s), Ghost(orig_d));
                            },
                            _ => {
                                let attempts = self.state.record_failure(&path);
                                if attempts <= MAX_RETRY_ATTEMPTS {
                                    let backoff = calculate_exponential_backoff(attempts, retry_ms);
                                    self.requeue_delete(path, now, backoff, Ghost(orig_s), Ghost(orig_d));
                                } else {
                                    self.state.reset_failure(&path);
                                }
                            },
                        }
                    },
                }
            }
            i += 1;
        }
        proof {
            assert(string_views(ready@).take(n as int) =~= string_views(ready@));
        }
        false
    }

    /// Tick phase 5: runs a pending catch-up scan once the queue has drained below the
    /// threshold and both ends are online (the source having been read as `source_online`),
    /// logging its answer, and backing off after failures. Returns `true` when the scan was
    /// cancelled.
    fn catchup_if_due(&mut self, now: u64, retry_ms: u64, source_online: bool) -> (cancelled: bool)
        requires
            old(self).wf(),
        ensures
            final(self).handed == old(self).handed,
            final(self).results == old(self).results,
            final(self).flushes == old(self).flushes,
            final(self).deleted == old(self).deleted,
            final(self).invalidations == old(self).invalidations,
            final(self).prunes == old(self).prunes,
            final(self).reads == old(self).reads,
            final(self).reported == old(self).reported,
            final(self).drain_threshold == old(self).drain_threshold,
            final(self).wf(),
            final(self).context.config == old(self).context.config,
            final(self).context.observer == old(self).context.observer,
            final(self).queue == old(self).queue,
            final(self).reachability.last_status_check == old(self).reachability.last_status_check,
            final(self).reachability.dest_online ==> old(self).reachability.dest_online,
            final(self).state.last_archive_prune == old(self).state.last_archive_prune,
            final(self).state.failure_tracker.counts() == old(self).state.failure_tracker.counts()
                || final(self).state.failure_tracker.counts() == Map::<Seq<char>, u32>::empty(),
            !(source_online && catchup_wanted(old(self).state, now, old(self).queue.spec_pending_count() as nat, old(self).drain_threshold,
                old(self).reachability.dest_online)) ==> !cancelled && final(self).state == old(self).state
                && final(self).reachability == old(self).reachability && final(self).scans == old(self).scans,
            source_online && catchup_wanted(old(self).state, now, old(self).queue.spec_pending_count() as nat, old(self).drain_threshold,
                old(self).reachability.dest_online) ==> final(self).scans@.len() == old(self).scans@.len() + 1
                && final(self).scans@.drop_last() == old(self).scans@
                && cancelled == (final(self).scans@.last() == Err::<ScanOutcome, SyncError>(SyncError::Cancelled)),
            cancelled ==> final(self).state == old(self).state && final(self).reachability == old(self).reachability,
            final(self).state == old(self).state || scan_succeeded(old(self).state, final(self).state)
                || (final(self).state.next_catchup_scan_attempt is Some && final(self).state.catchup_scan_failures
                    > 0 && final(self).state.needs_catchup_scan == old(self).state.needs_catchup_scan),
    {
        let pending = self.queue.pending_count();
        let dest_online = self.reachability.is_dest_online();
        if self.state.should_trigger_catchup_scan(now, pending, self.drain_threshold, source_online, dest_online) {
            let res = self.context.engine.run_cancellable_full_scan(self.reachability.active_dest(), &*self.context.cancellation);
            proof {
                self.scans = Ghost(self.scans@.push(res));
                assert(self.scans@.drop_last() =~= old(self).scans@);
            }
            match res {
                Ok(ScanOutcome::DestinationUnreachable) => {
                    self.reachability.mark_offline(Self::observer_ref(&self.context.observer));
                    self.state.record_catchup_scan_failure(now, retry_ms);
                },
                Ok(_) => {
                    self.state.record_catchup_scan_success();
                    self.state.clear_failures();
                },
                Err(SyncError::Cancelled) => {
                    return true;
                },
                Err(_) => {
                    self.state.record_catchup_scan_failure(now, retry_ms);
                },
            }
        }
        false
    }

    /// Whether the due paths of `before`'s queue at `now` were all handed on, each settled
    /// as [`settled`] says, and, with deletions propagated, the due deletions all handed to
    /// the engine.
    pub open spec fn drained_all(&self, before: &Self, now: u64) -> bool {
        let s0 = before.queue.pending_syncs();
        let d0 = before.queue.pending_deletes();
        &&& forall|p: Seq<char>| #[trigger] self.handed@.skip(before.handed@.len() as int).contains(p)
            <==> (s0.dom().contains(p) && s0[p] <= now)
        &&& forall|p: Seq<char>| #[trigger] self.deleted@.skip(before.deleted@.len() as int).contains(p)
            <==> (before.context.config.propagate_deletions && d0.dom().contains(p) && d0[p] <= now)
    }

    /// One step of the worker at time `now`: probe the destination, prune the archive,
    /// drain due synchronisations and deletions when both ends are online, and run a
    /// pending catch-up scan; a raised cancellation flag stops it. See [`Self::tick_observed`].
    pub fn tick(&mut self, now: u64) -> (r: Result<WorkerTickOutcome, SyncError>)
        requires
            old(self).wf(),
        ensures
            exists|cancelled: bool, source_online: bool| final(self).ticked(&*old(self), now, cancelled, source_online, r),
    {
        let cancelled = load_flag(&*self.context.cancellation);
        let source_online = self.context.source_connectivity.is_online();
        self.tick_observed(now, cancelled, source_online)
    }

    /// What one step at `now` does, the cancellation flag having been read as `cancelled`
    /// and the source connectivity flag as `source_online`; see [`Self::tick_observed`].
    pub open spec fn ticked(&self, before: &Self, now: u64, cancelled: bool, source_online: bool, r: Result<WorkerTickOutcome, SyncError>) -> bool {
        let continued = r == Ok::<WorkerTickOutcome, SyncError>(WorkerTickOutcome::Continue);
        &&& cancelled ==> r == Ok::<WorkerTickOutcome, SyncError>(WorkerTickOutcome::ShutdownRequested) && *self == *before
        &&& r == Ok::<WorkerTickOutcome, SyncError>(WorkerTickOutcome::ShutdownRequested) ==> cancelled || (self.scans@.len()
            > before.scans@.len() && self.scans@.last() == Err::<ScanOutcome, SyncError>(SyncError::Cancelled)) || (
        self.reads@.len() > before.reads@.len() && self.reads@.last())
        &&& r is Ok
        &&& self.wf()
        &&& self.context.config == before.context.config
        &&& self.queue.capacity() == before.queue.capacity()
        &&& queue_frame(before.queue.pending_syncs(), self.queue.pending_syncs(), now)
        &&& queue_frame(before.queue.pending_deletes(), self.queue.pending_deletes(), now)
        &&& handed_due(before.handed@, self.handed@, before.queue.pending_syncs(), now)
        &&& !before.reachability.dest_online && !before.reachability.probe_due(now) ==> self.queue == before.queue
        &&& !source_online ==> {
            &&& self.queue == before.queue
            &&& self.handed == before.handed
            &&& self.results == before.results
            &&& self.flushes == before.flushes
            &&& self.deleted == before.deleted
            &&& self.scans == before.scans
        }
        &&& continued ==> self.reachability.last_status_check == (
            if before.reachability.probe_due(now) { Some(now) } else { before.reachability.last_status_check })
        &&& continued ==> self.queue == before.queue || (none_due_before(self.queue.pending_syncs(), now)
            && none_due_before(self.queue.pending_deletes(), now))
        &&& continued && source_online && self.reachability.dest_online ==> self.drained_all(before, now)
        &&& continued ==> forall|m: int| before.handed@.len() <= m < self.handed@.len() ==> settled(
            self.results@[m],
            #[trigger] self.handed@[m],
            before.state.failure_tracker.counts(),
            self.queue.pending_syncs(),
            flushes_ok_since(before.flushes@, self.flushes@),
        )
        &&& continued ==> forall|m: int| before.handed@.len() <= m < self.handed@.len() && #[trigger] self.results@[m] is Err
            && !may_stay_queued(self.results@[m]) && before.context.observer is Some ==> self.reported@.contains(self.handed@[m])
        &&& continued && self.reachability.dest_online && prune_due(before.state, now) ==> self.state.last_archive_prune == now
        &&& !prune_due(before.state, now) ==> self.state.last_archive_prune == before.state.last_archive_prune
            && self.prunes == before.prunes
        &&& continued && self.reachability.dest_online && prune_due(before.state, now) ==> self.prunes@.len()
            == before.prunes@.len() + 1
        &&& continued && source_online && self.scans == before.scans ==> !catchup_wanted(
            self.state,
            now,
            self.queue.spec_pending_count() as nat,
            self.drain_threshold,
            self.reachability.dest_online,
        )
    }

    /// One step of the worker at time `now`, the cancellation flag having been read as
    /// `cancelled` and the source connectivity flag as `source_online`. When cancelled,
    /// nothing is done and shutdown is requested; otherwise shutdown is requested only when
    /// a reading of the flag taken while draining (logged in `reads`) found it raised or a
    /// full scan answered `Cancelled`. Otherwise the destination is probed when
    /// a probe is due, the archive pruned when due, and, when both ends are online, every
    /// due path is taken off the queue: synchronisations are handed to the engine (each due
    /// path once, its answer logged) and settled as [`Self::settle_sync_failure`] says when
    /// they fail (a permanent failure leaves the queue and is reported to the observer),
    /// deletions are carried out, and paths that cannot be handled now are requeued; then
    /// a pending catch-up scan runs. With the source offline nothing is drained, handed or
    /// scanned. A tick that runs to its end (`Continue`) with both ends online has handed on
    /// exactly the due paths; it has probed at `now` exactly when a probe was due, and
    /// either left the queue as it was or left no path due before `now`; the queue never
    /// gains a path, and paths not yet due keep their deadlines. While the destination is
    /// offline and no probe is due, nothing leaves the queue.
    #[verifier::rlimit(40)]
    pub fn tick_observed(&mut self, now: u64, cancelled: bool, source_online: bool) -> (r: Result<WorkerTickOutcome, SyncError>)
        requires
            old(self).wf(),
        ensures
            final(self).ticked(&*old(self), now, cancelled, source_online, r),
    {
        let ghost s0 = self.queue.pending_syncs();
        let ghost d0 = self.queue.pending_deletes();
        let ghost c0 = self.state.failure_tracker.counts();
        proof {
            lemma_queue_frame_refl(s0, now);
            lemma_queue_frame_refl(d0, now);
            assert(self.handed@.take(self.handed@.len() as int) =~= self.handed@);
            assert(self.handed@.skip(self.handed@.len() as int) =~= Seq::<Seq<char>>::empty());
        }
        if cancelled {
            return Ok(WorkerTickOutcome::ShutdownRequested);
        }
        if self.check_destination(now, source_online) {
            return Ok(WorkerTickOutcome::ShutdownRequested);
        }
        let retry_ms = secs_to_ms(self.context.config.retry_interval_seconds());
        self.prune_if_due(now);
        let ghost mid = *self;
        let can_drain = self.reachability.is_dest_online() && source_online;
        if can_drain {
            let (stop, offline) = self.drain_syncs(now, retry_ms, source_online);
            if stop {
                return Ok(WorkerTickOutcome::ShutdownRequested);
            }
            let ghost s1 = self.queue.pending_syncs();
            let stop2 = self.drain_deletes(now, retry_ms, offline, source_online);
            proof {
                lemma_queue_frame_refl(s1, now);
            }
            if stop2 {
                return Ok(WorkerTickOutcome::ShutdownRequested);
            }
        }
        if self.catchup_if_due(now, retry_ms, source_online) {
            return Ok(WorkerTickOutcome::ShutdownRequested);
        }
        proof {
            assert forall|m: int| old(self).handed@.len() <= m < self.handed@.len() implies settled(
                self.results@[m],
                #[trigger] self.handed@[m],
                c0,
                self.queue.pending_syncs(),
                flushes_ok_since(old(self).flushes@, self.flushes@),
            ) by {
                assert(settled(self.results@[m], self.handed@[m], mid.state.failure_tracker.counts(), self.queue.pending_syncs(),
                    flushes_ok_since(old(self).flushes@, self.flushes@)));
            }
        }
        Ok(WorkerTickOutcome::Continue)
    }
}

} // verus!
