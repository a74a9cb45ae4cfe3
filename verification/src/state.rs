//! Per-worker bookkeeping: failure counts per path, archive prune timing, catch-up scan
//! scheduling and exponential retry backoff. Times are milliseconds on the worker's clock.

use vstd::prelude::*;
use crate::keyed::{Entry, entries_map, keys_of, lemma_entries_map_dom, lemma_entries_map_at, lemma_entries_map_len, find_key, upsert, remove_key};

verus! {

/// Upper bound of any retry backoff, in milliseconds (five minutes).
pub const MAX_BACKOFF_MS: u64 = 300000;

/// Interval between two periodic archive prunes, in milliseconds (one hour).
pub const ARCHIVE_PRUNE_INTERVAL_MS: u64 = 3600000;

/// Number of paths whose failures are tracked.
pub const FAILURE_TRACKER_CAPACITY: usize = 5000;

/// `secs` seconds in milliseconds, saturating at `u64::MAX`.
pub open spec fn spec_secs_to_ms(secs: u64) -> u64 {
    if secs * 1000 > u64::MAX { u64::MAX } else { (secs * 1000) as u64 }
}

/// Converts seconds to milliseconds, saturating.
pub fn secs_to_ms(secs: u64) -> (r: u64)
    ensures
        r == spec_secs_to_ms(secs),
{
    if secs > 18446744073709551 {
        u64::MAX
    } else {
        secs * 1000
    }
}

/// `2^e`.
pub open spec fn two_pow(e: nat) -> nat
    decreases e,
{
    if e == 0 {
        1
    } else {
        2 * two_pow((e - 1) as nat)
    }
}

/// The multiplier applied to the base interval after `attempts` failures: `2^(attempts - 1)`
/// (taking `attempts - 1` as zero when `attempts` is zero), capped at `u32::MAX`.
pub open spec fn backoff_factor(attempts: u32) -> nat {
    let e: nat = if attempts == 0 { 0 } else { (attempts - 1) as nat };
    if e >= 32 {
        u32::MAX as nat
    } else {
        two_pow(e)
    }
}

/// The retry delay after `attempts` failures with base interval `base_ms`:
/// `base_ms * backoff_factor(attempts)`, capped at five minutes.
pub open spec fn backoff_ms(attempts: u32, base_ms: u64) -> nat {
    let d: nat = (base_ms * backoff_factor(attempts)) as nat;
    if d > MAX_BACKOFF_MS { MAX_BACKOFF_MS as nat } else { d }
}

proof fn lemma_two_pow_monotone(a: nat, b: nat)
    requires
        a <= b,
    ensures
        1 <= two_pow(a) <= two_pow(b),
    decreases b,
{
    if b > 0 {
        if a < b {
            lemma_two_pow_monotone(a, (b - 1) as nat);
        }
    }
    if a > 0 {
        lemma_two_pow_monotone((a - 1) as nat, (a - 1) as nat);
    }
}

proof fn lemma_two_pow_32()
    ensures
        two_pow(31) < u32::MAX,
        two_pow(32) > u32::MAX,
{
    reveal_with_fuel(two_pow, 33);
}

/// Backoff never shrinks as failures accumulate, and never exceeds five minutes.
pub proof fn lemma_backoff_monotone_and_capped(a: u32, b: u32, base_ms: u64)
    requires
        a <= b,
    ensures
        backoff_ms(a, base_ms) <= backoff_ms(b, base_ms),
        backoff_ms(b, base_ms) <= MAX_BACKOFF_MS,
{
    let ea: nat = if a == 0 { 0 } else { (a - 1) as nat };
    let eb: nat = if b == 0 { 0 } else { (b - 1) as nat };
    lemma_two_pow_32();
    if eb < 32 {
        lemma_two_pow_monotone(ea, eb);
    } else if ea < 32 {
        lemma_two_pow_monotone(ea, 31);
    }
    let fa = backoff_factor(a);
    let fb = backoff_factor(b);
    assert(fa <= fb);
    assert(base_ms * fa <= base_ms * fb) by (nonlinear_arith)
        requires
            fa <= fb,
    ;
}

/// With one failure the backoff is the base interval itself, capped at five minutes.
pub proof fn lemma_backoff_first_attempt(base_ms: u64)
    ensures
        backoff_ms(1, base_ms) == if base_ms > MAX_BACKOFF_MS { MAX_BACKOFF_MS as nat } else { base_ms as nat },
{
    assert(two_pow(0) == 1);
    assert(backoff_factor(1) == 1);
    assert(base_ms * 1 == base_ms);
}

/// Calculates the exponential backoff (milliseconds) after `attempts` failures.
pub fn calculate_exponential_backoff(attempts: u32, base_interval_ms: u64) -> (r: u64)
    ensures
        r == backoff_ms(attempts, base_interval_ms),
{
    let e: u32 = if attempts == 0 { 0 } else { attempts - 1 };
    let mut factor: u64 = 1;
    if e >= 32 {
        factor = 4294967295;
    } else {
        proof {
            lemma_two_pow_monotone(0, 31);
        }
        let mut i: u32 = 0;
        while i < e
            invariant
                i <= e,
                e < 32,
                factor == two_pow(i as nat),
                factor <= two_pow(31),
            decreases e - i,
        {
            proof {
                lemma_two_pow_32();
                lemma_two_pow_monotone((i + 1) as nat, 31);
            }
            factor = factor * 2;
            i += 1;
        }
    }
    proof {
        lemma_two_pow_32();
    }
    assert(factor <= u32::MAX);
    assert((base_interval_ms as u128) * (factor as u128) <= u64::MAX * u32::MAX) by (nonlinear_arith)
        requires
            factor <= u32::MAX,
    ;
    let product: u128 = (base_interval_ms as u128) * (factor as u128);
    assert(product == base_interval_ms * backoff_factor(attempts)) by {
        if e < 32 {
            lemma_two_pow_32();
            lemma_two_pow_monotone(e as nat, 31);
        }
    }
    if product > MAX_BACKOFF_MS as u128 {
        MAX_BACKOFF_MS
    } else {
        product as u64
    }
}

/// Tracks per-path sync failure counts.
#[derive(Debug)]
pub struct FailureTracker {
    capacity: usize,
    counts: Vec<Entry<u32>>,
}

impl FailureTracker {
    /// Failure counts by path.
    pub closed spec fn counts(&self) -> Map<Seq<char>, u32> {
        entries_map(self.counts@)
    }

    /// The number of paths the tracker was sized for (at least one).
    pub closed spec fn spec_capacity(&self) -> nat {
        self.capacity as nat
    }

    /// Internal consistency: one entry per path.
    pub closed spec fn wf(&self) -> bool {
        keys_of(self.counts@).no_duplicates()
    }

    /// An empty tracker sized for `capacity` paths (at least one).
    pub fn new(capacity: usize) -> (t: Self)
        ensures
            t.wf(),
            t.counts() == Map::<Seq<char>, u32>::empty(),
            t.spec_capacity() == if capacity > 1 { capacity as nat } else { 1 },
    {
        let t = FailureTracker { capacity: if capacity > 1 { capacity } else { 1 }, counts: Vec::new() };
        assert(entries_map(t.counts@) =~= Map::<Seq<char>, u32>::empty());
        t
    }

    /// Increments (saturating) and returns the consecutive failure count of `path`.
    pub fn record_failure(&mut self, path: &String) -> (n: u32)
        requires
            old(self).wf(),
        ensures
            final(self).wf(),
            final(self).spec_capacity() == old(self).spec_capacity(),
            n == if old(self).counts().dom().contains(path@) {
                if old(self).counts()[path@] == u32::MAX { u32::MAX as int } else { old(self).counts()[path@] + 1 }
            } else {
                1
            },
            final(self).counts() == old(self).counts().insert(path@, n),
    {
        let n: u32 = match find_key(&self.counts, path) {
            Some(i) => {
                proof {
                    lemma_entries_map_at(self.counts@, i as int);
                }
                self.counts[i].value.saturating_add(1)
            },
            None => {
                proof {
                    lemma_entries_map_dom(self.counts@, path@);
                }
                1
            },
        };
        upsert(&mut self.counts, path.clone(), n);
        n
    }

    /// Forgets the failures of `path`.
    pub fn reset_failure(&mut self, path: &String)
        requires
            old(self).wf(),
        ensures
            final(self).wf(),
            final(self).spec_capacity() == old(self).spec_capacity(),
            final(self).counts() == old(self).counts().remove(path@),
    {
        remove_key(&mut self.counts, path);
    }

    /// Forgets all failures.
    pub fn clear(&mut self)
        ensures
            final(self).wf(),
            final(self).spec_capacity() == old(self).spec_capacity(),
            final(self).counts() == Map::<Seq<char>, u32>::empty(),
    {
        self.counts.clear();
        assert(entries_map(self.counts@) =~= Map::<Seq<char>, u32>::empty());
    }

    /// The failure count of `path`, if any.
    pub fn get(&self, path: &String) -> (r: Option<u32>)
        requires
            self.wf(),
        ensures
            r == if self.counts().dom().contains(path@) {
                Some(self.counts()[path@])
            } else {
                None::<u32>
            },
    {
        match find_key(&self.counts, path) {
            Some(i) => {
                proof {
                    lemma_entries_map_at(self.counts@, i as int);
                }
                Some(self.counts[i].value)
            },
            None => {
                proof {
                    lemma_entries_map_dom(self.counts@, path@);
                }
                None
            },
        }
    }

    /// Whether `path` has recorded failures.
    pub fn contains_key(&self, path: &String) -> (r: bool)
        requires
            self.wf(),
        ensures
            r == self.counts().dom().contains(path@),
    {
        self.get(path).is_some()
    }

    /// Number of paths with recorded failures.
    pub fn len(&self) -> (r: usize)
        requires
            self.wf(),
        ensures
            r == self.counts().dom().len(),
    {
        proof {
            lemma_entries_map_len(self.counts@);
        }
        self.counts.len()
    }

    /// Whether no path has recorded failures.
    pub fn is_empty(&self) -> (r: bool)
        requires
            self.wf(),
        ensures
            r == (self.counts().dom().len() == 0),
    {
        self.len() == 0
    }
}

/// State container for the sync worker execution loop.
#[derive(Debug)]
pub struct SyncWorkerState {
    /// Reusable block buffer for transfers.
    pub scratch: Vec<u8>,
    /// Consecutive failure counts per path.
    pub failure_tracker: FailureTracker,
    /// Interval between periodic archive prunes, in milliseconds.
    pub hourly_prune_interval: u64,
    /// When the archive was last pruned.
    pub last_archive_prune: u64,
    /// Whether a catch-up full scan is pending.
    pub needs_catchup_scan: bool,
    /// Consecutive failed catch-up scans.
    pub catchup_scan_failures: u32,
    /// Earliest time of the next catch-up scan attempt, when backing off.
    pub next_catchup_scan_attempt: Option<u64>,
}

impl SyncWorkerState {
    /// Internal consistency of the failure tracker.
    pub open spec fn wf(&self) -> bool {
        self.failure_tracker.wf()
    }

    /// Fresh state at time `now`: a zeroed scratch buffer of one block, no failures,
    /// no pending catch-up scan, and the prune clock started.
    pub fn new(block_size_bytes: u64, now: u64) -> (s: Self)
        requires
            block_size_bytes <= usize::MAX,
        ensures
            s.wf(),
            s.scratch@ == Seq::new(block_size_bytes as nat, |i: int| 0u8),
            s.failure_tracker.counts() == Map::<Seq<char>, u32>::empty(),
            s.failure_tracker.spec_capacity() == FAILURE_TRACKER_CAPACITY,
            s.hourly_prune_interval == ARCHIVE_PRUNE_INTERVAL_MS,
            s.last_archive_prune == now,
            !s.needs_catchup_scan,
            s.catchup_scan_failures == 0,
            s.next_catchup_scan_attempt is None,
    {
        let n: usize = block_size_bytes as usize;
        let mut scratch: Vec<u8> = Vec::new();
        let mut i: usize = 0;
        while i < n
            invariant
                i <= n,
                scratch@ == Seq::new(i as nat, |k: int| 0u8),
            decreases n - i,
        {
            scratch.push(0u8);
            i += 1;
        }
        SyncWorkerState {
            scratch,
            failure_tracker: FailureTracker::new(FAILURE_TRACKER_CAPACITY),
            hourly_prune_interval: ARCHIVE_PRUNE_INTERVAL_MS,
            last_archive_prune: now,
            needs_catchup_scan: false,
            catchup_scan_failures: 0,
            next_catchup_scan_attempt: None,
        }
    }

    /// Whether at least one prune interval has passed since the last prune.
    pub fn should_prune_archive(&self, now: u64) -> (r: bool)
        ensures
            r == ((now >= self.last_archive_prune && now - self.last_archive_prune
                >= self.hourly_prune_interval) || (now < self.last_archive_prune
                && self.hourly_prune_interval == 0)),
    {
        now.saturating_sub(self.last_archive_prune) >= self.hourly_prune_interval
    }

    /// Records `now` as the time of the latest prune.
    pub fn record_prune(&mut self, now: u64)
        ensures
            *final(self) == (SyncWorkerState { last_archive_prune: now, ..*old(self) }),
    {
        self.last_archive_prune = now;
    }

    /// Increments (saturating) and returns the consecutive failure count of `path`.
    pub fn record_failure(&mut self, path: &String) -> (n: u32)
        requires
            old(self).wf(),
        ensures
            final(self).wf(),
            n == if old(self).failure_tracker.counts().dom().contains(path@) {
                if old(self).failure_tracker.counts()[path@] == u32::MAX {
                    u32::MAX as int
                } else {
                    old(self).failure_tracker.counts()[path@] + 1
                }
            } else {
                1
            },
            final(self).failure_tracker.counts() == old(self).failure_tracker.counts().insert(path@, n),
            final(self).failure_tracker.spec_capacity() == old(self).failure_tracker.spec_capacity(),
            final(self).scratch == old(self).scratch,
            final(self).hourly_prune_interval == old(self).hourly_prune_interval,
            final(self).last_archive_prune == old(self).last_archive_prune,
            final(self).needs_catchup_scan == old(self).needs_catchup_scan,
            final(self).catchup_scan_failures == old(self).catchup_scan_failures,
            final(self).next_catchup_scan_attempt == old(self).next_catchup_scan_attempt,
    {
        self.failure_tracker.record_failure(path)
    }

    /// Forgets the failures of `path`.
    pub fn reset_failure(&mut self, path: &String)
        requires
            old(self).wf(),
        ensures
            final(self).wf(),
            final(self).failure_tracker.counts() == old(self).failure_tracker.counts().remove(path@),
            final(self).failure_tracker.spec_capacity() == old(self).failure_tracker.spec_capacity(),
            final(self).scratch == old(self).scratch,
            final(self).hourly_prune_interval == old(self).hourly_prune_interval,
            final(self).last_archive_prune == old(self).last_archive_prune,
            final(self).needs_catchup_scan == old(self).needs_catchup_scan,
            final(self).catchup_scan_failures == old(self).catchup_scan_failures,
            final(self).next_catchup_scan_attempt == old(self).next_catchup_scan_attempt,
    {
        self.failure_tracker.reset_failure(path);
    }

    /// Forgets all failures.
    pub fn clear_failures(&mut self)
        ensures
            final(self).wf(),
            final(self).failure_tracker.counts() == Map::<Seq<char>, u32>::empty(),
            final(self).failure_tracker.spec_capacity() == old(self).failure_tracker.spec_capacity(),
            final(self).scratch == old(self).scratch,
            final(self).hourly_prune_interval == old(self).hourly_prune_interval,
            final(self).last_archive_prune == old(self).last_archive_prune,
            final(self).needs_catchup_scan == old(self).needs_catchup_scan,
            final(self).catchup_scan_failures == old(self).catchup_scan_failures,
            final(self).next_catchup_scan_attempt == old(self).next_catchup_scan_attempt,
    {
        self.failure_tracker.clear();
    }

    /// Marks that a catch-up scan is required.
    pub fn mark_needs_catchup_scan(&mut self)
        ensures
            *final(self) == (SyncWorkerState { needs_catchup_scan: true, ..*old(self) }),
    {
        self.needs_catchup_scan = true;
    }

    /// Records a failed catch-up scan: one more consecutive failure (saturating) and the
    /// next attempt deferred by the backoff for that count (saturating at the clock's end).
    pub fn record_catchup_scan_failure(&mut self, now: u64, base_interval_ms: u64)
        ensures
            final(self).catchup_scan_failures == if old(self).catchup_scan_failures == u32::MAX {
                u32::MAX
            } else {
                (old(self).catchup_scan_failures + 1) as u32
            },
            final(self).next_catchup_scan_attempt == Some(
                now.saturating_add(
                    backoff_ms(final(self).catchup_scan_failures, base_interval_ms) as u64,
                ),
            ),
            *final(self) == (SyncWorkerState {
                catchup_scan_failures: final(self).catchup_scan_failures,
                next_catchup_scan_attempt: final(self).next_catchup_scan_attempt,
                ..*old(self)
            }),
    {
        self.catchup_scan_failures = self.catchup_scan_failures.saturating_add(1);
        let backoff = calculate_exponential_backoff(self.catchup_scan_failures, base_interval_ms);
        self.next_catchup_scan_attempt = Some(now.saturating_add(backoff));
    }

    /// Records a successful catch-up scan: nothing pending and the backoff cleared.
    pub fn record_catchup_scan_success(&mut self)
        ensures
            *final(self) == (SyncWorkerState {
                needs_catchup_scan: false,
                catchup_scan_failures: 0,
                next_catchup_scan_attempt: None,
                ..*old(self)
            }),
    {
        self.needs_catchup_scan = false;
        self.catchup_scan_failures = 0;
        self.next_catchup_scan_attempt = None;
    }

    /// Clears the catch-up requirement and its backoff.
    pub fn clear_needs_catchup_scan(&mut self)
        ensures
            *final(self) == (SyncWorkerState {
                needs_catchup_scan: false,
                catchup_scan_failures: 0,
                next_catchup_scan_attempt: None,
                ..*old(self)
            }),
    {
        self.record_catchup_scan_success();
    }

    /// Whether a catch-up full scan is pending.
    pub fn needs_catchup_scan(&self) -> (r: bool)
        ensures
            r == self.needs_catchup_scan,
    {
        self.needs_catchup_scan
    }

    /// Whether a catch-up scan should run now: one is pending, the queue has drained to
    /// `drain_threshold`, both ends are online, and any backoff deadline has passed.
    pub fn should_trigger_catchup_scan(
        &self,
        now: u64,
        queue_pending: usize,
        drain_threshold: usize,
        source_online: bool,
        dest_online: bool,
    ) -> (r: bool)
        ensures
            r == (self.needs_catchup_scan && queue_pending <= drain_threshold && source_online
                && dest_online && match self.next_catchup_scan_attempt {
                None => true,
                Some(earliest) => now >= earliest,
            }),
    {
        self.needs_catchup_scan && queue_pending <= drain_threshold && source_online && dest_online
            && match self.next_catchup_scan_attempt {
            None => true,
            Some(earliest) => now >= earliest,
        }
    }
}

} // verus!
