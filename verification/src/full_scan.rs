//! Full directory scan: synchronise every source file to the destination, then archive
//! and forget the tracked files that disappeared from the source, without ever deleting
//! on the strength of an incomplete or empty scan.

use vstd::prelude::*;
use std::sync::atomic::AtomicBool;
use crate::error::SyncError;
use crate::queue::string_views;
use crate::text::{ascii_lower, to_ascii_lower, chars_of, string_from_chars};
use crate::types::{FileRecord, ScanOutcome};

verus! {

/// A block hash as stored in the signature cache.
pub type BlockHash = [u8; 32];

/// Path comparison key of one character: back-slashes become slashes, ASCII letters lower case.
pub open spec fn norm_char(c: char) -> char {
    if c == '\\' {
        '/'
    } else {
        ascii_lower(c)
    }
}

/// A path with separators and ASCII case normalised.
pub open spec fn normalized(p: Seq<char>) -> Seq<char> {
    p.map_values(|c: char| norm_char(c))
}

/// Two relative paths name the same file on a case-insensitive, slash-agnostic file system.
pub open spec fn same_file(a: Seq<char>, b: Seq<char>) -> bool {
    normalized(a) == normalized(b)
}

/// `p` names one of the paths of `files`.
pub open spec fn present_in(p: Seq<char>, files: Seq<Seq<char>>) -> bool {
    exists|i: int| 0 <= i < files.len() && same_file(#[trigger] files[i], p)
}

/// The paths of a sequence of cached records.
pub open spec fn record_paths(records: Seq<FileRecord>) -> Seq<Seq<char>> {
    records.map_values(|r: FileRecord| r.relative_path@)
}

/// `p` is a cached path that no longer exists in the source: a deletion candidate.
pub open spec fn deletable(p: Seq<char>, source: Seq<Seq<char>>, cached: Seq<Seq<char>>) -> bool {
    cached.contains(p) && !present_in(p, source)
}

/// Exec normalisation of one character.
fn norm_char_exec(c: char) -> (r: char)
    ensures
        r == norm_char(c),
{
    if c == '\\' {
        '/'
    } else {
        to_ascii_lower(c)
    }
}

/// Whether `a` and `b` name the same file (see [`same_file`]).
pub fn paths_match(a: &str, b: &str) -> (r: bool)
    ensures
        r == same_file(a@, b@),
{
    let x = chars_of(a);
    let y = chars_of(b);
    if x.len() != y.len() {
        proof {
            assert(normalized(a@).len() != normalized(b@).len());
        }
        return false;
    }
    let mut i: usize = 0;
    while i < x.len()
        invariant
            x@ == a@,
            y@ == b@,
            x@.len() == y@.len(),
            i <= x@.len(),
            forall|k: int| 0 <= k < i ==> norm_char(#[trigger] x@[k]) == norm_char(y@[k]),
        decreases x@.len() - i,
    {
        if norm_char_exec(x[i]) != norm_char_exec(y[i]) {
            proof {
                assert(normalized(a@)[i as int] != normalized(b@)[i as int]);
            }
            return false;
        }
        i += 1;
    }
    assert(normalized(a@) =~= normalized(b@));
    true
}

/// A path key that compares and hashes case-insensitively and slash-insensitively.
#[derive(Debug, Clone, PartialEq, Eq, Hash)]
pub struct NormalizedCaseFoldedPath {
    key: String,
}

impl NormalizedCaseFoldedPath {
    /// The normalised characters.
    pub closed spec fn view(&self) -> Seq<char> {
        self.key@
    }

    /// The key of `path`.
    pub fn new(path: &str) -> (r: Self)
        ensures
            r.view() == normalized(path@),
    {
        let cs = chars_of(path);
        let mut out: Vec<char> = Vec::new();
        let mut i: usize = 0;
        while i < cs.len()
            invariant
                cs@ == path@,
                i <= cs@.len(),
                out@ == normalized(path@).take(i as int),
            decreases cs@.len() - i,
        {
            out.push(norm_char_exec(cs[i]));
            assert(normalized(path@).take(i + 1) =~= normalized(path@).take(i as int).push(
                norm_char(cs@[i as int]),
            ));
            i += 1;
        }
        assert(normalized(path@).take(cs@.len() as int) =~= normalized(path@));
        NormalizedCaseFoldedPath { key: string_from_chars(out.as_slice()) }
    }

    /// The normalised text.
    pub fn as_str(&self) -> (r: &str)
        ensures
            r@ == self.view(),
    {
        self.key.as_str()
    }
}

/// Counters gathered while synchronising the files of a scan.
#[derive(Debug, Default, Clone, Copy, PartialEq, Eq, Structural)]
pub struct SyncStats {
    /// Files synchronised (or found up to date).
    pub synced: usize,
    /// Files whose synchronisation failed.
    pub failed: usize,
    /// Files skipped because of failures (all of them once the target went offline).
    pub skipped: usize,
    /// Whether the destination was found unreachable.
    pub network_offline: bool,
}

/// Files still to go after `synced` successes and `failed` failures out of `total`.
pub fn calculate_remaining_files(total: usize, synced: usize, failed: usize) -> (r: usize)
    ensures
        r == if synced + failed >= total { 0 } else { total - (synced + failed) },
{
    total.saturating_sub(synced.saturating_add(failed))
}

/// The records of a batch of records and block digests, in order.
pub open spec fn batch_records(batch: Seq<(FileRecord, Vec<BlockHash>)>) -> Seq<FileRecord> {
    batch.map_values(|e: (FileRecord, Vec<BlockHash>)| e.0)
}

/// The characters of an optional path.
pub open spec fn opt_string_view(o: Option<String>) -> Option<Seq<char>> {
    match o {
        Some(p) => Some(p@),
        None => None,
    }
}

/// The two drivers agree on the last scan and the last load of cached records.
pub open spec fn same_inputs<D: FullScanDriver>(a: D, b: D) -> bool {
    &&& a.last_scan() == b.last_scan()
    &&& a.last_load() == b.last_load()
    &&& a.spec_propagate_deletions() == b.spec_propagate_deletions()
}

/// The two drivers agree on every log of calls.
pub open spec fn same_logs<D: FullScanDriver>(a: D, b: D) -> bool {
    &&& a.sync_log() == b.sync_log()
    &&& a.archive_log() == b.archive_log()
    &&& a.deletion_log() == b.deletion_log()
}

/// The operations of a full scan. A driver that keeps a record (see [`Self::keeps_record`])
/// is modelled by a ghost record of what was scanned and loaded and of the files
/// synchronised, archived and forgotten; of one that does not, only the clauses that do not
/// depend on that record are promised.
pub trait FullScanDriver: Sized {
    /// Whether the spec functions below follow the driver's calls; a driver that does not
    /// keep that record keeps this default.
    open spec fn keeps_record(&self) -> bool {
        false
    }

    /// Whether no call fails, except a scan that is cancelled; with the default, nothing is
    /// promised.
    open spec fn reliable(&self) -> bool {
        false
    }

    /// The files and completeness reported by the last successful scan.
    open spec fn last_scan(&self) -> Option<(Seq<Seq<char>>, bool)> {
        None
    }

    /// The paths of the records returned by the last successful load.
    open spec fn last_load(&self) -> Option<Seq<Seq<char>>> {
        None
    }

    /// Paths passed to `sync_file_core`, in call order.
    open spec fn sync_log(&self) -> Seq<Seq<char>> {
        Seq::empty()
    }

    /// Paths passed to `archive_dest_file_only`, in call order.
    open spec fn archive_log(&self) -> Seq<Seq<char>> {
        Seq::empty()
    }

    /// Paths passed to `delete_files_batch`, in call order.
    open spec fn deletion_log(&self) -> Seq<Seq<char>> {
        Seq::empty()
    }

    /// Whether deletions are propagated to the destination.
    open spec fn spec_propagate_deletions(&self) -> bool {
        false
    }

    /// Destinations passed to `prune_destination_archive`, in call order.
    open spec fn prune_log(&self) -> Seq<Seq<char>> {
        Seq::empty()
    }

    /// Records returned by `sync_file_core`, in call order.
    open spec fn returned_log(&self) -> Seq<FileRecord> {
        Seq::empty()
    }

    /// Records stored by `flush_record_batch`, in call order.
    open spec fn stored_log(&self) -> Seq<FileRecord> {
        Seq::empty()
    }

    /// What resolving `dest_dir` gives, where the driver knows it in advance: `Some(None)`
    /// for an unreachable destination, `Some(Some(p))` for the active path `p`.
    open spec fn resolution(&self, dest_dir: Seq<char>) -> Option<Option<Seq<char>>> {
        None
    }

    /// Validate the source and resolve the active destination, `None` when unreachable.
    fn resolve_active_destination(&self, dest_dir: &str) -> (r: Result<Option<String>, SyncError>)
        ensures
            self.resolution(dest_dir@) matches Some(x) ==> r is Ok && opt_string_view(r->Ok_0) == x,
    ;

    /// Scan the source tree: the relative paths found and whether every directory was read.
    fn scan_source_files(&mut self, cancel: &AtomicBool) -> (r: Result<(Vec<String>, bool), SyncError>)
        ensures
            old(self).reliable() ==> final(self).reliable() && (r is Ok || r->Err_0 is Cancelled),
            old(self).keeps_record() ==> {
                &&& final(self).keeps_record()
                &&& final(self).returned_log() == old(self).returned_log()
                &&& final(self).stored_log() == old(self).stored_log()
                &&& match r {
                    Ok(res) => final(self).last_scan() == Some((string_views(res.0@), res.1)),
                    Err(_) => final(self).last_scan() == old(self).last_scan(),
                }
                &&& final(self).last_load() == old(self).last_load()
                &&& final(self).spec_propagate_deletions() == old(self).spec_propagate_deletions()
                &&& final(self).sync_log() == old(self).sync_log()
                &&& final(self).archive_log() == old(self).archive_log()
                &&& final(self).deletion_log() == old(self).deletion_log()
                &&& final(self).prune_log() == old(self).prune_log()
            },
    ;

    /// Load the cached records.
    fn load_cached_records(&mut self) -> (r: Result<Vec<FileRecord>, SyncError>)
        ensures
            old(self).reliable() ==> final(self).reliable() && r is Ok,
            old(self).keeps_record() ==> {
                &&& final(self).keeps_record()
                &&& final(self).returned_log() == old(self).returned_log()
                &&& final(self).stored_log() == old(self).stored_log()
                &&& match r {
                    Ok(recs) => final(self).last_load() == Some(record_paths(recs@)),
                    Err(_) => final(self).last_load() == old(self).last_load(),
                }
                &&& final(self).last_scan() == old(self).last_scan()
                &&& final(self).spec_propagate_deletions() == old(self).spec_propagate_deletions()
                &&& final(self).sync_log() == old(self).sync_log()
                &&& final(self).archive_log() == old(self).archive_log()
                &&& final(self).deletion_log() == old(self).deletion_log()
                &&& final(self).prune_log() == old(self).prune_log()
            },
    ;

    /// Synchronise one file; `Some` carries a record and block hashes to store.
    fn sync_file_core(
        &mut self,
        rel_path: &str,
        dest_dir: &str,
        scratch: &mut Vec<u8>,
        cached: Option<&FileRecord>,
    ) -> (r: Result<Option<(FileRecord, Vec<BlockHash>)>, SyncError>)
        ensures
            old(self).reliable() ==> final(self).reliable() && r is Ok,
            old(self).keeps_record() ==> {
                &&& final(self).keeps_record()
                &&& final(self).returned_log() == match r {
                    Ok(Some(x)) => old(self).returned_log().push(x.0),
                    _ => old(self).returned_log(),
                }
                &&& final(self).stored_log() == old(self).stored_log()
                &&& final(self).sync_log() == old(self).sync_log().push(rel_path@)
                &&& final(self).last_scan() == old(self).last_scan()
                &&& final(self).last_load() == old(self).last_load()
                &&& final(self).spec_propagate_deletions() == old(self).spec_propagate_deletions()
                &&& final(self).archive_log() == old(self).archive_log()
                &&& final(self).deletion_log() == old(self).deletion_log()
                &&& final(self).prune_log() == old(self).prune_log()
            },
    ;

    /// Archive (or remove) a file on the destination without touching the cache.
    fn archive_dest_file_only(&mut self, rel_path: &str, dest_dir: &str) -> (r: Result<(), SyncError>)
        ensures
            old(self).reliable() ==> final(self).reliable() && r is Ok,
            old(self).keeps_record() ==> {
                &&& final(self).keeps_record()
                &&& final(self).returned_log() == old(self).returned_log()
                &&& final(self).stored_log() == old(self).stored_log()
                &&& final(self).archive_log() == old(self).archive_log().push(rel_path@)
                &&& final(self).last_scan() == old(self).last_scan()
                &&& final(self).last_load() == old(self).last_load()
                &&& final(self).spec_propagate_deletions() == old(self).spec_propagate_deletions()
                &&& final(self).sync_log() == old(self).sync_log()
                &&& final(self).deletion_log() == old(self).deletion_log()
                &&& final(self).prune_log() == old(self).prune_log()
            },
    ;

    /// Forget the cached records of `paths`.
    fn delete_files_batch(&mut self, paths: &Vec<String>) -> (r: Result<(), SyncError>)
        ensures
            old(self).reliable() ==> final(self).reliable() && r is Ok,
            old(self).keeps_record() ==> {
                &&& final(self).keeps_record()
                &&& final(self).returned_log() == old(self).returned_log()
                &&& final(self).stored_log() == old(self).stored_log()
                &&& final(self).deletion_log() == old(self).deletion_log() + string_views(paths@)
                &&& final(self).last_scan() == old(self).last_scan()
                &&& final(self).last_load() == old(self).last_load()
                &&& final(self).spec_propagate_deletions() == old(self).spec_propagate_deletions()
                &&& final(self).sync_log() == old(self).sync_log()
                &&& final(self).archive_log() == old(self).archive_log()
                &&& final(self).prune_log() == old(self).prune_log()
            },
    ;

    /// Store a batch of records and hashes, emptying it.
    fn flush_record_batch(&mut self, batch: &mut Vec<(FileRecord, Vec<BlockHash>)>) -> (r: Result<(), SyncError>)
        ensures
            old(self).reliable() ==> final(self).reliable() && r is Ok,
            r is Ok ==> final(batch)@.len() == 0,
            old(self).keeps_record() ==> {
                &&& final(self).keeps_record()
                &&& final(self).returned_log() == old(self).returned_log()
                &&& r is Ok ==> final(self).stored_log() == old(self).stored_log() + batch_records(old(batch)@)
                &&& final(self).last_scan() == old(self).last_scan()
                &&& final(self).last_load() == old(self).last_load()
                &&& final(self).spec_propagate_deletions() == old(self).spec_propagate_deletions()
                &&& final(self).sync_log() == old(self).sync_log()
                &&& final(self).archive_log() == old(self).archive_log()
                &&& final(self).deletion_log() == old(self).deletion_log()
                &&& final(self).prune_log() == old(self).prune_log()
            },
    ;

    /// Prune old archive versions on the destination.
    fn prune_destination_archive(&mut self, dest_dir: &str) -> (r: Result<(), SyncError>)
        ensures
            old(self).reliable() ==> final(self).reliable() && r is Ok,
            old(self).keeps_record() ==> {
                &&& final(self).keeps_record()
                &&& final(self).returned_log() == old(self).returned_log()
                &&& final(self).stored_log() == old(self).stored_log()
                &&& final(self).prune_log() == old(self).prune_log().push(dest_dir@)
                &&& final(self).last_scan() == old(self).last_scan()
                &&& final(self).last_load() == old(self).last_load()
                &&& final(self).spec_propagate_deletions() == old(self).spec_propagate_deletions()
                &&& final(self).sync_log() == old(self).sync_log()
                &&& final(self).archive_log() == old(self).archive_log()
                &&& final(self).deletion_log() == old(self).deletion_log()
            },
    ;

    /// Whether deletions are propagated.
    fn propagate_deletions(&self) -> (r: bool)
        ensures
            self.keeps_record() ==> r == self.spec_propagate_deletions(),
    ;

    /// Block size for the transfer buffer.
    fn block_size_bytes(&self) -> u64;
}

/// Index of the last cached record naming the same file as `path`, if any.
pub fn find_cached_record(records: &Vec<FileRecord>, path: &str) -> (r: Option<usize>)
    ensures
        match r {
            Some(i) => i < records@.len() && same_file(records@[i as int].relative_path@, path@)
                && forall|j: int| i < j < records@.len() ==> !same_file(
                    #[trigger] records@[j].relative_path@,
                    path@,
                ),
            None => forall|j: int| 0 <= j < records@.len() ==> !same_file(
                #[trigger] records@[j].relative_path@,
                path@,
            ),
        },
{
    let mut i: usize = records.len();
    while i > 0
        invariant
            i <= records@.len(),
            forall|j: int| i <= j < records@.len() ==> !same_file(#[trigger] records@[j].relative_path@, path@),
        decreases i,
    {
        if paths_match(records[i - 1].relative_path.as_str(), path) {
            return Some(i - 1);
        }
        i -= 1;
    }
    None
}

/// Whether `path` names one of `files` (see [`present_in`]).
pub fn is_present(files: &Vec<String>, path: &str) -> (r: bool)
    ensures
        r == present_in(path@, string_views(files@)),
{
    let mut i: usize = 0;
    while i < files.len()
        invariant
            i <= files@.len(),
            forall|j: int| 0 <= j < i ==> !same_file(#[trigger] string_views(files@)[j], path@),
        decreases files@.len() - i,
    {
        if paths_match(files[i].as_str(), path) {
            assert(same_file(string_views(files@)[i as int], path@));
            return true;
        }
        i += 1;
    }
    false
}

/// The outcome of a finished scan from its synchronisation counters and the number of
/// deletions that failed.
pub open spec fn finished_outcome(stats: SyncStats, delete_failed: usize) -> ScanOutcome {
    if stats.failed > 0 || delete_failed > 0 {
        ScanOutcome::PartialFailure { synced: stats.synced, failed: stats.failed, delete_failed }
    } else {
        ScanOutcome::Success { synced: stats.synced }
    }
}

/// A finished scan reports success exactly when no file failed to synchronise and no
/// deletion failed; otherwise it reports a partial failure carrying both failure counts;
/// either way it carries the number of files synchronised, and never reports the
/// destination unreachable.
pub proof fn lemma_finished_outcome_reports_failures(stats: SyncStats, delete_failed: usize)
    ensures
        (finished_outcome(stats, delete_failed) is Success) <==> (stats.failed == 0 && delete_failed == 0),
        stats.failed == 0 && delete_failed == 0 ==> finished_outcome(stats, delete_failed) == (ScanOutcome::Success {
            synced: stats.synced,
        }),
        stats.failed > 0 || delete_failed > 0 ==> finished_outcome(stats, delete_failed) == (ScanOutcome::PartialFailure {
            synced: stats.synced,
            failed: stats.failed,
            delete_failed: delete_failed,
        }),
        !(finished_outcome(stats, delete_failed) is DestinationUnreachable),
{
}

/// Exec form of [`finished_outcome`].
pub fn scan_outcome(stats: SyncStats, delete_failed: usize) -> (r: ScanOutcome)
    ensures
        r == finished_outcome(stats, delete_failed),
{
    if stats.failed > 0 || delete_failed > 0 {
        ScanOutcome::PartialFailure { synced: stats.synced, failed: stats.failed, delete_failed }
    } else {
        ScanOutcome::Success { synced: stats.synced }
    }
}

/// `after` is `before` followed by deletion candidates only.
pub open spec fn extended_with_deletable(
    before: Seq<Seq<char>>,
    after: Seq<Seq<char>>,
    source: Seq<Seq<char>>,
    cached: Seq<Seq<char>>,
) -> bool {
    &&& before.len() <= after.len()
    &&& after.take(before.len() as int) == before
    &&& forall|k: int| before.len() <= k < after.len() ==> deletable(#[trigger] after[k], source, cached)
}

proof fn lemma_extended_refl(s: Seq<Seq<char>>, source: Seq<Seq<char>>, cached: Seq<Seq<char>>)
    ensures
        extended_with_deletable(s, s, source, cached),
{
    assert(s.take(s.len() as int) =~= s);
}

proof fn lemma_extended_with_nothing_cached(
    before: Seq<Seq<char>>,
    after: Seq<Seq<char>>,
    source: Seq<Seq<char>>,
    cached: Seq<Seq<char>>,
)
    requires
        extended_with_deletable(before, after, source, cached),
        cached.len() == 0,
    ensures
        after == before,
{
    if after.len() > before.len() {
        assert(deletable(after[before.len() as int], source, cached));
    }
    assert(after =~= after.take(before.len() as int));
}

/// Nothing is archived or forgotten unless the last scan was complete and found files,
/// deletions are propagated, and every archived or forgotten path is a cached path
/// absent from that scan.
pub open spec fn deletions_justified<D: FullScanDriver>(before: D, after: D) -> bool {
    (after.archive_log() != before.archive_log() || after.deletion_log() != before.deletion_log())
        ==> match (after.last_scan(), after.last_load()) {
        (Some(scan), Some(cached)) => {
            &&& scan.1
            &&& scan.0.len() > 0
            &&& after.spec_propagate_deletions()
            &&& extended_with_deletable(before.archive_log(), after.archive_log(), scan.0, cached)
            &&& extended_with_deletable(before.deletion_log(), after.deletion_log(), scan.0, cached)
        },
        _ => false,
    }
}

/// The files synchronised since `before` are a prefix of the files of the last scan.
pub open spec fn sync_log_follows_scan<D: FullScanDriver>(before: D, after: D) -> bool {
    match after.last_scan() {
        Some(scan) => exists|k: int| 0 <= k <= scan.0.len() && after.sync_log() == before.sync_log()
            + scan.0.take(k),
        None => false,
    }
}

/// Every file of the last scan was handed to the driver once, in order, since `before`,
/// and `synced` of them plus `failed` make up the whole scan.
pub open spec fn scan_fully_synced<D: FullScanDriver>(before: D, after: D, synced: nat, failed: nat) -> bool {
    match after.last_scan() {
        Some(scan) => {
            &&& synced + failed == scan.0.len()
            &&& after.sync_log() == before.sync_log() + scan.0
        },
        None => false,
    }
}

/// The cached paths absent from `source`, in cache order: the files a complete scan shows
/// were deleted.
pub open spec fn missing_from(cached: Seq<Seq<char>>, source: Seq<Seq<char>>) -> Seq<Seq<char>>
    decreases cached.len(),
{
    if cached.len() == 0 {
        Seq::empty()
    } else {
        let prev = missing_from(cached.drop_last(), source);
        if present_in(cached.last(), source) {
            prev
        } else {
            prev.push(cached.last())
        }
    }
}

/// Deletions are withheld: they are not propagated, the scan was incomplete, or the scan
/// found no file while files are cached.
pub open spec fn deletions_withheld(propagate: bool, scan_complete: bool, source_len: nat, cached_len: nat) -> bool {
    !propagate || !scan_complete || (source_len == 0 && cached_len > 0)
}

/// `b` is `a` followed by zero or more entries.
pub open spec fn extends<T>(a: Seq<T>, b: Seq<T>) -> bool {
    a.len() <= b.len() && b.take(a.len() as int) == a
}

/// Appending keeps an extension.
proof fn lemma_extends_push<T>(a: Seq<T>, b: Seq<T>, x: T)
    requires
        extends(a, b),
    ensures
        extends(a, b.push(x)),
{
    assert(b.push(x).take(a.len() as int) =~= b.take(a.len() as int));
}

/// Extension is transitive.
proof fn lemma_extends_trans<T>(a: Seq<T>, b: Seq<T>, c: Seq<T>)
    requires
        extends(a, b),
        extends(b, c),
    ensures
        extends(a, c),
{
    assert(c.take(a.len() as int) =~= c.take(b.len() as int).take(a.len() as int));
}

/// Why a stage that failed with `e` stopped, given the cancellation readings `reads0` and
/// driver failures `fails0` logged before it and `reads1`, `fails1` after: the last reading
/// of the flag, taken in the stage, found it raised (and `e` is `Cancelled`), or the driver
/// answered `e` last.
pub open spec fn stopped_by(
    e: SyncError,
    reads0: Seq<bool>,
    reads1: Seq<bool>,
    fails0: Seq<SyncError>,
    fails1: Seq<SyncError>,
) -> bool {
    ||| (e == SyncError::Cancelled && reads1.len() > reads0.len() && reads1.last() && fails1 == fails0)
    ||| (fails1.len() > fails0.len() && fails1.last() == e)
}

/// Whether every file synchronisation answered after `a0`, in `a1`, failed.
pub open spec fn all_failed(a0: Seq<Result<(), SyncError>>, a1: Seq<Result<(), SyncError>>) -> bool {
    forall|j: int| a0.len() <= j < a1.len() ==> #[trigger] a1[j] is Err
}

/// Whether the driver's cancellation flag is raised.
fn is_cancelled(flag: &AtomicBool) -> bool {
    flag.load(std::sync::atomic::Ordering::Relaxed)
}

/// A zeroed transfer buffer of `len` bytes.
pub fn zeroed_buffer(len: usize) -> (v: Vec<u8>)
    ensures
        v@ == Seq::new(len as nat, |i: int| 0u8),
{
    let mut v: Vec<u8> = Vec::new();
    let mut i: usize = 0;
    while i < len
        invariant
            i <= len,
            v@ == Seq::new(i as nat, |k: int| 0u8),
        decreases len - i,
    {
        v.push(0u8);
        i += 1;
    }
    v
}

/// Orchestrates a full directory synchronisation over a [`FullScanDriver`] that it owns.
pub struct FullScanCoordinator<'a, D: FullScanDriver> {
    driver: D,
    dest_dir: &'a str,
    cancel: &'a AtomicBool,
    /// Every reading of the cancellation flag taken by the coordinator, in order.
    reads: Ghost<Seq<bool>>,
    /// Every driver failure that made a stage stop, in order.
    failures: Ghost<Seq<SyncError>>,
    /// The driver's answer to every file synchronisation, in order.
    answers: Ghost<Seq<Result<(), SyncError>>>,
}

impl<'a, D: FullScanDriver> FullScanCoordinator<'a, D> {
    /// The driver.
    pub closed spec fn spec_driver(&self) -> D {
        self.driver
    }

    /// The destination directory handed to the driver.
    pub closed spec fn spec_dest_dir(&self) -> Seq<char> {
        self.dest_dir@
    }

    /// The readings of the cancellation flag taken so far, in order.
    pub closed spec fn spec_reads(&self) -> Seq<bool> {
        self.reads@
    }

    /// The driver failures that made a stage stop so far, in order.
    pub closed spec fn spec_failures(&self) -> Seq<SyncError> {
        self.failures@
    }

    /// The driver's answers to the file synchronisations so far, in order.
    pub closed spec fn spec_answers(&self) -> Seq<Result<(), SyncError>> {
        self.answers@
    }

    /// A coordinator for `dest_dir` over `driver`, cancelled through `cancel`.
    pub fn new(driver: D, dest_dir: &'a str, cancel: &'a AtomicBool) -> (c: Self)
        ensures
            c.spec_driver() == driver,
            c.spec_dest_dir() == dest_dir@,
            c.spec_reads() == Seq::<bool>::empty(),
            c.spec_failures() == Seq::<SyncError>::empty(),
            c.spec_answers() == Seq::<Result<(), SyncError>>::empty(),
    {
        FullScanCoordinator {
            driver,
            dest_dir,
            cancel,
            reads: Ghost(Seq::empty()),
            failures: Ghost(Seq::empty()),
            answers: Ghost(Seq::empty()),
        }
    }

    /// The driver.
    pub fn driver(&self) -> (r: &D)
        ensures
            *r == self.spec_driver(),
    {
        &self.driver
    }

    /// Gives the driver back.
    pub fn into_driver(self) -> (r: D)
        ensures
            r == self.spec_driver(),
    {
        self.driver
    }

    /// Stage 1: the active destination, `None` when unreachable; cancelled first if asked to.
    pub fn resolve_active_destination(&self) -> (r: Result<Option<String>, SyncError>)
        ensures
            self.spec_driver().resolution(self.spec_dest_dir()) matches Some(x) ==> (r is Ok
                && opt_string_view(r->Ok_0) == x) || r == Err::<Option<String>, SyncError>(SyncError::Cancelled),
    {
        let cancelled = is_cancelled(self.cancel);
        self.resolve_with_reading(cancelled)
    }

    /// Stage 1, the cancellation flag having been read as `cancelled`: `Cancelled` when it
    /// was raised, else the driver's answer.
    pub fn resolve_with_reading(&self, cancelled: bool) -> (r: Result<Option<String>, SyncError>)
        ensures
            cancelled ==> r == Err::<Option<String>, SyncError>(SyncError::Cancelled),
            !cancelled ==> (self.spec_driver().resolution(self.spec_dest_dir()) matches Some(x) ==> r is Ok
                && opt_string_view(r->Ok_0) == x),
    {
        if cancelled {
            return Err(SyncError::Cancelled);
        }
        self.driver.resolve_active_destination(self.dest_dir)
    }

    /// Stage 2: scan the source tree.
    pub fn collect_source_files(&mut self) -> (r: Result<(Vec<String>, bool), SyncError>)
        ensures
            final(self).spec_dest_dir() == old(self).spec_dest_dir(),
            final(self).spec_reads() == old(self).spec_reads(),
            final(self).spec_failures() == old(self).spec_failures(),
            final(self).spec_answers() == old(self).spec_answers(),
            old(self).spec_driver().reliable() ==> final(self).spec_driver().reliable() && (r is Ok || r->Err_0 is Cancelled),
            old(self).spec_driver().keeps_record() ==> {
                &&& final(self).spec_driver().keeps_record()
                &&& match r {
                    Ok(res) => final(self).spec_driver().last_scan() == Some((string_views(res.0@), res.1)),
                    Err(_) => final(self).spec_driver().last_scan() == old(self).spec_driver().last_scan(),
                }
                &&& final(self).spec_driver().last_load() == old(self).spec_driver().last_load()
                &&& final(self).spec_driver().spec_propagate_deletions() == old(self).spec_driver().spec_propagate_deletions()
                &&& same_logs(old(self).spec_driver(), final(self).spec_driver())
                &&& final(self).spec_driver().prune_log() == old(self).spec_driver().prune_log()
            },
    {
        self.driver.scan_source_files(self.cancel)
    }

    /// Stage 3: load the cached records.
    pub fn load_cached_records(&mut self) -> (r: Result<Vec<FileRecord>, SyncError>)
        ensures
            final(self).spec_dest_dir() == old(self).spec_dest_dir(),
            final(self).spec_reads() == old(self).spec_reads(),
            final(self).spec_failures() == old(self).spec_failures(),
            final(self).spec_answers() == old(self).spec_answers(),
            old(self).spec_driver().reliable() ==> final(self).spec_driver().reliable() && r is Ok,
            old(self).spec_driver().keeps_record() ==> {
                &&& final(self).spec_driver().keeps_record()
                &&& match r {
                    Ok(recs) => final(self).spec_driver().last_load() == Some(record_paths(recs@)),
                    Err(_) => final(self).spec_driver().last_load() == old(self).spec_driver().last_load(),
                }
                &&& final(self).spec_driver().last_scan() == old(self).spec_driver().last_scan()
                &&& final(self).spec_driver().spec_propagate_deletions() == old(self).spec_driver().spec_propagate_deletions()
                &&& same_logs(old(self).spec_driver(), final(self).spec_driver())
                &&& final(self).spec_driver().prune_log() == old(self).spec_driver().prune_log()
            },
    {
        self.driver.load_cached_records()
    }

    /// Stage 4: synchronise the source files in order, storing records in batches of 500.
    /// A failure that means the destination is offline stops the pass and marks every
    /// file skipped; other failures skip just that file.
    pub fn synchronize_files(
        &mut self,
        active_dest: &str,
        source_files: &Vec<String>,
        cached_records: &Vec<FileRecord>,
    ) -> (r: Result<SyncStats, SyncError>)
        ensures
            final(self).spec_dest_dir() == old(self).spec_dest_dir(),
            extends(old(self).spec_reads(), final(self).spec_reads()),
            extends(old(self).spec_failures(), final(self).spec_failures()),
            extends(old(self).spec_answers(), final(self).spec_answers()),
            r is Err ==> stopped_by(r->Err_0, old(self).spec_reads(), final(self).spec_reads(), old(self).spec_failures(),
                final(self).spec_failures()),
            r is Ok ==> final(self).spec_failures() == old(self).spec_failures(),
            r is Ok && all_failed(old(self).spec_answers(), final(self).spec_answers()) ==> r->Ok_0.synced == 0,
            old(self).spec_driver().reliable() ==> final(self).spec_driver().reliable() && (r is Ok || r
                == Err::<SyncStats, SyncError>(SyncError::Cancelled)),
            old(self).spec_driver().reliable() && r is Ok ==> r->Ok_0.synced == source_files@.len()
                && r->Ok_0.failed == 0 && r->Ok_0.skipped == 0 && !r->Ok_0.network_offline,
            r is Ok ==> {
                let st = r->Ok_0;
                &&& st.synced + st.failed <= source_files@.len()
                &&& st.network_offline ==> st.skipped == source_files@.len() && st.failed > 0
                &&& !st.network_offline ==> st.synced + st.failed == source_files@.len()
                    && st.skipped == st.failed
            },
            old(self).spec_driver().keeps_record() ==> {
                &&& final(self).spec_driver().keeps_record()
                &&& same_inputs(old(self).spec_driver(), final(self).spec_driver())
                &&& final(self).spec_driver().archive_log() == old(self).spec_driver().archive_log()
                &&& final(self).spec_driver().deletion_log() == old(self).spec_driver().deletion_log()
                &&& exists|k: int| 0 <= k <= source_files@.len() && final(self).spec_driver().sync_log()
                    == old(self).spec_driver().sync_log() + string_views(source_files@).take(k)
                &&& r is Ok ==> final(self).spec_driver().sync_log() == old(self).spec_driver().sync_log()
                    + string_views(source_files@).take(r->Ok_0.synced + r->Ok_0.failed)
                &&& final(self).spec_driver().returned_log().len() >= old(self).spec_driver().returned_log().len()
                &&& final(self).spec_driver().returned_log().take(old(self).spec_driver().returned_log().len() as int)
                    == old(self).spec_driver().returned_log()
                &&& r is Ok ==> final(self).spec_driver().stored_log() == old(self).spec_driver().stored_log()
                    + final(self).spec_driver().returned_log().skip(old(self).spec_driver().returned_log().len() as int)
            },
    {
        let ghost log0 = self.driver.sync_log();
        let ghost d0 = self.driver;
        let ghost k = self.driver.keeps_record();
        let ghost rl = self.driver.reliable();
        let bs = self.driver.block_size_bytes();
        let len: usize = if bs <= usize::MAX as u64 { bs as usize } else { usize::MAX };
        let mut scratch = zeroed_buffer(len);
        let mut batch: Vec<(FileRecord, Vec<BlockHash>)> = Vec::new();
        let mut stats = SyncStats { synced: 0, failed: 0, skipped: 0, network_offline: false };
        let ghost rd0 = self.reads@;
        let ghost fl0 = self.failures@;
        let ghost an0 = self.answers@;
        proof {
            assert(rd0.take(rd0.len() as int) =~= rd0);
            assert(an0.take(an0.len() as int) =~= an0);
            assert(fl0.take(fl0.len() as int) =~= fl0);
        }
        let n = source_files.len();
        let mut i: usize = 0;
        while i < n
            invariant
                n == source_files@.len(),
                i <= n,
                rd0 == old(self).reads@,
                fl0 == old(self).failures@,
                an0 == old(self).answers@,
                extends(rd0, self.reads@),
                self.failures@ == fl0,
                extends(fl0, self.failures@),
                extends(an0, self.answers@),
                all_failed(an0, self.answers@) ==> stats.synced == 0,
                log0 == d0.sync_log(),
                d0 == old(self).spec_driver(),
                k == d0.keeps_record(),
                rl == d0.reliable(),
                self.dest_dir == old(self).dest_dir,
                k ==> self.driver.keeps_record() && same_inputs(d0, self.driver) && self.driver.archive_log()
                    == d0.archive_log() && self.driver.deletion_log() == d0.deletion_log()
                    && self.driver.sync_log() == log0 + string_views(source_files@).take(i as int),
                k ==> self.driver.returned_log().len() >= d0.returned_log().len() && self.driver.returned_log().take(
                    d0.returned_log().len() as int) == d0.returned_log() && self.driver.stored_log() + batch_records(batch@)
                    == d0.stored_log() + self.driver.returned_log().skip(d0.returned_log().len() as int),
                rl ==> self.driver.reliable() && stats.failed == 0,
                stats.synced + stats.failed == i,
                stats.skipped == stats.failed,
                !stats.network_offline,
            decreases n - i,
        {
            assert(string_views(source_files@).take(i + 1) =~= string_views(source_files@).take(i as int).push(
                source_files@[i as int]@,
            ));
            let c = is_cancelled(self.cancel);
            proof {
                lemma_extends_push(rd0, self.reads@, c);
                self.reads = Ghost(self.reads@.push(c));
            }
            if c {
                match self.driver.flush_record_batch(&mut batch) {
                    Ok(()) => {},
                    Err(e) => {
                        proof {
                            lemma_extends_push(fl0, self.failures@, e);
                            self.failures = Ghost(self.failures@.push(e));
                        }
                        return Err(e);
                    },
                }
                return Err(SyncError::Cancelled);
            }
            let cached: Option<&FileRecord> = match find_cached_record(cached_records, source_files[i].as_str()) {
                Some(j) => Some(&cached_records[j]),
                None => None,
            };
            let ghost r0 = self.driver.returned_log();
            let ghost b0 = batch@;
            let ghost l0 = d0.returned_log().len() as int;
            let res = self.driver.sync_file_core(source_files[i].as_str(), active_dest, &mut scratch, cached);
            let ghost prev = self.answers@;
            proof {
                let a = if res is Ok { Ok::<(), SyncError>(()) } else { Err::<(), SyncError>(res->Err_0) };
                lemma_extends_push(an0, self.answers@, a);
                self.answers = Ghost(self.answers@.push(a));
                assert(self.answers@[prev.len() as int] == a);
                if all_failed(an0, self.answers@) {
                    assert forall|j: int| an0.len() <= j < prev.len() implies #[trigger] prev[j] is Err by {
                        assert(self.answers@[j] == prev[j]);
                    }
                }
            }
            match res {
                Ok(Some(rec)) => {
                    stats.synced = stats.synced + 1;
                    let ghost x = rec.0;
                    batch.push(rec);
                    proof {
                        if k {
                            assert(batch_records(batch@) =~= batch_records(b0).push(x));
                            assert(self.driver.returned_log() == r0.push(x));
                            assert(r0.push(x).take(l0) =~= r0.take(l0));
                            assert(r0.push(x).skip(l0) =~= r0.skip(l0).push(x));
                            assert(self.driver.stored_log() + batch_records(batch@) =~= (self.driver.stored_log()
                                + batch_records(b0)).push(x));
                        }
                    }
                    if batch.len() >= 500 {
                        let ghost b1 = batch@;
                        match self.driver.flush_record_batch(&mut batch) {
                            Ok(()) => {},
                            Err(e) => {
                                proof {
                                    lemma_extends_push(fl0, self.failures@, e);
                                    self.failures = Ghost(self.failures@.push(e));
                                }
                                return Err(e);
                            },
                        }
                        proof {
                            if k {
                                assert(batch_records(batch@) =~= Seq::<FileRecord>::empty());
                                assert(self.driver.stored_log() + batch_records(batch@) =~= self.driver.stored_log());
                            }
                        }
                    }
                },
                Ok(None) => {
                    stats.synced = stats.synced + 1;
                },
                Err(e) => {
                    stats.failed = stats.failed + 1;
                    if e.is_network_offline() {
                        stats.network_offline = true;
                        stats.skipped = n;
                        match self.driver.flush_record_batch(&mut batch) {
                            Ok(()) => {},
                            Err(e2) => {
                                proof {
                                    lemma_extends_push(fl0, self.failures@, e2);
                                    self.failures = Ghost(self.failures@.push(e2));
                                }
                                return Err(e2);
                            },
                        }
                        return Ok(stats);
                    }
                    stats.skipped = stats.skipped + 1;
                },
            }
            i += 1;
        }
        assert(string_views(source_files@).take(n as int) =~= string_views(source_files@));
        match self.driver.flush_record_batch(&mut batch) {
            Ok(()) => {},
            Err(e) => {
                proof {
                    lemma_extends_push(fl0, self.failures@, e);
                    self.failures = Ghost(self.failures@.push(e));
                }
                return Err(e);
            },
        }
        Ok(stats)
    }

    /// Stage 5: when deletions are propagated and the scan was complete (and found files,
    /// or nothing is cached), archive on the destination every cached file missing from the
    /// scan, in cache order, then forget all those archived in one batch; returns how many
    /// could not be archived. An archive failure that means the destination is offline stops
    /// the pass; a raised cancellation flag cancels it.
    pub fn reconcile_deletions(
        &mut self,
        active_dest: &str,
        source_files: &Vec<String>,
        cached_records: &Vec<FileRecord>,
        scan_complete: bool,
    ) -> (r: Result<usize, SyncError>)
        ensures
            final(self).spec_dest_dir() == old(self).spec_dest_dir(),
            extends(old(self).spec_reads(), final(self).spec_reads()),
            extends(old(self).spec_failures(), final(self).spec_failures()),
            final(self).spec_answers() == old(self).spec_answers(),
            r is Err ==> stopped_by(r->Err_0, old(self).spec_reads(), final(self).spec_reads(), old(self).spec_failures(),
                final(self).spec_failures()),
            r is Ok ==> final(self).spec_failures() == old(self).spec_failures(),
            old(self).spec_driver().reliable() ==> final(self).spec_driver().reliable() && (r == Ok::<usize, SyncError>(0)
                || r == Err::<usize, SyncError>(SyncError::Cancelled)),
            old(self).spec_driver().keeps_record() ==> {
                &&& final(self).spec_driver().keeps_record()
                &&& same_inputs(old(self).spec_driver(), final(self).spec_driver())
                &&& final(self).spec_driver().sync_log() == old(self).spec_driver().sync_log()
                &&& final(self).spec_driver().prune_log() == old(self).spec_driver().prune_log()
                &&& deletions_withheld(
                    old(self).spec_driver().spec_propagate_deletions(),
                    scan_complete,
                    source_files@.len(),
                    cached_records@.len(),
                ) ==> r == Ok::<usize, SyncError>(0) && same_logs(old(self).spec_driver(), final(self).spec_driver())
                &&& extended_with_deletable(
                    old(self).spec_driver().archive_log(),
                    final(self).spec_driver().archive_log(),
                    string_views(source_files@),
                    record_paths(cached_records@),
                )
                &&& extended_with_deletable(
                    old(self).spec_driver().deletion_log(),
                    final(self).spec_driver().deletion_log(),
                    string_views(source_files@),
                    record_paths(cached_records@),
                )
                &&& r == Ok::<usize, SyncError>(0) && !deletions_withheld(
                    old(self).spec_driver().spec_propagate_deletions(),
                    scan_complete,
                    source_files@.len(),
                    cached_records@.len(),
                ) ==> {
                    let gone = missing_from(record_paths(cached_records@), string_views(source_files@));
                    &&& final(self).spec_driver().archive_log() == old(self).spec_driver().archive_log() + gone
                    &&& final(self).spec_driver().deletion_log() == old(self).spec_driver().deletion_log() + gone
                }
            },
    {
        let ghost d0 = self.driver;
        let ghost k = self.driver.keeps_record();
        let ghost rl = self.driver.reliable();
        let ghost src = string_views(source_files@);
        let ghost cached = record_paths(cached_records@);
        let ghost rd0 = self.reads@;
        let ghost fl0 = self.failures@;
        proof {
            lemma_extended_refl(d0.archive_log(), src, cached);
            lemma_extended_refl(d0.deletion_log(), src, cached);
            assert(rd0.take(rd0.len() as int) =~= rd0);
            assert(fl0.take(fl0.len() as int) =~= fl0);
        }
        if !self.driver.propagate_deletions() {
            return Ok(0);
        }
        if !scan_complete {
            return Ok(0);
        }
        if source_files.len() == 0 && cached_records.len() > 0 {
            return Ok(0);
        }
        let mut delete_skip_count: usize = 0;
        let mut missing: Vec<String> = Vec::new();
        let mut i: usize = 0;
        let n = cached_records.len();
        proof {
            assert(cached.take(0) =~= Seq::<Seq<char>>::empty());
            assert(d0.archive_log() + missing_from(cached.take(0), src) =~= d0.archive_log());
            assert(string_views(missing@) =~= missing_from(cached.take(0), src));
        }
        while i < n
            invariant
                n == cached_records@.len(),
                i <= n,
                delete_skip_count <= i,
                d0 == old(self).spec_driver(),
                k == d0.keeps_record(),
                rl == d0.reliable(),
                self.dest_dir == old(self).dest_dir,
                rd0 == old(self).reads@,
                fl0 == old(self).failures@,
                extends(rd0, self.reads@),
                self.failures@ == fl0,
                extends(fl0, self.failures@),
                self.answers == old(self).answers,
                src == string_views(source_files@),
                cached == record_paths(cached_records@),
                cached.len() == n,
                rl ==> self.driver.reliable() && delete_skip_count == 0,
                k ==> {
                    &&& self.driver.keeps_record()
                    &&& same_inputs(d0, self.driver)
                    &&& self.driver.sync_log() == d0.sync_log()
                    &&& self.driver.deletion_log() == d0.deletion_log()
                    &&& self.driver.prune_log() == d0.prune_log()
                    &&& !deletions_withheld(d0.spec_propagate_deletions(), scan_complete, source_files@.len(), cached_records@.len())
                    &&& extended_with_deletable(d0.deletion_log(), d0.deletion_log(), src, cached)
                    &&& extended_with_deletable(d0.archive_log(), self.driver.archive_log(), src, cached)
                    &&& delete_skip_count == 0 ==> self.driver.archive_log() == d0.archive_log() + missing_from(
                        cached.take(i as int),
                        src,
                    )
                },
                forall|j: int| 0 <= j < missing@.len() ==> deletable(#[trigger] missing@[j]@, src, cached),
                delete_skip_count == 0 ==> string_views(missing@) == missing_from(cached.take(i as int), src),
            ensures
                i == n,
            decreases n - i,
        {
            let c = is_cancelled(self.cancel);
            proof {
                lemma_extends_push(rd0, self.reads@, c);
                self.reads = Ghost(self.reads@.push(c));
            }
            if c {
                proof {
                    if k {
                        assert(self.driver.deletion_log() =~= d0.deletion_log());
                    }
                }
                return Err(SyncError::Cancelled);
            }
            let tracked_path: &str = cached_records[i].relative_path.as_str();
            proof {
                assert(cached[i as int] == cached_records@[i as int].relative_path@);
                assert(cached.take(i + 1).drop_last() =~= cached.take(i as int));
                assert(cached.take(i + 1).last() == cached[i as int]);
            }
            if !is_present(source_files, tracked_path) {
                let ghost before = self.driver.archive_log();
                let ghost before_missing = missing@;
                let res = self.driver.archive_dest_file_only(tracked_path, active_dest);
                proof {
                    assert(cached.contains(tracked_path@));
                    assert(deletable(tracked_path@, src, cached));
                    if k {
                        assert(self.driver.archive_log().take(before.len() as int) =~= before);
                        assert(self.driver.archive_log().take(d0.archive_log().len() as int) =~= d0.archive_log());
                        if delete_skip_count == 0 {
                            assert(self.driver.archive_log() =~= d0.archive_log() + missing_from(cached.take(i + 1), src));
                        }
                    }
                }
                match res {
                    Ok(()) => {
                        missing.push(cached_records[i].relative_path.clone());
                        proof {
                            assert(string_views(missing@) =~= string_views(before_missing).push(tracked_path@));
                        }
                    },
                    Err(e) => {
                        delete_skip_count = delete_skip_count + 1;
                        if e.is_network_offline() {
                            i = n;
                            break;
                        }
                    },
                }
            } else {
                proof {
                    if k && delete_skip_count == 0 {
                        assert(self.driver.archive_log() =~= d0.archive_log() + missing_from(cached.take(i + 1), src));
                    }
                }
            }
            i += 1;
        }
        proof {
            assert(cached.take(n as int) =~= cached);
        }
        if missing.len() > 0 {
            match self.driver.delete_files_batch(&missing) {
                Ok(()) => {},
                Err(e) => {
                    proof {
                        if k {
                            assert(self.driver.deletion_log().take(d0.deletion_log().len() as int) =~= d0.deletion_log());
                        }
                        lemma_extends_push(fl0, self.failures@, e);
                        self.failures = Ghost(self.failures@.push(e));
                    }
                    return Err(e);
                },
            }
        } else {
            proof {
                if delete_skip_count == 0 {
                    assert(string_views(missing@).len() == 0);
                    assert(missing_from(cached, src) =~= Seq::<Seq<char>>::empty());
                    assert(d0.deletion_log() + missing_from(cached, src) =~= d0.deletion_log());
                }
            }
        }
        proof {
            if k {
                assert(self.driver.deletion_log().take(d0.deletion_log().len() as int) =~= d0.deletion_log());
                if delete_skip_count == 0 {
                    assert(self.driver.archive_log() == d0.archive_log() + missing_from(cached, src));
                    assert(self.driver.deletion_log() == d0.deletion_log() + missing_from(cached, src));
                }
            }
        }
        Ok(delete_skip_count)
    }

    /// Stage 6: prune old archive versions; a failure is ignored.
    pub fn prune_archive(&mut self, active_dest: &str)
        ensures
            final(self).spec_dest_dir() == old(self).spec_dest_dir(),
            final(self).spec_reads() == old(self).spec_reads(),
            final(self).spec_failures() == old(self).spec_failures(),
            final(self).spec_answers() == old(self).spec_answers(),
            old(self).spec_driver().reliable() ==> final(self).spec_driver().reliable(),
            old(self).spec_driver().keeps_record() ==> {
                &&& final(self).spec_driver().keeps_record()
                &&& same_logs(old(self).spec_driver(), final(self).spec_driver())
                &&& same_inputs(old(self).spec_driver(), final(self).spec_driver())
                &&& final(self).spec_driver().prune_log() == old(self).spec_driver().prune_log().push(active_dest@)
            },
    {
        let _ = self.driver.prune_destination_archive(active_dest);
    }

    /// Runs every stage: resolve the destination, scan, load the cache, synchronise, then
    /// reconcile deletions and prune the archive. Whatever the driver reports, nothing is
    /// archived or forgotten except cached files missing from a complete, non-empty scan,
    /// and only when deletions are propagated. A success or partial failure reports a pass
    /// over every scanned file: how many were synchronised and how many failed. A non-empty
    /// scan whose every file failed ends as `DestinationUnreachable`; an empty scan over a
    /// non-empty cache, deletions being propagated, succeeds with nothing synchronised and
    /// nothing archived. The run stops with `Cancelled` only when a reading of the flag taken
    /// by the coordinator found it raised, and with another error only when the driver
    /// answered it.
    pub fn run(&mut self) -> (r: Result<ScanOutcome, SyncError>)
        ensures
            old(self).spec_driver().reliable() && (old(self).spec_driver().resolution(old(self).spec_dest_dir())
                matches Some(Some(_))) ==> (r == Err::<ScanOutcome, SyncError>(SyncError::Cancelled)
                || (r matches Ok(ScanOutcome::Success { .. }))),
            old(self).spec_driver().resolution(old(self).spec_dest_dir()) == Some(None::<Seq<char>>) ==> (r
                == Ok::<ScanOutcome, SyncError>(ScanOutcome::DestinationUnreachable) || r == Err::<ScanOutcome, SyncError>(
                SyncError::Cancelled)),
            old(self).spec_driver().keeps_record() ==> {
                &&& r matches Ok(ScanOutcome::Success { synced }) ==> scan_fully_synced(
                    old(self).spec_driver(),
                    final(self).spec_driver(),
                    synced as nat,
                    0,
                )
                &&& r matches Ok(ScanOutcome::PartialFailure { synced, failed, delete_failed }) ==> scan_fully_synced(
                    old(self).spec_driver(),
                    final(self).spec_driver(),
                    synced as nat,
                    failed as nat,
                ) && (failed > 0 || delete_failed > 0)
                &&& deletions_justified(old(self).spec_driver(), final(self).spec_driver())
                &&& final(self).spec_driver().sync_log() == old(self).spec_driver().sync_log() || sync_log_follows_scan(
                    old(self).spec_driver(),
                    final(self).spec_driver(),
                )
                &&& r is Ok && (final(self).spec_driver().last_scan() matches Some(sc) && sc.0.len() > 0) && all_failed(
                    old(self).spec_answers(),
                    final(self).spec_answers(),
                ) ==> r == Ok::<ScanOutcome, SyncError>(ScanOutcome::DestinationUnreachable)
                &&& old(self).spec_driver().spec_propagate_deletions() && r is Ok && r != Ok::<ScanOutcome, SyncError>(
                    ScanOutcome::DestinationUnreachable,
                ) && (final(self).spec_driver().last_scan() matches Some(sc) && sc.0.len() == 0) && (final(self).spec_driver().last_load() matches Some(c) && c.len() > 0) ==> r == Ok::<ScanOutcome, SyncError>(
                    ScanOutcome::Success { synced: 0 },
                ) && final(self).spec_driver().archive_log() == old(self).spec_driver().archive_log()
                    && final(self).spec_driver().deletion_log() == old(self).spec_driver().deletion_log()
            },
            extends(old(self).spec_reads(), final(self).spec_reads()),
            extends(old(self).spec_failures(), final(self).spec_failures()),
            extends(old(self).spec_answers(), final(self).spec_answers()),
            r is Err ==> stopped_by(r->Err_0, old(self).spec_reads(), final(self).spec_reads(), old(self).spec_failures(),
                final(self).spec_failures()),
    {
        let ghost d0 = self.driver;
        let ghost rd0 = self.reads@;
        let ghost fl0 = self.failures@;
        let ghost an0 = self.answers@;
        proof {
            assert(rd0.take(rd0.len() as int) =~= rd0);
            assert(fl0.take(fl0.len() as int) =~= fl0);
            assert(an0.take(an0.len() as int) =~= an0);
        }
        let cancelled = is_cancelled(self.cancel);
        proof {
            lemma_extends_push(rd0, self.reads@, cancelled);
            self.reads = Ghost(self.reads@.push(cancelled));
        }
        let active = match self.resolve_with_reading(cancelled) {
            Ok(Some(d)) => d,
            Ok(None) => {
                return Ok(ScanOutcome::DestinationUnreachable);
            },
            Err(e) => {
                proof {
                    if !cancelled {
                        lemma_extends_push(fl0, self.failures@, e);
                        self.failures = Ghost(self.failures@.push(e));
                    }
                }
                return Err(e);
            },
        };
        let (source_files, scan_complete) = match self.collect_source_files() {
            Ok(res) => res,
            Err(e) => {
                proof {
                    lemma_extends_push(fl0, self.failures@, e);
                    self.failures = Ghost(self.failures@.push(e));
                }
                return Err(e);
            },
        };
        let cached_records = match self.load_cached_records() {
            Ok(recs) => recs,
            Err(e) => {
                proof {
                    lemma_extends_push(fl0, self.failures@, e);
                    self.failures = Ghost(self.failures@.push(e));
                }
                return Err(e);
            },
        };
        let ghost rd1 = self.reads@;
        let ghost fl1 = self.failures@;
        let ghost an1 = self.answers@;
        let ghost src = string_views(source_files@);
        let ghost cached = record_paths(cached_records@);
        let ghost d_scanned = self.driver;
        let ghost kr = d0.keeps_record();
        let sync_res = self.synchronize_files(active.as_str(), &source_files, &cached_records);
        proof {
          if kr {
            assert(self.driver.last_scan() == Some((src, scan_complete)));
            let k = choose|k: int| 0 <= k <= source_files@.len() && self.driver.sync_log()
                == d_scanned.sync_log() + string_views(source_files@).take(k);
            assert(d_scanned.sync_log() == d0.sync_log());
            assert(src.len() == source_files@.len());
            assert(self.driver.sync_log() == d0.sync_log() + src.take(k));
            let scan = self.driver.last_scan()->Some_0;
            assert(scan.0 == src);
            assert(0 <= k <= scan.0.len() && self.driver.sync_log() == d0.sync_log() + scan.0.take(k));
            assert(sync_log_follows_scan(d0, self.driver));
          }
        }
        proof {
            lemma_extends_trans(rd0, rd1, self.reads@);
            lemma_extends_trans(fl0, fl1, self.failures@);
            lemma_extends_trans(an0, an1, self.answers@);
        }
        let stats = match sync_res {
            Ok(st) => st,
            Err(e) => {
                return Err(e);
            },
        };
        let ghost rd2 = self.reads@;
        let ghost an2 = self.answers@;
        proof {
            assert(rd2.take(rd2.len() as int) =~= rd2);
        }
        if source_files.len() > 0 && stats.skipped == source_files.len() {
            return Ok(ScanOutcome::DestinationUnreachable);
        }
        proof {
            if !stats.network_offline {
                assert(src.take(stats.synced + stats.failed) =~= src);
            }
        }
        if source_files.len() == 0 && cached_records.len() > 0 && self.driver.propagate_deletions() {
            self.prune_archive(active.as_str());
            return Ok(ScanOutcome::Success { synced: 0 });
        }
        let ghost d1 = self.driver;
        let delete_skip_count = if scan_complete {
            match self.reconcile_deletions(active.as_str(), &source_files, &cached_records, scan_complete) {
                Ok(c) => c,
                Err(e) => {
                    proof {
                        lemma_extends_trans(rd0, rd2, self.reads@);
                        lemma_extends_trans(fl0, fl1, self.failures@);
                    }
                    proof {
                        if kr && cached_records@.len() == 0 {
                            lemma_extended_with_nothing_cached(d1.archive_log(), self.driver.archive_log(), src, cached);
                            lemma_extended_with_nothing_cached(d1.deletion_log(), self.driver.deletion_log(), src, cached);
                        }
                    }
                    return Err(e);
                },
            }
        } else {
            0
        };
        proof {
            if kr && scan_complete && cached_records@.len() == 0 {
                lemma_extended_with_nothing_cached(d1.archive_log(), self.driver.archive_log(), src, cached);
                lemma_extended_with_nothing_cached(d1.deletion_log(), self.driver.deletion_log(), src, cached);
            }
        }
        proof {
            lemma_extends_trans(rd0, rd2, self.reads@);
        }
        self.prune_archive(active.as_str());
        Ok(scan_outcome(stats, delete_skip_count))
    }
}

} // verus!
