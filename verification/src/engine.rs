//! The local synchronisation engine: its configuration, its cache of verified
//! directories, and the decision of what a file needs before it is copied.

use vstd::prelude::*;
use crate::config::TargetSyncConfig;
use crate::error::{SyncError, ValidationKind};
use crate::reparse::{ReparseCache, components, entries_outside, entries_outside_parent};
use crate::runner::{join_path, joined_path};
use crate::text::str_eq;
use crate::types::{FileMetadataSnapshot, FileRecord, RelativePath, MTIME_TOLERANCE_MS};

verus! {

/// Capacity of the shallow tier of an engine's cache of verified directories.
pub const ENGINE_SHALLOW_CACHE_CAPACITY: usize = 50000;

/// Capacity of the deep tier of an engine's cache of verified directories.
pub const ENGINE_DEEP_CACHE_CAPACITY: usize = 10000;

/// What synchronising one regular file takes.
#[derive(Debug, Clone, Copy, PartialEq, Eq, Structural)]
pub enum SyncPlan {
    /// The destination and the cached record both match the source: nothing to do.
    UpToDate,
    /// The destination matches the source and the cached record matches it under another
    /// spelling of the path: align the destination name's case, store the record again
    /// under the source's spelling, and copy nothing.
    RefreshRecord,
    /// Copy the file, first aligning the destination name's case when `align_casing`;
    /// `small` picks the whole-file copy over the block delta, and `cached_id` is the row
    /// of the cached record to update.
    Transfer { small: bool, align_casing: bool, cached_id: Option<i64> },
}

/// The destination exists with the source's size and a modification time within the
/// tolerance of the source's.
pub open spec fn dest_matches(src: FileMetadataSnapshot, dest: Option<FileMetadataSnapshot>) -> bool {
    match dest {
        None => false,
        Some(d) => d.size == src.size && -MTIME_TOLERANCE_MS <= d.modified_epoch_millis
            - src.modified_epoch_millis <= MTIME_TOLERANCE_MS,
    }
}

/// The cached record is stored (has a row id) and holds the source's size and time.
pub open spec fn record_matches(src: FileMetadataSnapshot, record: Option<FileRecord>) -> bool {
    match record {
        None => false,
        Some(r) => r.id is Some && r.file_size == src.size && r.last_modified == src.modified_epoch_millis,
    }
}

/// The plan for the regular file `rel` (see [`SyncPlan`]): nothing when the destination
/// and a stored record match it, a record refresh when only the record's spelling of the
/// path differs, else a copy, whole-file below `threshold` bytes.
pub open spec fn sync_plan_of(
    rel: Seq<char>,
    src: FileMetadataSnapshot,
    dest: Option<FileMetadataSnapshot>,
    record: Option<FileRecord>,
    threshold: u64,
) -> SyncPlan {
    if dest_matches(src, dest) && record_matches(src, record) {
        if record.unwrap().relative_path@ == rel {
            SyncPlan::UpToDate
        } else {
            SyncPlan::RefreshRecord
        }
    } else {
        SyncPlan::Transfer {
            small: src.size < threshold,
            align_casing: dest_matches(src, dest),
            cached_id: match record {
                Some(r) => r.id,
                None => None,
            },
        }
    }
}

/// A file is left uncopied (up to date, or only its record refreshed) exactly when the
/// destination exists with the source's size and a modification time within two seconds of
/// the source's, and a stored record holds the source's size and time; otherwise it is
/// copied, whole below the threshold, keeping the cached record's row, and the destination
/// name's case is aligned only when the destination matches in size and time.
pub proof fn lemma_plan_copies_unless_destination_matches(
    rel: Seq<char>,
    src: FileMetadataSnapshot,
    dest: Option<FileMetadataSnapshot>,
    record: Option<FileRecord>,
    threshold: u64,
)
    ensures
        ({
            let plan = sync_plan_of(rel, src, dest, record, threshold);
            let dest_same = dest is Some && dest->Some_0.size == src.size && -2000 <= dest->Some_0.modified_epoch_millis
                - src.modified_epoch_millis <= 2000;
            let record_same = record is Some && record->Some_0.id is Some && record->Some_0.file_size == src.size
                && record->Some_0.last_modified == src.modified_epoch_millis;
            &&& (plan is UpToDate || plan is RefreshRecord) <==> (dest_same && record_same)
            &&& plan is UpToDate ==> record->Some_0.relative_path@ == rel
            &&& plan is RefreshRecord ==> record->Some_0.relative_path@ != rel
            &&& plan matches SyncPlan::Transfer { small, align_casing, cached_id } ==> small == (src.size < threshold)
                && align_casing == dest_same && cached_id == (match record { Some(r) => r.id, None => None })
        }),
{
}

/// Exec form of [`dest_matches`].
pub fn destination_matches(src: &FileMetadataSnapshot, dest: Option<&FileMetadataSnapshot>) -> (r: bool)
    ensures
        r == dest_matches(*src, match dest { Some(d) => Some(*d), None => None }),
{
    match dest {
        None => false,
        Some(d) => {
            let diff: i128 = d.modified_epoch_millis as i128 - src.modified_epoch_millis as i128;
            d.size == src.size && -2000 <= diff && diff <= 2000
        },
    }
}

/// Exec form of [`record_matches`].
pub fn record_matches_source(src: &FileMetadataSnapshot, record: Option<&FileRecord>) -> (r: bool)
    ensures
        r == record_matches(*src, match record { Some(x) => Some(*x), None => None }),
{
    match record {
        None => false,
        Some(rec) => rec.id.is_some() && rec.file_size == src.size && rec.last_modified == src.modified_epoch_millis,
    }
}

/// A copy of an optional record reference's row id.
fn record_id(record: Option<&FileRecord>) -> (r: Option<i64>)
    ensures
        r == (match record { Some(x) => x.id, None => None }),
{
    match record {
        Some(rec) => rec.id,
        None => None,
    }
}

/// Decides what synchronising the regular file `rel` takes (see [`sync_plan_of`]).
pub fn plan_file_sync(
    rel: &RelativePath,
    src: &FileMetadataSnapshot,
    dest: Option<&FileMetadataSnapshot>,
    record: Option<&FileRecord>,
    threshold: u64,
) -> (r: SyncPlan)
    ensures
        r == sync_plan_of(
            rel.view(),
            *src,
            match dest { Some(d) => Some(*d), None => None },
            match record { Some(x) => Some(*x), None => None },
            threshold,
        ),
{
    let dest_ok = destination_matches(src, dest);
    if dest_ok && record_matches_source(src, record) {
        match record {
            Some(rec) => {
                if str_eq(rec.relative_path.as_str(), rel.as_str()) {
                    return SyncPlan::UpToDate;
                } else {
                    return SyncPlan::RefreshRecord;
                }
            },
            None => {},
        }
    }
    SyncPlan::Transfer { small: src.size < threshold as i64 || (threshold > i64::MAX as u64), align_casing: dest_ok, cached_id: record_id(record) }
}

/// The local synchronisation engine: the target's configuration, the destination resolved
/// for it (if any), and the cache of directories verified free of reparse points.
#[derive(Debug)]
pub struct LocalSyncEngine {
    config: TargetSyncConfig,
    resolved_dest: Option<String>,
    reparse_cache: ReparseCache,
}

impl LocalSyncEngine {
    /// The engine's configuration.
    pub closed spec fn spec_config(&self) -> TargetSyncConfig {
        self.config
    }

    /// The resolved destination, if set.
    pub closed spec fn spec_resolved_dest(&self) -> Option<Seq<char>> {
        match self.resolved_dest {
            Some(d) => Some(d@),
            None => None,
        }
    }

    /// The cache of verified directories.
    pub closed spec fn spec_cache(&self) -> ReparseCache {
        self.reparse_cache
    }

    /// The destination the engine works on: the resolved one, else the configured one.
    pub open spec fn spec_active_dest(&self) -> Seq<char> {
        match self.spec_resolved_dest() {
            Some(d) => d,
            None => self.spec_config().spec_dest_dir(),
        }
    }

    /// An engine for `config`, with an empty cache and no resolved destination.
    pub fn new(config: TargetSyncConfig) -> (e: Self)
        ensures
            e.spec_config() == config,
            e.spec_resolved_dest() is None,
            e.spec_cache().spec_shallow().len() == 0,
            e.spec_cache().spec_deep().len() == 0,
            e.spec_cache().spec_max_shallow() == ENGINE_SHALLOW_CACHE_CAPACITY,
            e.spec_cache().spec_max_deep() == ENGINE_DEEP_CACHE_CAPACITY,
    {
        LocalSyncEngine {
            config,
            resolved_dest: None,
            reparse_cache: ReparseCache::new(ENGINE_SHALLOW_CACHE_CAPACITY, ENGINE_DEEP_CACHE_CAPACITY),
        }
    }

    /// The same engine working on the pre-resolved destination `dest`.
    pub fn with_resolved_dest(self, dest: &str) -> (e: Self)
        ensures
            e.spec_resolved_dest() == Some(dest@),
            e.spec_config() == self.spec_config(),
            e.spec_cache() == self.spec_cache(),
    {
        LocalSyncEngine { resolved_dest: Some(dest.to_owned()), ..self }
    }

    /// The pre-resolved destination, if set.
    pub fn resolved_dest(&self) -> (r: Option<&str>)
        ensures
            match r {
                Some(d) => self.spec_resolved_dest() == Some(d@),
                None => self.spec_resolved_dest() is None,
            },
    {
        match &self.resolved_dest {
            Some(d) => Some(d.as_str()),
            None => None,
        }
    }

    /// The destination the engine works on: the resolved one, else the configured one.
    pub fn active_dest(&self) -> (r: &str)
        ensures
            r@ == self.spec_active_dest(),
    {
        match &self.resolved_dest {
            Some(d) => d.as_str(),
            None => self.config.dest_dir(),
        }
    }

    /// The engine's configuration.
    pub fn config(&self) -> (r: &TargetSyncConfig)
        ensures
            *r == self.spec_config(),
    {
        &self.config
    }

    /// The cache of verified directories.
    pub fn reparse_cache(&self) -> (r: &ReparseCache)
        ensures
            *r == self.spec_cache(),
    {
        &self.reparse_cache
    }

    /// The cache of verified directories, for the checks that fill it.
    pub fn reparse_cache_mut(&mut self) -> (r: &mut ReparseCache)
        ensures
            *r == old(self).spec_cache(),
            final(self).spec_cache() == *final(r),
            final(self).spec_config() == old(self).spec_config(),
            final(self).spec_resolved_dest() == old(self).spec_resolved_dest(),
    {
        &mut self.reparse_cache
    }

    /// Forgets every verified directory, so that later work checks the whole tree again.
    pub fn invalidate_verified_dirs(&mut self)
        ensures
            final(self).spec_cache().spec_shallow().len() == 0,
            final(self).spec_cache().spec_deep().len() == 0,
            final(self).spec_cache().spec_max_shallow() == old(self).spec_cache().spec_max_shallow(),
            final(self).spec_cache().spec_max_deep() == old(self).spec_cache().spec_max_deep(),
            final(self).spec_config() == old(self).spec_config(),
            final(self).spec_resolved_dest() == old(self).spec_resolved_dest(),
    {
        self.reparse_cache.clear();
    }

    /// Forgets `dir` and every verified directory below it.
    pub fn evict_verified_dir(&mut self, dir: &str)
        ensures
            final(self).spec_cache().spec_shallow() == entries_outside(old(self).spec_cache().spec_shallow(), components(dir@)),
            final(self).spec_cache().spec_deep() == entries_outside(old(self).spec_cache().spec_deep(), components(dir@)),
            final(self).spec_cache().spec_max_shallow() == old(self).spec_cache().spec_max_shallow(),
            final(self).spec_cache().spec_max_deep() == old(self).spec_cache().spec_max_deep(),
            final(self).spec_config() == old(self).spec_config(),
            final(self).spec_resolved_dest() == old(self).spec_resolved_dest(),
    {
        self.reparse_cache.evict_dir(dir);
    }

    /// Decides what synchronising the regular file `rel` takes with this engine's
    /// whole-file threshold (see [`sync_plan_of`]).
    pub fn plan_sync(
        &self,
        rel: &RelativePath,
        src: &FileMetadataSnapshot,
        dest: Option<&FileMetadataSnapshot>,
        record: Option<&FileRecord>,
    ) -> (r: SyncPlan)
        ensures
            r == sync_plan_of(
                rel.view(),
                *src,
                match dest { Some(d) => Some(*d), None => None },
                match record { Some(x) => Some(*x), None => None },
                self.spec_config().spec_block_sync_threshold_bytes(),
            ),
    {
        plan_file_sync(rel, src, dest, record, self.config.block_sync_threshold_bytes())
    }

    /// The destination a full scan works on, given what the file system says: the source
    /// must exist (else a validation error); the pre-resolved destination is taken when it
    /// is a directory, else `dest_dir`; `None` when the chosen one is not a directory.
    pub fn resolve_scan_destination(
        &self,
        dest_dir: &str,
        source_exists: bool,
        resolved_is_dir: bool,
        dest_is_dir: bool,
    ) -> (r: Result<Option<String>, SyncError>)
        ensures
            r is Err <==> !source_exists,
            r is Err ==> (r->Err_0 matches SyncError::Validation { kind, .. } && kind == ValidationKind::General),
            source_exists ==> match self.spec_resolved_dest() {
                Some(res) => if resolved_is_dir {
                    r->Ok_0 is Some && r->Ok_0->Some_0@ == res
                } else if dest_is_dir {
                    r->Ok_0 is Some && r->Ok_0->Some_0@ == dest_dir@
                } else {
                    r->Ok_0 is None
                },
                None => if dest_is_dir {
                    r->Ok_0 is Some && r->Ok_0->Some_0@ == dest_dir@
                } else {
                    r->Ok_0 is None
                },
            },
    {
        if !source_exists {
            return Err(SyncError::validation("Source directory does not exist"));
        }
        match &self.resolved_dest {
            Some(res) => {
                if resolved_is_dir {
                    return Ok(Some(res.as_str().to_owned()));
                }
            },
            None => {},
        }
        if dest_is_dir {
            Ok(Some(dest_dir.to_owned()))
        } else {
            Ok(None)
        }
    }

    /// After `rel` was archived on `dest_dir`: forgets the verified parents of its
    /// destination and source paths, and says whether its cached record goes too (when
    /// deletions propagate, or when nothing is left at the destination).
    pub fn finish_deletion(&mut self, rel: &RelativePath, dest_dir: &str, dest_still_exists: bool) -> (forget_record: bool)
        ensures
            forget_record == (old(self).spec_config().spec_propagate_deletions() || !dest_still_exists),
            final(self).spec_cache().spec_shallow() == entries_outside_parent(
                entries_outside_parent(old(self).spec_cache().spec_shallow(), joined_path(dest_dir@, rel.view())),
                joined_path(old(self).spec_config().spec_source_dir(), rel.view()),
            ),
            final(self).spec_cache().spec_deep() == entries_outside_parent(
                entries_outside_parent(old(self).spec_cache().spec_deep(), joined_path(dest_dir@, rel.view())),
                joined_path(old(self).spec_config().spec_source_dir(), rel.view()),
            ),
            final(self).spec_config() == old(self).spec_config(),
            final(self).spec_resolved_dest() == old(self).spec_resolved_dest(),
            final(self).spec_cache().spec_max_shallow() == old(self).spec_cache().spec_max_shallow(),
            final(self).spec_cache().spec_max_deep() == old(self).spec_cache().spec_max_deep(),
    {
        let dest_path = join_path(dest_dir, rel.as_str());
        self.reparse_cache.evict_parent_of(dest_path.as_str());
        let source_path = join_path(self.config.source_dir(), rel.as_str());
        self.reparse_cache.evict_parent_of(source_path.as_str());
        self.config.propagate_deletions() || !dest_still_exists
    }
}

} // verus!
