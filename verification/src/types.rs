//! Domain types of the synchronisation subsystem: connectivity states, scan outcomes,
//! worker commands, validated relative paths, metadata snapshots and transfer tasks.

use vstd::prelude::*;
use vstd::std_specs::convert::FromSpecImpl;
use vstd::std_specs::convert::FromSpec;
use crate::error::{SyncError, ValidationKind};
use crate::path_safety::{is_safe_relative_path, safe_relative_path};

verus! {

/// Network and target connection status.
#[derive(Debug, Clone, Copy, PartialEq, Eq, Structural)]
pub enum ConnectivityState {
    /// Connection is online and reachable.
    Online,
    /// Connection is offline or unreachable.
    Offline,
}

impl From<bool> for ConnectivityState {
    fn from(b: bool) -> (r: Self) {
        if b {
            ConnectivityState::Online
        } else {
            ConnectivityState::Offline
        }
    }
}

impl FromSpecImpl<bool> for ConnectivityState {
    open spec fn obeys_from_spec() -> bool {
        true
    }

    open spec fn from_spec(b: bool) -> Self {
        if b {
            ConnectivityState::Online
        } else {
            ConnectivityState::Offline
        }
    }
}

impl From<ConnectivityState> for bool {
    fn from(c: ConnectivityState) -> (r: bool) {
        c == ConnectivityState::Online
    }
}

impl FromSpecImpl<ConnectivityState> for bool {
    open spec fn obeys_from_spec() -> bool {
        true
    }

    open spec fn from_spec(c: ConnectivityState) -> bool {
        c == ConnectivityState::Online
    }
}

/// Directory watcher status.
#[derive(Debug, Clone, Copy, PartialEq, Eq, Structural)]
pub enum WatcherState {
    /// Directory watcher is active.
    Active,
    /// Directory watcher is inactive.
    Inactive,
}

impl From<bool> for WatcherState {
    fn from(b: bool) -> (r: Self) {
        if b {
            WatcherState::Active
        } else {
            WatcherState::Inactive
        }
    }
}

impl FromSpecImpl<bool> for WatcherState {
    open spec fn obeys_from_spec() -> bool {
        true
    }

    open spec fn from_spec(b: bool) -> Self {
        if b {
            WatcherState::Active
        } else {
            WatcherState::Inactive
        }
    }
}

impl From<WatcherState> for bool {
    fn from(w: WatcherState) -> (r: bool) {
        w == WatcherState::Active
    }
}

impl FromSpecImpl<WatcherState> for bool {
    open spec fn obeys_from_spec() -> bool {
        true
    }

    open spec fn from_spec(w: WatcherState) -> bool {
        w == WatcherState::Active
    }
}

/// Converting a flag to a state and back gives the flag, and a state to a flag and back
/// gives the state, for both connectivity and watcher states.
pub proof fn lemma_state_bool_round_trips(b: bool, c: ConnectivityState, w: WatcherState)
    ensures
        <bool as FromSpec<ConnectivityState>>::from_spec(
            <ConnectivityState as FromSpec<bool>>::from_spec(b),
        ) == b,
        <ConnectivityState as FromSpec<bool>>::from_spec(
            <bool as FromSpec<ConnectivityState>>::from_spec(c),
        ) == c,
        <bool as FromSpec<WatcherState>>::from_spec(<WatcherState as FromSpec<bool>>::from_spec(b))
            == b,
        <WatcherState as FromSpec<bool>>::from_spec(<bool as FromSpec<WatcherState>>::from_spec(w))
            == w,
{
}

/// Outcome of a full directory scan.
#[derive(Debug, Clone, Copy, PartialEq, Eq, Structural)]
pub enum ScanOutcome {
    /// All files synced successfully.
    Success { synced: usize },
    /// Some files failed to sync or delete.
    PartialFailure { synced: usize, failed: usize, delete_failed: usize },
    /// Destination is unreachable.
    DestinationUnreachable,
}

/// A relative path that passed [`is_safe_relative_path`].
#[derive(Debug, Clone, PartialEq, Eq)]
pub struct RelativePath {
    path: String,
}

impl RelativePath {
    /// The characters of the path.
    pub closed spec fn view(&self) -> Seq<char> {
        self.path@
    }

    /// Validates `path`, or returns a security validation error when it is not a safe
    /// relative path.
    pub fn try_new(path: &str) -> (r: Result<RelativePath, SyncError>)
        ensures
            r is Ok <==> safe_relative_path(path@),
            r is Ok ==> r->Ok_0.view() == path@,
            r is Err ==> (r->Err_0 matches SyncError::Validation { kind, .. } && kind
                == ValidationKind::Security),
    {
        if is_safe_relative_path(path) {
            Ok(RelativePath { path: path.to_owned() })
        } else {
            Err(SyncError::validation_security("path is not a safe relative path"))
        }
    }

    /// Same as [`Self::try_new`].
    pub fn new(path: &str) -> (r: Result<RelativePath, SyncError>)
        ensures
            r is Ok <==> safe_relative_path(path@),
            r is Ok ==> r->Ok_0.view() == path@,
            r is Err ==> (r->Err_0 matches SyncError::Validation { kind, .. } && kind
                == ValidationKind::Security),
    {
        Self::try_new(path)
    }

    /// The path as a string slice.
    pub fn as_str(&self) -> (r: &str)
        ensures
            r@ == self.view(),
    {
        self.path.as_str()
    }
}

/// Commands sent from the file watcher or tray UI to the sync worker.
#[derive(Debug, Clone, PartialEq, Eq)]
pub enum SyncCommand {
    /// A file was created or modified at the given relative path.
    FileModified(RelativePath),
    /// A file was deleted at the given relative path.
    FileDeleted(RelativePath),
    /// Request a full directory scan and sync.
    TriggerFullScan,
}

/// Size and modification time of a file, as compared during change detection.
#[derive(Debug, Clone, Copy, PartialEq, Eq, Structural)]
pub struct FileMetadataSnapshot {
    /// File size in bytes.
    pub size: i64,
    /// Last modified time as milliseconds since the UNIX epoch.
    pub modified_epoch_millis: i64,
}

impl FileMetadataSnapshot {
    /// A snapshot of `size` bytes modified at `modified_epoch_millis`.
    pub fn new(size: i64, modified_epoch_millis: i64) -> (r: Self)
        ensures
            r.size == size,
            r.modified_epoch_millis == modified_epoch_millis,
    {
        FileMetadataSnapshot { size, modified_epoch_millis }
    }
}

/// The cached record of a synchronised file.
#[derive(Debug, Clone, PartialEq, Eq)]
pub struct FileRecord {
    /// Database row id, once stored.
    pub id: Option<i64>,
    /// Path relative to the synchronised root.
    pub relative_path: String,
    /// Size in bytes at the time of the last sync.
    pub file_size: i64,
    /// Modification time (epoch milliseconds) at the time of the last sync.
    pub last_modified: i64,
}

impl FileRecord {
    /// A record without row id.
    pub fn new(relative_path: &str, file_size: i64, last_modified: i64) -> (r: Self)
        ensures
            r.id is None,
            r.relative_path@ == relative_path@,
            r.file_size == file_size,
            r.last_modified == last_modified,
    {
        FileRecord { id: None, relative_path: relative_path.to_owned(), file_size, last_modified }
    }

    /// The same record with row id `id`.
    pub fn with_id(self, id: i64) -> (r: Self)
        ensures
            r.id == Some(id),
            r.relative_path == self.relative_path,
            r.file_size == self.file_size,
            r.last_modified == self.last_modified,
    {
        FileRecord { id: Some(id), ..self }
    }
}

/// Tolerance on modification times, in milliseconds, for file systems that store them coarsely.
pub const MTIME_TOLERANCE_MS: i64 = 2000;

/// A destination file matches its source and the cached record: the record's size and time
/// are the source's, the destination has the source's size, and the two modification times
/// differ by at most the tolerance.
pub open spec fn metadata_up_to_date(
    dest: FileMetadataSnapshot,
    src: FileMetadataSnapshot,
    record: Option<FileRecord>,
) -> bool {
    match record {
        None => false,
        Some(r) => {
            &&& r.file_size == src.size
            &&& r.last_modified == src.modified_epoch_millis
            &&& dest.size == src.size
            &&& -MTIME_TOLERANCE_MS <= dest.modified_epoch_millis - src.modified_epoch_millis
                <= MTIME_TOLERANCE_MS
        },
    }
}

/// Whether the destination file can be taken as up to date without copying.
pub fn is_metadata_up_to_date_raw(
    dest: &FileMetadataSnapshot,
    src: &FileMetadataSnapshot,
    record: Option<&FileRecord>,
) -> (r: bool)
    ensures
        r == metadata_up_to_date(
            *dest,
            *src,
            match record {
                Some(x) => Some(*x),
                None => None,
            },
        ),
{
    match record {
        Some(rec) => {
            if rec.file_size == src.size && rec.last_modified == src.modified_epoch_millis && dest.size
                == src.size {
                let diff: i128 = dest.modified_epoch_millis as i128 - src.modified_epoch_millis as i128;
                let abs: i128 = if diff < 0 { -diff } else { diff };
                abs <= MTIME_TOLERANCE_MS as i128
            } else {
                false
            }
        },
        None => false,
    }
}

/// The up-to-date check does not depend on which of the two times is larger.
pub proof fn lemma_mtime_tolerance_symmetric(a: FileMetadataSnapshot, b: FileMetadataSnapshot, r: FileRecord)
    requires
        a.size == b.size,
        r.file_size == a.size,
        r.last_modified == a.modified_epoch_millis,
    ensures
        metadata_up_to_date(b, a, Some(r)) == (-MTIME_TOLERANCE_MS <= a.modified_epoch_millis
            - b.modified_epoch_millis <= MTIME_TOLERANCE_MS),
{
}

/// Milliseconds since the epoch for a signed timestamp, with times before the epoch
/// clamped to zero.
pub fn safe_epoch_duration_millis(millis: i64) -> (r: u64)
    ensures
        r == if millis < 0 { 0 } else { millis as u64 },
{
    if millis < 0 {
        0
    } else {
        millis as u64
    }
}

/// A task representing a single file synchronisation operation.
#[derive(Debug, Clone, PartialEq, Eq)]
pub struct FileSyncTask<'a> {
    pub rel_path: &'a RelativePath,
    pub src_path: &'a str,
    pub dest_path: &'a str,
    pub dest_dir: &'a str,
    pub src_size: u64,
    pub src_mod: i64,
    pub cached_id: Option<i64>,
}

impl<'a> FileSyncTask<'a> {
    /// A task with the given fields.
    pub fn new(
        rel_path: &'a RelativePath,
        src_path: &'a str,
        dest_path: &'a str,
        dest_dir: &'a str,
        src_size: u64,
        src_mod: i64,
        cached_id: Option<i64>,
    ) -> (t: Self)
        ensures
            t == (FileSyncTask { rel_path, src_path, dest_path, dest_dir, src_size, src_mod, cached_id }),
    {
        FileSyncTask { rel_path, src_path, dest_path, dest_dir, src_size, src_mod, cached_id }
    }

    /// A builder for a task on `rel_path` with no other field set.
    pub fn builder(rel_path: &'a RelativePath) -> (b: FileSyncTaskBuilder<'a>)
        ensures
            b == FileSyncTaskBuilder::empty_for(rel_path),
    {
        FileSyncTaskBuilder::new(rel_path)
    }
}

/// Fluent builder for [`FileSyncTask`].
#[derive(Debug)]
pub struct FileSyncTaskBuilder<'a> {
    pub rel_path: &'a RelativePath,
    pub src_path: Option<&'a str>,
    pub dest_path: Option<&'a str>,
    pub dest_dir: Option<&'a str>,
    pub src_size: Option<u64>,
    pub src_mod: Option<i64>,
    pub cached_id: Option<Option<i64>>,
}

impl<'a> FileSyncTaskBuilder<'a> {
    /// A builder for `rel_path` with no other field set.
    pub open spec fn empty_for(rel_path: &'a RelativePath) -> Self {
        FileSyncTaskBuilder {
            rel_path,
            src_path: None,
            dest_path: None,
            dest_dir: None,
            src_size: None,
            src_mod: None,
            cached_id: None,
        }
    }

    /// A builder for `rel_path` with no other field set.
    pub fn new(rel_path: &'a RelativePath) -> (b: Self)
        ensures
            b == Self::empty_for(rel_path),
    {
        FileSyncTaskBuilder {
            rel_path,
            src_path: None,
            dest_path: None,
            dest_dir: None,
            src_size: None,
            src_mod: None,
            cached_id: None,
        }
    }

    /// Sets the source path.
    pub fn src_path(self, path: &'a str) -> (b: Self)
        ensures
            b == (FileSyncTaskBuilder { src_path: Some(path), ..self }),
    {
        FileSyncTaskBuilder { src_path: Some(path), ..self }
    }

    /// Sets the destination path.
    pub fn dest_path(self, path: &'a str) -> (b: Self)
        ensures
            b == (FileSyncTaskBuilder { dest_path: Some(path), ..self }),
    {
        FileSyncTaskBuilder { dest_path: Some(path), ..self }
    }

    /// Sets the destination directory.
    pub fn dest_dir(self, path: &'a str) -> (b: Self)
        ensures
            b == (FileSyncTaskBuilder { dest_dir: Some(path), ..self }),
    {
        FileSyncTaskBuilder { dest_dir: Some(path), ..self }
    }

    /// Sets the source size.
    pub fn src_size(self, size: u64) -> (b: Self)
        ensures
            b == (FileSyncTaskBuilder { src_size: Some(size), ..self }),
    {
        FileSyncTaskBuilder { src_size: Some(size), ..self }
    }

    /// Sets the source modification time.
    pub fn src_mod(self, m: i64) -> (b: Self)
        ensures
            b == (FileSyncTaskBuilder { src_mod: Some(m), ..self }),
    {
        FileSyncTaskBuilder { src_mod: Some(m), ..self }
    }

    /// Sets the cached row id.
    pub fn cached_id(self, id: Option<i64>) -> (b: Self)
        ensures
            b == (FileSyncTaskBuilder { cached_id: Some(id), ..self }),
    {
        FileSyncTaskBuilder { cached_id: Some(id), ..self }
    }

    /// The task, or an error naming the first missing field among source path, destination
    /// path, destination directory, source size and source time (the cached id defaults to none).
    pub fn build(self) -> (r: Result<FileSyncTask<'a>, SyncError>)
        ensures
            r is Ok <==> (self.src_path is Some && self.dest_path is Some && self.dest_dir is Some
                && self.src_size is Some && self.src_mod is Some),
            r is Ok ==> r->Ok_0 == (FileSyncTask {
                rel_path: self.rel_path,
                src_path: self.src_path->Some_0,
                dest_path: self.dest_path->Some_0,
                dest_dir: self.dest_dir->Some_0,
                src_size: self.src_size->Some_0,
                src_mod: self.src_mod->Some_0,
                cached_id: match self.cached_id {
                    Some(c) => c,
                    None => None,
                },
            }),
            r is Err ==> r->Err_0 is Generic && r->Err_0->Generic_message@ == (if self.src_path is None {
                "src_path is required"@
            } else if self.dest_path is None {
                "dest_path is required"@
            } else if self.dest_dir is None {
                "dest_dir is required"@
            } else if self.src_size is None {
                "src_size is required"@
            } else {
                "src_mod is required"@
            }),
    {
        let src_path = match self.src_path {
            Some(p) => p,
            None => {
                return Err(SyncError::generic("src_path is required"));
            },
        };
        let dest_path = match self.dest_path {
            Some(p) => p,
            None => {
                return Err(SyncError::generic("dest_path is required"));
            },
        };
        let dest_dir = match self.dest_dir {
            Some(p) => p,
            None => {
                return Err(SyncError::generic("dest_dir is required"));
            },
        };
        let src_size = match self.src_size {
            Some(v) => v,
            None => {
                return Err(SyncError::generic("src_size is required"));
            },
        };
        let src_mod = match self.src_mod {
            Some(v) => v,
            None => {
                return Err(SyncError::generic("src_mod is required"));
            },
        };
        let cached_id = match self.cached_id {
            Some(c) => c,
            None => None,
        };
        Ok(FileSyncTask { rel_path: self.rel_path, src_path, dest_path, dest_dir, src_size, src_mod, cached_id })
    }
}

} // verus!
