//! The decisions of the source tree walk: how deep it goes, which directory entries it
//! collects, descends into or passes over, and which read failures only make it
//! incomplete. The walk itself reads the file system and lives with the program.

use vstd::prelude::*;
use crate::error::{IoErrorKind, SyncError};
use crate::text::{chars_of, push_str};

verus! {

/// Deepest directory level the scan descends into.
pub const MAX_SCAN_DEPTH: usize = 64;

/// What a directory entry turned out to be.
#[derive(Debug, Clone, Copy, PartialEq, Eq, Structural)]
pub enum ScanEntryKind {
    /// A directory (not a link).
    Directory,
    /// A regular file (not a link).
    File,
    /// A symbolic link, whatever it points to.
    Link,
    /// Anything else (device, pipe, socket).
    Other,
    /// The entry or its type could not be read.
    Unreadable,
}

/// What the walk does with one entry.
#[derive(Debug, Clone, PartialEq, Eq)]
pub enum ScanStep {
    /// Walk the directory with this relative path.
    Descend(String),
    /// Record the file with this relative path.
    Collect(String),
    /// Pass over the entry.
    Skip,
    /// Pass over the entry and mark the scan incomplete.
    Incomplete,
}

/// The relative path of entry `name` in the directory with relative path `prefix`.
pub open spec fn child_rel(prefix: Seq<char>, name: Seq<char>) -> Seq<char> {
    if prefix.len() == 0 {
        name
    } else {
        prefix + seq!['/'] + name
    }
}

/// Whether the walk may read a directory at `depth` levels below the root.
pub fn depth_allowed(depth: usize) -> (r: bool)
    ensures
        r == (depth <= MAX_SCAN_DEPTH),
{
    depth <= MAX_SCAN_DEPTH
}

/// What the walk does with the entry `name` of kind `kind` in the directory with relative
/// path `prefix`: a directory is descended into and a regular file collected, under
/// [`child_rel`]; links and other kinds are passed over; an unreadable entry is passed
/// over and makes the scan incomplete.
pub fn scan_entry_step(prefix: &str, name: &str, kind: ScanEntryKind) -> (r: ScanStep)
    ensures
        match kind {
            ScanEntryKind::Directory => r matches ScanStep::Descend(p) && p@ == child_rel(prefix@, name@),
            ScanEntryKind::File => r matches ScanStep::Collect(p) && p@ == child_rel(prefix@, name@),
            ScanEntryKind::Link | ScanEntryKind::Other => r == ScanStep::Skip,
            ScanEntryKind::Unreadable => r == ScanStep::Incomplete,
        },
{
    match kind {
        ScanEntryKind::Link | ScanEntryKind::Other => ScanStep::Skip,
        ScanEntryKind::Unreadable => ScanStep::Incomplete,
        ScanEntryKind::Directory | ScanEntryKind::File => {
            let mut rel = String::new();
            proof {
                reveal_strlit("/");
                assert("/"@ =~= seq!['/']);
            }
            let prefix_chars = chars_of(prefix);
            if prefix_chars.len() > 0 {
                push_str(&mut rel, prefix);
                push_str(&mut rel, "/");
                assert(rel@ =~= prefix@ + seq!['/']);
            } else {
                assert(rel@ =~= Seq::<char>::empty());
            }
            push_str(&mut rel, name);
            proof {
                if prefix@.len() == 0 {
                    assert(rel@ =~= name@);
                } else {
                    assert(rel@ =~= prefix@ + seq!['/'] + name@);
                }
            }
            if kind == ScanEntryKind::Directory {
                ScanStep::Descend(rel)
            } else {
                ScanStep::Collect(rel)
            }
        },
    }
}

/// What a failure to read a directory means for the walk: a permission refusal only
/// makes the scan incomplete (`Ok`), any other failure stops it with that error.
pub fn dir_read_failure(e: SyncError) -> (r: Result<(), SyncError>)
    ensures
        (e matches SyncError::Io { kind: IoErrorKind::PermissionDenied, .. }) ==> r is Ok,
        !(e matches SyncError::Io { kind: IoErrorKind::PermissionDenied, .. }) ==> r == Err::<(), SyncError>(e),
{
    match e {
        SyncError::Io { kind: IoErrorKind::PermissionDenied, .. } => Ok(()),
        _ => Err(e),
    }
}

} // verus!
