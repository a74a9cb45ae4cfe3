//! Per-target synchronisation settings.

use vstd::prelude::*;

verus! {

/// How much of a transfer is read back and checked after writing.
#[derive(Debug, Clone, Copy, PartialEq, Eq, Structural)]
pub enum VerificationMode {
    /// No flush, no read-back.
    Disabled,
    /// Flush the file; check metadata only.
    MetadataAndFlush,
    /// Flush and read back every written block.
    Full,
    /// Flush and read back a sample of the written blocks.
    Sampled,
}

/// Settings of one source-to-destination target.
#[derive(Debug, Clone)]
pub struct TargetSyncConfig {
    pub source_dir: String,
    pub dest_dir: String,
    pub debounce_seconds: u64,
    pub retry_interval_seconds: u64,
    pub propagate_deletions: bool,
    pub block_sync_threshold_bytes: u64,
    pub block_size_bytes: u64,
    pub verification_mode: VerificationMode,
}

/// Default debounce of change notifications, in seconds.
pub const DEFAULT_DEBOUNCE_SECONDS: u64 = 3;

/// Default interval between reachability checks and retries, in seconds.
pub const DEFAULT_RETRY_INTERVAL_SECONDS: u64 = 10;

/// Default size from which files are transferred block by block (10 MiB).
pub const DEFAULT_BLOCK_SYNC_THRESHOLD_BYTES: u64 = 10485760;

/// Default block size of delta transfers (1 MiB).
pub const DEFAULT_BLOCK_SIZE_BYTES: u64 = 1048576;

impl TargetSyncConfig {
    pub open spec fn spec_source_dir(&self) -> Seq<char> {
        self.source_dir@
    }

    pub open spec fn spec_dest_dir(&self) -> Seq<char> {
        self.dest_dir@
    }

    pub open spec fn spec_debounce_seconds(&self) -> u64 {
        self.debounce_seconds
    }

    pub open spec fn spec_retry_interval_seconds(&self) -> u64 {
        self.retry_interval_seconds
    }

    pub open spec fn spec_propagate_deletions(&self) -> bool {
        self.propagate_deletions
    }

    pub open spec fn spec_block_sync_threshold_bytes(&self) -> u64 {
        self.block_sync_threshold_bytes
    }

    pub open spec fn spec_block_size_bytes(&self) -> u64 {
        self.block_size_bytes
    }

    pub open spec fn spec_verification_mode(&self) -> VerificationMode {
        self.verification_mode
    }

    /// Settings for `source_dir` to `dest_dir` with the defaults: 3 s debounce, 10 s retry,
    /// deletions propagated, 10 MiB delta threshold, 1 MiB blocks, sampled verification.
    pub fn new(source_dir: &str, dest_dir: &str) -> (c: Self)
        ensures
            c.spec_source_dir() == source_dir@,
            c.spec_dest_dir() == dest_dir@,
            c.spec_debounce_seconds() == DEFAULT_DEBOUNCE_SECONDS,
            c.spec_retry_interval_seconds() == DEFAULT_RETRY_INTERVAL_SECONDS,
            c.spec_propagate_deletions(),
            c.spec_block_sync_threshold_bytes() == DEFAULT_BLOCK_SYNC_THRESHOLD_BYTES,
            c.spec_block_size_bytes() == DEFAULT_BLOCK_SIZE_BYTES,
            c.spec_verification_mode() == VerificationMode::Sampled,
    {
        TargetSyncConfig {
            source_dir: source_dir.to_owned(),
            dest_dir: dest_dir.to_owned(),
            debounce_seconds: DEFAULT_DEBOUNCE_SECONDS,
            retry_interval_seconds: DEFAULT_RETRY_INTERVAL_SECONDS,
            propagate_deletions: true,
            block_sync_threshold_bytes: DEFAULT_BLOCK_SYNC_THRESHOLD_BYTES,
            block_size_bytes: DEFAULT_BLOCK_SIZE_BYTES,
            verification_mode: VerificationMode::Sampled,
        }
    }

    /// The same settings with another debounce.
    pub fn with_debounce_seconds(self, v: u64) -> (c: Self)
        ensures
            c == (TargetSyncConfig { debounce_seconds: v, ..self }),
    {
        TargetSyncConfig { debounce_seconds: v, ..self }
    }

    /// The same settings with another retry interval.
    pub fn with_retry_interval_seconds(self, v: u64) -> (c: Self)
        ensures
            c == (TargetSyncConfig { retry_interval_seconds: v, ..self }),
    {
        TargetSyncConfig { retry_interval_seconds: v, ..self }
    }

    /// The same settings with deletions propagated or not.
    pub fn with_propagate_deletions(self, v: bool) -> (c: Self)
        ensures
            c == (TargetSyncConfig { propagate_deletions: v, ..self }),
    {
        TargetSyncConfig { propagate_deletions: v, ..self }
    }

    /// The same settings with another delta threshold.
    pub fn with_block_sync_threshold_bytes(self, v: u64) -> (c: Self)
        ensures
            c == (TargetSyncConfig { block_sync_threshold_bytes: v, ..self }),
    {
        TargetSyncConfig { block_sync_threshold_bytes: v, ..self }
    }

    /// The same settings with another block size; zero is refused (`None`).
    pub fn with_block_size_bytes(self, v: u64) -> (c: Option<Self>)
        ensures
            c == if v > 0 { Some(TargetSyncConfig { block_size_bytes: v, ..self }) } else { None },
    {
        if v > 0 {
            Some(TargetSyncConfig { block_size_bytes: v, ..self })
        } else {
            None
        }
    }

    /// The same settings with another verification mode.
    pub fn with_verification_mode(self, v: VerificationMode) -> (c: Self)
        ensures
            c == (TargetSyncConfig { verification_mode: v, ..self }),
    {
        TargetSyncConfig { verification_mode: v, ..self }
    }

    pub fn source_dir(&self) -> (r: &str)
        ensures
            r@ == self.spec_source_dir(),
    {
        self.source_dir.as_str()
    }

    pub fn dest_dir(&self) -> (r: &str)
        ensures
            r@ == self.spec_dest_dir(),
    {
        self.dest_dir.as_str()
    }

    pub fn debounce_seconds(&self) -> (r: u64)
        ensures
            r == self.spec_debounce_seconds(),
    {
        self.debounce_seconds
    }

    pub fn retry_interval_seconds(&self) -> (r: u64)
        ensures
            r == self.spec_retry_interval_seconds(),
    {
        self.retry_interval_seconds
    }

    pub fn propagate_deletions(&self) -> (r: bool)
        ensures
            r == self.spec_propagate_deletions(),
    {
        self.propagate_deletions
    }

    pub fn block_sync_threshold_bytes(&self) -> (r: u64)
        ensures
            r == self.spec_block_sync_threshold_bytes(),
    {
        self.block_sync_threshold_bytes
    }

    pub fn block_size_bytes(&self) -> (r: u64)
        ensures
            r == self.spec_block_size_bytes(),
    {
        self.block_size_bytes
    }

    pub fn verification_mode(&self) -> (r: VerificationMode)
        ensures
            r == self.spec_verification_mode(),
    {
        self.verification_mode
    }

    /// Whether written data is checked at all.
    pub fn verify_writes(&self) -> (r: bool)
        ensures
            r == (self.spec_verification_mode() != VerificationMode::Disabled),
    {
        self.verification_mode != VerificationMode::Disabled
    }
}

} // verus!
