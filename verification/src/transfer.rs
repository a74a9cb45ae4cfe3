//! The checks around a file transfer: naming the staging file of a whole-file copy,
//! making sure the source did not change while it was read, and checking what was
//! written against what was meant to be.

use vstd::prelude::*;
use crate::config::VerificationMode;
use crate::delta::{blake3_digest, block_hash_of};
use crate::error::SyncError;
use crate::reparse::{components, path_components};
use crate::text::{push_char, push_str, string_from_chars};
use crate::types::{FileRecord, RelativePath};

verus! {

/// The SplitMix64 output function: mixes a 64-bit seed into a well-spread nonce.
pub open spec fn splitmix64_of(x: u64) -> u64 {
    let x1 = vstd::wrapping::u64_specs::wrapping_add(x, 0x9E3779B97F4A7C15u64);
    let x2 = vstd::wrapping::u64_specs::wrapping_mul(x1 ^ (x1 >> 30u64), 0xBF58476D1CE4E5B9u64);
    let x3 = vstd::wrapping::u64_specs::wrapping_mul(x2 ^ (x2 >> 27u64), 0x94D049BB133111EBu64);
    x3 ^ (x3 >> 31u64)
}

/// Exec form of [`splitmix64_of`].
pub fn splitmix64(x: u64) -> (r: u64)
    ensures
        r == splitmix64_of(x),
{
    let x1 = x.wrapping_add(0x9E3779B97F4A7C15u64);
    let x2 = (x1 ^ (x1 >> 30u64)).wrapping_mul(0xBF58476D1CE4E5B9u64);
    let x3 = (x2 ^ (x2 >> 27u64)).wrapping_mul(0x94D049BB133111EBu64);
    x3 ^ (x3 >> 31u64)
}

/// The lower-case hexadecimal digit for `d` (below sixteen).
pub open spec fn hex_char(d: nat) -> char {
    if d < 10 {
        (('0' as nat) + d) as char
    } else {
        (('a' as nat) + d - 10) as char
    }
}

/// The last `k` hexadecimal digits of `n`, with leading zeros.
pub open spec fn hex_digits(n: nat, k: nat) -> Seq<char>
    decreases k,
{
    if k == 0 {
        Seq::empty()
    } else {
        hex_digits(n / 16, (k - 1) as nat).push(hex_char(n % 16))
    }
}

fn hex_digit(d: u64) -> (c: char)
    requires
        d < 16,
    ensures
        c == hex_char(d as nat),
{
    if d < 10 {
        ((('0' as u8) + (d as u8)) as char)
    } else {
        ((('a' as u8) + (d as u8) - 10) as char)
    }
}

/// Appends the last `k` hexadecimal digits of `n` to `s`.
fn push_hex(s: &mut String, n: u64, k: u32)
    ensures
        final(s)@ == old(s)@ + hex_digits(n as nat, k as nat),
    decreases k,
{
    if k == 0 {
        return;
    }
    push_hex(s, n / 16, k - 1);
    push_char(s, hex_digit(n % 16));
}

/// The name of a path's last component, or nothing when it ends at a root or a `..`.
pub open spec fn file_name_of(path: Seq<char>) -> Seq<char> {
    let cs = components(path);
    if cs.len() == 0 || cs.last() == seq!['/'] || cs.last() == seq!['.', '.'] {
        Seq::empty()
    } else {
        cs.last()
    }
}

/// Name of the staging file of a whole-file copy to `dest_path`:
/// `<file name>.<nonce, sixteen hex digits>.syncdir_tmp`.
pub open spec fn staging_name_of(dest_path: Seq<char>, nonce: u64) -> Seq<char> {
    file_name_of(dest_path) + seq!['.'] + hex_digits(nonce as nat, 16) + ".syncdir_tmp"@
}

/// Exec form of [`file_name_of`].
pub fn file_name(path: &str) -> (r: String)
    ensures
        r@ == file_name_of(path@),
{
    let cs = path_components(path);
    let n = cs.len();
    if n == 0 {
        return String::new();
    }
    let last = &cs[n - 1];
    let is_root = last.len() == 1 && last[0] == '/';
    let is_parent = last.len() == 2 && last[0] == '.' && last[1] == '.';
    proof {
        let l = components(path@).last();
        assert(l == cs@[n - 1]@);
        if is_root {
            assert(l =~= seq!['/']);
        } else if is_parent {
            assert(l =~= seq!['.', '.']);
        } else {
            assert(l != seq!['/']);
            assert(l != seq!['.', '.']);
        }
    }
    if is_root || is_parent {
        return String::new();
    }
    string_from_chars(last.as_slice())
}

/// Name of the staging file of a whole-file copy (see [`staging_name_of`]).
pub fn staging_file_name(dest_path: &str, nonce: u64) -> (r: String)
    ensures
        r@ == staging_name_of(dest_path@, nonce),
{
    let mut s = file_name(dest_path);
    push_char(&mut s, '.');
    push_hex(&mut s, nonce, 16);
    push_str(&mut s, ".syncdir_tmp");
    s
}

/// After streaming `bytes_read` bytes of a source expected to be modified at
/// `expected_mod`: fails with a write verification error on `dest_path` when the source
/// now has another length or modification time, that is, when it changed while read.
pub fn check_source_unchanged(
    dest_path: &str,
    bytes_read: u64,
    post_len: u64,
    post_mod: i64,
    expected_mod: i64,
) -> (r: Result<(), SyncError>)
    ensures
        r is Ok <==> (post_len == bytes_read && post_mod == expected_mod),
        r is Err ==> r->Err_0 is WriteVerificationFailed && r->Err_0->path@ == dest_path@
            && r->Err_0->block is None,
{
    if post_len != bytes_read || post_mod != expected_mod {
        return Err(SyncError::write_verification_failed(dest_path));
    }
    Ok(())
}

/// Fails with a write verification error on `dest_path` when the destination holds
/// fewer than `bytes_read` bytes after the blocks were written.
pub fn check_destination_holds(dest_path: &str, dest_len: u64, bytes_read: u64) -> (r: Result<(), SyncError>)
    ensures
        r is Ok <==> dest_len >= bytes_read,
        r is Err ==> r->Err_0 is WriteVerificationFailed && r->Err_0->path@ == dest_path@
            && r->Err_0->block is None,
{
    if dest_len < bytes_read {
        return Err(SyncError::write_verification_failed(dest_path));
    }
    Ok(())
}

/// Fails with a write verification error on `dest_path` unless the destination was cut
/// to exactly `bytes_read` bytes.
pub fn check_final_length(dest_path: &str, dest_len: u64, bytes_read: u64) -> (r: Result<(), SyncError>)
    ensures
        r is Ok <==> dest_len == bytes_read,
        r is Err ==> r->Err_0 is WriteVerificationFailed && r->Err_0->path@ == dest_path@
            && r->Err_0->block is None,
{
    if dest_len != bytes_read {
        return Err(SyncError::write_verification_failed(dest_path));
    }
    Ok(())
}

/// Checks block `block_idx` read back from `dest_path`: the bytes must have the digest
/// recorded when they were written; a short read-back counts as a mismatch.
pub fn verify_block_bytes(
    dest_path: &str,
    block_idx: u64,
    expected: &[u8; 32],
    read_back: &[u8],
    expected_len: usize,
) -> (r: Result<(), SyncError>)
    ensures
        r is Ok <==> (read_back@.len() == expected_len && blake3_digest(read_back@) == expected@),
        r is Err ==> r->Err_0 is WriteVerificationFailed && r->Err_0->path@ == dest_path@
            && r->Err_0->block == Some(block_idx),
{
    if read_back.len() != expected_len {
        return Err(SyncError::write_verification_failed_block(dest_path, block_idx));
    }
    let actual = block_hash_of(read_back);
    let mut i: usize = 0;
    while i < 32
        invariant
            i <= 32,
            actual@.len() == 32,
            expected@.len() == 32,
            actual@ == blake3_digest(read_back@),
            forall|k: int| 0 <= k < i ==> actual@[k] == expected@[k],
        decreases 32 - i,
    {
        if actual[i] != expected[i] {
            return Err(SyncError::write_verification_failed_block(dest_path, block_idx));
        }
        i += 1;
    }
    assert(actual@ =~= expected@);
    Ok(())
}

/// What checking a whole-file copy takes under a verification mode.
#[derive(Debug, Clone, Copy, PartialEq, Eq, Structural)]
pub enum StagingCheck {
    /// Nothing.
    Skip,
    /// Compare the staging file's length with the bytes copied, then flush it to disk.
    LengthAndFlush,
    /// Flush the staging file, read it back and compare its digest with the source's.
    FullDigest,
}

/// The check a whole-file copy gets under `mode`: none when disabled, the full digest
/// under full verification, and the length and a flush otherwise.
pub fn staging_check(mode: VerificationMode) -> (r: StagingCheck)
    ensures
        r == match mode {
            VerificationMode::Disabled => StagingCheck::Skip,
            VerificationMode::Full => StagingCheck::FullDigest,
            _ => StagingCheck::LengthAndFlush,
        },
{
    match mode {
        VerificationMode::Disabled => StagingCheck::Skip,
        VerificationMode::MetadataAndFlush => StagingCheck::LengthAndFlush,
        VerificationMode::Sampled => StagingCheck::LengthAndFlush,
        VerificationMode::Full => StagingCheck::FullDigest,
    }
}

/// Whether a block transfer flushes the destination to disk before reading blocks back.
pub fn delta_flushes(mode: VerificationMode) -> (r: bool)
    ensures
        r == !(mode == VerificationMode::Disabled),
{
    match mode {
        VerificationMode::Disabled => false,
        _ => true,
    }
}

/// The record stored after `rel` was transferred: `bytes` bytes modified at `src_mod`,
/// under the row id of its cached record, if any.
pub fn transferred_record(rel: &RelativePath, bytes: u64, src_mod: i64, cached_id: Option<i64>) -> (r: Result<
    FileRecord,
    SyncError,
>)
    ensures
        r is Ok <==> bytes <= i64::MAX,
        r is Ok ==> ({
            let rec = r->Ok_0;
            &&& rec.id == cached_id
            &&& rec.relative_path@ == rel.view()
            &&& rec.file_size == bytes
            &&& rec.last_modified == src_mod
        }),
        r is Err ==> r->Err_0 is Validation,
{
    if bytes > i64::MAX as u64 {
        return Err(SyncError::validation_invariant("file size exceeds the record range"));
    }
    let rec = FileRecord::new(rel.as_str(), bytes as i64, src_mod);
    match cached_id {
        Some(id) => Ok(rec.with_id(id)),
        None => Ok(rec),
    }
}

} // verus!
