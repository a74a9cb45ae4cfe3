//! The small-file path: a whole-file copy that hashes what it copies, and the read-back
//! digest that write verification compares with it.

use vstd::prelude::*;
use crate::delta::{ByteSource, SeekWrite, blake3_digest, overwrite, read_block, lemma_overwrite_concat};
use crate::error::SyncError;

verus! {

/// `blake3::Hasher`, the incremental BLAKE3 hasher: carried through opaquely, what it has
/// been fed is named by [`hasher_input`].
#[verifier::external_type_specification]
#[verifier::external_body]
pub struct ExHasher(blake3::Hasher);

/// The bytes a BLAKE3 hasher has been fed, in order.
pub uninterp spec fn hasher_input(h: blake3::Hasher) -> Seq<u8>;

/// `blake3::Hasher::new`: a hasher that has been fed nothing.
#[verifier::external_body]
fn hasher_new() -> (h: blake3::Hasher)
    ensures
        hasher_input(h) == Seq::<u8>::empty(),
{
    blake3::Hasher::new()
}

/// `blake3::Hasher::update`: feeds `data` after what the hasher was fed before.
#[verifier::external_body]
fn hasher_update(h: &mut blake3::Hasher, data: &[u8])
    ensures
        hasher_input(*final(h)) == hasher_input(*old(h)) + data@,
{
    h.update(data);
}

/// `blake3::Hasher::finalize` with `Hash::as_bytes`: the 32-byte BLAKE3 digest of all
/// that the hasher was fed, the same as `blake3::hash` of those bytes.
#[verifier::external_body]
fn hasher_finalize(h: &blake3::Hasher) -> (r: [u8; 32])
    ensures
        r@ == blake3_digest(hasher_input(*h)),
{
    *h.finalize().as_bytes()
}

/// Copies all of `src` to `dest` at its cursor, `chunk` bytes at a time, hashing what it
/// copies; returns the number of bytes copied and their BLAKE3 digest. When the source
/// tracks its bytes, the count is their number and the digest theirs, and when the sink
/// tracks its bytes too, the source's bytes are written at the sink's old cursor. A
/// reliable source copied into a tracked sink whose sure limit lies past the end of the
/// copy always succeeds; a source longer than `u64::MAX` bytes is refused with a generic
/// error.
pub fn stream_copy_with_digest<Rd: ByteSource, W: SeekWrite>(
    src: &mut Rd,
    dest: &mut W,
    chunk: &mut Vec<u8>,
) -> (r: Result<(u64, [u8; 32]), SyncError>)
    requires
        old(chunk)@.len() > 0,
        old(src).remaining().len() <= u64::MAX,
    ensures
        final(chunk)@.len() == old(chunk)@.len(),
        old(src).tracks_bytes() ==> final(src).tracks_bytes(),
        old(dest).tracks_bytes() ==> final(dest).tracks_bytes(),
        r is Ok && old(src).tracks_bytes() ==> {
            let s = old(src).remaining();
            &&& r->Ok_0.0 == s.len()
            &&& r->Ok_0.1@ == blake3_digest(s)
            &&& final(src).remaining() == Seq::<u8>::empty()
            &&& old(dest).tracks_bytes() ==> final(dest).position() == old(dest).position() + s.len()
                && final(dest).written() == if s.len() == 0 {
                old(dest).written()
            } else {
                overwrite(old(dest).written(), old(dest).position(), s)
            }
        },
        old(src).reliable() && old(src).tracks_bytes() && old(dest).tracks_bytes() && old(dest).position()
            + old(src).remaining().len() < old(dest).sure_limit() ==> r is Ok,
{
    let ghost s = src.remaining();
    let ghost ts = src.tracks_bytes();
    let ghost td = dest.tracks_bytes();
    let ghost w0 = dest.written();
    let ghost p0 = dest.position();
    let ghost rel = src.reliable();
    let ghost lim = dest.sure_limit();
    let mut hasher = hasher_new();
    let mut total: u64 = 0;
    proof {
        assert(s.take(0) =~= Seq::<u8>::empty());
    }
    loop
        invariant
            chunk@.len() == old(chunk)@.len(),
            chunk@.len() > 0,
            ts == old(src).tracks_bytes(),
            td == old(dest).tracks_bytes(),
            rel == old(src).reliable(),
            ts ==> src.tracks_bytes(),
            td ==> dest.tracks_bytes(),
            rel ==> src.reliable(),
            dest.sure_limit() == lim,
            lim == old(dest).sure_limit(),
            ts ==> s == old(src).remaining() && s.len() <= u64::MAX && total <= s.len() && src.remaining()
                == s.skip(total as int) && hasher_input(hasher) == s.take(total as int),
            td ==> w0 == old(dest).written() && p0 == old(dest).position(),
            ts && td ==> dest.position() == p0 + total && dest.written() == if total == 0 {
                w0
            } else {
                overwrite(w0, p0, s.take(total as int))
            },
        ensures
            ts ==> src.tracks_bytes(),
            td ==> dest.tracks_bytes(),
            ts ==> total == s.len() && src.remaining() == Seq::<u8>::empty() && hasher_input(hasher) == s,
            ts && td ==> dest.position() == p0 + total && dest.written() == if total == 0 {
                w0
            } else {
                overwrite(w0, p0, s)
            },
        decreases u64::MAX - total,
    {
        let ghost rem = src.remaining();
        let n = match read_block(src, chunk) {
            Ok(n) => n,
            Err(e) => {
                return Err(e);
            },
        };
        if n == 0 {
            proof {
                if ts {
                    assert(s.skip(total as int).len() == 0);
                    assert(s.take(total as int) =~= s);
                }
            }
            break;
        }
        proof {
            if ts {
                assert(total + n <= s.len());
            }
        }
        if n as u64 > u64::MAX - total {
            return Err(SyncError::generic("source is longer than 2^64 bytes"));
        }
        let bytes: &[u8] = chunk.as_slice().split_at(n).0;
        proof {
            if ts {
                assert(bytes@ =~= rem.take(n as int));
                assert(rem.take(n as int) =~= s.subrange(total as int, total + n));
                assert(s.take(total as int) + bytes@ =~= s.take(total + n));
            }
        }
        match dest.write_all_bytes(bytes) {
            Ok(()) => {},
            Err(e) => {
                return Err(e);
            },
        }
        proof {
            if ts && td && total > 0 {
                lemma_overwrite_concat(w0, p0, s.take(total as int), bytes@);
            }
        }
        hasher_update(&mut hasher, bytes);
        total = total + n as u64;
        proof {
            if ts {
                assert(src.remaining() =~= s.skip(total as int));
            }
        }
    }
    let digest = hasher_finalize(&hasher);
    Ok((total, digest))
}

/// Reads all of `src`, `chunk` bytes at a time, and returns the number of bytes read and
/// their BLAKE3 digest; when the source tracks its bytes, these are its bytes' number and
/// digest. A reliable source always succeeds; a source longer than `u64::MAX` bytes is
/// refused with a generic error.
pub fn stream_digest<Rd: ByteSource>(src: &mut Rd, chunk: &mut Vec<u8>) -> (r: Result<(u64, [u8; 32]), SyncError>)
    requires
        old(chunk)@.len() > 0,
        old(src).remaining().len() <= u64::MAX,
    ensures
        final(chunk)@.len() == old(chunk)@.len(),
        old(src).tracks_bytes() ==> final(src).tracks_bytes(),
        r is Ok && old(src).tracks_bytes() ==> {
            let s = old(src).remaining();
            &&& r->Ok_0.0 == s.len()
            &&& r->Ok_0.1@ == blake3_digest(s)
            &&& final(src).remaining() == Seq::<u8>::empty()
        },
        old(src).reliable() && old(src).tracks_bytes() ==> r is Ok,
{
    let ghost s = src.remaining();
    let ghost ts = src.tracks_bytes();
    let ghost rel = src.reliable();
    let mut hasher = hasher_new();
    let mut total: u64 = 0;
    proof {
        assert(s.take(0) =~= Seq::<u8>::empty());
    }
    loop
        invariant
            chunk@.len() == old(chunk)@.len(),
            chunk@.len() > 0,
            ts == old(src).tracks_bytes(),
            rel == old(src).reliable(),
            ts ==> src.tracks_bytes(),
            rel ==> src.reliable(),
            ts ==> s == old(src).remaining() && s.len() <= u64::MAX && total <= s.len() && src.remaining()
                == s.skip(total as int) && hasher_input(hasher) == s.take(total as int),
        ensures
            ts ==> src.tracks_bytes(),
            ts ==> total == s.len() && src.remaining() == Seq::<u8>::empty() && hasher_input(hasher) == s,
        decreases u64::MAX - total,
    {
        let ghost rem = src.remaining();
        let n = match read_block(src, chunk) {
            Ok(n) => n,
            Err(e) => {
                return Err(e);
            },
        };
        if n == 0 {
            proof {
                if ts {
                    assert(s.skip(total as int).len() == 0);
                    assert(s.take(total as int) =~= s);
                }
            }
            break;
        }
        proof {
            if ts {
                assert(total + n <= s.len());
            }
        }
        if n as u64 > u64::MAX - total {
            return Err(SyncError::generic("source is longer than 2^64 bytes"));
        }
        let bytes: &[u8] = chunk.as_slice().split_at(n).0;
        proof {
            if ts {
                assert(bytes@ =~= rem.take(n as int));
                assert(rem.take(n as int) =~= s.subrange(total as int, total + n));
                assert(s.take(total as int) + bytes@ =~= s.take(total + n));
            }
        }
        hasher_update(&mut hasher, bytes);
        total = total + n as u64;
        proof {
            if ts {
                assert(src.remaining() =~= s.skip(total as int));
            }
        }
    }
    let digest = hasher_finalize(&hasher);
    Ok((total, digest))
}

/// Compares the digest of the staged copy of `dest` read back (`written`) with the digest
/// of what was copied into it (`expected`); a mismatch is a write verification failure on
/// `dest`.
pub fn check_staged_digest(dest: &str, expected: &[u8; 32], written: &[u8; 32]) -> (r: Result<(), SyncError>)
    ensures
        r is Ok <==> expected@ == written@,
        r is Err ==> r->Err_0 is WriteVerificationFailed && r->Err_0->path@ == dest@
            && r->Err_0->block == None::<u64>,
{
    let mut i: usize = 0;
    while i < 32
        invariant
            i <= 32,
            forall|k: int| 0 <= k < i ==> expected@[k] == written@[k],
        decreases 32 - i,
    {
        if expected[i] != written[i] {
            return Err(SyncError::write_verification_failed(dest));
        }
        i += 1;
    }
    assert(expected@ =~= written@);
    Ok(())
}

} // verus!
