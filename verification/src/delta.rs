//! Block-level delta transfer: coalescing of dirty blocks into contiguous writes,
//! buffered block reads, and the decisions of which blocks to write and verify.

use vstd::prelude::*;
use crate::error::{SyncError, IoErrorKind, ValidationKind};
use vstd::std_specs::convert::TryFromSpecImpl;
use crate::config::VerificationMode;

verus! {

/// The bytes of `buf` after writing `data` at byte offset `pos`: the gap between the old
/// end and `pos`, if any, is filled with zeros, and the result grows as needed.
pub open spec fn overwrite(buf: Seq<u8>, pos: nat, data: Seq<u8>) -> Seq<u8> {
    let end = pos + data.len();
    let len = if buf.len() > end { buf.len() } else { end };
    Seq::new(
        len,
        |i: int|
            if pos <= i < end {
                data[i - pos]
            } else if i < buf.len() {
                buf[i]
            } else {
                0u8
            },
    )
}

/// A seekable byte sink. A sink that tracks its bytes (see [`Self::tracks_bytes`]) is
/// modelled by the bytes written so far and a cursor position; of one that does not, only
/// the clauses that do not depend on that model are promised.
pub trait SeekWrite {
    /// Whether [`Self::written`] and [`Self::position`] follow the sink's contents; a
    /// sink that does not track them keeps this default.
    open spec fn tracks_bytes(&self) -> bool {
        false
    }

    /// The bytes held by the sink (meaningful only when it tracks its bytes).
    open spec fn written(&self) -> Seq<u8> {
        Seq::empty()
    }

    /// The offset at which the next write lands (meaningful only when it tracks its bytes).
    open spec fn position(&self) -> nat {
        0
    }

    /// Seeks to offsets below this bound, and writes that end below it, are sure to
    /// succeed; with the default, none is.
    open spec fn sure_limit(&self) -> nat {
        0
    }

    /// Moves the cursor to `offset` from the start.
    fn seek_to(&mut self, offset: u64) -> (r: Result<(), SyncError>)
        ensures
            r is Ok ==> final(self).sure_limit() == old(self).sure_limit(),
            old(self).tracks_bytes() ==> final(self).tracks_bytes(),
            old(self).tracks_bytes() && r is Ok ==> final(self).position() == offset
                && final(self).written() == old(self).written(),
            offset < old(self).sure_limit() ==> r is Ok && final(self).position() == offset,
    ;

    /// Writes all of `data` at the cursor and advances it past them.
    fn write_all_bytes(&mut self, data: &[u8]) -> (r: Result<(), SyncError>)
        ensures
            r is Ok ==> final(self).sure_limit() == old(self).sure_limit(),
            old(self).tracks_bytes() ==> final(self).tracks_bytes(),
            old(self).tracks_bytes() && r is Ok ==> final(self).written() == overwrite(
                old(self).written(),
                old(self).position(),
                data@,
            ) && final(self).position() == old(self).position() + data@.len(),
            old(self).position() + data@.len() < old(self).sure_limit() ==> r is Ok,
    ;
}

/// An in-memory seekable sink over a growable byte vector, refusing writes that would
/// reach past its size limit.
#[derive(Debug)]
pub struct ByteCursor {
    buf: Vec<u8>,
    pos: u64,
    limit: usize,
}

impl ByteCursor {
    /// Largest number of bytes the sink may hold.
    pub closed spec fn spec_limit(&self) -> nat {
        self.limit as nat
    }

    /// An empty cursor at offset zero, limited only by the address space.
    pub fn new() -> (c: Self)
        ensures
            c.written() == Seq::<u8>::empty(),
            c.position() == 0,
            c.spec_limit() == usize::MAX,
            c.tracks_bytes(),
            c.sure_limit() == usize::MAX as nat + 1,
    {
        ByteCursor { buf: Vec::new(), pos: 0, limit: usize::MAX }
    }

    /// An empty cursor at offset zero that holds at most `limit` bytes: a write that
    /// would end past them fails with [`IoErrorKind::WriteZero`] and changes nothing.
    pub fn with_size_limit(limit: usize) -> (c: Self)
        ensures
            c.written() == Seq::<u8>::empty(),
            c.position() == 0,
            c.spec_limit() == limit,
            c.tracks_bytes(),
            c.sure_limit() == limit as nat + 1,
    {
        ByteCursor { buf: Vec::new(), pos: 0, limit }
    }

    /// The bytes written so far.
    pub fn get_ref(&self) -> (r: &Vec<u8>)
        ensures
            r@ == self.written(),
    {
        &self.buf
    }

    /// Consumes the cursor and returns its bytes.
    pub fn into_inner(self) -> (r: Vec<u8>)
        ensures
            r@ == self.written(),
    {
        self.buf
    }
}

impl SeekWrite for ByteCursor {
    closed spec fn written(&self) -> Seq<u8> {
        self.buf@
    }

    closed spec fn position(&self) -> nat {
        self.pos as nat
    }

    closed spec fn sure_limit(&self) -> nat {
        self.limit as nat + 1
    }

    closed spec fn tracks_bytes(&self) -> bool {
        true
    }

    fn seek_to(&mut self, offset: u64) -> (r: Result<(), SyncError>)
        ensures
            r is Ok,
            final(self).spec_limit() == old(self).spec_limit(),
    {
        self.pos = offset;
        Ok(())
    }

    fn write_all_bytes(&mut self, data: &[u8]) -> (r: Result<(), SyncError>)
        ensures
            r is Err <==> old(self).position() + data@.len() > old(self).spec_limit(),
            r is Err ==> *final(self) == *old(self) && r->Err_0 == (SyncError::Io {
                kind: IoErrorKind::WriteZero,
                os_code: None,
            }),
            final(self).spec_limit() == old(self).spec_limit(),
    {
        if data.len() > self.limit || self.pos > (self.limit - data.len()) as u64 {
            return Err(SyncError::io(IoErrorKind::WriteZero));
        }
        let start: usize = self.pos as usize;
        let ghost old_buf = self.buf@;
        while self.buf.len() < start
            invariant
                start == old(self).pos,
                self.limit == old(self).limit,
                self.pos == old(self).pos,
                old_buf == old(self).buf@,
                old_buf.len() <= self.buf@.len() || self.buf@.len() <= start,
                self.buf@.len() <= if old_buf.len() > start { old_buf.len() } else { start as nat },
                forall|i: int| 0 <= i < self.buf@.len() ==> #[trigger] self.buf@[i] == if i
                    < old_buf.len() {
                    old_buf[i]
                } else {
                    0u8
                },
                self.buf@.len() >= old_buf.len(),
            decreases start - self.buf@.len(),
        {
            self.buf.push(0u8);
        }
        let mut i: usize = 0;
        while i < data.len()
            invariant
                start == old(self).pos,
                self.limit == old(self).limit,
                start + data@.len() <= usize::MAX,
                old_buf == old(self).buf@,
                i <= data@.len(),
                self.buf@.len() == if old_buf.len() > start + i {
                    old_buf.len()
                } else {
                    (start + i) as nat
                },
                forall|k: int| 0 <= k < self.buf@.len() ==> #[trigger] self.buf@[k] == if start <= k
                    < start + i {
                    data@[k - start]
                } else if k < old_buf.len() {
                    old_buf[k]
                } else {
                    0u8
                },
            decreases data@.len() - i,
        {
            let idx: usize = start + i;
            if idx < self.buf.len() {
                self.buf.set(idx, data[i]);
            } else {
                self.buf.push(data[i]);
            }
            i += 1;
        }
        self.pos = (start + data.len()) as u64;
        assert(self.buf@ =~= overwrite(old_buf, start as nat, data@));
        Ok(())
    }
}

/// A readable byte source. A source that tracks its bytes (see [`Self::tracks_bytes`]) is
/// modelled by the bytes it has left to give; of one that does not, only the clauses that
/// do not depend on that model are promised.
pub trait ByteSource {
    /// Whether [`Self::remaining`] follows what the source has left to give; a source
    /// that does not track it keeps this default.
    open spec fn tracks_bytes(&self) -> bool {
        false
    }

    /// The bytes that later reads will return, in order (meaningful only when the source
    /// tracks its bytes).
    open spec fn remaining(&self) -> Seq<u8> {
        Seq::empty()
    }

    /// A bound on how many more times a read may be interrupted; with the default, a read
    /// is never interrupted (a source that may be retries inside its read, or says more).
    open spec fn interrupt_budget(&self) -> nat {
        0
    }

    /// Whether every read is sure to succeed; with the default, nothing is promised.
    open spec fn reliable(&self) -> bool {
        false
    }

    /// Reads at most `max` bytes into the end of `out`, returning how many were read;
    /// zero means the end of the source.
    fn read_some(&mut self, out: &mut Vec<u8>, max: usize) -> (r: Result<usize, SyncError>)
        ensures
            old(self).reliable() ==> r is Ok && final(self).reliable(),
            old(self).tracks_bytes() ==> final(self).tracks_bytes(),
            match r {
                Ok(n) => {
                    &&& n <= max
                    &&& final(out)@.len() == old(out)@.len() + n
                    &&& final(out)@.take(old(out)@.len() as int) == old(out)@
                    &&& final(self).interrupt_budget() <= old(self).interrupt_budget()
                    &&& old(self).tracks_bytes() ==> {
                        &&& n <= old(self).remaining().len()
                        &&& (n == 0 ==> max == 0 || old(self).remaining().len() == 0)
                        &&& final(out)@ == old(out)@ + old(self).remaining().take(n as int)
                        &&& final(self).remaining() == old(self).remaining().skip(n as int)
                    }
                },
                Err(e) => {
                    &&& final(out)@ == old(out)@
                    &&& old(self).tracks_bytes() ==> final(self).remaining() == old(self).remaining()
                    &&& (e matches SyncError::Io { kind: IoErrorKind::Interrupted, .. }
                        ==> final(self).interrupt_budget() < old(self).interrupt_budget())
                },
            },
    ;
}

/// An in-memory byte source over a vector, handing out at most `chunk` bytes per read.
#[derive(Debug)]
pub struct ByteReader {
    data: Vec<u8>,
    pos: usize,
    chunk: usize,
}

impl ByteReader {
    /// Largest number of bytes one read hands out.
    pub closed spec fn spec_chunk(&self) -> nat {
        self.chunk as nat
    }

    /// A reader positioned at the start of `data`, with reads limited only by their buffer.
    pub fn new(data: Vec<u8>) -> (r: Self)
        ensures
            r.remaining() == data@,
            r.spec_chunk() == usize::MAX,
            r.tracks_bytes(),
            r.reliable(),
    {
        let r = ByteReader { data, pos: 0, chunk: usize::MAX };
        assert(r.data@.skip(0) =~= r.data@);
        r
    }

    /// A reader positioned at the start of `data` whose reads hand out at most `chunk`
    /// bytes each, as a pipe or a network stream may.
    pub fn with_chunk_size(data: Vec<u8>, chunk: usize) -> (r: Self)
        requires
            chunk > 0,
        ensures
            r.remaining() == data@,
            r.spec_chunk() == chunk,
            r.tracks_bytes(),
            r.reliable(),
    {
        let r = ByteReader { data, pos: 0, chunk };
        assert(r.data@.skip(0) =~= r.data@);
        r
    }
}

impl ByteSource for ByteReader {
    closed spec fn remaining(&self) -> Seq<u8> {
        if self.pos <= self.data@.len() {
            self.data@.skip(self.pos as int)
        } else {
            Seq::empty()
        }
    }

    closed spec fn interrupt_budget(&self) -> nat {
        0
    }

    closed spec fn reliable(&self) -> bool {
        true
    }

    closed spec fn tracks_bytes(&self) -> bool {
        true
    }

    fn read_some(&mut self, out: &mut Vec<u8>, max: usize) -> (r: Result<usize, SyncError>) {
        let ghost old_out = out@;
        let ghost rem = self.remaining();
        if self.pos >= self.data.len() {
            assert(rem.skip(0) =~= rem);
            assert(rem.take(0) =~= Seq::<u8>::empty());
            assert(out@ =~= old_out + rem.take(0));
            return Ok(0);
        }
        let avail: usize = self.data.len() - self.pos;
        let want: usize = if 0 < self.chunk && self.chunk < max { self.chunk } else { max };
        let n: usize = if avail < want { avail } else { want };
        let base: usize = self.pos;
        let mut i: usize = 0;
        while i < n
            invariant
                base == self.pos,
                base < self.data@.len(),
                self.data@.len() <= usize::MAX,
                base + n <= self.data@.len(),
                rem == self.data@.skip(base as int),
                i <= n,
                out@ == old_out + rem.take(i as int),
            decreases n - i,
        {
            let idx: usize = base + i;
            let b: u8 = self.data[idx];
            out.push(b);
            assert(rem.take(i + 1) =~= rem.take(i as int).push(rem[i as int]));
            i += 1;
        }
        self.pos = self.pos + n;
        assert(self.data@.skip(self.pos as int) =~= rem.skip(n as int));
        Ok(n)
    }
}

/// Fills `buf` from `reader` until it is full or the source ended, retrying interrupted
/// reads; returns the number of bytes read, which occupy the front of `buf`. It fails only
/// with a read error of `reader` other than an interruption, so never for a reliable one.
pub fn read_block<R: ByteSource>(reader: &mut R, buf: &mut Vec<u8>) -> (r: Result<usize, SyncError>)
    ensures
        final(buf)@.len() == old(buf)@.len(),
        old(reader).reliable() ==> r is Ok && final(reader).reliable(),
        old(reader).tracks_bytes() ==> final(reader).tracks_bytes(),
        r is Err ==> !(r->Err_0 matches SyncError::Io { kind: IoErrorKind::Interrupted, .. }),
        r is Ok ==> r->Ok_0 <= old(buf)@.len(),
        r is Ok && old(reader).tracks_bytes() ==> {
            let n = r->Ok_0;
            let len = old(buf)@.len();
            &&& n == if old(reader).remaining().len() < len {
                old(reader).remaining().len()
            } else {
                len
            }
            &&& final(buf)@ == old(reader).remaining().take(n as int) + old(buf)@.skip(n as int)
            &&& final(reader).remaining() == old(reader).remaining().skip(n as int)
        },
{
    let len = buf.len();
    let mut got: Vec<u8> = Vec::new();
    let ghost start = reader.remaining();
    let ghost follows = reader.tracks_bytes();
    let mut total: usize = 0;
    loop
        invariant
            len == old(buf)@.len(),
            buf@ == old(buf)@,
            total <= len,
            got@.len() == total,
            follows == old(reader).tracks_bytes(),
            follows ==> reader.tracks_bytes(),
            follows ==> total <= start.len() && got@ == start.take(total as int) && reader.remaining() == start.skip(
                total as int,
            ),
            old(reader).reliable() ==> reader.reliable(),
        ensures
            total <= len,
            got@.len() == total,
            follows ==> reader.tracks_bytes(),
            follows ==> (total == len || total == start.len()) && got@ == start.take(total as int)
                && reader.remaining() == start.skip(total as int),
            old(reader).reliable() ==> reader.reliable(),
        decreases len - total, reader.interrupt_budget(),
    {
        if total >= len {
            break;
        }
        match reader.read_some(&mut got, len - total) {
            Ok(n) => {
                if n == 0 {
                    break;
                }
                proof {
                    if follows {
                        assert(start.take(total as int) + start.skip(total as int).take(n as int) =~= start.take(
                            (total + n) as int,
                        ));
                        assert(start.skip(total as int).skip(n as int) =~= start.skip((total + n) as int));
                    }
                }
                total = total + n;
            },
            Err(e) => {
                if let SyncError::Io { kind: IoErrorKind::Interrupted, .. } = e {
                } else {
                    return Err(e);
                }
            },
        }
    }
    let ghost before = buf@;
    let mut i: usize = 0;
    while i < total
        invariant
            total <= len,
            len == before.len(),
            buf@.len() == len,
            got@.len() == total,
            i <= total,
            forall|k: int| 0 <= k < len ==> #[trigger] buf@[k] == if k < i { got@[k] } else { before[k] },
        decreases total - i,
    {
        buf.set(i, got[i]);
        i += 1;
    }
    proof {
        if follows {
            assert(buf@ =~= start.take(total as int) + old(buf)@.skip(total as int));
        }
    }
    Ok(total)
}

/// `after` holds what `before` held with `data` written at `offset`, and its cursor sits
/// just past the written bytes.
pub open spec fn flushed_to<W: SeekWrite>(before: W, after: W, offset: nat, data: Seq<u8>) -> bool {
    &&& after.written() == overwrite(before.written(), offset, data)
    &&& after.position() == offset + data.len()
}

/// Appends the bytes of `s` to `v`.
fn append_bytes(v: &mut Vec<u8>, s: &[u8])
    ensures
        final(v)@ == old(v)@ + s@,
{
    let mut i: usize = 0;
    while i < s.len()
        invariant
            i <= s@.len(),
            v@ == old(v)@ + s@.take(i as int),
        decreases s@.len() - i,
    {
        v.push(s[i]);
        assert(s@.take(i + 1) =~= s@.take(i as int).push(s@[i as int]));
        i += 1;
    }
    assert(s@.take(s@.len() as int) =~= s@);
}

/// `Vec::capacity`: the number of elements the vector can hold without reallocating.
#[verifier::external_body]
fn vec_capacity(v: &Vec<u8>) -> (r: usize)
    ensures
        r >= v@.len(),
{
    v.capacity()
}

/// Contiguous range of dirty blocks, coalesced so that one seek and one write cover them.
#[derive(Debug)]
pub struct DirtyBlockRange {
    start_block: u64,
    block_count: u64,
    block_size: u64,
    data: Vec<u8>,
}

impl DirtyBlockRange {
    /// Largest number of bytes coalesced into one write (16 MiB).
    pub const MAX_COALESCE_BYTES: usize = 16777216;

    /// Index of the first block of the range.
    pub closed spec fn spec_start_block(&self) -> nat {
        self.start_block as nat
    }

    /// Number of blocks in the range.
    pub closed spec fn spec_block_count(&self) -> nat {
        self.block_count as nat
    }

    /// Size in bytes of one block.
    pub closed spec fn spec_block_size(&self) -> nat {
        self.block_size as nat
    }

    /// The buffered bytes of the blocks, in order.
    pub closed spec fn spec_data(&self) -> Seq<u8> {
        self.data@
    }

    /// Internal consistency: a positive block size, no bytes without blocks, and an end
    /// block index that fits in `u64`.
    pub closed spec fn wf(&self) -> bool {
        &&& self.block_size > 0
        &&& (self.block_count == 0 ==> self.data@.len() == 0)
        &&& self.start_block + self.block_count <= u64::MAX
    }

    /// The byte offset at which the range is written.
    pub open spec fn spec_offset(&self) -> nat {
        self.spec_start_block() * self.spec_block_size()
    }

    /// Flushing can compute its byte offset within `u64`.
    pub open spec fn offset_fits(&self) -> bool {
        self.spec_block_count() == 0 || self.spec_offset() <= u64::MAX
    }

    /// A range with no blocks and no bytes, starting at block zero.
    pub open spec fn is_reset(&self) -> bool {
        &&& self.spec_block_count() == 0
        &&& self.spec_data() == Seq::<u8>::empty()
        &&& self.spec_start_block() == 0
    }

    /// Adding block `block_idx` of `len` bytes extends the current range in place:
    /// the range is non-empty, the block follows its last block, and the bytes fit.
    pub open spec fn extends_with(&self, block_idx: nat, len: nat) -> bool {
        &&& self.spec_block_count() > 0
        &&& block_idx == self.spec_start_block() + self.spec_block_count()
        &&& self.spec_data().len() + len <= Self::MAX_COALESCE_BYTES
    }

    /// Create an empty dirty block range with a pinned, non-zero block size.
    pub fn new(block_size: u64) -> (r: Self)
        requires
            block_size > 0,
        ensures
            r.wf(),
            r.is_reset(),
            r.spec_block_size() == block_size,
    {
        DirtyBlockRange { start_block: 0, block_count: 0, block_size, data: Vec::new() }
    }

    /// Create an empty dirty block range from a non-zero block size; same as [`Self::new`].
    pub fn new_nonzero(block_size: u64) -> (r: Self)
        requires
            block_size > 0,
        ensures
            r.wf(),
            r.is_reset(),
            r.spec_block_size() == block_size,
    {
        Self::new(block_size)
    }

    /// Create an empty dirty block range, or a validation error when `block_size` is zero.
    pub fn try_new(block_size: u64) -> (r: Result<Self, SyncError>)
        ensures
            r is Ok <==> block_size > 0,
            r is Ok ==> r->Ok_0.wf() && r->Ok_0.is_reset() && r->Ok_0.spec_block_size() == block_size,
            r is Err ==> (r->Err_0 matches SyncError::Validation { kind, message } && kind
                == ValidationKind::General && message@
                == "DirtyBlockRange block_size must be greater than zero"@),
    {
        if block_size == 0 {
            return Err(SyncError::validation("DirtyBlockRange block_size must be greater than zero"));
        }
        Ok(Self::new(block_size))
    }

    /// Index of the first block of the range.
    pub fn start_block(&self) -> (r: u64)
        ensures
            r == self.spec_start_block(),
    {
        self.start_block
    }

    /// Index one past the last block of the range.
    pub fn end_block(&self) -> (r: u64)
        requires
            self.wf(),
        ensures
            r == self.spec_start_block() + self.spec_block_count(),
    {
        self.start_block + self.block_count
    }

    /// Number of contiguous blocks coalesced in the range.
    pub fn block_count(&self) -> (r: u64)
        ensures
            r == self.spec_block_count(),
    {
        self.block_count
    }

    /// The pinned block size in bytes.
    pub fn block_size(&self) -> (r: u64)
        requires
            self.wf(),
        ensures
            r == self.spec_block_size(),
            r > 0,
    {
        self.block_size
    }

    /// The pinned block size, which is never zero.
    pub fn block_size_nonzero(&self) -> (r: u64)
        requires
            self.wf(),
        ensures
            r == self.spec_block_size(),
            r > 0,
    {
        self.block_size
    }

    /// Whether the range holds no blocks.
    pub fn is_empty(&self) -> (r: bool)
        ensures
            r == (self.spec_block_count() == 0),
    {
        self.block_count == 0
    }

    /// Number of buffered bytes.
    pub fn byte_len(&self) -> (r: usize)
        ensures
            r == self.spec_data().len(),
    {
        self.data.len()
    }

    /// Allocated capacity of the byte buffer.
    pub fn capacity(&self) -> (r: usize)
        ensures
            r >= self.spec_data().len(),
    {
        vec_capacity(&self.data)
    }

    /// The buffered bytes.
    pub fn data(&self) -> (r: &[u8])
        ensures
            r@ == self.spec_data(),
    {
        self.data.as_slice()
    }

    /// Empty the range for reuse, keeping its buffer.
    pub fn reset(&mut self)
        requires
            old(self).wf(),
        ensures
            final(self).wf(),
            final(self).is_reset(),
            final(self).spec_block_size() == old(self).spec_block_size(),
    {
        self.start_block = 0;
        self.block_count = 0;
        self.data.clear();
    }

    /// Write the buffered blocks at their byte offset and empty the range; on a writer
    /// error the range is reset and the error returned.
    pub fn flush<W: SeekWrite>(&mut self, writer: &mut W) -> (r: Result<(), SyncError>)
        requires
            old(self).wf(),
            old(self).offset_fits(),
        ensures
            final(self).wf(),
            final(self).spec_block_size() == old(self).spec_block_size(),
            old(self).spec_block_count() == 0 ==> r is Ok && *final(self) == *old(self)
                && *final(writer) == *old(writer),
            old(self).spec_block_count() > 0 && r is Ok ==> {
                &&& final(self).spec_block_count() == 0
                &&& final(self).spec_data() == Seq::<u8>::empty()
                &&& final(self).spec_start_block() == old(self).spec_start_block()
                &&& old(writer).tracks_bytes() ==> flushed_to(*old(writer), *final(writer), old(self).spec_offset(), old(self).spec_data())
            },
            r is Err ==> final(self).is_reset(),
            r is Ok ==> final(writer).sure_limit() == old(writer).sure_limit(),
            r is Ok ==> final(self).spec_block_count() == 0 && final(self).spec_data() == Seq::<u8>::empty(),
            old(writer).tracks_bytes() ==> final(writer).tracks_bytes(),
            old(self).spec_offset() + old(self).spec_data().len() < old(writer).sure_limit() ==> r is Ok,
    {
        if self.block_count > 0 {
            let offset: u64 = self.start_block * self.block_size;
            match writer.seek_to(offset) {
                Ok(()) => {},
                Err(e) => {
                    self.reset();
                    return Err(e);
                },
            }
            match writer.write_all_bytes(self.data.as_slice()) {
                Ok(()) => {},
                Err(e) => {
                    self.reset();
                    return Err(e);
                },
            }
            self.data.clear();
            self.block_count = 0;
        }
        Ok(())
    }

    /// Append block `block_idx` with bytes `block_bytes`; when the block does not extend the
    /// current range, the range is flushed to `writer` first and restarted at `block_idx`.
    pub fn add_block<W: SeekWrite>(&mut self, block_idx: u64, block_bytes: &[u8], writer: &mut W) -> (r:
        Result<(), SyncError>)
        requires
            old(self).wf(),
            block_idx < u64::MAX,
            old(self).spec_data().len() + block_bytes@.len() <= usize::MAX,
            !old(self).extends_with(block_idx as nat, block_bytes@.len()) ==> old(self).offset_fits(),
        ensures
            final(self).wf(),
            final(self).spec_block_size() == old(self).spec_block_size(),
            old(self).extends_with(block_idx as nat, block_bytes@.len()) ==> {
                &&& r is Ok
                &&& final(self).spec_start_block() == old(self).spec_start_block()
                &&& final(self).spec_block_count() == old(self).spec_block_count() + 1
                &&& final(self).spec_data() == old(self).spec_data() + block_bytes@
                &&& *final(writer) == *old(writer)
            },
            !old(self).extends_with(block_idx as nat, block_bytes@.len()) ==> {
                &&& old(self).spec_block_count() == 0 ==> r is Ok && *final(writer) == *old(writer)
                &&& old(self).spec_block_count() > 0 && r is Ok && old(writer).tracks_bytes() ==> flushed_to(
                    *old(writer),
                    *final(writer),
                    old(self).spec_offset(),
                    old(self).spec_data(),
                )
                &&& r is Ok ==> final(self).spec_start_block() == block_idx
                    && final(self).spec_block_count() == 1 && final(self).spec_data() == block_bytes@
                &&& r is Err ==> final(self).is_reset()
            },
            r is Ok ==> final(writer).sure_limit() == old(writer).sure_limit(),
            old(writer).tracks_bytes() ==> final(writer).tracks_bytes(),
            old(self).spec_offset() + old(self).spec_data().len() < old(writer).sure_limit() ==> r is Ok,
    {
        let is_contiguous = self.block_count > 0 && block_idx == self.start_block + self.block_count;
        let fits = self.data.len() + block_bytes.len() <= Self::MAX_COALESCE_BYTES;
        if !is_contiguous || !fits {
            match self.flush(writer) {
                Ok(()) => {},
                Err(e) => {
                    return Err(e);
                },
            }
            self.start_block = block_idx;
        }
        append_bytes(&mut self.data, block_bytes);
        self.block_count = self.block_count + 1;
        Ok(())
    }
}

/// A one-slot pool of dirty-range buffers, so that consecutive transfers reuse one
/// allocation: a buffer taken out is empty and has the pool's block size; a buffer given
/// back is emptied and kept if the slot is free or its allocation is larger.
#[derive(Debug)]
pub struct DirtyRangePool {
    block_size: u64,
    slot: Option<DirtyBlockRange>,
}

impl DirtyRangePool {
    /// Block size of the buffers handed out.
    pub closed spec fn spec_block_size(&self) -> u64 {
        self.block_size
    }

    /// Whether a buffer waits in the slot.
    pub closed spec fn spec_holds_buffer(&self) -> bool {
        self.slot is Some
    }

    /// The block size is positive and a pooled buffer is empty and has that block size.
    pub closed spec fn wf(&self) -> bool {
        &&& self.block_size > 0
        &&& (self.slot matches Some(r) ==> r.wf() && r.is_reset() && r.spec_block_size() == self.block_size)
    }

    /// An empty pool handing out buffers of `block_size`-byte blocks.
    pub fn new(block_size: u64) -> (p: Self)
        requires
            block_size > 0,
        ensures
            p.wf(),
            p.spec_block_size() == block_size,
            !p.spec_holds_buffer(),
    {
        DirtyRangePool { block_size, slot: None }
    }

    /// Takes the pooled buffer, or a new one when the slot is empty.
    pub fn acquire(&mut self) -> (r: DirtyBlockRange)
        requires
            old(self).wf(),
        ensures
            final(self).wf(),
            !final(self).spec_holds_buffer(),
            final(self).spec_block_size() == old(self).spec_block_size(),
            r.wf(),
            r.is_reset(),
            r.spec_block_size() == old(self).spec_block_size(),
    {
        match self.slot.take() {
            Some(r) => r,
            None => DirtyBlockRange::new(self.block_size),
        }
    }

    /// Gives `range` back: it is emptied, and it takes the slot when the slot is free or
    /// holds a smaller allocation.
    pub fn release(&mut self, range: DirtyBlockRange)
        requires
            old(self).wf(),
            range.wf(),
            range.spec_block_size() == old(self).spec_block_size(),
        ensures
            final(self).wf(),
            final(self).spec_holds_buffer(),
            final(self).spec_block_size() == old(self).spec_block_size(),
    {
        let mut range = range;
        range.reset();
        match self.slot.take() {
            Some(existing) => {
                if range.capacity() > existing.capacity() {
                    self.slot = Some(range);
                } else {
                    self.slot = Some(existing);
                }
            },
            None => {
                self.slot = Some(range);
            },
        }
    }

    /// Allocation of the pooled buffer, zero when the slot is empty.
    pub fn pooled_capacity(&self) -> (r: usize)
        ensures
            !self.spec_holds_buffer() ==> r == 0,
    {
        match &self.slot {
            Some(r) => r.capacity(),
            None => 0,
        }
    }
}

impl Default for DirtyBlockRange {
    /// An empty range with 64 KiB blocks.
    fn default() -> (r: Self)
        ensures
            r.wf(),
            r.is_reset(),
            r.spec_block_size() == 65536,
    {
        Self::new(65536)
    }
}

impl TryFrom<u64> for DirtyBlockRange {
    type Error = SyncError;

    /// Same as [`DirtyBlockRange::try_new`].
    fn try_from(val: u64) -> (r: Result<Self, SyncError>)
        ensures
            r is Ok <==> val > 0,
            r is Ok ==> r->Ok_0.wf() && r->Ok_0.is_reset() && r->Ok_0.spec_block_size() == val,
            r is Err ==> r->Err_0 is Validation,
    {
        Self::try_new(val)
    }
}

impl TryFromSpecImpl<u64> for DirtyBlockRange {
    /// The conversion's contract is the `ensures` of `try_from` itself: its error value
    /// carries a message string that no spec expression builds, so no spec value is given.
    open spec fn obeys_try_from_spec() -> bool {
        false
    }

    open spec fn try_from_spec(v: u64) -> Result<Self, SyncError> {
        arbitrary()
    }
}

/// The BLAKE3 digest of `data`.
pub uninterp spec fn blake3_digest(data: Seq<u8>) -> Seq<u8>;

/// `blake3::hash`: the 32-byte BLAKE3 digest of `data`, a function of `data` alone.
#[verifier::external_body]
fn block_hash(data: &[u8]) -> (r: [u8; 32])
    ensures
        r@ == blake3_digest(data@),
{
    *blake3::hash(data).as_bytes()
}

/// The BLAKE3 digest of `data`.
pub fn block_hash_of(data: &[u8]) -> (r: [u8; 32])
    ensures
        r@ == blake3_digest(data@),
{
    block_hash(data)
}

/// Whether two digests are equal.
fn digests_equal(a: &[u8; 32], b: &[u8; 32]) -> (r: bool)
    ensures
        r == (a@ == b@),
{
    let mut i: usize = 0;
    while i < 32
        invariant
            i <= 32,
            a@.len() == 32,
            b@.len() == 32,
            forall|k: int| 0 <= k < i ==> a@[k] == b@[k],
        decreases 32 - i,
    {
        if a[i] != b[i] {
            return false;
        }
        i += 1;
    }
    assert(a@ =~= b@);
    true
}

/// End (exclusive) of block `i` in a stream of `len` bytes cut into blocks of `bs`.
pub open spec fn block_end(len: nat, bs: nat, i: nat) -> nat {
    if (i + 1) * bs < len { ((i + 1) * bs) as nat } else { len }
}

/// Block `i` of `s` for block size `bs` (the last block may be short).
pub open spec fn block_of(s: Seq<u8>, bs: nat, i: nat) -> Seq<u8> {
    s.subrange((i * bs) as int, block_end(s.len(), bs, i) as int)
}

/// `m` is the number of blocks of size `bs` that cover `len` bytes.
pub open spec fn is_block_count(m: nat, len: nat, bs: nat) -> bool {
    (len == 0 && m == 0) || (m > 0 && (m - 1) * bs < len && len <= m * bs)
}

/// Block `i` must be written: its digest differs from the cached one (or none is cached),
/// or the destination is too short to hold it.
pub open spec fn block_needs_write(
    s: Seq<u8>,
    bs: nat,
    i: nat,
    cached: Seq<[u8; 32]>,
    dest_len: nat,
) -> bool {
    ||| i >= cached.len()
    ||| cached[i as int]@ != blake3_digest(block_of(s, bs, i))
    ||| dest_len < i * bs + block_of(s, bs, i).len()
}

/// The blocks among the first `k` that must be written, in increasing order.
pub open spec fn dirty_blocks(s: Seq<u8>, bs: nat, cached: Seq<[u8; 32]>, dest_len: nat, k: nat) -> Seq<nat>
    decreases k,
{
    if k == 0 {
        Seq::empty()
    } else {
        let prev = dirty_blocks(s, bs, cached, dest_len, (k - 1) as nat);
        if block_needs_write(s, bs, (k - 1) as nat, cached, dest_len) {
            prev.push((k - 1) as nat)
        } else {
            prev
        }
    }
}

/// `d` with the blocks `idxs` of `s` written at their offsets, in order.
pub open spec fn apply_blocks(d: Seq<u8>, s: Seq<u8>, bs: nat, idxs: Seq<nat>) -> Seq<u8>
    decreases idxs.len(),
{
    if idxs.len() == 0 {
        d
    } else {
        overwrite(
            apply_blocks(d, s, bs, idxs.drop_last()),
            idxs.last() * bs,
            block_of(s, bs, idxs.last()),
        )
    }
}

/// Writing `a` then, right after it, `b` is writing `a + b`.
pub proof fn lemma_overwrite_concat(d: Seq<u8>, p: nat, a: Seq<u8>, b: Seq<u8>)
    ensures
        overwrite(overwrite(d, p, a), p + a.len(), b) == overwrite(d, p, a + b),
{
    assert(overwrite(overwrite(d, p, a), p + a.len(), b) =~= overwrite(d, p, a + b));
}

/// Exec form of the write decision for block `block_idx` of `bytes_read` bytes.
pub fn block_needs_write_exec(
    cached: Option<&[u8; 32]>,
    hash: &[u8; 32],
    initial_dest_len: u64,
    block_idx: u64,
    block_size: u64,
    bytes_read: u64,
) -> (r: bool)
    requires
        block_idx * block_size + bytes_read <= u64::MAX,
    ensures
        r == (match cached {
            Some(c) => c@ != hash@,
            None => true,
        } || initial_dest_len < block_idx * block_size + bytes_read),
{
    let changed = match cached {
        Some(c) => !digests_equal(c, hash),
        None => true,
    };
    let end: u64 = block_idx * block_size + bytes_read;
    changed || initial_dest_len < end
}

/// A block written by a delta transfer, kept for read-back verification.
#[derive(Debug, Clone, Copy, PartialEq, Eq)]
pub struct ModifiedBlock {
    /// Block index.
    pub index: u64,
    /// Number of bytes in the block.
    pub len: usize,
    /// Digest of the bytes written.
    pub hash: [u8; 32],
}

/// What streaming a source through the delta writer produced.
#[derive(Debug)]
pub struct DeltaStream {
    /// Bytes read from the source.
    pub total_bytes: u64,
    /// Digest of every source block, in order.
    pub new_hashes: Vec<[u8; 32]>,
    /// The blocks written, in order, when collected.
    pub modified: Vec<ModifiedBlock>,
    /// Number of blocks written.
    pub dirty_blocks_written: u64,
}

proof fn lemma_mul_le(a: nat, b: nat, c: nat)
    requires
        a <= b,
    ensures
        a * c <= b * c,
{
    assert(a * c <= b * c) by (nonlinear_arith)
        requires
            a <= b,
    ;
}

proof fn lemma_mul_succ(a: nat, c: nat)
    ensures
        (a + 1) * c == a * c + c,
{
    assert((a + 1) * c == a * c + c) by (nonlinear_arith);
}

/// Streams `src` block by block (blocks the size of `scratch`): hashes every block,
/// writes through `range` to `dest` exactly the blocks whose digest differs from
/// `cached_hashes` or that a destination of `initial_dest_len` bytes does not hold, and
/// flushes; a block shorter than `scratch` ends the stream. When the source tracks its
/// bytes, the result describes them exactly, and when the sink tracks its bytes too, the
/// destination ends up as it was before with those blocks, and only those, written at
/// their offsets. A source longer than `u64::MAX` bytes is refused with a generic error.
pub fn stream_delta_blocks<Rd: ByteSource, W: SeekWrite>(
    src: &mut Rd,
    dest: &mut W,
    cached_hashes: &Vec<[u8; 32]>,
    initial_dest_len: u64,
    collect_modified: bool,
    range: &mut DirtyBlockRange,
    scratch: &mut Vec<u8>,
) -> (r: Result<DeltaStream, SyncError>)
    requires
        old(range).wf(),
        old(range).spec_block_count() == 0,
        old(range).spec_block_size() == old(scratch)@.len(),
        old(scratch)@.len() > 0,
        old(scratch)@.len() <= usize::MAX / 2,
        old(src).remaining().len() <= u64::MAX,
    ensures
        final(range).wf(),
        final(range).spec_block_size() == old(range).spec_block_size(),
        final(scratch)@.len() == old(scratch)@.len(),
        r is Ok ==> final(range).spec_block_count() == 0 && final(range).spec_data() == Seq::<u8>::empty(),
        r is Ok ==> r->Ok_0.new_hashes@.len() as int * old(scratch)@.len() >= r->Ok_0.total_bytes,
        r is Ok ==> r->Ok_0.dirty_blocks_written <= r->Ok_0.new_hashes@.len(),
        old(src).tracks_bytes() ==> final(src).tracks_bytes(),
        old(dest).tracks_bytes() ==> final(dest).tracks_bytes(),
        r is Ok && old(src).tracks_bytes() ==> {
            let s = old(src).remaining();
            let bs = old(scratch)@.len();
            let res = r->Ok_0;
            let m = res.new_hashes@.len();
            let dirty = dirty_blocks(s, bs, cached_hashes@, initial_dest_len as nat, m);
            &&& res.total_bytes == s.len()
            &&& final(src).remaining() == Seq::<u8>::empty()
            &&& is_block_count(m, s.len(), bs)
            &&& forall|i: int| 0 <= i < m ==> (#[trigger] res.new_hashes@[i])@ == blake3_digest(
                block_of(s, bs, i as nat),
            )
            &&& res.dirty_blocks_written == dirty.len()
            &&& collect_modified ==> res.modified@.len() == dirty.len() && forall|k: int|
                0 <= k < dirty.len() ==> {
                    let mb = #[trigger] res.modified@[k];
                    &&& mb.index == dirty[k]
                    &&& mb.len == block_of(s, bs, dirty[k]).len()
                    &&& mb.hash@ == blake3_digest(block_of(s, bs, dirty[k]))
                }
            &&& old(dest).tracks_bytes() ==> final(dest).written() == apply_blocks(old(dest).written(), s, bs, dirty)
        },
        old(src).reliable() && old(src).tracks_bytes() && old(src).remaining().len() < old(dest).sure_limit()
            ==> r is Ok,
{
    let ghost s = src.remaining();
    let ghost d0 = dest.written();
    let ghost rel = src.reliable();
    let ghost lim = dest.sure_limit();
    let ghost ts = src.tracks_bytes();
    let ghost td = dest.tracks_bytes();
    let bs_usize: usize = scratch.len();
    let bs: u64 = bs_usize as u64;
    let ghost bsn: nat = bs_usize as nat;
    let mut total: u64 = 0;
    let mut idx: u64 = 0;
    let mut new_hashes: Vec<[u8; 32]> = Vec::new();
    let mut modified: Vec<ModifiedBlock> = Vec::new();
    let mut dirty_count: u64 = 0;
    let ghost mut dirty: Seq<nat> = Seq::empty();
    loop
        invariant_except_break
            total == idx * bsn,
            range.spec_block_count() > 0 ==> range.spec_data().len() == range.spec_block_count() * bsn,
        invariant
            bs == bs_usize,
            bsn == bs_usize,
            bs_usize == old(scratch)@.len(),
            bsn == old(range).spec_block_size(),
            scratch@.len() == bs_usize,
            bs_usize > 0,
            bs_usize <= usize::MAX / 2,
            new_hashes@.len() == idx,
            dirty_count == dirty.len(),
            dirty.len() <= idx,
            rel == old(src).reliable(),
            lim == old(dest).sure_limit(),
            old(src).remaining().len() <= u64::MAX,
            ts == old(src).tracks_bytes(),
            td == old(dest).tracks_bytes(),
            rel ==> src.reliable(),
            ts ==> src.tracks_bytes(),
            td ==> dest.tracks_bytes(),
            dest.sure_limit() == lim,
            ts ==> s == old(src).remaining() && total <= s.len() && src.remaining() == s.skip(total as int),
            ts ==> forall|i: int| 0 <= i < idx ==> (#[trigger] new_hashes@[i])@ == blake3_digest(
                block_of(s, bsn, i as nat),
            ),
            ts ==> dirty == dirty_blocks(s, bsn, cached_hashes@, initial_dest_len as nat, idx as nat),
            ts && collect_modified ==> modified@.len() == dirty.len() && forall|k: int|
                0 <= k < dirty.len() ==> {
                    let mb = #[trigger] modified@[k];
                    &&& mb.index == dirty[k]
                    &&& mb.len == block_of(s, bsn, dirty[k]).len()
                    &&& mb.hash@ == blake3_digest(block_of(s, bsn, dirty[k]))
                },
            range.wf(),
            range.spec_block_size() == bsn,
            range.spec_block_count() > 0 ==> range.spec_start_block() + range.spec_block_count() <= idx,
            range.spec_block_count() > 0 ==> range.spec_offset() + range.spec_data().len() <= total,
            range.spec_data().len() <= DirtyBlockRange::MAX_COALESCE_BYTES || range.spec_data().len() <= bsn,
            ts && td ==> apply_blocks(d0, s, bsn, dirty) == if range.spec_block_count() == 0 {
                dest.written()
            } else {
                overwrite(dest.written(), range.spec_offset(), range.spec_data())
            },
        ensures
            bs == bs_usize,
            bsn == bs_usize,
            bs_usize == old(scratch)@.len(),
            bsn == old(range).spec_block_size(),
            scratch@.len() == bs_usize,
            total == idx * bsn || (idx > 0 && (idx - 1) * bsn < total && total < idx * bsn),
            new_hashes@.len() == idx,
            dirty_count == dirty.len(),
            dirty.len() <= idx,
            ts ==> src.tracks_bytes(),
            td ==> dest.tracks_bytes(),
            dest.sure_limit() == lim,
            ts ==> s == old(src).remaining() && total == s.len() && src.remaining() == s.skip(total as int),
            ts ==> forall|i: int| 0 <= i < idx ==> (#[trigger] new_hashes@[i])@ == blake3_digest(
                block_of(s, bsn, i as nat),
            ),
            ts ==> dirty == dirty_blocks(s, bsn, cached_hashes@, initial_dest_len as nat, idx as nat),
            ts && collect_modified ==> modified@.len() == dirty.len() && forall|k: int|
                0 <= k < dirty.len() ==> {
                    let mb = #[trigger] modified@[k];
                    &&& mb.index == dirty[k]
                    &&& mb.len == block_of(s, bsn, dirty[k]).len()
                    &&& mb.hash@ == blake3_digest(block_of(s, bsn, dirty[k]))
                },
            range.wf(),
            range.spec_block_size() == bsn,
            range.spec_block_count() > 0 ==> range.spec_offset() + range.spec_data().len() <= total,
            ts && td ==> apply_blocks(d0, s, bsn, dirty) == if range.spec_block_count() == 0 {
                dest.written()
            } else {
                overwrite(dest.written(), range.spec_offset(), range.spec_data())
            },
        decreases u64::MAX - total,
    {
        let ghost rem = src.remaining();
        let n = match read_block(src, scratch) {
            Ok(n) => n,
            Err(e) => {
                return Err(e);
            },
        };
        if n == 0 {
            proof {
                if ts {
                    assert(rem.len() == 0);
                }
            }
            break;
        }
        proof {
            if ts {
                assert(total + n <= s.len());
                assert(s.len() <= u64::MAX);
                assert((n as u64) <= u64::MAX - total);
            }
        }
        if n as u64 > u64::MAX - total {
            return Err(SyncError::generic("source is longer than 2^64 bytes"));
        }
        proof {
            lemma_mul_succ(idx as nat, bsn);
            assert(idx * bsn >= idx) by (nonlinear_arith)
                requires
                    bsn >= 1,
            ;
        }
        let ghost block = block_of(s, bsn, idx as nat);
        let bytes: &[u8] = scratch.as_slice().split_at(n).0;
        proof {
            if ts {
                assert(bytes@ =~= rem.take(n as int));
                assert(rem.take(n as int) =~= s.subrange(total as int, total + n));
                assert(block =~= s.subrange(total as int, total + n));
            }
        }
        let hash = block_hash(bytes);
        let cached: Option<&[u8; 32]> = if idx < cached_hashes.len() as u64 {
            Some(&cached_hashes[idx as usize])
        } else {
            None
        };
        let needs = block_needs_write_exec(cached, &hash, initial_dest_len, idx, bs, n as u64);
        proof {
            if ts {
                assert(needs == block_needs_write(s, bsn, idx as nat, cached_hashes@, initial_dest_len as nat));
            }
        }
        if needs {
            let ghost w_before = dest.written();
            let ghost r_before = *range;
            proof {
                if range.spec_block_count() > 0 {
                    lemma_mul_le(range.spec_start_block(), idx as nat, bsn);
                    assert(range.spec_offset() + range.spec_data().len() < total + n);
                }
            }
            match range.add_block(idx, bytes, dest) {
                Ok(()) => {},
                Err(e) => {
                    return Err(e);
                },
            }
            proof {
                let nd = dirty.push(idx as nat);
                assert(nd.drop_last() =~= dirty);
                if r_before.extends_with(idx as nat, n as nat) {
                    let st = r_before.spec_start_block();
                    let ct = r_before.spec_block_count();
                    assert(st * bsn + ct * bsn == (st + ct) * bsn) by (nonlinear_arith);
                    lemma_mul_succ(ct, bsn);
                    assert(r_before.spec_offset() + r_before.spec_data().len() == idx * bsn);
                    if ts && td {
                        lemma_overwrite_concat(w_before, r_before.spec_offset(), r_before.spec_data(), block);
                    }
                } else {
                    assert(range.spec_offset() == idx * bsn);
                }
                dirty = nd;
            }
            if collect_modified {
                modified.push(ModifiedBlock { index: idx, len: n, hash });
            }
            dirty_count = dirty_count + 1;
        }
        new_hashes.push(hash);
        total = total + n as u64;
        idx = idx + 1;
        proof {
            if ts {
                assert(src.remaining() =~= s.skip(total as int));
            }
        }
        if n < bs_usize {
            proof {
                if ts {
                    assert(src.remaining().len() == 0);
                }
                lemma_mul_succ((idx - 1) as nat, bsn);
            }
            break;
        }
    }
    match range.flush(dest) {
        Ok(()) => {},
        Err(e) => {
            return Err(e);
        },
    }
    proof {
        if ts {
            if total == idx * bsn && idx > 0 {
                lemma_mul_succ((idx - 1) as nat, bsn);
            }
        }
    }
    Ok(DeltaStream { total_bytes: total, new_hashes, modified, dirty_blocks_written: dirty_count })
}

/// Which of `n` written blocks are read back: none without verification or with metadata
/// checks only, all under full verification, and under sampling all of up to four blocks,
/// else the first, the ones at a third and two thirds, and the last.
pub open spec fn verification_sample(mode: VerificationMode, n: nat) -> Seq<nat> {
    match mode {
        VerificationMode::Disabled => Seq::empty(),
        VerificationMode::MetadataAndFlush => Seq::empty(),
        VerificationMode::Full => Seq::new(n, |i: int| i as nat),
        VerificationMode::Sampled => if n <= 4 {
            Seq::new(n, |i: int| i as nat)
        } else {
            seq![0nat, n / 3, (2 * n) / 3, (n - 1) as nat]
        },
    }
}

/// Which written blocks are read back: none without read-back, every one of the `n` in
/// order under full verification, and under sampling every one when there are at most four,
/// else four distinct ones including the first and the last; every index names a written
/// block.
pub proof fn lemma_verification_sample_covers(mode: VerificationMode, n: nat)
    ensures
        forall|k: int| 0 <= k < verification_sample(mode, n).len() ==> #[trigger] verification_sample(mode, n)[k] < n,
        (mode == VerificationMode::Disabled || mode == VerificationMode::MetadataAndFlush) ==> verification_sample(mode, n).len()
            == 0,
        mode == VerificationMode::Full ==> verification_sample(mode, n).len() == n && forall|k: int| 0 <= k < n
            ==> #[trigger] verification_sample(mode, n)[k] == k,
        mode == VerificationMode::Sampled && n <= 4 ==> verification_sample(mode, n).len() == n && forall|k: int| 0 <= k < n
            ==> #[trigger] verification_sample(mode, n)[k] == k,
        mode == VerificationMode::Sampled && n > 4 ==> verification_sample(mode, n).len() == 4 && verification_sample(mode, n)[0]
            == 0 && verification_sample(mode, n)[3] == n - 1 && forall|a: int, b: int| 0 <= a < b < 4
            ==> #[trigger] verification_sample(mode, n)[a] < #[trigger] verification_sample(mode, n)[b],
{
}

/// Exec form of [`verification_sample`].
pub fn select_verification_indices(mode: VerificationMode, n: usize) -> (r: Vec<usize>)
    requires
        2 * n <= usize::MAX,
    ensures
        r@.map_values(|i: usize| i as nat) == verification_sample(mode, n as nat),
{
    let mut out: Vec<usize> = Vec::new();
    match mode {
        VerificationMode::Disabled | VerificationMode::MetadataAndFlush => {},
        VerificationMode::Full => {
            let mut i: usize = 0;
            while i < n
                invariant
                    i <= n,
                    out@.len() == i,
                    forall|k: int| 0 <= k < i ==> out@[k] == k,
                decreases n - i,
            {
                out.push(i);
                i += 1;
            }
        },
        VerificationMode::Sampled => {
            if n <= 4 {
                let mut i: usize = 0;
                while i < n
                    invariant
                        i <= n,
                        out@.len() == i,
                        forall|k: int| 0 <= k < i ==> out@[k] == k,
                    decreases n - i,
                {
                    out.push(i);
                    i += 1;
                }
            } else {
                out.push(0);
                out.push(n / 3);
                out.push((2 * n) / 3);
                out.push(n - 1);
            }
        },
    }
    assert(out@.map_values(|i: usize| i as nat) =~= verification_sample(mode, n as nat));
    out
}

} // verus!
