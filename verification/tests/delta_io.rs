use syncdir::delta::{read_block, ByteCursor, ByteReader, DirtyBlockRange, DirtyRangePool, SeekWrite};
use syncdir::error::{IoErrorKind, SyncError};

#[test]
fn sync_test_read_block_fills_complete_buffer() {
    let data = vec![0xAB; 1024];
    let mut reader = ByteReader::with_chunk_size(data.clone(), 64);
    let mut buf = vec![0u8; 1024];
    let n = read_block(&mut reader, &mut buf).unwrap();
    assert_eq!(n, 1024);
    assert_eq!(buf, data);
}

#[test]
fn test_dirty_block_range_reset_on_flush_error() {
    let mut range = DirtyBlockRange::new(512);
    let mut cursor = ByteCursor::new();
    range.add_block(0, &[0xAA; 512], &mut cursor).unwrap();
    assert_eq!(range.block_count(), 1);
    assert_eq!(range.byte_len(), 512);

    // a sink that accepts no byte at all
    let mut failing = ByteCursor::with_size_limit(0);
    let res = range.flush(&mut failing);
    assert!(res.is_err());
    assert!(range.is_empty(), "DirtyBlockRange must be empty after flush error");
    assert_eq!(range.block_count(), 0);
    assert_eq!(range.byte_len(), 0);
}

#[test]
fn delta_size_limited_cursor_refuses_overflowing_writes() {
    let mut c = ByteCursor::with_size_limit(4);
    assert!(c.write_all_bytes(b"ab").is_ok());
    let e = c.write_all_bytes(b"cde").unwrap_err();
    assert!(matches!(e, SyncError::Io { kind: IoErrorKind::WriteZero, .. }));
    assert_eq!(c.get_ref(), &b"ab".to_vec());
    assert!(c.write_all_bytes(b"cd").is_ok());
    assert_eq!(c.into_inner(), b"abcd".to_vec());
}

#[test]
fn delta_chunked_reader_short_reads() {
    let mut reader = ByteReader::with_chunk_size((0u8..10).collect(), 3);
    let mut buf = vec![0u8; 4];
    assert_eq!(read_block(&mut reader, &mut buf).unwrap(), 4);
    assert_eq!(buf, vec![0, 1, 2, 3]);
    assert_eq!(read_block(&mut reader, &mut buf).unwrap(), 4);
    assert_eq!(buf, vec![4, 5, 6, 7]);
    assert_eq!(read_block(&mut reader, &mut buf).unwrap(), 2);
    assert_eq!(&buf[..2], &[8, 9]);
}

#[test]
fn test_local_sync_engine_dirty_range_buffer_reuse() {
    let mut pool = DirtyRangePool::new(4);
    assert_eq!(pool.pooled_capacity(), 0);
    let mut range = pool.acquire();
    assert!(range.is_empty());
    assert_eq!(range.block_size(), 4);
    let mut cursor = ByteCursor::new();
    for i in 0..8 {
        range.add_block(i, b"ABCD", &mut cursor).unwrap();
    }
    let cap = range.capacity();
    assert!(cap >= 32);
    pool.release(range);
    assert_eq!(pool.pooled_capacity(), cap);
    let again = pool.acquire();
    assert!(again.is_empty());
    assert_eq!(again.capacity(), cap);
    assert_eq!(pool.pooled_capacity(), 0);
    // a smaller buffer does not displace a larger pooled one
    pool.release(again);
    pool.release(DirtyBlockRange::new(4));
    assert_eq!(pool.pooled_capacity(), cap);
}
