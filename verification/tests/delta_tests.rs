use syncdir::config::VerificationMode;
use syncdir::delta::{
    read_block, select_verification_indices, stream_delta_blocks, ByteCursor, ByteReader, DirtyBlockRange,
    SeekWrite,
};
use syncdir::error::SyncError;

#[test]
fn delta_test_read_block_fills_complete_buffer() {
    let data = vec![0xABu8; 1024];
    let mut reader = ByteReader::new(data.clone());
    let mut buf = vec![0u8; 1024];
    let n = read_block(&mut reader, &mut buf).unwrap();
    assert_eq!(n, 1024);
    assert_eq!(buf, data);
}

#[test]
fn delta_test_dirty_block_range_coalescing() {
    let mut cursor = ByteCursor::new();
    let mut range = DirtyBlockRange::new(4);

    range.add_block(0, b"AAAA", &mut cursor).unwrap();
    assert_eq!(range.block_count(), 1);
    assert_eq!(range.start_block(), 0);

    range.add_block(1, b"BBBB", &mut cursor).unwrap();
    assert_eq!(range.block_count(), 2);
    assert_eq!(range.start_block(), 0);

    range.add_block(4, b"EEEE", &mut cursor).unwrap();
    assert_eq!(range.block_count(), 1);
    assert_eq!(range.start_block(), 4);

    range.flush(&mut cursor).unwrap();
    assert_eq!(range.block_count(), 0);

    let data = cursor.into_inner();
    assert_eq!(&data[0..8], b"AAAABBBB");
    assert_eq!(&data[16..20], b"EEEE");
}

#[test]
fn sync_test_dirty_block_range_coalescing() {
    let mut cursor = ByteCursor::new();
    cursor.write_all_bytes(&[0u8; 32]).unwrap();
    cursor.seek_to(0).unwrap();
    let mut range = DirtyBlockRange::new(4);

    range.add_block(0, b"AAAA", &mut cursor).unwrap();
    assert_eq!(range.block_count(), 1);
    assert_eq!(range.start_block(), 0);

    range.add_block(1, b"BBBB", &mut cursor).unwrap();
    assert_eq!(range.block_count(), 2);
    assert_eq!(range.start_block(), 0);

    range.add_block(4, b"EEEE", &mut cursor).unwrap();
    assert_eq!(range.block_count(), 1);
    assert_eq!(range.start_block(), 4);

    range.flush(&mut cursor).unwrap();
    assert_eq!(range.block_count(), 0);

    let data = cursor.into_inner();
    assert_eq!(&data[0..8], b"AAAABBBB");
    assert_eq!(&data[8..16], &[0u8; 8]);
    assert_eq!(&data[16..20], b"EEEE");
}

#[test]
fn delta_test_dirty_block_range_new_getters() {
    let range = DirtyBlockRange::new(1024);
    assert_eq!(range.block_size(), 1024);
    assert_eq!(range.start_block(), 0);
    assert_eq!(range.end_block(), 0);
    assert_eq!(range.block_count(), 0);
    assert!(range.is_empty());
    assert_eq!(range.byte_len(), 0);
    assert_eq!(range.data(), &[] as &[u8]);
}

#[test]
fn sync_test_dirty_block_range_new_getters() {
    let mut cursor = ByteCursor::new();
    let mut range = DirtyBlockRange::new(512);

    assert_eq!(range.block_size(), 512);
    assert_eq!(range.start_block(), 0);
    assert_eq!(range.end_block(), 0);
    assert!(range.is_empty());
    assert_eq!(range.byte_len(), 0);
    assert!(range.data().is_empty());

    let block = vec![0xEE; 512];
    range.add_block(3, &block, &mut cursor).unwrap();

    assert_eq!(range.start_block(), 3);
    assert_eq!(range.end_block(), 4);
    assert_eq!(range.block_count(), 1);
    assert!(!range.is_empty());
    assert_eq!(range.byte_len(), 512);
    assert_eq!(range.data().len(), 512);

    range.add_block(4, &block, &mut cursor).unwrap();
    assert_eq!(range.start_block(), 3);
    assert_eq!(range.end_block(), 5);
    assert_eq!(range.block_count(), 2);
    assert_eq!(range.byte_len(), 1024);
    assert_eq!(range.data().len(), 1024);
}

#[test]
fn test_dirty_block_range_rejects_zero() {
    assert!(matches!(
        DirtyBlockRange::try_new(0),
        Err(SyncError::Validation { ref message, .. }) if message.contains("greater than zero")
    ));
    assert!(DirtyBlockRange::try_new(65536).is_ok());

    assert!(matches!(DirtyBlockRange::try_from(0u64), Err(SyncError::Validation { .. })));
    assert!(DirtyBlockRange::try_from(65536u64).is_ok());
}

#[test]
fn test_dirty_block_range_try_new_rejects_zero() {
    assert!(DirtyBlockRange::try_new(0).is_err());
}

#[test]
fn delta_test_dirty_block_range_buffer_reuse_preserves_capacity() {
    let mut range = DirtyBlockRange::new(4);
    let mut cursor = ByteCursor::new();

    range.add_block(0, b"AAAA", &mut cursor).unwrap();
    range.add_block(1, b"BBBB", &mut cursor).unwrap();
    assert_eq!(range.byte_len(), 8);
    let cap_before = range.capacity();
    assert!(cap_before >= 8);

    range.reset();
    assert_eq!(range.block_count(), 0);
    assert_eq!(range.start_block(), 0);
    assert_eq!(range.byte_len(), 0);
    assert!(range.is_empty());
    assert_eq!(range.capacity(), cap_before, "reset() must preserve allocated buffer capacity");
}

#[test]
fn sync_test_dirty_block_range_buffer_reuse_preserves_capacity() {
    let mut cursor = ByteCursor::new();
    let mut range = DirtyBlockRange::new(1024);

    for i in 0..8 {
        range.add_block(i, &vec![0xAA; 1024], &mut cursor).unwrap();
    }
    assert_eq!(range.byte_len(), 8192);
    assert_eq!(range.block_count(), 8);

    let cap_before = range.capacity();
    assert!(cap_before >= 8192, "Initial capacity must be at least 8KB");

    range.reset();

    assert_eq!(range.byte_len(), 0);
    assert_eq!(range.block_count(), 0);
    assert_eq!(range.start_block(), 0);
    assert_eq!(range.end_block(), 0);
    assert!(range.is_empty());
    assert_eq!(range.capacity(), cap_before, "Buffer capacity must be preserved across reset() calls");
}

fn blocks_of(data: &[u8], bs: usize) -> Vec<[u8; 32]> {
    data.chunks(bs).map(|c| *blake3::hash(c).as_bytes()).collect()
}

#[test]
fn delta_stream_writes_only_changed_blocks() {
    let src = b"AAAABBBBCCCC".to_vec();
    let old = b"AAAAXXXXCCCC".to_vec();
    let mut dest = ByteCursor::new();
    dest.write_all_bytes(&old).unwrap();
    dest.seek_to(0).unwrap();
    let cached = blocks_of(&old, 4);
    let mut reader = ByteReader::new(src.clone());
    let mut range = DirtyBlockRange::new(4);
    let mut scratch = vec![0u8; 4];
    let out = stream_delta_blocks(&mut reader, &mut dest, &cached, old.len() as u64, true, &mut range, &mut scratch)
        .unwrap();
    assert_eq!(out.total_bytes, 12);
    assert_eq!(out.dirty_blocks_written, 1);
    assert_eq!(out.modified.len(), 1);
    assert_eq!(out.modified[0].index, 1);
    assert_eq!(out.modified[0].len, 4);
    assert_eq!(out.modified[0].hash, *blake3::hash(b"BBBB").as_bytes());
    assert_eq!(out.new_hashes, blocks_of(&src, 4));
    assert_eq!(dest.into_inner(), src);
}

#[test]
fn delta_stream_extends_a_shorter_destination() {
    let src = b"AAAABBBBCC".to_vec();
    let old = b"AAAA".to_vec();
    let mut dest = ByteCursor::new();
    dest.write_all_bytes(&old).unwrap();
    dest.seek_to(0).unwrap();
    let cached = blocks_of(&old, 4);
    let mut reader = ByteReader::new(src.clone());
    let mut range = DirtyBlockRange::new(4);
    let mut scratch = vec![0u8; 4];
    let out = stream_delta_blocks(&mut reader, &mut dest, &cached, old.len() as u64, false, &mut range, &mut scratch)
        .unwrap();
    assert_eq!(out.dirty_blocks_written, 2);
    assert!(out.modified.is_empty());
    assert_eq!(dest.into_inner(), src);
    assert!(range.is_empty());
}

#[test]
fn delta_stream_without_cache_rewrites_everything() {
    let src: Vec<u8> = (0u8..20).collect();
    let mut dest = ByteCursor::new();
    let mut reader = ByteReader::new(src.clone());
    let mut range = DirtyBlockRange::new(8);
    let mut scratch = vec![0u8; 8];
    let out = stream_delta_blocks(&mut reader, &mut dest, &Vec::new(), 0, false, &mut range, &mut scratch).unwrap();
    assert_eq!(out.total_bytes, 20);
    assert_eq!(out.dirty_blocks_written, 3);
    assert_eq!(out.new_hashes.len(), 3);
    assert_eq!(dest.into_inner(), src);
}

#[test]
fn delta_verification_sample_indices() {
    assert!(select_verification_indices(VerificationMode::Disabled, 10).is_empty());
    assert!(select_verification_indices(VerificationMode::MetadataAndFlush, 10).is_empty());
    assert_eq!(select_verification_indices(VerificationMode::Full, 3), vec![0, 1, 2]);
    assert_eq!(select_verification_indices(VerificationMode::Sampled, 4), vec![0, 1, 2, 3]);
    assert_eq!(select_verification_indices(VerificationMode::Sampled, 9), vec![0, 3, 6, 8]);
}

#[test]
fn delta_read_block_stops_at_end_of_source() {
    let mut reader = ByteReader::new(vec![1, 2, 3]);
    let mut buf = vec![9u8; 5];
    let n = read_block(&mut reader, &mut buf).unwrap();
    assert_eq!(n, 3);
    assert_eq!(buf, vec![1, 2, 3, 9, 9]);
    let n2 = read_block(&mut reader, &mut buf).unwrap();
    assert_eq!(n2, 0);
}

#[test]
fn delta_flush_with_nothing_buffered_writes_nothing() {
    let mut range = DirtyBlockRange::new(8);
    let mut cursor = ByteCursor::new();
    assert!(range.flush(&mut cursor).is_ok());
    assert_eq!(range.byte_len(), 0);
    assert_eq!(range.block_count(), 0);
}
