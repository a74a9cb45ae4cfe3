use syncdir::copy::{check_staged_digest, stream_copy_with_digest, stream_digest};
use syncdir::delta::{ByteCursor, ByteReader};
use syncdir::error::SyncError;

#[test]
fn copy_streams_source_and_digest() {
    let data: Vec<u8> = (0..10_000u32).map(|i| (i % 251) as u8).collect();
    let mut src = ByteReader::with_chunk_size(data.clone(), 777);
    let mut dest = ByteCursor::new();
    let mut chunk = vec![0u8; 4096];
    let (n, digest) = stream_copy_with_digest(&mut src, &mut dest, &mut chunk).unwrap();
    assert_eq!(n, 10_000);
    assert_eq!(&digest, blake3::hash(&data).as_bytes());
    assert_eq!(dest.get_ref(), &data);
    let mut back = ByteReader::new(dest.into_inner());
    let (m, d2) = stream_digest(&mut back, &mut chunk).unwrap();
    assert_eq!(m, 10_000);
    assert_eq!(d2, digest);
}

#[test]
fn copy_of_empty_source() {
    let mut src = ByteReader::new(Vec::new());
    let mut dest = ByteCursor::new();
    let mut chunk = vec![0u8; 16];
    let (n, digest) = stream_copy_with_digest(&mut src, &mut dest, &mut chunk).unwrap();
    assert_eq!(n, 0);
    assert_eq!(&digest, blake3::hash(b"").as_bytes());
    assert!(dest.get_ref().is_empty());
}

#[test]
fn copy_refused_by_a_full_sink() {
    let mut src = ByteReader::new(vec![1u8; 100]);
    let mut dest = ByteCursor::with_size_limit(50);
    let mut chunk = vec![0u8; 64];
    assert!(stream_copy_with_digest(&mut src, &mut dest, &mut chunk).is_err());
}

#[test]
fn staged_digest_check() {
    let a = *blake3::hash(b"abc").as_bytes();
    let b = *blake3::hash(b"abd").as_bytes();
    assert!(check_staged_digest("d/f.txt", &a, &a).is_ok());
    match check_staged_digest("d/f.txt", &a, &b) {
        Err(SyncError::WriteVerificationFailed { path, block }) => {
            assert_eq!(path, "d/f.txt");
            assert_eq!(block, None);
        }
        other => panic!("unexpected {:?}", other),
    }
}
