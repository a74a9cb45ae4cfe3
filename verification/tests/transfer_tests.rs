use syncdir::config::VerificationMode;
use syncdir::error::SyncError;
use syncdir::transfer::{
    check_destination_holds, check_final_length, check_source_unchanged, delta_flushes, file_name, splitmix64,
    staging_check, staging_file_name, transferred_record, verify_block_bytes, StagingCheck,
};
use syncdir::types::RelativePath;

#[test]
fn transfer_splitmix64_known_values() {
    assert_eq!(splitmix64(0), 0xE220A8397B1DCDAF);
    assert_ne!(splitmix64(1), splitmix64(2));
}

#[test]
fn transfer_staging_names() {
    assert_eq!(staging_file_name("D:/dst/docs/a.txt", 0xff), "a.txt.00000000000000ff.syncdir_tmp");
    assert_eq!(staging_file_name("a.txt", u64::MAX), "a.txt.ffffffffffffffff.syncdir_tmp");
    assert_eq!(file_name("D:\\dst\\b.bin"), "b.bin");
    assert_eq!(file_name("/"), "");
    assert_eq!(file_name("a/.."), "");
    assert_eq!(file_name(""), "");
}

#[test]
fn transfer_source_change_is_detected() {
    assert!(check_source_unchanged("d", 10, 10, 5, 5).is_ok());
    assert!(matches!(
        check_source_unchanged("d", 10, 11, 5, 5),
        Err(SyncError::WriteVerificationFailed { ref path, block: None }) if path == "d"
    ));
    assert!(check_source_unchanged("d", 10, 10, 6, 5).is_err());
}

#[test]
fn transfer_destination_length_checks() {
    assert!(check_destination_holds("d", 12, 10).is_ok());
    assert!(check_destination_holds("d", 9, 10).is_err());
    assert!(check_final_length("d", 10, 10).is_ok());
    assert!(check_final_length("d", 12, 10).is_err());
}

#[test]
fn transfer_block_read_back_is_checked_against_its_digest() {
    let digest = *blake3::hash(b"abcd").as_bytes();
    assert!(verify_block_bytes("d", 3, &digest, b"abcd", 4).is_ok());
    assert!(matches!(
        verify_block_bytes("d", 3, &digest, b"abcx", 4),
        Err(SyncError::WriteVerificationFailed { block: Some(3), .. })
    ));
    assert!(verify_block_bytes("d", 3, &digest, b"abc", 4).is_err());
}

#[test]
fn transfer_verification_modes() {
    assert_eq!(staging_check(VerificationMode::Disabled), StagingCheck::Skip);
    assert_eq!(staging_check(VerificationMode::MetadataAndFlush), StagingCheck::LengthAndFlush);
    assert_eq!(staging_check(VerificationMode::Sampled), StagingCheck::LengthAndFlush);
    assert_eq!(staging_check(VerificationMode::Full), StagingCheck::FullDigest);
    assert!(!delta_flushes(VerificationMode::Disabled));
    assert!(delta_flushes(VerificationMode::Sampled));
}

#[test]
fn transfer_record_after_copy() {
    let rel = RelativePath::try_new("docs/a.txt").unwrap();
    let rec = transferred_record(&rel, 42, 1_700_000_000_000, Some(7)).unwrap();
    assert_eq!(rec.id, Some(7));
    assert_eq!(rec.relative_path, "docs/a.txt");
    assert_eq!(rec.file_size, 42);
    assert_eq!(rec.last_modified, 1_700_000_000_000);
    assert!(transferred_record(&rel, u64::MAX, 0, None).is_err());
}
