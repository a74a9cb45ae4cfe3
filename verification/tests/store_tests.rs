use syncdir::store::MockHashStore;
use syncdir::types::FileRecord;

#[test]
fn test_mock_hash_store_export_and_initialization() {
    let store = MockHashStore::new();
    let files = store.list_files().expect("mock store list files");
    assert!(files.is_empty());
}

#[test]
fn store_hands_out_row_ids_and_keeps_given_ones() {
    let mut store = MockHashStore::new();
    store.save_file(&FileRecord::new("a.txt", 10, 1000), &[[1u8; 32]]).unwrap();
    store.save_file(&FileRecord::new("b.txt", 20, 2000).with_id(42), &[]).unwrap();
    store.save_file(&FileRecord::new("c.txt", 30, 3000), &[[2u8; 32], [3u8; 32]]).unwrap();
    assert_eq!(store.get_file("a.txt").unwrap().id, Some(1));
    assert_eq!(store.get_file("b.txt").unwrap().id, Some(42));
    assert_eq!(store.get_file("c.txt").unwrap().id, Some(2));
    assert_eq!(store.get_block_hashes("c.txt"), vec![[2u8; 32], [3u8; 32]]);
    let mut paths: Vec<String> = store.list_files().unwrap().into_iter().map(|r| r.relative_path).collect();
    paths.sort();
    assert_eq!(paths, vec!["a.txt", "b.txt", "c.txt"]);
}

#[test]
fn store_replaces_and_forgets_records() {
    let mut store = MockHashStore::new();
    store.save_file(&FileRecord::new("a.txt", 10, 1000).with_id(7), &[[1u8; 32]]).unwrap();
    store.save_file(&FileRecord::new("a.txt", 11, 1100).with_id(7), &[[9u8; 32]]).unwrap();
    let rec = store.get_file("a.txt").unwrap();
    assert_eq!((rec.file_size, rec.last_modified), (11, 1100));
    assert_eq!(store.get_block_hashes("a.txt"), vec![[9u8; 32]]);
    assert_eq!(store.list_files().unwrap().len(), 1);
    store.delete_file("a.txt");
    assert!(store.get_file("a.txt").is_none());
    assert!(store.get_block_hashes("a.txt").is_empty());
    assert!(store.list_files().unwrap().is_empty());
    store.delete_file("missing.txt");
    assert!(matches!(store.save_file(&FileRecord::new("x", 1, 1), &[]), Ok(())));
}
