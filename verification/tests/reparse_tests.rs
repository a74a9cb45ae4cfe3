use syncdir::reparse::ReparseCache;

#[test]
fn test_reparse_cache_shallow_retained_and_deep_evicted() {
    let mut cache = ReparseCache::new(50_000, 10_000);
    let root = "C:/dest";
    let shallow = "C:/dest/a/b/c";
    let deep = "C:/dest/a/b/c/d/e";

    cache.insert_ancestor(root, shallow);
    cache.insert_ancestor(root, deep);

    assert_eq!(cache.shallow_len(), 1);
    assert_eq!(cache.deep_len(), 1);
    assert!(cache.contains(shallow));
    assert!(cache.contains(deep));
}

#[test]
fn test_reparse_cache_eviction_bounded_capacity() {
    let mut cache = ReparseCache::new(2, 2);
    let root = "C:/dest";
    let d1 = "C:/dest/a/b/c/d/1";
    let d2 = "C:/dest/a/b/c/d/2";
    cache.insert_ancestor(root, d1);
    cache.insert_ancestor(root, d2);
    assert_eq!(cache.deep_len(), 2);
    assert!(cache.contains(d1));
    assert!(cache.contains(d2));

    let d3 = "C:/dest/a/b/c/d/3";
    cache.insert_ancestor(root, d3);
    assert_eq!(cache.deep_len(), 1);
    assert!(cache.contains(d3));
    assert!(!cache.contains(d1), "Older deep entry d1 must be evicted");
    assert!(!cache.contains(d2), "Older deep entry d2 must be evicted");
}

#[test]
fn reparse_cache_matches_paths_by_components() {
    let mut cache = ReparseCache::new(10, 10);
    cache.insert_ancestor("C:/dest", "C:\\dest\\a");
    assert!(cache.contains("C:/dest/a"));
    assert!(cache.contains("C:/dest//a/"));
    assert!(cache.contains("C:/dest/./a"));
    assert!(!cache.contains("C:/dest/A"));
    assert_eq!(cache.len(), 1);
    assert!(!cache.is_empty());
}

#[test]
fn reparse_cache_evict_dir_removes_subtree_only() {
    let mut cache = ReparseCache::new(10, 10);
    let root = "C:/dest";
    cache.insert_ancestor(root, "C:/dest/a");
    cache.insert_ancestor(root, "C:/dest/a/b");
    cache.insert_ancestor(root, "C:/dest/a/b/c/d/e");
    cache.insert_ancestor(root, "C:/dest/ab");
    assert_eq!(cache.len(), 4);
    cache.evict_dir("C:/dest/a");
    assert!(!cache.contains("C:/dest/a"));
    assert!(!cache.contains("C:/dest/a/b"));
    assert!(!cache.contains("C:/dest/a/b/c/d/e"));
    assert!(cache.contains("C:/dest/ab"));
    cache.evict_parent_of("C:/dest/ab/file.txt");
    assert!(!cache.contains("C:/dest/ab"));
    cache.insert_ancestor(root, "C:/dest/x");
    cache.clear();
    assert!(cache.is_empty());
}

#[test]
fn reparse_cache_entry_outside_root_goes_to_shallow_tier() {
    let mut cache = ReparseCache::new(10, 10);
    cache.insert_ancestor("C:/dest", "D:/elsewhere/a/b/c/d/e");
    assert_eq!(cache.shallow_len(), 1);
    assert_eq!(cache.deep_len(), 0);
    cache.insert_ancestor("C:/dest", "D:/elsewhere/a/b/c/d/e");
    assert_eq!(cache.shallow_len(), 1);
}
