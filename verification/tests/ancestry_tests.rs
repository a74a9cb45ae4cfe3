use std::cell::RefCell;
use std::collections::HashMap;
use syncdir::ancestry::{verify_destination_not_reparse_cached, verify_source_not_reparse_cached, PathKind, PathProbe};
use syncdir::error::{SyncError, ValidationKind};
use syncdir::reparse::ReparseCache;

struct FakeDisk {
    kinds: HashMap<String, PathKind>,
    probes: RefCell<Vec<String>>,
}

impl FakeDisk {
    fn new(entries: &[(&str, PathKind)]) -> Self {
        FakeDisk {
            kinds: entries.iter().map(|(p, k)| (p.to_string(), *k)).collect(),
            probes: RefCell::new(Vec::new()),
        }
    }
}

impl PathProbe for FakeDisk {
    fn probe(&self, path: &str) -> PathKind {
        self.probes.borrow_mut().push(path.to_string());
        *self.kinds.get(path).unwrap_or(&PathKind::Missing)
    }
}

#[test]
fn test_verify_destination_not_reparse_cached_no_io_on_cached_ancestors() {
    let disk = FakeDisk::new(&[
        ("C:/dest", PathKind::Directory),
        ("C:/dest/a", PathKind::Directory),
        ("C:/dest/a/b", PathKind::Directory),
        ("C:/dest/a/b/f.txt", PathKind::Other),
    ]);
    let mut cache = ReparseCache::new(100, 100);
    assert_eq!(verify_destination_not_reparse_cached("C:/dest", "a/b/f.txt", &mut cache, &disk).unwrap(), PathKind::Other);
    assert!(cache.contains("C:/dest"));
    assert!(cache.contains("C:/dest/a"));
    assert!(cache.contains("C:/dest/a/b"));
    assert!(!cache.contains("C:/dest/a/b/f.txt"));
    let first = disk.probes.borrow().len();
    assert_eq!(first, 4);
    // second walk: only the leaf is looked at again
    assert_eq!(verify_destination_not_reparse_cached("C:/dest", "a/b/f.txt", &mut cache, &disk).unwrap(), PathKind::Other);
    assert_eq!(disk.probes.borrow().len(), first + 1);
}

#[test]
fn ancestry_link_on_the_way_is_refused() {
    let disk = FakeDisk::new(&[
        ("C:/dest", PathKind::Directory),
        ("C:/dest/sub_junction", PathKind::Link),
    ]);
    let mut cache = ReparseCache::new(100, 100);
    let r = verify_destination_not_reparse_cached("C:/dest", "sub_junction/nested/file.txt", &mut cache, &disk);
    assert!(matches!(r, Err(SyncError::Validation { kind: ValidationKind::ReparsePoint, .. })));
    assert!(cache.contains("C:/dest"));
    assert!(!cache.contains("C:/dest/sub_junction"));
}

#[test]
fn ancestry_link_root_is_refused() {
    let disk = FakeDisk::new(&[("C:/dest", PathKind::Link)]);
    let mut cache = ReparseCache::new(100, 100);
    assert!(verify_destination_not_reparse_cached("C:/dest", "f.txt", &mut cache, &disk).is_err());
    assert!(cache.is_empty());
}

#[test]
fn ancestry_missing_directories_are_not_cached() {
    let disk = FakeDisk::new(&[("C:/dest", PathKind::Directory)]);
    let mut cache = ReparseCache::new(100, 100);
    assert_eq!(verify_destination_not_reparse_cached("C:/dest", "sub/dir/nested/file.txt", &mut cache, &disk).unwrap(), PathKind::Missing);
    assert_eq!(cache.len(), 1);
    assert_eq!(verify_destination_not_reparse_cached("C:/dest", "", &mut cache, &disk).unwrap(), PathKind::Missing);
}

#[test]
fn ancestry_source_checks_directories_but_not_the_file() {
    let disk = FakeDisk::new(&[
        ("C:/src", PathKind::Directory),
        ("C:/src/a", PathKind::Directory),
        ("C:/src/a/f.txt", PathKind::Link),
    ]);
    let mut cache = ReparseCache::new(100, 100);
    assert!(verify_source_not_reparse_cached("C:/src", "a/f.txt", &mut cache, &disk).is_ok());
    assert_eq!(*disk.probes.borrow(), vec!["C:/src".to_string(), "C:/src/a".to_string()]);
    assert!(cache.contains("C:/src/a"));
    // everything on the way is cached now: no further probing
    assert!(verify_source_not_reparse_cached("C:/src", "a/f.txt", &mut cache, &disk).is_ok());
    assert_eq!(disk.probes.borrow().len(), 2);
}

#[test]
fn ancestry_reparse_errors_are_permanent_validation() {
    let disk = FakeDisk::new(&[
        ("C:/link_dir", PathKind::Link),
        ("C:/valid_dest", PathKind::Directory),
        ("C:/valid_dest/junction_comp", PathKind::Link),
        ("C:/valid_src", PathKind::Directory),
        ("C:/valid_src/src_junction", PathKind::Link),
    ]);
    let mut cache = ReparseCache::new(100, 100);
    let root = verify_destination_not_reparse_cached("C:/link_dir", "sub/file.txt", &mut cache, &disk).unwrap_err();
    assert!(root.is_permanent_validation_failure());
    let comp = verify_destination_not_reparse_cached("C:/valid_dest", "junction_comp/file.txt", &mut cache, &disk).unwrap_err();
    assert!(comp.is_permanent_validation_failure());
    let src = verify_source_not_reparse_cached("C:/valid_src", "src_junction/file.txt", &mut cache, &disk).unwrap_err();
    assert!(src.is_permanent_validation_failure());
    assert!(matches!(src, SyncError::Validation { kind: ValidationKind::ReparsePoint, .. }));
    let src_root = verify_source_not_reparse_cached("C:/link_dir", "file.txt", &mut cache, &disk).unwrap_err();
    assert!(src_root.is_permanent_validation_failure());
}

#[test]
fn ancestry_clean_directories_on_the_walk_are_cached() {
    let disk = FakeDisk::new(&[
        ("C:/dest", PathKind::Directory),
        ("C:/dest/sub", PathKind::Directory),
        ("C:/dest/sub/nested", PathKind::Directory),
    ]);
    let mut cache = ReparseCache::new(100, 100);
    assert_eq!(verify_destination_not_reparse_cached("C:/dest", "sub/nested/test.txt", &mut cache, &disk).unwrap(), PathKind::Missing);
    assert!(cache.contains("C:/dest"));
    assert!(cache.contains("C:/dest/sub"));
    assert!(cache.contains("C:/dest/sub/nested"));
    assert!(!cache.contains("C:/dest/sub/nested/test.txt"));
}
