use syncdir::archive::{
    archive_dir, archive_entry_expired, archive_entry_time, archive_max_age_ms, archive_scan_continues,
    archive_token, archive_token_with_counter, get_archive_path, inherited_archive_time, oldest_first,
    parse_archive_timestamp, ArchiveCandidate, ArchivePruner, MAX_ARCHIVE_PRUNE_CANDIDATES,
};

const DAY: u64 = 86_400_000;

#[test]
fn test_archive_manager_standalone() {
    let p = get_archive_path("dest", "sub/doc.txt", "20260910");
    assert_eq!(p, "dest/.syncdir_archive/20260910_sub/doc.txt");
}

#[test]
fn archive_path_of_single_component_and_empty_path() {
    assert_eq!(get_archive_path("D:/dst", "victim.txt", "1700000000000_0001"), "D:/dst/.syncdir_archive/1700000000000_0001_victim.txt");
    assert_eq!(get_archive_path("D:/dst/", "a\\b\\c.txt", "T"), "D:/dst/.syncdir_archive/T_a/b/c.txt");
    assert_eq!(get_archive_path("D:/dst", "", "T"), "D:/dst/.syncdir_archive");
    assert_eq!(archive_dir("D:/dst"), "D:/dst/.syncdir_archive");
}

#[test]
fn archive_token_format() {
    assert_eq!(archive_token(1_726_000_000_123, 7), "1726000000123_0007");
    assert_eq!(archive_token(1_726_000_000_123, 12_345), "1726000000123_2345");
    assert_eq!(archive_token_with_counter("1726000000123_0007", 3), "1726000000123_0007_3");
    let name = format!("{}_{}", archive_token(1_726_000_000_123, 42), "file.txt");
    let parts: Vec<&str> = name.split('_').collect();
    assert_eq!(parts[1].len(), 4);
    assert!(parts[1].chars().all(|c| c.is_ascii_digit()));
}

#[test]
fn archive_timestamp_parsing() {
    assert_eq!(parse_archive_timestamp("1726000000000_0001_file.txt"), Some(1_726_000_000_000));
    assert_eq!(parse_archive_timestamp("1726000000000"), Some(1_726_000_000_000));
    assert_eq!(parse_archive_timestamp("+1726000000000_x"), Some(1_726_000_000_000));
    assert_eq!(parse_archive_timestamp("999999999999_file"), None);
    assert_eq!(parse_archive_timestamp("old.txt"), None);
    assert_eq!(parse_archive_timestamp("_1726000000000"), None);
    assert_eq!(parse_archive_timestamp("+"), None);
    assert_eq!(parse_archive_timestamp("-1726000000000"), None);
    assert_eq!(parse_archive_timestamp("99999999999999999999_x"), None);
    assert_eq!(parse_archive_timestamp("18446744073709551615"), Some(u64::MAX));
}

#[test]
fn archive_name_written_is_read_back() {
    let token = archive_token(1_726_000_000_000, 2);
    let name = format!("{}_nested_folder", token);
    assert_eq!(parse_archive_timestamp(&name), Some(1_726_000_000_000));
}

#[test]
fn archive_entry_dating_prefers_name_then_parent_then_mtime() {
    assert_eq!(archive_entry_time(Some(5), Some(6), Some(7)), 5);
    assert_eq!(archive_entry_time(None, Some(6), Some(7)), 6);
    assert_eq!(archive_entry_time(None, None, Some(7)), 7);
    assert_eq!(archive_entry_time(None, None, None), 0);
    assert_eq!(inherited_archive_time(Some(1), Some(2)), Some(1));
    assert_eq!(inherited_archive_time(None, Some(2)), Some(2));
    assert_eq!(inherited_archive_time(None, None), None);
}

#[test]
fn archive_scan_limits() {
    assert_eq!(MAX_ARCHIVE_PRUNE_CANDIDATES, 5000);
    assert!(archive_scan_continues(0, 0));
    assert!(archive_scan_continues(32, 4999));
    assert!(!archive_scan_continues(33, 0));
    assert!(!archive_scan_continues(0, 5000));
}

#[test]
fn archive_expiry() {
    assert_eq!(archive_max_age_ms(30), 30 * DAY);
    assert_eq!(archive_max_age_ms(u64::MAX), u64::MAX);
    let c = ArchiveCandidate { len: 1, time_ms: 1000 };
    assert!(archive_entry_expired(c, 1000 + 30 * DAY + 1, 30 * DAY));
    assert!(!archive_entry_expired(c, 1000 + 30 * DAY, 30 * DAY));
    assert!(!archive_entry_expired(c, 10, 0));
}

#[test]
fn archive_oldest_first_is_stable() {
    let cands = vec![
        ArchiveCandidate { len: 1, time_ms: 30 },
        ArchiveCandidate { len: 1, time_ms: 10 },
        ArchiveCandidate { len: 1, time_ms: 30 },
        ArchiveCandidate { len: 1, time_ms: 20 },
    ];
    assert_eq!(oldest_first(&cands, &vec![true, true, true, true]), vec![1, 3, 0, 2]);
    assert_eq!(oldest_first(&cands, &vec![true, false, true, false]), vec![0, 2]);
}

fn run_pass(p: &mut ArchivePruner, fail: &[usize]) -> Vec<usize> {
    let mut removed = Vec::new();
    let mut last = false;
    while let Some(i) = p.next_removal(last) {
        last = !fail.contains(&i);
        if last {
            removed.push(i);
        }
    }
    removed
}

#[test]
fn test_prune_archive_retention() {
    // old.txt (100 bytes) and new.txt (200 bytes), limit 150: the older one goes first,
    // then the other, until the archive fits.
    let now = 1_800_000_000_000;
    let cands = vec![ArchiveCandidate { len: 100, time_ms: now - 2000 }, ArchiveCandidate { len: 200, time_ms: now - 1000 }];
    let mut p = ArchivePruner::new(cands, now, 365, 150);
    let removed = run_pass(&mut p, &[]);
    assert_eq!(removed, vec![0, 1]);
    assert!(p.total_bytes() <= 150);
}

#[test]
fn test_archive_manager_prune_bounded_candidate_limit() {
    let now = 1_800_000_000_000;
    let cands: Vec<ArchiveCandidate> =
        (0..10).map(|i| ArchiveCandidate { len: 5, time_ms: 1_726_000_000_000 + i }).collect();
    let mut p = ArchivePruner::new(cands, now, 0, 0);
    let removed = run_pass(&mut p, &[]);
    assert_eq!(removed.len(), 10);
    assert_eq!(p.total_bytes(), 0);
}

#[test]
fn test_prune_archive_preserves_newly_archived_old_files() {
    // the file's name carries a recent date even though its content is old
    let now = 1_800_000_000_000;
    let name_date = parse_archive_timestamp(&format!("{}_0001_test_old_file.txt", now - 1000)).unwrap();
    let t = archive_entry_time(Some(name_date), None, Some(now - 60 * DAY));
    let mut p = ArchivePruner::new(vec![ArchiveCandidate { len: 7, time_ms: t }], now, 30, 10_000_000);
    assert!(run_pass(&mut p, &[]).is_empty());
}

#[test]
fn test_prune_archive_nested_directory_timestamp_inheritance() {
    let now = 1_800_000_000_000;
    let dir_date = parse_archive_timestamp(&format!("{}_0002_nested_folder", now - 1000));
    let inherited = inherited_archive_time(parse_archive_timestamp("subdir"), dir_date);
    let t = archive_entry_time(parse_archive_timestamp("deep_file.txt"), inherited, Some(now - 60 * DAY));
    let mut p = ArchivePruner::new(vec![ArchiveCandidate { len: 12, time_ms: t }], now, 30, 10_000_000);
    assert!(run_pass(&mut p, &[]).is_empty());
}

#[test]
fn archive_prune_age_then_size_with_failures() {
    let now = 100 * DAY;
    let cands = vec![
        ArchiveCandidate { len: 10, time_ms: now - 40 * DAY }, // expired
        ArchiveCandidate { len: 10, time_ms: now - 5 * DAY },
        ArchiveCandidate { len: 10, time_ms: now - 50 * DAY }, // expired, removal fails
        ArchiveCandidate { len: 10, time_ms: now - 6 * DAY },
        ArchiveCandidate { len: 10, time_ms: now - 1 * DAY },
    ];
    let mut p = ArchivePruner::new(cands, now, 30, 15);
    let removed = run_pass(&mut p, &[2]);
    // age pass removes 0 (2 resists); size pass goes oldest first: 2 (resists), 3, 1, 4
    assert_eq!(removed, vec![0, 3, 1, 4]);
    assert_eq!(p.total_bytes(), 10);
    assert!(p.is_removed(0));
    assert!(!p.is_removed(2));
}

#[test]
fn archive_prune_within_limits_removes_nothing() {
    let now = 10 * DAY;
    let cands = vec![ArchiveCandidate { len: 10, time_ms: now - DAY }, ArchiveCandidate { len: 10, time_ms: now }];
    let mut p = ArchivePruner::new(cands, now, 30, 100);
    assert_eq!(p.next_removal(false), None);
    assert_eq!(p.next_removal(false), None);
    assert_eq!(p.total_bytes(), 20);
}
