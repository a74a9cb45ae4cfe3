use syncdir::path_safety::{is_safe_relative_path, normalize_superscripts_cow};
use syncdir::types::RelativePath;
use std::borrow::Cow;

#[test]
fn sync_test_is_safe_relative_path_rejects_empty() {
    assert!(!is_safe_relative_path(""));
}

#[test]
fn path_safety_test_is_safe_relative_path_rejects_empty() {
    assert!(!is_safe_relative_path(""));
}

#[test]
fn sync_test_is_safe_relative_path_rejects_reserved_names() {
    assert!(!is_safe_relative_path("CON"));
    assert!(!is_safe_relative_path("subdir\\NUL.txt"));
    assert!(!is_safe_relative_path("COM1"));
}

#[test]
fn path_safety_test_is_safe_relative_path_rejects_reserved_names() {
    assert!(!is_safe_relative_path("CON"));
    assert!(!is_safe_relative_path("subdir\\NUL.txt"));
    assert!(!is_safe_relative_path("COM1"));
}

#[test]
fn sync_test_is_safe_relative_path_rejects_ads() {
    assert!(!is_safe_relative_path("file.txt:stream"));
}

#[test]
fn path_safety_test_is_safe_relative_path_rejects_ads() {
    assert!(!is_safe_relative_path("file.txt:stream"));
}

#[test]
fn sync_test_dos_device_trailing_space_dot() {
    assert!(!is_safe_relative_path("CON "));
    assert!(!is_safe_relative_path("NUL "));
    assert!(!is_safe_relative_path("COM1 "));
    assert!(!is_safe_relative_path("CON."));
    assert!(!is_safe_relative_path("file.txt."));
    assert!(!is_safe_relative_path("subdir./file.txt"));
    assert!(is_safe_relative_path("normal_file.txt"));
    assert!(is_safe_relative_path("subdir/file.txt"));
}

#[test]
fn path_safety_test_dos_device_trailing_space_dot() {
    assert!(!is_safe_relative_path("CON "));
    assert!(!is_safe_relative_path("NUL "));
    assert!(!is_safe_relative_path("COM1 "));
    assert!(!is_safe_relative_path("CON."));
    assert!(!is_safe_relative_path("file.txt."));
    assert!(!is_safe_relative_path("subdir./file.txt"));
    assert!(is_safe_relative_path("normal_file.txt"));
    assert!(is_safe_relative_path("subdir/file.txt"));
}

#[test]
fn test_path_safety_superscripts_and_wildcards() {
    assert!(!is_safe_relative_path("COM¹"));
    assert!(!is_safe_relative_path("LPT²"));
    assert!(!is_safe_relative_path("file*.txt"));
    assert!(!is_safe_relative_path("file?.bin"));
    assert!(!is_safe_relative_path("file<tag>.txt"));
    assert!(!is_safe_relative_path("file|pipe.txt"));
    assert!(is_safe_relative_path("normal_file.txt"));
}

#[test]
fn test_normalize_superscripts_cow_zero_allocation_on_ascii() {
    let ascii = "plain_path/file.txt";
    let norm = normalize_superscripts_cow(ascii);
    assert!(matches!(norm, Cow::Borrowed(_)));
    assert_eq!(norm, "plain_path/file.txt");

    let superscript = "COM¹";
    let norm2 = normalize_superscripts_cow(superscript);
    assert!(matches!(norm2, Cow::Owned(_)));
    assert_eq!(norm2, "COM1");
}

#[test]
fn path_safety_rejects_traversal_and_absolute_paths() {
    assert!(!is_safe_relative_path("../secret.txt"));
    assert!(!is_safe_relative_path("a/../../b.txt"));
    assert!(!is_safe_relative_path("/etc/passwd"));
    assert!(!is_safe_relative_path("\\\\server\\share\\f.txt"));
    assert!(!is_safe_relative_path("C:\\windows\\f.txt"));
    assert!(is_safe_relative_path("a/b/c.txt"));
}

#[test]
fn path_safety_relative_path_type_keeps_only_safe_paths() {
    assert!(RelativePath::try_new("docs/readme.md").is_ok());
    assert_eq!(RelativePath::try_new("docs/readme.md").unwrap().as_str(), "docs/readme.md");
    assert!(RelativePath::new("CON").is_err());
    assert!(RelativePath::try_new("").is_err());
}
