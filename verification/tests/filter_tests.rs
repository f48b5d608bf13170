use findeverything::FileFilter;

#[test]
fn test_file_filter_creation() {
    let filter = FileFilter::new(
        Some(1024),
        Some(1048576),
        vec!["target".to_string()],
        vec!["test.txt".to_string()],
    );

    assert_eq!(filter.min_size, Some(1024));
    assert_eq!(filter.max_size, Some(1048576));
    assert!(filter.excluded_dirs.contains(&"target".to_string()));
    assert!(filter.excluded_paths.contains(&"test.txt".to_string()));
}

#[test]
fn test_size_filtering() {
    let filter = FileFilter::new(Some(100), Some(1000), vec![], vec![]);

    assert!(!filter.matches_size(50));
    assert!(filter.matches_size(500));
    assert!(!filter.matches_size(2000));
}

#[test]
fn test_path_exclusion() {
    let filter = FileFilter::new(
        None,
        None,
        vec!["target".to_string()],
        vec!["test.txt".to_string()],
    );

    assert!(filter.is_path_excluded("target/debug/app"));
    assert!(filter.is_path_excluded("test.txt"));
    assert!(!filter.is_path_excluded("src/main.rs"));
}

#[test]
fn test_path_exclusion_separator_insensitive() {
    let filter = FileFilter::new(None, None, vec![], vec!["dir/file.txt".to_string()]);

    assert!(filter.is_path_excluded("dir/file.txt"));
    assert!(filter.is_path_excluded("dir\\file.txt"));
    assert!(filter.is_path_excluded("root/dir/file.txt"));
    assert!(filter.is_path_excluded("root\\dir\\file.txt"));
    assert!(!filter.is_path_excluded("dir/other.txt"));
}

#[test]
fn test_path_exclusion_by_file_name() {
    let filter = FileFilter::new(None, None, vec![], vec!["secret.key".to_string()]);

    assert!(filter.is_path_excluded("a/b/secret.key"));
    assert!(!filter.is_path_excluded("a/b/secret.key.bak"));
}

#[test]
fn test_directory_component_exclusion() {
    let filter = FileFilter::new(None, None, vec![".git".to_string()], vec![]);

    assert!(filter.is_path_excluded(".git/config"));
    assert!(filter.is_path_excluded("repo/.git/hooks/pre-commit"));
    assert!(!filter.is_path_excluded("repo/src/lib.rs"));
}

#[test]
fn test_size_bounds_widening_is_monotonic() {
    let narrow = FileFilter::new(Some(100), Some(1000), vec![], vec![]);
    let wide = FileFilter::new(Some(50), Some(2000), vec![], vec![]);
    let unbounded = FileFilter::new(None, None, vec![], vec![]);

    for size in [100u64, 250, 999, 1000] {
        assert!(narrow.matches_size(size));
        assert!(wide.matches_size(size));
        assert!(unbounded.matches_size(size));
    }
    for size in [50u64, 1500, 2000] {
        assert!(!narrow.matches_size(size));
        assert!(wide.matches_size(size));
        assert!(unbounded.matches_size(size));
    }
}

#[test]
fn test_size_filter_matches() {
    let filter = findeverything::FileSizeFilter::new(Some(10), Some(20), vec![], vec![]);
    assert!(filter.matches(15));
    assert!(!filter.matches(5));
    assert!(!filter.matches(25));
}

#[test]
fn test_should_process_combines_rules() {
    let filter = FileFilter::new(
        Some(10),
        Some(100),
        vec!["target".to_string()],
        vec![],
    );

    assert!(filter.should_process("src/lib.rs", Some(50)));
    assert!(!filter.should_process("src/lib.rs", Some(5)));
    assert!(!filter.should_process("target/lib.rs", Some(50)));
    // Unknown size: the size rule is skipped, as when metadata is missing.
    assert!(filter.should_process("src/lib.rs", None));
}
