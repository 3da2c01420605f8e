use vhs_86::git::{map_status, GitCache, GitStatus, STATUS_INDEX_MODIFIED, STATUS_INDEX_NEW, STATUS_WT_NEW};

#[test]
fn test_git_cache_new() {
    let cache = GitCache::new();
    assert!(!cache.is_repo());
}

#[test]
fn test_git_cache_get_status_no_repo() {
    let cache = GitCache::new();
    assert_eq!(cache.get_status("/tmp/x/file.txt"), GitStatus::Unchanged);
}

#[test]
fn refresh_records_statuses_under_the_root() {
    let mut cache = GitCache::new();
    cache.refresh_with(
        Some("/repo".to_string()),
        vec![("a.txt".to_string(), STATUS_WT_NEW), ("src/b.rs".to_string(), STATUS_INDEX_MODIFIED)],
    );
    assert!(cache.is_repo());
    assert_eq!(cache.get_status("/repo/a.txt"), GitStatus::Untracked);
    assert_eq!(cache.get_status("/repo/src/b.rs"), GitStatus::Modified);
    assert_eq!(cache.get_status("/repo/c.txt"), GitStatus::Unchanged);
    cache.refresh_with(None, vec![]);
    assert!(!cache.is_repo());
    assert_eq!(cache.get_status("/repo/a.txt"), GitStatus::Unchanged);
}

#[test]
fn status_bits_map_to_shown_status() {
    assert_eq!(map_status(STATUS_INDEX_NEW), GitStatus::Added);
    assert_eq!(map_status(STATUS_WT_NEW), GitStatus::Untracked);
    assert_eq!(map_status(STATUS_WT_NEW | STATUS_INDEX_MODIFIED), GitStatus::Modified);
    assert_eq!(map_status(STATUS_WT_NEW | STATUS_INDEX_NEW), GitStatus::Added);
    assert_eq!(map_status(STATUS_INDEX_MODIFIED), GitStatus::Modified);
    assert_eq!(map_status(0), GitStatus::Unchanged);
}

#[test]
fn a_later_report_for_the_same_file_wins() {
    let mut cache = GitCache::new();
    cache.refresh_with(
        Some("/repo".to_string()),
        vec![("a.txt".to_string(), STATUS_INDEX_MODIFIED), ("a.txt".to_string(), STATUS_INDEX_NEW)],
    );
    assert_eq!(cache.get_status("/repo/a.txt"), GitStatus::Added);
}
