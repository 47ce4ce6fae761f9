use dds_workbench::path::{PathResolver, MAX_PATH_DEPTH, NTFS_ROOT_RECORD};

#[test]
fn path_resolver_root_returns_backslash() {
    let resolver = PathResolver::new();
    assert_eq!(resolver.cached(NTFS_ROOT_RECORD), Some("\\"));
    assert_eq!(resolver.cache_size(), 1);
}

#[test]
fn path_resolver_default_matches_new() {
    let a = PathResolver::new();
    let b = PathResolver::default();
    assert_eq!(a.cache_size(), b.cache_size());
    assert_eq!(a.cached(NTFS_ROOT_RECORD), b.cached(NTFS_ROOT_RECORD));
}

#[test]
fn path_resolver_clear_removes_cache_but_restores_root() {
    let mut resolver = PathResolver::new();
    // 手動で他レコードを差し込み（実際は resolve 経由でしか入らないが、API 検証目的）
    resolver.cache.insert(100, "\\foo\\bar".to_string());
    resolver.cache.insert(200, "\\baz".to_string());
    assert_eq!(resolver.cache_size(), 3);
    resolver.clear();
    assert_eq!(resolver.cache_size(), 1);
    assert_eq!(resolver.cached(NTFS_ROOT_RECORD), Some("\\"));
    assert_eq!(resolver.cached(100), None);
    assert_eq!(resolver.cached(200), None);
}

#[test]
fn path_resolver_cached_returns_none_for_unknown_record() {
    let resolver = PathResolver::new();
    assert_eq!(resolver.cached(42), None);
    assert_eq!(resolver.cached(999_999), None);
}

#[test]
fn max_path_depth_is_within_documented_bound() {
    // 仕様: 64 階層で打ち切り（NTFS 実用上の安全マージン）
    assert_eq!(MAX_PATH_DEPTH, 64);
    assert_eq!(NTFS_ROOT_RECORD, 5);
}
