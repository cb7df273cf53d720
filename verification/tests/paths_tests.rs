use xphoto::auto_album::{
    build_album_rule_patterns, parse_album_from_dir_name_with_patterns, patterns_from_delimiters,
    plan_auto_album, AlbumCache,
};
use xphoto::config::AppConfig;
use xphoto::digest::sha256_hex;
use xphoto::ordering::sort_entries_by_path;
use xphoto::paths::{expand_user_home_path, parent_dir_name_of, paths_equal, strip_tilde_prefix};
use xphoto::storage::{LocalFsAdapter, StorageEntry, StorageError};

fn entry(p: &str) -> StorageEntry {
    StorageEntry { path: p.to_string(), is_dir: false, size: 1, created_at: None, modified_at: None }
}

#[test]
fn tilde_paths() {
    assert_eq!(strip_tilde_prefix("~"), Some("".to_string()));
    assert_eq!(strip_tilde_prefix("~/a/b"), Some("a/b".to_string()));
    assert_eq!(strip_tilde_prefix("~\\a"), Some("a".to_string()));
    assert_eq!(strip_tilde_prefix("~bob/a"), None);
    let home = Some("/home/u".to_string());
    assert_eq!(expand_user_home_path("~/a", &home), "/home/u/a");
    assert_eq!(expand_user_home_path("~/a", &None), "a");
    assert_eq!(expand_user_home_path("/x/y", &home), "/x/y");
}

#[test]
fn path_comparison_and_parents() {
    assert!(paths_equal("/a//b/./c", "/a/b/c"));
    assert!(!paths_equal("/a/b", "a/b"));
    assert_eq!(parent_dir_name_of("/r/2020.02.01.Trip/IMG_1.jpg"), Some("2020.02.01.Trip".to_string()));
    assert_eq!(parent_dir_name_of("IMG_1.jpg"), None);
}

#[test]
fn delimiter_rules_from_config() {
    let ds = vec![".".to_string(), "x".to_string(), "-".to_string()];
    let rules = patterns_from_delimiters(&ds);
    assert_eq!(rules.len(), 2);
    assert_eq!(rules[0].key, "date_dot");
    assert_eq!(rules[1].delimiter, '-');
    let cfg = AppConfig::default_for_home(&None);
    let patterns = build_album_rule_patterns(&cfg);
    assert_eq!(patterns.len(), 3);
    let m = parse_album_from_dir_name_with_patterns("2020_02_02_Another_Album", &patterns).unwrap();
    assert_eq!(m.rule_name, "date_underscore");
    assert_eq!(m.album_name, "Another_Album");
}

#[test]
fn auto_album_from_parent_directory() {
    let cfg = AppConfig::default_for_home(&None);
    let patterns = build_album_rule_patterns(&cfg);
    let a = plan_auto_album("src1", "/r/2020.02.01.Test.Album/IMG_A1.jpg", &patterns).unwrap();
    assert_eq!(a.rule_name, "date_dot");
    assert_eq!(a.album_date, "2020-02-01");
    assert_eq!(a.album_name, "Test.Album");
    assert_eq!(a.cache_key, "src1|date_dot|2020-02-01|Test.Album");
    let salt = sha256_hex("src1:date_dot");
    assert_eq!(a.album_id, sha256_hex(&format!("Test.Album:2020-02-01:{}", salt)));
    assert!(plan_auto_album("src1", "/r/misc_folder/IMG_C3.jpg", &patterns).is_none());
}

#[test]
fn cache_returns_what_was_stored_last() {
    let mut c = AlbumCache::new();
    assert_eq!(c.get("k"), None);
    c.insert("k".to_string(), "a1".to_string());
    c.insert("j".to_string(), "b1".to_string());
    c.insert("k".to_string(), "a2".to_string());
    assert_eq!(c.get("k"), Some("a2".to_string()));
    assert_eq!(c.get("j"), Some("b1".to_string()));
}

#[test]
fn listings_sort_by_path() {
    let sorted = sort_entries_by_path(vec![entry("/r/b"), entry("/r/a/2"), entry("/r/a")]);
    let paths: Vec<&str> = sorted.iter().map(|e| e.path.as_str()).collect();
    assert_eq!(paths, vec!["/r/a", "/r/a/2", "/r/b"]);
}

#[test]
fn storage_rules() {
    let ro = LocalFsAdapter::new(false);
    assert!(matches!(ro.check_remove("/a"), Err(StorageError::DeleteDisabled)));
    let rw = LocalFsAdapter::new(true);
    assert_eq!(rw.check_remove("/a").unwrap(), "/a");
    assert!(matches!(rw.normalize_path("  "), Err(StorageError::InvalidPath(_))));
    assert_eq!(StorageError::DeleteDisabled.message(), "delete operation disabled");
    assert_eq!(StorageError::InvalidPath("x".to_string()).message(), "invalid path: x");
    assert_eq!(StorageError::Io("boom".to_string()).message(), "io error: boom");
}
