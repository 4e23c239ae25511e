use synctools::cache::{seconds_since_1970, FileListCache};
use synctools::storage::FileInfo;
use synctools::tree::FileTree;

fn listing() -> FileTree {
    FileTree::from_listing(vec![
        FileInfo { path: "b".to_string(), size: 2, modified_time: 20, is_dir: false, checksum: Some("s".to_string()) },
        FileInfo { path: "a".to_string(), size: 1, modified_time: 10, is_dir: false, checksum: None },
    ])
}

fn paths(tree: &FileTree) -> Vec<(String, u64, i64)> {
    tree.entries().iter().map(|f| (f.path.clone(), f.size, f.modified_time)).collect()
}

#[test]
fn stored_listing_comes_back_under_the_same_configuration() {
    let cache = FileListCache::new("/tmp/cache".to_string()).with_ttl(1800);
    assert_eq!(cache.cache_dir(), "/tmp/cache");
    assert_eq!(cache.ttl_seconds(), 1800);
    let entry = FileListCache::entry_for("{\"type\":\"s3\"}", listing(), 1000);
    assert_eq!(entry.cached_at, 1000);
    assert_eq!(entry.config_hash, FileListCache::hash_config("{\"type\":\"s3\"}"));
    let hit = cache.accept(entry, "{\"type\":\"s3\"}", 1500).unwrap();
    assert_eq!(hit.cached_at, 1000);
    assert_eq!(paths(&hit.files), paths(&listing()));
}

#[test]
fn stored_listing_is_refused_under_a_changed_configuration() {
    let cache = FileListCache::new("c".to_string());
    let entry = FileListCache::entry_for("{\"type\":\"s3\"}", listing(), 1000);
    assert!(cache.accept(entry, "{\"type\":\"s3\",\"bucket\":\"b\"}", 1000).is_none());
}

#[test]
fn stored_listing_grows_old_after_the_ttl() {
    let cache = FileListCache::new("c".to_string()).with_ttl(100);
    let at = |now: u64| cache.accept(FileListCache::entry_for("k", listing(), 1000), "k", now).is_some();
    assert!(at(1000));
    assert!(at(1100));
    assert!(!at(1101));
    assert!(at(999));
    assert!(at(0));
    let forever = FileListCache::new("c".to_string()).with_ttl(0);
    assert!(forever.accept(FileListCache::entry_for("k", listing(), 1), "k", u64::MAX).is_some());
    let unset = FileListCache::new("c".to_string());
    assert_eq!(unset.ttl_seconds(), 0);
}

#[test]
fn cache_file_is_named_by_job_and_side() {
    assert_eq!(FileListCache::cache_file("job-1", "source"), "job-1_source.cache");
    assert_eq!(FileListCache::cache_file("job-1", "dest"), "job-1_dest.cache");
    assert_eq!(FileListCache::sides(), vec!["source", "dest"]);
}

#[test]
fn age_is_shown_in_the_largest_unit_that_fits() {
    assert_eq!(FileListCache::format_age(0), "0秒前");
    assert_eq!(FileListCache::format_age(59), "59秒前");
    assert_eq!(FileListCache::format_age(60), "1分钟前");
    assert_eq!(FileListCache::format_age(3599), "59分钟前");
    assert_eq!(FileListCache::format_age(3600), "1小时前");
    assert_eq!(FileListCache::format_age(86399), "23小时前");
    assert_eq!(FileListCache::format_age(86400), "1天前");
    assert_eq!(FileListCache::format_age(86400 * 365), "365天前");
    assert_eq!(FileListCache::format_age(u64::MAX), "213503982334601天前");
}

#[test]
fn clock_is_past_the_year_2020() {
    let now = FileListCache::current_time();
    assert!(now > 1_577_836_800);
    assert!(FileListCache::now() >= now);
}

#[test]
fn readings_of_the_clock_before_1970_count_as_zero() {
    assert_eq!(seconds_since_1970(Some(0)), 0);
    assert_eq!(seconds_since_1970(Some(1)), 1);
    assert_eq!(seconds_since_1970(Some(1_700_000_000)), 1_700_000_000);
    assert_eq!(seconds_since_1970(Some(u64::MAX)), u64::MAX);
    assert_eq!(seconds_since_1970(None), 0);
}
