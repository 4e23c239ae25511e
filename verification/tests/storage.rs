use synctools::models::{StorageConfig, StorageType};
use synctools::storage::{
    dir_marker, listed_path, normalize_remote_path, parent_dirs, range_end, remote_entry, remote_meta, s3_name,
    storage_plan, unquoted, webdav_endpoint, webdav_name, webdav_url, DirCache, LocalStorage, StoragePlan,
    IO_TIMEOUT_SECS, MAX_DIR_CACHE_SIZE, OP_TIMEOUT_SECS,
};

fn config(typ: StorageType) -> StorageConfig {
    StorageConfig {
        typ,
        path: None,
        bucket: None,
        region: None,
        accessKey: None,
        secretKey: None,
        endpoint: None,
        prefix: None,
        webdavEndpoint: None,
        username: None,
        password: None,
        root: None,
    }
}

fn text(s: &str) -> Option<String> {
    Some(s.to_string())
}

#[test]
fn timeouts_are_as_documented() {
    assert_eq!(OP_TIMEOUT_SECS, 60);
    assert_eq!(IO_TIMEOUT_SECS, 300);
    assert_eq!(MAX_DIR_CACHE_SIZE, 10000);
}

#[test]
fn local_storage_is_named_after_its_directory() {
    let s = LocalStorage::new("/A");
    assert_eq!(s.name(), "local:/A");
    assert_eq!(s.base_path(), "/A");
}

#[test]
fn local_paths_lose_leading_separators() {
    assert_eq!(LocalStorage::relative_path("/a/b"), "a/b");
    assert_eq!(LocalStorage::relative_path("///a"), "a");
    assert_eq!(LocalStorage::relative_path("\\a\\b"), "a\\b");
    assert_eq!(LocalStorage::relative_path("/\\a"), "a");
    assert_eq!(LocalStorage::relative_path("\\/a"), "/a");
    assert_eq!(LocalStorage::relative_path("/"), "");
    assert_eq!(LocalStorage::relative_path(""), "");
    assert_eq!(LocalStorage::relative_path("a/"), "a/");
}

#[test]
fn local_paths_are_written_with_forward_slashes() {
    assert_eq!(LocalStorage::normalize_path("a\\b\\c.txt"), "a/b/c.txt");
    assert_eq!(LocalStorage::normalize_path("a/b"), "a/b");
    assert_eq!(LocalStorage::normalize_path("\\"), "/");
    assert_eq!(LocalStorage::normalize_path(""), "");
    assert_eq!(LocalStorage::normalize_path("é\\ü"), "é/ü");
}

#[test]
fn local_entries_have_no_size_for_directories() {
    let f = LocalStorage::entry("dir\\bar.bin", false, 3, 99).unwrap();
    assert_eq!((f.path.as_str(), f.size, f.modified_time, f.is_dir), ("dir/bar.bin", 3, 99, false));
    assert_eq!(f.checksum, None);
    let d = LocalStorage::entry("dir", true, 4096, 5).unwrap();
    assert_eq!((d.size, d.is_dir), (0, true));
    assert!(LocalStorage::entry("", true, 0, 0).is_none());
    let m = LocalStorage::meta(true, 4096, 5);
    assert_eq!((m.size, m.modified_time, m.is_dir, m.etag), (0, 5, true, None));
    assert_eq!(LocalStorage::meta(false, 7, 5).size, 7);
}

#[test]
fn remote_paths_have_forward_slashes_and_no_leading_slash() {
    assert_eq!(normalize_remote_path("\\a\\b"), "a/b");
    assert_eq!(normalize_remote_path("//a/b/"), "a/b/");
    assert_eq!(normalize_remote_path("a"), "a");
    assert_eq!(normalize_remote_path("/"), "");
    assert_eq!(listed_path(""), None);
    assert_eq!(listed_path("/"), None);
    assert_eq!(listed_path("/a/b").unwrap(), "a/b");
    assert_eq!(listed_path("a/").unwrap(), "a/");
    assert_eq!(listed_path("//").unwrap(), "");
}

#[test]
fn remote_entries_carry_the_unquoted_checksum() {
    let f = remote_entry("/dir/f.bin", 12, Some(1700000000), false, Some("\"abc123\"")).unwrap();
    assert_eq!((f.path.as_str(), f.size, f.modified_time, f.is_dir), ("dir/f.bin", 12, 1700000000, false));
    assert_eq!(f.checksum.as_deref(), Some("abc123"));
    let d = remote_entry("dir/", 0, None, true, None).unwrap();
    assert_eq!((d.path.as_str(), d.modified_time, d.is_dir), ("dir/", 0, true));
    assert_eq!(d.checksum, None);
    assert!(remote_entry("/", 0, None, true, None).is_none());
    assert!(remote_entry("", 0, None, true, None).is_none());
    let m = remote_meta(5, None, false, Some("\"\"x\"\""));
    assert_eq!((m.size, m.modified_time, m.is_dir), (5, 0, false));
    assert_eq!(m.etag.as_deref(), Some("x"));
    assert_eq!(unquoted("\"a\"b\""), "a\"b");
    assert_eq!(unquoted("plain"), "plain");
    assert_eq!(unquoted("\"\""), "");
}

#[test]
fn webdav_address_joins_endpoint_and_root() {
    assert_eq!(webdav_endpoint("https://h/dav/", Some("/Sync/")), "https://h/dav/Sync");
    assert_eq!(webdav_endpoint("https://h/dav", Some("Sync/a")), "https://h/dav/Sync/a");
    assert_eq!(webdav_endpoint("https://h/dav/", Some("")), "https://h/dav/");
    assert_eq!(webdav_endpoint("https://h/dav/", None), "https://h/dav/");
    assert_eq!(webdav_endpoint("https://h/dav//", Some("/")), "https://h/dav/");
    assert_eq!(webdav_name("https://h/dav/Sync"), "webdav://h/dav/Sync");
    assert_eq!(webdav_name("http://h/dav"), "webdav://h/dav");
    assert_eq!(webdav_name("https://https://http://h"), "webdav://h");
    assert_eq!(webdav_name("http://https://h"), "webdav://https://h");
    assert_eq!(webdav_name("h"), "webdav://h");
    assert_eq!(webdav_url("https://h/dav/", "a/b.txt"), "https://h/dav/a/b.txt");
    assert_eq!(webdav_url("https://h/dav/", ""), "https://h/dav");
}

#[test]
fn s3_names_and_directory_markers() {
    assert_eq!(s3_name("bucket", None), "s3://bucket");
    assert_eq!(s3_name("bucket", Some("pre/fix")), "s3://bucket/pre/fix");
    assert_eq!(dir_marker("a/b"), "a/b/");
    assert_eq!(dir_marker("a/b/"), "a/b/");
    assert_eq!(dir_marker(""), "/");
    assert_eq!(dir_marker("/"), "/");
}

#[test]
fn byte_ranges_end_where_they_can_be_addressed() {
    assert_eq!(range_end(0, 10), Some(10));
    assert_eq!(range_end(u64::MAX - 1, 1), Some(u64::MAX));
    assert_eq!(range_end(u64::MAX, 1), None);
    assert_eq!(range_end(1, u64::MAX), None);
}

#[test]
fn directories_above_a_file_are_listed_outermost_first() {
    assert_eq!(parent_dirs("a/b/c.txt"), vec!["a/", "a/b/"]);
    assert_eq!(parent_dirs("c.txt"), Vec::<String>::new());
    assert_eq!(parent_dirs(""), Vec::<String>::new());
    assert_eq!(parent_dirs("a/"), Vec::<String>::new());
    assert_eq!(parent_dirs("a/b/"), vec!["a/"]);
    assert_eq!(parent_dirs("/a/b"), vec!["/a/"]);
    assert_eq!(parent_dirs("a//b"), vec!["a/"]);
    assert_eq!(parent_dirs("é/ü/x"), vec!["é/", "é/ü/"]);
}

#[test]
fn created_directories_are_remembered() {
    let mut cache = DirCache::new();
    assert!(cache.contains("/"));
    assert_eq!(cache.len(), 1);
    assert_eq!(cache.dirs_to_create("a/b/c.txt"), vec!["a/", "a/b/"]);
    assert!(cache.contains("a/") && cache.contains("a/b/") && cache.contains("/"));
    assert_eq!(cache.dirs_to_create("a/b/d.txt"), Vec::<String>::new());
    assert_eq!(cache.dirs_to_create("a/x/d.txt"), vec!["a/x/"]);
    assert_eq!(cache.dirs_to_create("top.txt"), Vec::<String>::new());
    assert_eq!(cache.len(), 4);
}

#[test]
fn full_directory_cache_is_cleared_before_it_grows() {
    let mut cache = DirCache::with_limit(3);
    assert_eq!(cache.dirs_to_create("a/b/f"), vec!["a/", "a/b/"]);
    assert_eq!(cache.len(), 3);
    // Nothing to create: the cache stays as it is although it is full.
    assert_eq!(cache.dirs_to_create("a/b/g"), Vec::<String>::new());
    assert_eq!(cache.len(), 3);
    // Something to create: everything is forgotten first.
    assert_eq!(cache.dirs_to_create("a/c/f"), vec!["a/c/"]);
    assert_eq!(cache.len(), 1);
    assert!(cache.contains("a/c/"));
    assert!(!cache.contains("a/") && !cache.contains("/"));
    assert_eq!(cache.dirs_to_create("a/c/f"), vec!["a/"]);
}

#[test]
fn local_storage_needs_a_path() {
    let mut c = config(StorageType::Local);
    assert_eq!(storage_plan(&c).unwrap_err(), "Local storage requires path");
    c.path = text("/A");
    match storage_plan(&c).unwrap() {
        StoragePlan::Local { path } => assert_eq!(path, "/A"),
        other => panic!("unexpected {:?}", other),
    }
}

#[test]
fn s3_storage_needs_bucket_region_and_keys() {
    let mut c = config(StorageType::S3);
    assert_eq!(storage_plan(&c).unwrap_err(), "S3 storage requires bucket");
    c.bucket = text("b");
    assert_eq!(storage_plan(&c).unwrap_err(), "S3 storage requires region");
    c.region = text("r");
    assert_eq!(storage_plan(&c).unwrap_err(), "S3 storage requires accessKey");
    c.accessKey = text("ak");
    assert_eq!(storage_plan(&c).unwrap_err(), "S3 storage requires secretKey");
    c.secretKey = text("sk");
    c.prefix = text("p");
    match storage_plan(&c).unwrap() {
        StoragePlan::S3 { bucket, region, access_key, secret_key, endpoint, prefix } => {
            assert_eq!((bucket.as_str(), region.as_str()), ("b", "r"));
            assert_eq!((access_key.as_str(), secret_key.as_str()), ("ak", "sk"));
            assert_eq!((endpoint, prefix), (None, text("p")));
        }
        other => panic!("unexpected {:?}", other),
    }
}

#[test]
fn webdav_storage_needs_endpoint_and_credentials() {
    let mut c = config(StorageType::WebDav);
    c.endpoint = text("not the webdav endpoint");
    assert_eq!(storage_plan(&c).unwrap_err(), "WebDAV storage requires endpoint");
    c.webdavEndpoint = text("https://h");
    assert_eq!(storage_plan(&c).unwrap_err(), "WebDAV storage requires username");
    c.username = text("u");
    assert_eq!(storage_plan(&c).unwrap_err(), "WebDAV storage requires password");
    c.password = text("p");
    c.root = text("/Sync");
    match storage_plan(&c).unwrap() {
        StoragePlan::WebDav { endpoint, username, password, root } => {
            assert_eq!((endpoint.as_str(), username.as_str(), password.as_str()), ("https://h", "u", "p"));
            assert_eq!(root, text("/Sync"));
        }
        other => panic!("unexpected {:?}", other),
    }
}
