use std::sync::atomic::{AtomicBool, Ordering};
use std::sync::Arc;
use synctools::scanner::{
    extension_dot, extension_of, glob_finish, glob_stage, lies_around, literal_matches, regex_source, FileScanner,
    GlobStage, ScanConfig,
};
use synctools::storage::FileInfo;

fn entry(path: &str, size: u64, is_dir: bool) -> FileInfo {
    FileInfo { path: path.to_string(), size, modified_time: 0, is_dir, checksum: None }
}

#[test]
fn default_scan_config_excludes_the_usual() {
    let c = ScanConfig::default();
    assert!(!c.include_dirs);
    assert_eq!(c.max_file_size, 0);
    assert!(c.include_extensions.is_empty());
    assert_eq!(
        c.exclude_patterns,
        vec![".git/**", ".svn/**", "node_modules/**", ".DS_Store", "Thumbs.db", "*.tmp", "*.temp", "~*"]
    );
}

#[test]
fn double_star_matches_by_prefix_and_suffix() {
    let s = FileScanner::new(1);
    assert!(s.matches_pattern(".git/config", ".git/**"));
    assert!(s.matches_pattern(".git/objects/ab/cd", ".git/**"));
    assert!(s.matches_pattern(".git", ".git/**"));
    assert!(!s.matches_pattern(".gitignore", ".git/**"));
    assert!(!s.matches_pattern(".git2/config", ".git/**"));
    assert!(!s.matches_pattern("src/.git/config", ".git/**"));
    assert!(s.matches_pattern("a/b/c.log", "**/c.log"));
    assert!(s.matches_pattern("c.log", "**/c.log"));
    assert!(!s.matches_pattern("a/b/c.txt", "**/c.log"));
    assert!(!s.matches_pattern("abc.log", "**/c.log"));
    assert!(!s.matches_pattern("a/bc.log", "**/c.log"));
    assert!(s.matches_pattern("anything/at/all", "**"));
    assert!(s.matches_pattern("src/a/b/main.rs", "src/**/main.rs"));
    assert!(!s.matches_pattern("lib/a/main.rs", "src/**/main.rs"));
    assert!(s.matches_pattern("src/main.rs", "src/**/main.rs"));
    assert!(!s.matches_pattern("src/a/domain.rs", "src/**/main.rs"));
    assert!(!s.matches_pattern("srcs/a/main.rs", "src/**/main.rs"));
    assert!(!s.matches_pattern("src/", "src/**/main.rs"));
}

#[test]
fn single_star_goes_through_the_regular_expression() {
    let s = FileScanner::new(1);
    assert!(s.matches_pattern("a.tmp", "*.tmp"));
    assert!(s.matches_pattern("dir/a.tmp", "*.tmp"));
    assert!(!s.matches_pattern("a.tmpx", "*.tmp"));
    assert!(!s.matches_pattern("atmp", "*.tmp"));
    assert!(s.matches_pattern("~lock", "~*"));
    assert!(!s.matches_pattern("a~lock", "~*"));
    // Two `**` do not count as a split; the pattern becomes a regular expression.
    assert!(s.matches_pattern("a/x/b/y/c", "a/**/b/**/c"));
    assert!(!s.matches_pattern("a/x/b/y/d", "a/**/b/**/c"));
}

#[test]
fn patterns_without_star_match_the_path_or_its_tail() {
    let s = FileScanner::new(1);
    assert!(s.matches_pattern(".DS_Store", ".DS_Store"));
    assert!(s.matches_pattern("a/b/.DS_Store", ".DS_Store"));
    assert!(!s.matches_pattern("a/b/x.DS_Store", ".DS_Store"));
    assert!(s.matches_pattern("A/THUMBS.DB", "thumbs.db"));
    assert!(s.matches_pattern("a/thumbs.db", "Thumbs.db"));
    assert!(literal_matches("a/b", "b"));
    assert!(!literal_matches("ab", "b"));
}

#[test]
fn matching_ignores_case() {
    let s = FileScanner::new(1);
    assert!(s.matches_pattern("PHOTO.TMP", "*.tmp"));
    assert!(s.matches_pattern("Node_Modules/x/y.js", "node_modules/**"));
    assert!(s.matches_pattern("ÄB.tmp", "äb.TMP"));
}

#[test]
fn regex_source_escapes_dots_and_opens_stars() {
    assert_eq!(regex_source("*.tmp"), "^.*\\.tmp$");
    assert_eq!(regex_source("a.b*c"), "^a\\.b.*c$");
    assert_eq!(regex_source(""), "^$");
    assert_eq!(regex_source("é*"), "^é.*$");
}

#[test]
fn glob_stage_decides_or_asks() {
    match glob_stage("src/main.rs", "src/**") {
        GlobStage::Decided(b) => assert!(b),
        GlobStage::AskRegex(_) => panic!("decided by the pattern"),
    }
    match glob_stage("a.tmp", "*.tmp") {
        GlobStage::AskRegex(source) => assert_eq!(source, "^.*\\.tmp$"),
        GlobStage::Decided(_) => panic!("needs the regular expression"),
    }
    match glob_stage("a/b", "b") {
        GlobStage::Decided(b) => assert!(b),
        GlobStage::AskRegex(_) => panic!("no star"),
    }
    assert!(glob_finish("x", "y", Some(true)));
    assert!(!glob_finish("x", "x", Some(false)));
    assert!(glob_finish("d/(", "(", None));
    assert!(!glob_finish("d/)", "(", None));
}

#[test]
fn pattern_that_is_no_regular_expression_falls_back_to_the_literal_rule() {
    let s = FileScanner::new(1);
    assert!(s.matches_pattern("a/(*", "(*"));
    assert!(!s.matches_pattern("a/(x", "(*"));
}

#[test]
fn extension_is_what_follows_the_last_dot_of_the_name() {
    assert_eq!(extension_of("a/b/c.txt"), "txt");
    assert_eq!(extension_of("archive.tar.gz"), "gz");
    assert_eq!(extension_of("a.b/c"), "");
    assert_eq!(extension_of(".hidden"), "");
    assert_eq!(extension_of("dir/.hidden"), "");
    assert_eq!(extension_of("name."), "");
    assert_eq!(extension_of("a/b.d/"), "d");
    assert_eq!(extension_of(""), "");
    assert_eq!(extension_of("noext"), "");
}

#[test]
fn should_exclude_applies_patterns_and_extensions() {
    let s = FileScanner::new(4);
    assert!(s.should_exclude(".git/HEAD"));
    assert!(s.should_exclude("build/out.tmp"));
    assert!(s.should_exclude("docs/Thumbs.db"));
    assert!(!s.should_exclude("src/main.rs"));
    let only = FileScanner::with_config(
        1,
        ScanConfig {
            include_dirs: false,
            exclude_patterns: vec![],
            max_file_size: 0,
            include_extensions: vec!["JPG".to_string(), "png".to_string()],
        },
    );
    assert!(!only.should_exclude("a/b.jpg"));
    assert!(!only.should_exclude("a/b.PNG"));
    assert!(only.should_exclude("a/b.gif"));
    assert!(only.should_exclude("a/b"));
}

#[test]
fn collect_keeps_files_and_drops_what_is_excluded() {
    let s = FileScanner::with_config(
        8,
        ScanConfig {
            include_dirs: false,
            exclude_patterns: vec!["*.tmp".to_string()],
            max_file_size: 100,
            include_extensions: vec![],
        },
    );
    assert_eq!(s.max_concurrent(), 8);
    assert_eq!(s.config().max_file_size, 100);
    let tree = s
        .collect(vec![
            entry("b.txt", 10, false),
            entry("dir", 0, true),
            entry("a.tmp", 1, false),
            entry("big.bin", 101, false),
            entry("edge.bin", 100, false),
            entry("b.txt", 20, false),
        ])
        .unwrap();
    let got: Vec<(String, u64)> = tree.entries().iter().map(|f| (f.path.clone(), f.size)).collect();
    assert_eq!(got, vec![("b.txt".to_string(), 20), ("edge.bin".to_string(), 100)]);
}

#[test]
fn collect_can_include_directories() {
    let s = FileScanner::with_config(
        1,
        ScanConfig { include_dirs: true, exclude_patterns: vec![], max_file_size: 0, include_extensions: vec![] },
    );
    let tree = s.collect(vec![entry("d", 0, true), entry("d/f", 3, false)]).unwrap();
    assert_eq!(tree.len(), 2);
    assert!(tree.get("d").unwrap().is_dir);
}

#[test]
fn cancelled_scan_gives_nothing() {
    let flag = Arc::new(AtomicBool::new(false));
    let s = FileScanner::with_cancel(flag.clone());
    assert!(!s.is_cancelled());
    assert_eq!(s.collect(vec![entry("a", 1, false)]).unwrap().len(), 1);
    flag.store(true, Ordering::Relaxed);
    assert!(s.is_cancelled());
    assert!(s.collect(vec![entry("a", 1, false)]).is_none());
    assert!(!FileScanner::default().is_cancelled());
    assert!(!FileScanner::new(3).is_cancelled());
}

#[test]
fn default_exclusions_keep_to_the_bounds_of_a_component() {
    let s = FileScanner::new(1);
    assert!(s.should_exclude(".git/config"));
    assert!(s.should_exclude("A/THUMBS.DB"));
    assert!(s.should_exclude("x.TMP"));
    assert!(!s.should_exclude("src/main.rs"));
    assert!(!s.should_exclude(".gitignore"));
    assert!(!s.should_exclude(".github/workflows/ci.yml"));
    assert!(!s.should_exclude("node_modules_old/x.js"));
    assert!(s.should_exclude("node_modules/x.js"));
    assert!(s.should_exclude(".svn"));
}

#[test]
fn lies_around_decides_by_whole_components() {
    let chars = |t: &str| t.chars().collect::<Vec<char>>();
    assert!(lies_around(&chars("a/b"), &chars(""), &chars("")));
    assert!(lies_around(&chars("a/b"), &chars("a"), &chars("")));
    assert!(lies_around(&chars("a"), &chars("a"), &chars("")));
    assert!(!lies_around(&chars("ab"), &chars("a"), &chars("")));
    assert!(lies_around(&chars("a/b"), &chars(""), &chars("b")));
    assert!(lies_around(&chars("b"), &chars(""), &chars("b")));
    assert!(!lies_around(&chars("ab"), &chars(""), &chars("b")));
    assert!(lies_around(&chars("a/b"), &chars("a"), &chars("b")));
    assert!(lies_around(&chars("a/x/b"), &chars("a"), &chars("b")));
    assert!(!lies_around(&chars("a/"), &chars("a"), &chars("a")));
    assert!(!lies_around(&chars("a/xb"), &chars("a"), &chars("b")));
}

#[test]
fn extension_dot_is_found_in_the_last_component_only() {
    let at = |t: &str| extension_dot(&t.chars().collect::<Vec<char>>());
    assert_eq!(at("a.txt"), Some(1));
    assert_eq!(at("d.x/a.tar.gz"), Some(9));
    assert_eq!(at("d.x/file"), None);
    assert_eq!(at(".env"), None);
    assert_eq!(at("d/.env"), None);
    assert_eq!(at(""), None);
    assert_eq!(at("a."), Some(1));
}

#[test]
fn scanners_made_without_settings_leave_out_the_usual_patterns() {
    let expected = vec![".git/**", ".svn/**", "node_modules/**", ".DS_Store", "Thumbs.db", "*.tmp", "*.temp", "~*"];
    let flag = Arc::new(AtomicBool::new(false));
    for scanner in [FileScanner::new(8), FileScanner::default(), FileScanner::with_cancel(flag)] {
        let config = scanner.config();
        assert_eq!(config.exclude_patterns, expected);
        assert!(config.include_extensions.is_empty());
        assert_eq!(config.max_file_size, 0);
        assert!(!config.include_dirs);
    }
}
