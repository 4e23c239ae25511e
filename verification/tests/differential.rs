use std::collections::{BTreeSet, HashMap};
use synctools::comparator::{FileComparator, SyncAction};
use synctools::models::SyncMode;
use synctools::scanner::{extension_of, FileScanner};
use synctools::storage::{unquoted, webdav_name, FileInfo, LocalStorage};
use synctools::text::{
    compare_paths, contains_str, decimal_text, slashes_forward, strip_leading, without_end, without_start, PathOrder,
};
use synctools::tree::FileTree;

/// A small generator of texts over an alphabet, the same on every run.
struct Texts {
    state: u64,
}

impl Texts {
    fn new(seed: u64) -> Self {
        Texts { state: seed }
    }

    fn next(&mut self) -> u64 {
        self.state = self.state.wrapping_mul(6364136223846793005).wrapping_add(1442695040888963407);
        self.state >> 33
    }

    fn text(&mut self, alphabet: &[char], max_len: u64) -> String {
        let len = self.next() % (max_len + 1);
        (0..len).map(|_| alphabet[(self.next() % alphabet.len() as u64) as usize]).collect()
    }
}

/// Glob matching written with the string functions of the standard
/// library and the regular expressions of `regex`.
fn glob_by_std(path: &str, pattern: &str) -> bool {
    let path = path.to_lowercase();
    let pattern = pattern.to_lowercase();
    if pattern.contains("**") {
        let parts: Vec<&str> = pattern.split("**").collect();
        if parts.len() == 2 {
            let prefix = parts[0].trim_end_matches('/');
            let suffix = parts[1].trim_start_matches('/');
            if prefix.is_empty() && suffix.is_empty() {
                return true;
            }
            let under = path == prefix || path.starts_with(&format!("{}/", prefix));
            let named = path == suffix || path.ends_with(&format!("/{}", suffix));
            if suffix.is_empty() {
                return under;
            }
            if prefix.is_empty() {
                return named;
            }
            return path.starts_with(&format!("{}/", prefix))
                && path.ends_with(&format!("/{}", suffix))
                && path.chars().count() > prefix.chars().count() + suffix.chars().count();
        }
    }
    if pattern.contains('*') {
        let source = pattern.replace('.', "\\.").replace('*', ".*");
        if let Ok(re) = regex::Regex::new(&format!("^{}$", source)) {
            return re.is_match(&path);
        }
    }
    path == pattern || path.ends_with(&format!("/{}", pattern))
}

#[test]
fn glob_agrees_with_the_standard_string_functions() {
    let scanner = FileScanner::new(1);
    let mut gen = Texts::new(7);
    let path_letters = ['a', 'B', '/', '.', 'c', '~'];
    let pattern_letters = ['a', 'b', '/', '.', '*', '*', 'C', '~', '('];
    let mut seen_match = 0;
    for _ in 0..4000 {
        let path = gen.text(&path_letters, 8);
        let pattern = gen.text(&pattern_letters, 6);
        let expected = glob_by_std(&path, &pattern);
        assert_eq!(scanner.matches_pattern(&path, &pattern), expected, "path {:?} pattern {:?}", path, pattern);
        if expected {
            seen_match += 1;
        }
    }
    assert!(seen_match > 100);
}

#[test]
fn default_exclusions_agree_with_the_standard_string_functions() {
    let scanner = FileScanner::new(1);
    let patterns = [".git/**", ".svn/**", "node_modules/**", ".DS_Store", "Thumbs.db", "*.tmp", "*.temp", "~*"];
    let paths = [
        ".git/HEAD",
        "a/.git/HEAD",
        ".gitignore",
        "node_modules/x/y.js",
        "src/node_modules/x",
        ".DS_Store",
        "a/.ds_store",
        "Thumbs.db",
        "x/thumbs.db.bak",
        "a.tmp",
        "a.TMP",
        "a.tmpl",
        "dir/b.temp",
        "~lock",
        "dir/~lock",
        "readme.md",
        "",
    ];
    for path in paths {
        let expected = patterns.iter().any(|p| glob_by_std(path, p));
        assert_eq!(scanner.should_exclude(path), expected, "path {:?}", path);
    }
}

#[test]
fn extension_agrees_with_the_standard_path_on_plain_paths() {
    let mut gen = Texts::new(11);
    let letters = ['a', 'b', '.', '/'];
    let mut compared = 0;
    for _ in 0..4000 {
        let path = gen.text(&letters, 8);
        // Paths with components of dots only, or with slashes at the end,
        // are read differently by the path type of the platform.
        let plain = !path.ends_with('/')
            && !path.split('/').any(|part| part == "." || part == "..")
            && !path.is_empty();
        if !plain {
            continue;
        }
        let expected =
            std::path::Path::new(&path).extension().and_then(|e| e.to_str()).unwrap_or_default().to_string();
        assert_eq!(extension_of(&path), expected, "path {:?}", path);
        compared += 1;
    }
    assert!(compared > 1000);
}

#[test]
fn text_functions_agree_with_the_standard_library() {
    let mut gen = Texts::new(3);
    let letters = ['a', '/', '\\', '"', 'h', 't', 'p', ':', 'é'];
    for _ in 0..3000 {
        let s = gen.text(&letters, 10);
        let t = gen.text(&letters, 3);
        assert_eq!(slashes_forward(&s), s.replace('\\', "/"));
        assert_eq!(without_start(&s, '/'), s.trim_start_matches('/'));
        assert_eq!(without_end(&s, '/'), s.trim_end_matches('/'));
        assert_eq!(unquoted(&s), s.trim_matches('"'));
        assert_eq!(contains_str(&s, &t), s.contains(t.as_str()), "{:?} in {:?}", t, s);
        if !t.is_empty() {
            assert_eq!(strip_leading(&s, &t), s.trim_start_matches(t.as_str()), "{:?} off {:?}", t, s);
        }
        assert_eq!(LocalStorage::relative_path(&s), s.trim_start_matches('/').trim_start_matches('\\'));
        assert_eq!(LocalStorage::normalize_path(&s), s.replace('\\', "/"));
        let expected = match s.cmp(&t) {
            std::cmp::Ordering::Less => PathOrder::Before,
            std::cmp::Ordering::Equal => PathOrder::Same,
            std::cmp::Ordering::Greater => PathOrder::After,
        };
        assert_eq!(compare_paths(&s, &t), expected);
    }
    for address in ["https://h", "http://h", "https://http://h", "http://https://h", "ftp://h", ""] {
        assert_eq!(
            webdav_name(address),
            format!("webdav://{}", address.trim_start_matches("https://").trim_start_matches("http://"))
        );
    }
    let mut n: u64 = 1;
    for _ in 0..64 {
        assert_eq!(decimal_text(n), n.to_string());
        assert_eq!(decimal_text(n - 1), (n - 1).to_string());
        n = n.wrapping_mul(3).wrapping_add(7);
    }
}

/// The plan made with a hash map and a sort of the standard library.
fn plan_by_std(source: &[FileInfo], dest: &[FileInfo], mode: SyncMode) -> Vec<String> {
    let s: HashMap<&str, &FileInfo> = source.iter().map(|f| (f.path.as_str(), f)).collect();
    let d: HashMap<&str, &FileInfo> = dest.iter().map(|f| (f.path.as_str(), f)).collect();
    let paths: BTreeSet<&str> = s.keys().chain(d.keys()).copied().collect();
    let mut planned: Vec<(u8, String, String)> = Vec::new();
    for p in paths {
        let action = match (s.get(p), d.get(p)) {
            (Some(a), Some(b)) => {
                if a.is_dir && b.is_dir {
                    continue;
                }
                if a.size == b.size {
                    (3, format!("skip {}", p))
                } else if mode == SyncMode::Bidirectional {
                    (1, format!("conflict {}", p))
                } else {
                    (0, format!("copy {} {} false", p, a.size))
                }
            }
            (Some(a), None) => {
                if a.is_dir {
                    continue;
                }
                (0, format!("copy {} {} false", p, a.size))
            }
            (None, Some(b)) => {
                if b.is_dir {
                    continue;
                }
                match mode {
                    SyncMode::Mirror => (2, format!("delete {}", p)),
                    SyncMode::Bidirectional => (0, format!("copy {} {} true", p, b.size)),
                    SyncMode::Backup => (3, format!("skip {}", p)),
                }
            }
            (None, None) => continue,
        };
        planned.push((action.0, p.to_string(), action.1));
    }
    planned.sort();
    planned.into_iter().map(|(_, _, text)| text).collect()
}

fn describe(a: &SyncAction) -> String {
    match a {
        SyncAction::Copy { source_path, size, reverse, .. } => format!("copy {} {} {}", source_path, size, reverse),
        SyncAction::Delete { path, .. } => format!("delete {}", path),
        SyncAction::Skip { path } => format!("skip {}", path),
        SyncAction::Conflict { path, .. } => format!("conflict {}", path),
    }
}

#[test]
fn plan_agrees_with_a_plan_made_by_map_and_sort() {
    let mut gen = Texts::new(5);
    let letters = ['a', 'b', '/', 'Z', 'é'];
    for round in 0..300 {
        let mut listing = |gen: &mut Texts| -> Vec<FileInfo> {
            let count = gen.next() % 8;
            let mut files: Vec<FileInfo> = Vec::new();
            for _ in 0..count {
                let path = gen.text(&letters, 3);
                if files.iter().any(|f| f.path == path) {
                    continue;
                }
                files.push(FileInfo {
                    path,
                    size: gen.next() % 3,
                    modified_time: 0,
                    is_dir: gen.next() % 5 == 0,
                    checksum: None,
                });
            }
            files
        };
        let source = listing(&mut gen);
        let dest = listing(&mut gen);
        let mode = [SyncMode::Mirror, SyncMode::Bidirectional, SyncMode::Backup][round % 3];
        let actions = FileComparator::default().compare_trees(
            &FileTree::from_listing(source.clone()),
            &FileTree::from_listing(dest.clone()),
            &mode,
        );
        let got: Vec<String> = actions.iter().map(describe).collect();
        assert_eq!(got, plan_by_std(&source, &dest, mode), "source {:?} dest {:?}", source, dest);
    }
}
