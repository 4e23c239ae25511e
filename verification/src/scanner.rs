//! The scanner's rules: which entries of a listing make up the file tree.

use std::sync::atomic::AtomicBool;
use std::sync::atomic::Ordering;
use std::sync::Arc;
use vstd::prelude::*;
use vstd::string::StrSliceExecFns;
use vstd::string::StringExecFns;
use crate::storage::FileInfo;
use crate::storage::FileInfoView;
use crate::text::chars_of;
use crate::text::find_text;
use crate::text::has_prefix;
use crate::text::has_suffix;
use crate::text::last_index_of;
use crate::text::lowercase;
use crate::text::to_lowercase;
use crate::text::occurs_at;
use crate::text::occurs_from;
use crate::text::str_equal;
use crate::text::sub_chars;
use crate::text::trim_end;
use crate::text::trim_end_len;
use crate::text::trim_start;
use crate::text::trim_start_len;
use crate::tree::FileTree;
use crate::tree::lookup;
use crate::tree::sorted_by_path;
use crate::tree::stored;

verus! {

/// What a scan leaves out.
#[derive(Debug, Clone)]
pub struct ScanConfig {
    /// Keep directories in the tree.
    pub include_dirs: bool,
    /// Glob patterns of paths to leave out (`**` and `*`; case-insensitive).
    pub exclude_patterns: Vec<String>,
    /// Largest file size kept; 0 for no limit.
    pub max_file_size: u64,
    /// Extensions kept; empty for all.
    pub include_extensions: Vec<String>,
}

/// The patterns that a scan leaves out unless it is told otherwise: what
/// lies under `.git`, `.svn` and `node_modules`, the files `.DS_Store`
/// and `Thumbs.db`, temporary files and files whose name begins with `~`.
pub open spec fn default_patterns() -> Seq<Seq<char>> {
    seq![
        ".git/**"@,
        ".svn/**"@,
        "node_modules/**"@,
        ".DS_Store"@,
        "Thumbs.db"@,
        "*.tmp"@,
        "*.temp"@,
        "~*"@,
    ]
}

/// The settings of a scan that is told nothing: no directories, no limit
/// on the size, every extension, and the default patterns left out.
pub open spec fn is_default_scan(cfg: ScanConfig) -> bool {
    &&& !cfg.include_dirs
    &&& cfg.max_file_size == 0
    &&& cfg.include_extensions@.len() == 0
    &&& cfg.exclude_patterns@.len() == default_patterns().len()
    &&& forall|i: int|
        0 <= i < cfg.exclude_patterns@.len() ==> (#[trigger] cfg.exclude_patterns@[i])@
            == default_patterns()[i]
}

impl Default for ScanConfig {
    fn default() -> (r: ScanConfig)
        ensures
            is_default_scan(r),
    {
        let mut patterns: Vec<String> = Vec::new();
        patterns.push(String::from_str(".git/**"));
        patterns.push(String::from_str(".svn/**"));
        patterns.push(String::from_str("node_modules/**"));
        patterns.push(String::from_str(".DS_Store"));
        patterns.push(String::from_str("Thumbs.db"));
        patterns.push(String::from_str("*.tmp"));
        patterns.push(String::from_str("*.temp"));
        patterns.push(String::from_str("~*"));
        ScanConfig {
            include_dirs: false,
            exclude_patterns: patterns,
            max_file_size: 0,
            include_extensions: Vec::new(),
        }
    }
}

/// Whether the regular expression `pattern` matches somewhere in `text`,
/// as the `regex` crate decides it; `None` where it does not accept
/// `pattern`.
pub uninterp spec fn regex_match(pattern: Seq<char>, text: Seq<char>) -> Option<bool>;

/// Calls `regex::Regex::new` on the pattern and, where that succeeds,
/// `Regex::is_match` on the text. Both depend on their arguments alone;
/// the outcome is left to the name `regex_match`.
#[verifier::external_body]
fn regex_is_match(pattern: &str, text: &str) -> (r: Option<bool>)
    ensures
        r == regex_match(pattern@, text@),
{
    match regex::Regex::new(pattern) {
        Ok(re) => Some(re.is_match(text)),
        Err(_) => None,
    }
}

/// The two-character wildcard `**`.
pub open spec fn double_star() -> Seq<char> {
    seq!['*', '*']
}

/// `**` occurs in `pattern` at `at`, nowhere before it and nowhere from
/// two characters further on: cutting at each `**` from the left gives
/// exactly two parts.
pub open spec fn splits_once(pattern: Seq<char>, at: int) -> bool {
    &&& occurs_at(pattern, double_star(), at)
    &&& forall|t: int| 0 <= t < at ==> !occurs_at(pattern, double_star(), t)
    &&& forall|t: int| at + 2 <= t ==> !occurs_at(pattern, double_star(), t)
}

/// The text as a regular expression: every `.` taken literally, every `*`
/// standing for any run of characters.
pub open spec fn regex_body(pattern: Seq<char>) -> Seq<char>
    decreases pattern.len(),
{
    if pattern.len() == 0 {
        Seq::<char>::empty()
    } else {
        regex_body(pattern.drop_last()) + regex_piece(pattern.last())
    }
}

/// What one character of a pattern becomes in the regular expression.
pub open spec fn regex_piece(c: char) -> Seq<char> {
    if c == '.' {
        seq!['\\', '.']
    } else if c == '*' {
        seq!['.', '*']
    } else {
        seq![c]
    }
}

/// The regular expression that must match the whole path.
pub open spec fn anchored(pattern: Seq<char>) -> Seq<char> {
    seq!['^'] + regex_body(pattern) + seq!['$']
}

/// The path is the pattern, or ends with `/` and the pattern.
pub open spec fn literal_match(path: Seq<char>, pattern: Seq<char>) -> bool {
    path == pattern || (seq!['/'] + pattern).is_suffix_of(path)
}

/// The path is the directory `dir` or lies under it.
pub open spec fn at_or_under(path: Seq<char>, dir: Seq<char>) -> bool {
    path == dir || (dir + seq!['/']).is_prefix_of(path)
}

/// A path between a directory and a name: it lies under `dir`, ends with
/// `/` and `name`, and is long enough to hold both.
pub open spec fn between(path: Seq<char>, dir: Seq<char>, name: Seq<char>) -> bool {
    &&& (dir + seq!['/']).is_prefix_of(path)
    &&& (seq!['/'] + name).is_suffix_of(path)
    &&& path.len() >= dir.len() + 1 + name.len()
}

/// A pattern with one `**`, which stands for any number of directories.
/// What stands before and after it counts without the slashes next to it:
/// the path lies at or under what stands before, and is, or ends with `/`
/// and, what stands after. Where one of the two is empty the other
/// decides, and where both are, every path matches.
pub open spec fn around_match(path: Seq<char>, before: Seq<char>, after: Seq<char>) -> bool {
    let dir = trim_end(before, '/');
    let name = trim_start(after, '/');
    if dir.len() == 0 && name.len() == 0 {
        true
    } else if name.len() == 0 {
        at_or_under(path, dir)
    } else if dir.len() == 0 {
        literal_match(path, name)
    } else {
        between(path, dir, name)
    }
}

/// Whether a lowercase path matches a lowercase glob pattern, given what
/// the regular expression of the pattern says of the path.
pub open spec fn glob_decision(path: Seq<char>, pattern: Seq<char>, regex: Option<bool>) -> bool {
    if exists|at: int| splits_once(pattern, at) {
        let at = choose|at: int| splits_once(pattern, at);
        around_match(path, pattern.take(at), pattern.skip(at + 2))
    } else if pattern.contains('*') {
        match regex {
            Some(b) => b,
            None => literal_match(path, pattern),
        }
    } else {
        literal_match(path, pattern)
    }
}

/// Whether a lowercase path matches a lowercase glob pattern.
pub open spec fn glob_matches(path: Seq<char>, pattern: Seq<char>) -> bool {
    glob_decision(path, pattern, regex_match(anchored(pattern), path))
}

/// The extension of a forward-slash path: what follows the last `.` of
/// its last component, where that `.` is not the component's first
/// character; empty otherwise. Slashes at the end of the path do not count.
pub open spec fn extension_text(path: Seq<char>) -> Seq<char> {
    let trimmed = trim_end(path, '/');
    if exists|k: int| is_extension_dot(trimmed, k) {
        trimmed.skip((choose|k: int| is_extension_dot(trimmed, k)) + 1)
    } else {
        Seq::<char>::empty()
    }
}

/// `k` is the last `.` of `path`, it stands in the last component and not
/// at that component's start.
pub open spec fn is_extension_dot(path: Seq<char>, k: int) -> bool {
    &&& 0 < k < path.len()
    &&& path[k] == '.'
    &&& path[k - 1] != '/'
    &&& forall|t: int| k < t < path.len() ==> path[t] != '.' && path[t] != '/'
}

/// Whether the scan leaves `path` out: it matches one of the patterns, or
/// extensions are restricted and its extension is none of those allowed.
/// Patterns, extensions and the path are compared in lowercase.
pub open spec fn excluded(cfg: ScanConfig, path: Seq<char>) -> bool {
    (exists|i: int|
        0 <= i < cfg.exclude_patterns@.len() && glob_matches(
            lowercase(path),
            lowercase(#[trigger] cfg.exclude_patterns@[i]@),
        )) || (cfg.include_extensions@.len() > 0 && !exists|j: int|
        0 <= j < cfg.include_extensions@.len() && lowercase(#[trigger] cfg.include_extensions@[j]@)
            == lowercase(extension_text(path)))
}

/// Whether an entry of a listing is kept in the tree.
pub open spec fn kept(cfg: ScanConfig, f: FileInfoView) -> bool {
    &&& !(f.is_dir && !cfg.include_dirs)
    &&& !excluded(cfg, f.path)
    &&& !(cfg.max_file_size > 0 && f.size > cfg.max_file_size)
}

/// The entries of a listing that are kept, in their order.
pub open spec fn kept_entries(cfg: ScanConfig, listing: Seq<FileInfoView>) -> Seq<FileInfoView> {
    listing.filter(|f: FileInfoView| kept(cfg, f))
}

/// What is known of a glob match before the regular expression is asked.
#[derive(Debug, Clone)]
pub enum GlobStage {
    /// The pattern decides by itself.
    Decided(bool),
    /// The regular expression with this source text has to be asked.
    AskRegex(String),
}

/// The first stage of a glob match on lowercase texts: patterns with one
/// `**` and patterns without `*` are decided, the others give the regular
/// expression to ask.
#[verifier::rlimit(40)]
pub fn glob_stage(path: &str, pattern: &str) -> (r: GlobStage)
    ensures
        match r {
            GlobStage::Decided(b) => forall|regex: Option<bool>|
                b == glob_decision(path@, pattern@, regex),
            GlobStage::AskRegex(source) => source@ == anchored(pattern@) && forall|
                regex: Option<bool>,
            |
                glob_decision(path@, pattern@, regex) == match regex {
                    Some(b) => b,
                    None => literal_match(path@, pattern@),
                },
        },
{
    let p = chars_of(path);
    let g = chars_of(pattern);
    let glen = g.len();
    let mut stars: Vec<char> = Vec::new();
    stars.push('*');
    stars.push('*');
    assert(stars@ =~= double_star());
    match find_text(&g, &stars, 0) {
        Some(at) => {
            assert(at + 2 <= g@.len());
            match find_text(&g, &stars, at + 2) {
                None => {
                    proof {
                        assert(splits_once(pattern@, at as int));
                        lemma_split_unique(pattern@, at as int);
                    }
                    let before = sub_chars(&g, 0, at);
                    let after = sub_chars(&g, at + 2, glen);
                    assert(before@ =~= pattern@.take(at as int));
                    assert(after@ =~= pattern@.skip(at + 2));
                    let keep = trim_end_len(&before, '/');
                    let drop = trim_start_len(&after, '/');
                    let prefix = sub_chars(&before, 0, keep);
                    let suffix = sub_chars(&after, drop, after.len());
                    assert(prefix@ =~= trim_end(before@, '/'));
                    assert(suffix@ =~= trim_start(after@, '/'));
                    return GlobStage::Decided(lies_around(&p, &prefix, &suffix));
                },
                Some(second) => {
                    proof {
                        assert forall|t: int| !splits_once(pattern@, t) by {
                            if splits_once(pattern@, t) {
                                if t < at {
                                    assert(occurs_at(pattern@, double_star(), t));
                                } else if t > at {
                                    assert(occurs_at(pattern@, double_star(), at as int));
                                } else {
                                    assert(occurs_at(pattern@, double_star(), second as int));
                                }
                            }
                        }
                        assert(pattern@[at as int] == double_star()[0]) by {
                            assert(pattern@.subrange(at as int, at + 2)[0] == pattern@[at as int]);
                        }
                        assert(pattern@.contains('*'));
                    }
                },
            }
        },
        None => {
            proof {
                assert forall|t: int| !splits_once(pattern@, t) by {
                    if splits_once(pattern@, t) {
                        assert(occurs_at(pattern@, double_star(), t));
                        assert(t >= 0);
                    }
                }
            }
        },
    }
    assert(!exists|at: int| splits_once(pattern@, at));
    let mut star: Vec<char> = Vec::new();
    star.push('*');
    match find_text(&g, &star, 0) {
        Some(k) => {
            proof {
                assert(pattern@.subrange(k as int, k + 1)[0] == pattern@[k as int]);
                assert(pattern@.contains('*'));
            }
            GlobStage::AskRegex(regex_source(pattern))
        },
        None => {
            proof {
                if pattern@.contains('*') {
                    let k = choose|k: int| 0 <= k < pattern@.len() && pattern@[k] == '*';
                    assert(pattern@.subrange(k, k + 1) =~= star@);
                    assert(occurs_at(pattern@, star@, k));
                }
            }
            GlobStage::Decided(literal_matches(path, pattern))
        },
    }
}

fn same_chars(a: &Vec<char>, b: &Vec<char>) -> (r: bool)
    ensures
        r == (a@ == b@),
{
    if a.len() != b.len() {
        return false;
    }
    let r = has_prefix(a, b);
    proof {
        if r {
            assert(a@ =~= b@);
        }
    }
    r
}

/// Whether the path lies around a `**` with `dir` before it and `name`
/// after it, both without the slashes next to the `**`.
pub fn lies_around(path: &Vec<char>, dir: &Vec<char>, name: &Vec<char>) -> (r: bool)
    ensures
        r == if dir@.len() == 0 && name@.len() == 0 {
            true
        } else if name@.len() == 0 {
            at_or_under(path@, dir@)
        } else if dir@.len() == 0 {
            literal_match(path@, name@)
        } else {
            between(path@, dir@, name@)
        },
{
    if dir.len() == 0 && name.len() == 0 {
        return true;
    }
    let mut under: Vec<char> = Vec::new();
    let mut i: usize = 0;
    while i < dir.len()
        invariant
            i <= dir@.len(),
            under@ == dir@.take(i as int),
        decreases dir@.len() - i,
    {
        under.push(dir[i]);
        assert(dir@.take(i + 1) =~= dir@.take(i as int).push(dir@[i as int]));
        i = i + 1;
    }
    assert(dir@.take(dir@.len() as int) =~= dir@);
    under.push('/');
    assert(under@ =~= dir@ + seq!['/']);
    let mut tail: Vec<char> = Vec::new();
    tail.push('/');
    let mut j: usize = 0;
    while j < name.len()
        invariant
            j <= name@.len(),
            tail@ == seq!['/'] + name@.take(j as int),
        decreases name@.len() - j,
    {
        tail.push(name[j]);
        assert(name@.take(j + 1) =~= name@.take(j as int).push(name@[j as int]));
        j = j + 1;
    }
    assert(name@.take(name@.len() as int) =~= name@);
    if name.len() == 0 {
        same_chars(path, dir) || has_prefix(path, &under)
    } else if dir.len() == 0 {
        same_chars(path, name) || has_suffix(path, &tail)
    } else {
        has_prefix(path, &under) && has_suffix(path, &tail) && path.len() - dir.len() > name.len()
    }
}

/// The last stage of a glob match on lowercase texts, given what the
/// regular expression of the pattern said of the path.
pub fn glob_finish(path: &str, pattern: &str, regex: Option<bool>) -> (r: bool)
    ensures
        r == match regex {
            Some(b) => b,
            None => literal_match(path@, pattern@),
        },
{
    match regex {
        Some(b) => b,
        None => literal_matches(path, pattern),
    }
}

proof fn lemma_split_unique(pattern: Seq<char>, at: int)
    requires
        splits_once(pattern, at),
    ensures
        forall|t: int| splits_once(pattern, t) ==> t == at,
{
    assert forall|t: int| splits_once(pattern, t) implies t == at by {
        if t < at {
            assert(occurs_at(pattern, double_star(), t));
        } else if at < t {
            assert(occurs_at(pattern, double_star(), at));
        }
    }
}

/// Whether the path is the pattern or ends with `/` and the pattern.
pub fn literal_matches(path: &str, pattern: &str) -> (r: bool)
    ensures
        r == literal_match(path@, pattern@),
{
    if str_equal(path, pattern) {
        return true;
    }
    let p = chars_of(path);
    let g = chars_of(pattern);
    let mut tail: Vec<char> = Vec::new();
    tail.push('/');
    let mut i: usize = 0;
    while i < g.len()
        invariant
            i <= g@.len(),
            tail@ == seq!['/'] + g@.take(i as int),
        decreases g@.len() - i,
    {
        tail.push(g[i]);
        assert(g@.take(i + 1) =~= g@.take(i as int).push(g@[i as int]));
        i = i + 1;
    }
    assert(g@.take(g@.len() as int) =~= g@);
    has_suffix(&p, &tail)
}

/// The source text of the regular expression for a pattern.
pub fn regex_source(pattern: &str) -> (source: String)
    ensures
        source@ == anchored(pattern@),
{
    let n = pattern.unicode_len();
    let mut body = String::from_str("^");
    proof {
        reveal_strlit("^");
        reveal_strlit("$");
        reveal_strlit("\\.");
        reveal_strlit(".*");
        assert(body@ =~= seq!['^'] + regex_body(pattern@.take(0)));
    }
    let mut i: usize = 0;
    while i < n
        invariant
            n == pattern@.len(),
            i <= n,
            body@ == seq!['^'] + regex_body(pattern@.take(i as int)),
            "\\."@ == seq!['\\', '.'],
            ".*"@ == seq!['.', '*'],
        decreases n - i,
    {
        let c = pattern.get_char(i);
        proof {
            let next = pattern@.take(i + 1);
            assert(next.drop_last() =~= pattern@.take(i as int));
            assert(next.last() == c);
        }
        if c == '.' {
            body.append("\\.");
        } else if c == '*' {
            body.append(".*");
        } else {
            let piece = pattern.substring_char(i, i + 1);
            assert(piece@ =~= seq![c]);
            body.append(piece);
        }
        i = i + 1;
    }
    assert(pattern@.take(n as int) =~= pattern@);
    body.append("$");
    assert("$"@ =~= seq!['$']);
    body
}

/// Walks listings and keeps what the configuration admits.
pub struct FileScanner {
    max_concurrent: usize,
    config: ScanConfig,
    cancel_flag: Option<Arc<AtomicBool>>,
}

impl FileScanner {
    /// The settings of this scanner.
    pub closed spec fn settings(&self) -> ScanConfig {
        self.config
    }

    /// How many listings this scanner walks at a time.
    pub closed spec fn width(&self) -> usize {
        self.max_concurrent
    }

    /// Whether this scanner can be cancelled.
    pub closed spec fn cancellable(&self) -> bool {
        self.cancel_flag is Some
    }

    /// A scanner with the default settings.
    pub fn new(max_concurrent: usize) -> (r: FileScanner)
        ensures
            r.width() == max_concurrent,
            !r.cancellable(),
            is_default_scan(r.settings()),
    {
        FileScanner { max_concurrent, config: ScanConfig::default(), cancel_flag: None }
    }

    /// A scanner with the given settings.
    pub fn with_config(max_concurrent: usize, config: ScanConfig) -> (r: FileScanner)
        ensures
            r.width() == max_concurrent,
            r.settings() == config,
            !r.cancellable(),
    {
        FileScanner { max_concurrent, config, cancel_flag: None }
    }

    /// A scanner with the default settings that stops when the flag is set.
    pub fn with_cancel(cancel_flag: Arc<AtomicBool>) -> (r: FileScanner)
        ensures
            r.width() == 8,
            r.cancellable(),
            is_default_scan(r.settings()),
    {
        FileScanner { max_concurrent: 8, config: ScanConfig::default(), cancel_flag: Some(cancel_flag) }
    }

    /// How many listings this scanner walks at a time.
    pub fn max_concurrent(&self) -> (n: usize)
        ensures
            n == self.width(),
    {
        self.max_concurrent
    }

    /// The settings of this scanner.
    pub fn config(&self) -> (c: &ScanConfig)
        ensures
            *c == self.settings(),
    {
        &self.config
    }

    /// Whether the scan has been cancelled. A scanner without a flag never is.
    pub fn is_cancelled(&self) -> (b: bool)
        ensures
            b ==> self.cancellable(),
    {
        match &self.cancel_flag {
            Some(flag) => flag.load(Ordering::Relaxed),
            None => false,
        }
    }

    /// Whether `path` matches the glob `pattern`, both taken in lowercase.
    pub fn matches_pattern(&self, path: &str, pattern: &str) -> (r: bool)
        ensures
            r == glob_matches(lowercase(path@), lowercase(pattern@)),
    {
        let path = to_lowercase(path);
        let pattern = to_lowercase(pattern);
        match glob_stage(path.as_str(), pattern.as_str()) {
            GlobStage::Decided(b) => b,
            GlobStage::AskRegex(source) => {
                let regex = regex_is_match(source.as_str(), path.as_str());
                glob_finish(path.as_str(), pattern.as_str(), regex)
            },
        }
    }

    /// Whether the scan leaves `path` out.
    pub fn should_exclude(&self, path: &str) -> (r: bool)
        ensures
            r == excluded(self.settings(), path@),
    {
        let mut i: usize = 0;
        while i < self.config.exclude_patterns.len()
            invariant
                i <= self.config.exclude_patterns@.len(),
                forall|k: int|
                    0 <= k < i ==> !glob_matches(
                        lowercase(path@),
                        lowercase(#[trigger] self.config.exclude_patterns@[k]@),
                    ),
            decreases self.config.exclude_patterns@.len() - i,
        {
            if self.matches_pattern(path, self.config.exclude_patterns[i].as_str()) {
                return true;
            }
            i = i + 1;
        }
        if self.config.include_extensions.len() > 0 {
            let ext = to_lowercase(extension_of(path).as_str());
            let mut j: usize = 0;
            while j < self.config.include_extensions.len()
                invariant
                    j <= self.config.include_extensions@.len(),
                    ext@ == lowercase(extension_text(path@)),
                    forall|k: int|
                        0 <= k < self.config.exclude_patterns@.len() ==> !glob_matches(
                            lowercase(path@),
                            lowercase(#[trigger] self.config.exclude_patterns@[k]@),
                        ),
                    forall|k: int|
                        0 <= k < j ==> lowercase(#[trigger] self.config.include_extensions@[k]@)
                            != ext@,
                decreases self.config.include_extensions@.len() - j,
            {
                let allowed = to_lowercase(self.config.include_extensions[j].as_str());
                if str_equal(allowed.as_str(), ext.as_str()) {
                    assert(lowercase(self.config.include_extensions@[j as int]@) == lowercase(
                        extension_text(path@),
                    ));
                    return false;
                }
                j = j + 1;
            }
            return true;
        }
        false
    }

    /// Whether an entry of a listing is kept.
    pub fn keeps(&self, file: &FileInfo) -> (r: bool)
        ensures
            r == kept(self.settings(), file@),
    {
        if file.is_dir && !self.config.include_dirs {
            return false;
        }
        if self.should_exclude(file.path.as_str()) {
            return false;
        }
        if self.config.max_file_size > 0 && file.size > self.config.max_file_size {
            return false;
        }
        true
    }

    /// The tree of a listing: every entry that is kept, under its path; of
    /// two kept entries with one path the later stays. The flag is looked
    /// at whenever the tree holds a multiple of 100 entries, and a scan
    /// that finds it set gives nothing. A scanner without a flag always
    /// gives the tree.
    pub fn collect(&self, listing: Vec<FileInfo>) -> (r: Option<FileTree>)
        ensures
            match r {
                Some(tree) => sorted_by_path(tree@) && forall|p: Seq<char>|
                    lookup(tree@, p) == stored(
                        Seq::<FileInfoView>::empty(),
                        kept_entries(self.settings(), listing@.map_values(|f: FileInfo| f@)),
                        p,
                    ),
                None => self.cancellable(),
            },
    {
        let mut tree = FileTree::new();
        let ghost raw = listing@;
        let ghost items = listing@.map_values(|f: FileInfo| f@);
        let ghost cfg = self.settings();
        proof {
            assert(items.take(0) =~= Seq::<FileInfoView>::empty());
            assert(kept_entries(cfg, items.take(0)) =~= Seq::<FileInfoView>::empty());
        }
        for file in it: listing
            invariant
                it.seq() == raw,
                items == raw.map_values(|f: FileInfo| f@),
                cfg == self.settings(),
                sorted_by_path(tree@),
                forall|p: Seq<char>|
                    lookup(tree@, p) == stored(
                        Seq::<FileInfoView>::empty(),
                        kept_entries(cfg, items.take(it.index() as int)),
                        p,
                    ),
        {
            if tree.len() % 100 == 0 && self.is_cancelled() {
                return None;
            }
            let ghost done = items.take(it.index() as int);
            let ghost next = items.take(it.index() + 1);
            proof {
                assert(next =~= done.push(file@));
                lemma_kept_push(cfg, done, file@);
            }
            let ghost tree0 = tree@;
            let ghost added = file@;
            if self.keeps(&file) {
                tree.insert(file);
                proof {
                    let grown = kept_entries(cfg, next);
                    assert(grown.last() == added);
                    assert(grown.drop_last() =~= kept_entries(cfg, done));
                    assert forall|p: Seq<char>|
                        lookup(tree@, p) == stored(Seq::<FileInfoView>::empty(), grown, p) by {
                        assert(lookup(tree0, p) == stored(
                            Seq::<FileInfoView>::empty(),
                            kept_entries(cfg, done),
                            p,
                        ));
                    }
                }
            }
        }
        proof {
            assert(items.take(items.len() as int) =~= items);
        }
        Some(tree)
    }
}

impl Default for FileScanner {
    fn default() -> (r: FileScanner)
        ensures
            r.width() == 8,
            !r.cancellable(),
            is_default_scan(r.settings()),
    {
        FileScanner::new(8)
    }
}

proof fn lemma_kept_push(cfg: ScanConfig, done: Seq<FileInfoView>, f: FileInfoView)
    ensures
        kept_entries(cfg, done.push(f)) == if kept(cfg, f) {
            kept_entries(cfg, done).push(f)
        } else {
            kept_entries(cfg, done)
        },
{
    let pred = |x: FileInfoView| kept(cfg, x);
    reveal(Seq::filter);
    assert(done.push(f).drop_last() =~= done);
}

/// Where the extension of a forward-slash path begins: the place of the
/// `.` before it, if the path has one.
pub fn extension_dot(path: &Vec<char>) -> (r: Option<usize>)
    ensures
        match r {
            Some(k) => is_extension_dot(path@, k as int),
            None => forall|x: int| !is_extension_dot(path@, x),
        },
{
    match last_index_of(path, '.') {
        Some(k) => {
            let n = path.len();
            assert(k < n);
            let clean = k > 0 && path[k - 1] != '/' && !occurs_from(path, k + 1, '/');
            if clean {
                Some(k)
            } else {
                proof {
                    assert forall|x: int| !is_extension_dot(path@, x) by {
                        if is_extension_dot(path@, x) {
                            if x < k {
                                assert(path@[k as int] == '.');
                            } else if x > k {
                                assert(path@[x] == '.');
                            }
                        }
                    }
                }
                None
            }
        },
        None => {
            proof {
                assert forall|x: int| !is_extension_dot(path@, x) by {
                    if is_extension_dot(path@, x) {
                        assert(path@[x] == '.');
                    }
                }
            }
            None
        },
    }
}

/// A path has at most one place where its extension begins.
pub proof fn lemma_extension_dot_is_unique(path: Seq<char>, a: int, b: int)
    requires
        is_extension_dot(path, a),
        is_extension_dot(path, b),
    ensures
        a == b,
{
    if a < b {
        assert(path[b] == '.');
    } else if b < a {
        assert(path[a] == '.');
    }
}

/// The extension of a forward-slash path.
pub fn extension_of(path: &str) -> (ext: String)
    ensures
        ext@ == extension_text(path@),
{
    let v = chars_of(path);
    let end = trim_end_len(&v, '/');
    let ghost trimmed = trim_end(path@, '/');
    let t = sub_chars(&v, 0, end);
    assert(t@ =~= trimmed);
    match extension_dot(&t) {
        Some(k) => {
            proof {
                assert forall|x: int| is_extension_dot(trimmed, x) implies x == k by {
                    lemma_extension_dot_is_unique(trimmed, x, k as int);
                }
            }
            let from = k + 1;
            assert(path@.subrange(from as int, end as int) =~= trimmed.skip(k + 1));
            String::from_str(path.substring_char(from, end))
        },
        None => String::new(),
    }
}

/// A pattern without `*` is matched by the paths that are the pattern or
/// end with `/` and the pattern, and by no others.
pub proof fn law_pattern_without_star(path: Seq<char>, pattern: Seq<char>)
    requires
        !pattern.contains('*'),
    ensures
        glob_matches(path, pattern) == literal_match(path, pattern),
{
    assert forall|at: int| !splits_once(pattern, at) by {
        if splits_once(pattern, at) {
            assert(pattern.subrange(at, at + 2)[0] == pattern[at]);
            assert(pattern[at] == '*');
        }
    }
}

/// A pattern that names a directory and ends in `/**` is matched by the
/// directory and by what lies under it, and by no other path: not by a
/// path that only begins with the same letters.
pub proof fn law_pattern_of_a_directory(path: Seq<char>, dir: Seq<char>)
    requires
        dir.len() > 0,
        dir.last() != '/',
        !dir.contains('*'),
    ensures
        glob_matches(path, dir + seq!['/', '*', '*']) == at_or_under(path, dir),
{
    let pattern = dir + seq!['/', '*', '*'];
    let at: int = dir.len() as int + 1;
    assert(pattern.subrange(at, at + 2) =~= double_star());
    assert forall|t: int| 0 <= t < at implies !occurs_at(pattern, double_star(), t) by {
        if occurs_at(pattern, double_star(), t) {
            assert(pattern.subrange(t, t + 2)[0] == pattern[t]);
            assert(pattern[t] == '*');
            if t < dir.len() {
                assert(dir[t] == '*');
            }
        }
    }
    assert(splits_once(pattern, at));
    lemma_split_unique(pattern, at);
    let before = pattern.take(at);
    assert(before =~= dir.push('/'));
    assert(before.drop_last() =~= dir);
    assert(trim_end(before, '/') == trim_end(dir, '/'));
    assert(trim_end(dir, '/') == dir);
    assert(pattern.skip(at + 2) =~= Seq::<char>::empty());
    assert(trim_start(Seq::<char>::empty(), '/') =~= Seq::<char>::empty());
}

/// A pattern with `*` but without `**` is matched by the paths that its
/// regular expression matches as a whole; where the pattern gives no
/// regular expression, it is taken as a pattern without `*`.
pub proof fn law_pattern_with_single_stars(path: Seq<char>, pattern: Seq<char>)
    requires
        pattern.contains('*'),
        forall|t: int| !occurs_at(pattern, double_star(), t),
    ensures
        glob_matches(path, pattern) == match regex_match(anchored(pattern), path) {
            Some(b) => b,
            None => literal_match(path, pattern),
        },
{
    assert forall|at: int| !splits_once(pattern, at) by {
        if splits_once(pattern, at) {
            assert(occurs_at(pattern, double_star(), at));
        }
    }
}

/// A scan with the default settings leaves out the paths that one of the
/// eight default patterns matches, and no others.
pub proof fn law_default_scan_goes_by_its_patterns(cfg: ScanConfig, path: Seq<char>)
    requires
        is_default_scan(cfg),
    ensures
        excluded(cfg, path) == exists|i: int|
            0 <= i < 8 && glob_matches(lowercase(path), lowercase(#[trigger] default_patterns()[i])),
{
    if excluded(cfg, path) {
        let i = choose|i: int|
            0 <= i < cfg.exclude_patterns@.len() && glob_matches(
                lowercase(path),
                lowercase(#[trigger] cfg.exclude_patterns@[i]@),
            );
        assert(cfg.exclude_patterns@[i]@ == default_patterns()[i]);
    }
    if exists|i: int|
        0 <= i < 8 && glob_matches(lowercase(path), lowercase(#[trigger] default_patterns()[i])) {
        let i = choose|i: int|
            0 <= i < 8 && glob_matches(lowercase(path), lowercase(#[trigger] default_patterns()[i]));
        assert(cfg.exclude_patterns@[i]@ == default_patterns()[i]);
    }
}

} // verus!
