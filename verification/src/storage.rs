//! Backend-independent descriptions of stored files.

use vstd::prelude::*;
use vstd::string::StringExecFns;
use crate::models::StorageConfig;
use crate::models::StorageType;
use crate::table::has_key;
use crate::table::Keyed;
use crate::table::PathTable;
use crate::text::chars_of;
use crate::text::replaced;
use crate::text::slashes_forward;
use crate::text::str_equal;
use crate::text::strip_leading;
use crate::text::text_between;
use crate::text::trim_end;
use crate::text::trim_start;
use crate::text::without_end;
use crate::text::without_leading;
use crate::text::without_start;

verus! {

/// One entry of a backend listing.
#[derive(Debug, Clone)]
pub struct FileInfo {
    pub path: String,
    pub size: u64,
    pub modified_time: i64,
    pub is_dir: bool,
    pub checksum: Option<String>,
}

/// Mathematical value of a [`FileInfo`].
pub struct FileInfoView {
    pub path: Seq<char>,
    pub size: u64,
    pub modified_time: i64,
    pub is_dir: bool,
    pub checksum: Option<Seq<char>>,
}

impl View for FileInfo {
    type V = FileInfoView;

    open spec fn view(&self) -> FileInfoView {
        FileInfoView {
            path: self.path@,
            size: self.size,
            modified_time: self.modified_time,
            is_dir: self.is_dir,
            checksum: match self.checksum {
                Some(s) => Some(s@),
                None => None,
            },
        }
    }
}

/// The value of an optional entry.
pub open spec fn info_view(info: Option<FileInfo>) -> Option<FileInfoView> {
    match info {
        Some(f) => Some(f@),
        None => None,
    }
}

impl FileInfo {
    /// A field-by-field copy.
    pub fn duplicate(&self) -> (r: FileInfo)
        ensures
            r@ == self@,
    {
        FileInfo {
            path: self.path.clone(),
            size: self.size,
            modified_time: self.modified_time,
            is_dir: self.is_dir,
            checksum: match &self.checksum {
                Some(s) => Some(s.clone()),
                None => None,
            },
        }
    }
}

/// Seconds allowed to an operation that moves no file content.
pub const OP_TIMEOUT_SECS: u64 = 60;

/// Seconds allowed to an operation that reads or writes file content.
pub const IO_TIMEOUT_SECS: u64 = 300;

/// Seconds allowed to open a connection.
pub const HTTP_CONNECT_TIMEOUT_SECS: u64 = 30;

/// Most directories that are remembered as created.
pub const MAX_DIR_CACHE_SIZE: usize = 10000;

/// What a backend tells of one file.
#[derive(Debug, Clone)]
pub struct FileMeta {
    pub size: u64,
    pub modified_time: i64,
    pub is_dir: bool,
    pub etag: Option<String>,
}

/// A slice of a file.
#[derive(Debug, Clone)]
pub struct FileChunk {
    pub data: Vec<u8>,
    pub offset: u64,
    pub size: usize,
}

/// A storage in a directory of the local file system.
#[derive(Debug, Clone)]
pub struct LocalStorage {
    base_path: String,
    name: String,
}

impl LocalStorage {
    /// The directory of the storage.
    pub closed spec fn base(&self) -> Seq<char> {
        self.base_path@
    }

    /// The name of the storage in logs.
    pub closed spec fn label(&self) -> Seq<char> {
        self.name@
    }

    /// The storage in the directory `path`.
    pub fn new(path: &str) -> (r: LocalStorage)
        ensures
            r.base() == path@,
            r.label() == "local:"@ + path@,
    {
        LocalStorage {
            base_path: String::from_str(path),
            name: String::from_str("local:").concat(path),
        }
    }

    /// The directory of the storage.
    pub fn base_path(&self) -> (p: &str)
        ensures
            p@ == self.base(),
    {
        self.base_path.as_str()
    }

    /// The name of the storage in logs.
    pub fn name(&self) -> (n: &str)
        ensures
            n@ == self.label(),
    {
        self.name.as_str()
    }

    /// The path below the directory of the storage that `path` names: the
    /// path without the slashes, and then the backslashes, at its start.
    /// An empty result names the directory itself.
    pub fn relative_path(path: &str) -> (r: String)
        ensures
            r@ == trim_start(trim_start(path@, '/'), '\\'),
    {
        without_start(without_start(path, '/').as_str(), '\\')
    }

    /// The path with forward slashes only.
    pub fn normalize_path(path: &str) -> (r: String)
        ensures
            r@ == replaced(path@, '\\', '/'),
    {
        slashes_forward(path)
    }
}

/// The path as a remote backend takes it: forward slashes only, none at
/// the start.
pub open spec fn remote_path(path: Seq<char>) -> Seq<char> {
    trim_start(replaced(path, '\\', '/'), '/')
}

/// The path as a remote backend takes it.
pub fn normalize_remote_path(path: &str) -> (r: String)
    ensures
        r@ == remote_path(path@),
{
    without_start(slashes_forward(path).as_str(), '/')
}

/// The path of a listed entry relative to the root of the backend; the
/// root itself has none.
pub fn listed_path(path: &str) -> (r: Option<String>)
    ensures
        match r {
            Some(p) => path@.len() > 0 && path@ != "/"@ && p@ == trim_start(path@, '/'),
            None => path@.len() == 0 || path@ == "/"@,
        },
{
    if path.is_empty() || str_equal(path, "/") {
        None
    } else {
        Some(without_start(path, '/'))
    }
}

/// A checksum as a backend gives it, without the quotation marks around it.
pub fn unquoted(etag: &str) -> (r: String)
    ensures
        r@ == trim_end(trim_start(etag@, '"'), '"'),
{
    without_end(without_start(etag, '"').as_str(), '"')
}

/// The address of a WebDAV storage: the endpoint, followed, where a root
/// is given, by a slash and the root without the slashes around it.
pub open spec fn webdav_address(endpoint: Seq<char>, root: Option<Seq<char>>) -> Seq<char> {
    match root {
        Some(r) => if r.len() > 0 {
            trim_end(endpoint, '/') + "/"@ + trim_end(trim_start(r, '/'), '/')
        } else {
            endpoint
        },
        None => endpoint,
    }
}

/// The address of a WebDAV storage.
pub fn webdav_endpoint(endpoint: &str, root: Option<&str>) -> (r: String)
    ensures
        r@ == webdav_address(
            endpoint@,
            match root {
                Some(t) => Some(t@),
                None => None,
            },
        ),
{
    match root {
        Some(t) => {
            if t.is_empty() {
                String::from_str(endpoint)
            } else {
                let mut r = without_end(endpoint, '/');
                r.append("/");
                r.append(without_end(without_start(t, '/').as_str(), '/').as_str());
                r
            }
        },
        None => String::from_str(endpoint),
    }
}

/// The name of a WebDAV storage in logs: its address without the scheme.
pub fn webdav_name(address: &str) -> (r: String)
    ensures
        r@ == "webdav://"@ + without_leading(without_leading(address@, "https://"@), "http://"@),
{
    let bare = strip_leading(strip_leading(address, "https://").as_str(), "http://");
    String::from_str("webdav://").concat(bare.as_str())
}

/// The address of a file of a WebDAV storage, given its normalised path.
pub fn webdav_url(endpoint: &str, path: &str) -> (r: String)
    ensures
        r@ == if path@.len() == 0 {
            trim_end(endpoint@, '/')
        } else {
            trim_end(endpoint@, '/') + "/"@ + path@
        },
{
    let mut r = without_end(endpoint, '/');
    if !path.is_empty() {
        r.append("/");
        r.append(path);
    }
    r
}

/// The path of the marker that stands for a directory: the path with a
/// slash at its end.
pub fn dir_marker(path: &str) -> (r: String)
    ensures
        r@ == if path@.len() > 0 && path@.last() == '/' {
            path@
        } else {
            path@ + "/"@
        },
{
    let v = chars_of(path);
    if v.len() > 0 && v[v.len() - 1] == '/' {
        String::from_str(path)
    } else {
        String::from_str(path).concat("/")
    }
}

/// The name of an S3 storage in logs.
pub fn s3_name(bucket: &str, prefix: Option<&str>) -> (r: String)
    ensures
        r@ == match prefix {
            Some(p) => "s3://"@ + bucket@ + "/"@ + p@,
            None => "s3://"@ + bucket@,
        },
{
    let mut r = String::from_str("s3://");
    r.append(bucket);
    match prefix {
        Some(p) => {
            r.append("/");
            r.append(p);
        },
        None => {},
    }
    r
}

/// What is needed to open a storage.
#[derive(Debug, Clone)]
pub enum StoragePlan {
    Local { path: String },
    S3 {
        bucket: String,
        region: String,
        access_key: String,
        secret_key: String,
        endpoint: Option<String>,
        prefix: Option<String>,
    },
    WebDav { endpoint: String, username: String, password: String, root: Option<String> },
}

/// The setting that a configuration lacks for its type of storage, named
/// as the refusal names it; `None` where it lacks none. The settings are
/// looked at in the order in which the type lists them.
pub open spec fn missing_setting(config: StorageConfig) -> Option<Seq<char>> {
    match config.typ {
        StorageType::Local => if config.path is None {
            Some("Local storage requires path"@)
        } else {
            None
        },
        StorageType::S3 => if config.bucket is None {
            Some("S3 storage requires bucket"@)
        } else if config.region is None {
            Some("S3 storage requires region"@)
        } else if config.accessKey is None {
            Some("S3 storage requires accessKey"@)
        } else if config.secretKey is None {
            Some("S3 storage requires secretKey"@)
        } else {
            None
        },
        StorageType::WebDav => if config.webdavEndpoint is None {
            Some("WebDAV storage requires endpoint"@)
        } else if config.username is None {
            Some("WebDAV storage requires username"@)
        } else if config.password is None {
            Some("WebDAV storage requires password"@)
        } else {
            None
        },
    }
}

fn copy_text(s: &Option<String>) -> (r: Option<String>)
    ensures
        r == *s,
{
    match s {
        Some(t) => Some(t.clone()),
        None => None,
    }
}

/// What is needed to open the storage of a configuration, or the refusal
/// that names the first setting that the configuration lacks.
pub fn storage_plan(config: &StorageConfig) -> (r: Result<StoragePlan, String>)
    ensures
        match r {
            Ok(plan) => missing_setting(*config) is None && match plan {
                StoragePlan::Local { path } => config.typ == StorageType::Local && config.path
                    == Some(path),
                StoragePlan::S3 { bucket, region, access_key, secret_key, endpoint, prefix } => {
                    &&& config.typ == StorageType::S3
                    &&& config.bucket == Some(bucket)
                    &&& config.region == Some(region)
                    &&& config.accessKey == Some(access_key)
                    &&& config.secretKey == Some(secret_key)
                    &&& config.endpoint == endpoint
                    &&& config.prefix == prefix
                },
                StoragePlan::WebDav { endpoint, username, password, root } => {
                    &&& config.typ == StorageType::WebDav
                    &&& config.webdavEndpoint == Some(endpoint)
                    &&& config.username == Some(username)
                    &&& config.password == Some(password)
                    &&& config.root == root
                },
            },
            Err(e) => missing_setting(*config) == Some(e@),
        },
{
    match config.typ {
        StorageType::Local => match &config.path {
            Some(path) => Ok(StoragePlan::Local { path: path.clone() }),
            None => Err(String::from_str("Local storage requires path")),
        },
        StorageType::S3 => {
            let bucket = match &config.bucket {
                Some(b) => b.clone(),
                None => {
                    return Err(String::from_str("S3 storage requires bucket"));
                },
            };
            let region = match &config.region {
                Some(b) => b.clone(),
                None => {
                    return Err(String::from_str("S3 storage requires region"));
                },
            };
            let access_key = match &config.accessKey {
                Some(b) => b.clone(),
                None => {
                    return Err(String::from_str("S3 storage requires accessKey"));
                },
            };
            let secret_key = match &config.secretKey {
                Some(b) => b.clone(),
                None => {
                    return Err(String::from_str("S3 storage requires secretKey"));
                },
            };
            Ok(
                StoragePlan::S3 {
                    bucket,
                    region,
                    access_key,
                    secret_key,
                    endpoint: copy_text(&config.endpoint),
                    prefix: copy_text(&config.prefix),
                },
            )
        },
        StorageType::WebDav => {
            let endpoint = match &config.webdavEndpoint {
                Some(b) => b.clone(),
                None => {
                    return Err(String::from_str("WebDAV storage requires endpoint"));
                },
            };
            let username = match &config.username {
                Some(b) => b.clone(),
                None => {
                    return Err(String::from_str("WebDAV storage requires username"));
                },
            };
            let password = match &config.password {
                Some(b) => b.clone(),
                None => {
                    return Err(String::from_str("WebDAV storage requires password"));
                },
            };
            Ok(StoragePlan::WebDav { endpoint, username, password, root: copy_text(&config.root) })
        },
    }
}

/// The end of the byte range that starts at `offset` and has `length`
/// bytes; `None` where it lies beyond what can be addressed.
pub fn range_end(offset: u64, length: u64) -> (end: Option<u64>)
    ensures
        match end {
            Some(e) => e == offset + length,
            None => offset + length > u64::MAX,
        },
{
    if length > u64::MAX - offset {
        None
    } else {
        Some(offset + length)
    }
}

/// Position `k` of `path` is a slash that ends the name of a directory
/// above the file: it is not the first or the last character and does not
/// follow another slash.
pub open spec fn ends_dir(path: Seq<char>, k: int) -> bool {
    0 < k < path.len() - 1 && path[k] == '/' && path[k - 1] != '/'
}

/// The directories above a file among the first `n` characters of its
/// path, the outermost first, each with the slash at its end.
pub open spec fn dirs_within(path: Seq<char>, n: nat) -> Seq<Seq<char>>
    decreases n,
{
    if n == 0 {
        Seq::<Seq<char>>::empty()
    } else if ends_dir(path, n - 1) {
        dirs_within(path, (n - 1) as nat).push(path.take(n as int))
    } else {
        dirs_within(path, (n - 1) as nat)
    }
}

/// The directories above a file, the outermost first.
pub open spec fn dirs_above(path: Seq<char>) -> Seq<Seq<char>> {
    dirs_within(path, path.len())
}

/// The directories above the file with the given normalised path.
pub fn parent_dirs(path: &str) -> (dirs: Vec<String>)
    ensures
        dirs@.map_values(|s: String| s@) == dirs_above(path@),
{
    let v = chars_of(path);
    let n = v.len();
    let mut dirs: Vec<String> = Vec::new();
    let mut i: usize = 0;
    assert(dirs@.map_values(|s: String| s@) =~= dirs_within(path@, 0));
    while i < n
        invariant
            n == v@.len(),
            v@ == path@,
            i <= n,
            dirs@.map_values(|s: String| s@) == dirs_within(path@, i as nat),
        decreases n - i,
    {
        let ghost before = dirs@.map_values(|s: String| s@);
        if i > 0 && i < n - 1 && v[i] == '/' && v[i - 1] != '/' {
            let dir = text_between(path, 0, i + 1);
            assert(path@.subrange(0, i + 1) =~= path@.take(i + 1));
            dirs.push(dir);
            assert(dirs@.map_values(|s: String| s@) =~= before.push(path@.take(i + 1)));
        }
        i = i + 1;
    }
    dirs
}

/// The name of a directory that was created.
#[derive(Debug, Clone)]
pub struct DirName {
    pub name: String,
}

impl View for DirName {
    type V = Seq<char>;

    open spec fn view(&self) -> Seq<char> {
        self.name@
    }
}

impl Keyed for DirName {
    open spec fn key_of(v: Seq<char>) -> Seq<char> {
        v
    }

    fn key(&self) -> (k: &str) {
        self.name.as_str()
    }

    fn duplicate(&self) -> (r: DirName) {
        DirName { name: self.name.clone() }
    }
}

/// The directories that are known to exist because they were created.
/// When as many are known as the limit allows, all are forgotten before
/// the next is remembered.
#[derive(Debug)]
pub struct DirCache {
    known: PathTable<DirName>,
    limit: usize,
}

/// Those of `dirs` that are not among `known`, in their order.
pub open spec fn unknown_dirs(dirs: Seq<Seq<char>>, known: Seq<Seq<char>>) -> Seq<Seq<char>> {
    dirs.filter(|d: Seq<char>| !has_key::<DirName>(known, d))
}

impl DirCache {
    /// The directories known, in order.
    pub closed spec fn names(&self) -> Seq<Seq<char>> {
        self.known@
    }

    /// How many directories are remembered at most.
    pub closed spec fn capacity(&self) -> usize {
        self.limit
    }

    /// Whether `dir` is known to exist.
    pub open spec fn knows(&self, dir: Seq<char>) -> bool {
        has_key::<DirName>(self.names(), dir)
    }

    /// The directories known at the start: the root alone.
    pub fn new() -> (r: DirCache)
        ensures
            r.capacity() == MAX_DIR_CACHE_SIZE,
            forall|d: Seq<char>| r.knows(d) <==> d == "/"@,
    {
        DirCache::with_limit(MAX_DIR_CACHE_SIZE)
    }

    /// As `new`, with another limit.
    pub fn with_limit(limit: usize) -> (r: DirCache)
        ensures
            r.capacity() == limit,
            forall|d: Seq<char>| r.knows(d) <==> d == "/"@,
    {
        let mut known: PathTable<DirName> = PathTable::new();
        let ghost empty = known@;
        known.insert(DirName { name: String::from_str("/") });
        proof {
            assert forall|d: Seq<char>| has_key::<DirName>(known@, d) <==> d == "/"@ by {
                assert(crate::table::lookup_key::<DirName>(empty, d) is None);
                assert(crate::table::lookup_key::<DirName>(known@, d) == if d == "/"@ {
                    Some("/"@)
                } else {
                    crate::table::lookup_key::<DirName>(empty, d)
                });
            }
        }
        DirCache { known, limit }
    }

    /// How many directories are known.
    pub fn len(&self) -> (n: usize)
        ensures
            n == self.names().len(),
    {
        self.known.len()
    }

    /// Whether `dir` is known to exist.
    pub fn contains(&self, dir: &str) -> (b: bool)
        ensures
            b == self.knows(dir@),
    {
        self.known.contains_key(dir)
    }

    /// The directories to create before the file with the given normalised
    /// path is written: those above it that are not known, the outermost
    /// first. They are remembered as created; where the limit was reached
    /// and there is a directory to create, all others are forgotten first.
    #[verifier::rlimit(40)]
    pub fn dirs_to_create(&mut self, path: &str) -> (dirs: Vec<String>)
        ensures
            final(self).capacity() == old(self).capacity(),
            dirs@.map_values(|s: String| s@) == unknown_dirs(dirs_above(path@), old(self).names()),
            forall|d: Seq<char>|
                #[trigger] final(self).knows(d) <==> (dirs@.map_values(|s: String| s@).contains(d)
                    || (old(self).knows(d) && !(dirs@.len() > 0 && old(self).names().len() >= old(
                    self,
                ).capacity()))),
    {
        let above = parent_dirs(path);
        let ghost all = above@.map_values(|s: String| s@);
        let ghost known0 = self.names();
        let ghost raw = above@;
        let mut missing: Vec<String> = Vec::new();
        proof {
            assert(all.take(0) =~= Seq::<Seq<char>>::empty());
            assert(missing@.map_values(|s: String| s@) =~= unknown_dirs(all.take(0), known0));
        }
        for dir in it: above
            invariant
                it.seq() == raw,
                all == raw.map_values(|s: String| s@),
                known0 == self.names(),
                *self == *old(self),
                missing@.map_values(|s: String| s@) == unknown_dirs(
                    all.take(it.index() as int),
                    known0,
                ),
        {
            let ghost done = all.take(it.index() as int);
            let ghost before = missing@.map_values(|s: String| s@);
            proof {
                assert(all.take(it.index() + 1) =~= done.push(dir@));
                reveal(Seq::filter);
                assert(done.push(dir@).drop_last() =~= done);
            }
            if !self.known.contains_key(dir.as_str()) {
                let ghost added = dir@;
                missing.push(dir);
                assert(missing@.map_values(|s: String| s@) =~= before.push(added));
            }
        }
        proof {
            assert(all.take(all.len() as int) =~= all);
        }
        let ghost wanted = missing@.map_values(|s: String| s@);
        if missing.len() > 0 && self.known.len() >= self.limit {
            self.known = PathTable::new();
        }
        let ghost base = self.names();
        let ghost reset = missing@.len() > 0 && known0.len() >= old(self).capacity();
        proof {
            assert(wanted.take(0) =~= Seq::<Seq<char>>::empty());
            if reset {
                assert(base =~= Seq::<Seq<char>>::empty());
            } else {
                assert(base == known0);
            }
        }
        let mut i: usize = 0;
        while i < missing.len()
            invariant
                i <= missing@.len(),
                wanted == missing@.map_values(|s: String| s@),
                self.capacity() == old(self).capacity(),
                forall|d: Seq<char>|
                    #[trigger] has_key::<DirName>(self.names(), d) <==> (wanted.take(
                        i as int,
                    ).contains(d) || has_key::<DirName>(base, d)),
            decreases missing@.len() - i,
        {
            let ghost names0 = self.names();
            let ghost added = missing@[i as int]@;
            self.known.insert(DirName { name: missing[i].clone() });
            proof {
                let next = wanted.take(i + 1);
                assert(next =~= wanted.take(i as int).push(added));
                assert forall|d: Seq<char>|
                    #[trigger] has_key::<DirName>(self.names(), d) <==> (next.contains(d)
                        || has_key::<DirName>(base, d)) by {
                    assert(crate::table::lookup_key::<DirName>(self.names(), d) == if d == added {
                        Some(added)
                    } else {
                        crate::table::lookup_key::<DirName>(names0, d)
                    });
                    assert(has_key::<DirName>(names0, d) <==> (wanted.take(i as int).contains(d)
                        || has_key::<DirName>(base, d)));
                    if d == added {
                        assert(next[i as int] == d);
                    } else {
                        if wanted.take(i as int).contains(d) {
                            let k = choose|k: int|
                                0 <= k < wanted.take(i as int).len() && wanted.take(i as int)[k]
                                    == d;
                            assert(next[k] == d);
                        }
                        if next.contains(d) {
                            let k = choose|k: int| 0 <= k < next.len() && next[k] == d;
                            assert(wanted.take(i as int)[k] == d);
                        }
                    }
                }
            }
            i = i + 1;
        }
        proof {
            assert(wanted.take(missing@.len() as int) =~= wanted);
            assert forall|d: Seq<char>|
                #[trigger] self.knows(d) <==> (wanted.contains(d) || (old(self).knows(d)
                    && !reset)) by {
                assert(has_key::<DirName>(self.names(), d) <==> (wanted.contains(d)
                    || has_key::<DirName>(base, d)));
            }
        }
        missing
    }
}

impl LocalStorage {
    /// The entry of a listing for what the file system holds under
    /// `relative`, a path below the directory of the storage: the path
    /// with forward slashes, and no size for a directory. The directory of
    /// the storage itself has no entry.
    pub fn entry(relative: &str, is_dir: bool, len: u64, modified: i64) -> (r: Option<FileInfo>)
        ensures
            match r {
                Some(f) => relative@.len() > 0 && f@ == (FileInfoView {
                    path: replaced(relative@, '\\', '/'),
                    size: if is_dir {
                        0
                    } else {
                        len
                    },
                    modified_time: modified,
                    is_dir,
                    checksum: None,
                }),
                None => relative@.len() == 0,
            },
    {
        if relative.is_empty() {
            None
        } else {
            Some(
                FileInfo {
                    path: slashes_forward(relative),
                    size: if is_dir {
                        0
                    } else {
                        len
                    },
                    modified_time: modified,
                    is_dir,
                    checksum: None,
                },
            )
        }
    }

    /// What the file system tells of one file; a directory has no size.
    pub fn meta(is_dir: bool, len: u64, modified: i64) -> (r: FileMeta)
        ensures
            r.size == if is_dir {
                0
            } else {
                len
            },
            r.modified_time == modified,
            r.is_dir == is_dir,
            r.etag is None,
    {
        FileMeta {
            size: if is_dir {
                0
            } else {
                len
            },
            modified_time: modified,
            is_dir,
            etag: None,
        }
    }
}

/// The entry of a listing for what a remote backend lists under
/// `listed`: the path without the slashes at its start, the time of the
/// last change or 0 where none is told, and the checksum without the
/// quotation marks around it. The root has no entry.
pub fn remote_entry(
    listed: &str,
    content_length: u64,
    last_modified: Option<i64>,
    is_dir: bool,
    etag: Option<&str>,
) -> (r: Option<FileInfo>)
    ensures
        match r {
            Some(f) => listed@.len() > 0 && listed@ != "/"@ && f@ == (FileInfoView {
                path: trim_start(listed@, '/'),
                size: content_length,
                modified_time: match last_modified {
                    Some(t) => t,
                    None => 0,
                },
                is_dir,
                checksum: match etag {
                    Some(e) => Some(trim_end(trim_start(e@, '"'), '"')),
                    None => None,
                },
            }),
            None => listed@.len() == 0 || listed@ == "/"@,
        },
{
    match listed_path(listed) {
        Some(path) => Some(
            FileInfo {
                path,
                size: content_length,
                modified_time: match last_modified {
                    Some(t) => t,
                    None => 0,
                },
                is_dir,
                checksum: match etag {
                    Some(e) => Some(unquoted(e)),
                    None => None,
                },
            },
        ),
        None => None,
    }
}

/// What a remote backend tells of one file.
pub fn remote_meta(content_length: u64, last_modified: Option<i64>, is_dir: bool, etag: Option<&str>) -> (r:
    FileMeta)
    ensures
        r.size == content_length,
        r.modified_time == match last_modified {
            Some(t) => t,
            None => 0,
        },
        r.is_dir == is_dir,
        match etag {
            Some(e) => r.etag is Some && r.etag->0@ == trim_end(trim_start(e@, '"'), '"'),
            None => r.etag is None,
        },
{
    FileMeta {
        size: content_length,
        modified_time: match last_modified {
            Some(t) => t,
            None => 0,
        },
        is_dir,
        etag: match etag {
            Some(e) => Some(unquoted(e)),
            None => None,
        },
    }
}

/// A path as a remote backend takes it holds no backslash and does not
/// start with a slash, and bringing it into that form again changes nothing.
pub proof fn law_remote_path_is_normal(path: Seq<char>)
    ensures
        !remote_path(path).contains('\\'),
        remote_path(path).len() == 0 || remote_path(path)[0] != '/',
        remote_path(remote_path(path)) == remote_path(path),
{
    let forward = replaced(path, '\\', '/');
    let r = remote_path(path);
    crate::text::lemma_trim_start(forward, '/');
    assert(r.is_suffix_of(forward));
    let shift = forward.len() - r.len();
    assert forall|i: int| 0 <= i < r.len() implies r[i] != '\\' by {
        assert(forward.subrange(shift, forward.len() as int)[i] == forward[shift + i]);
    }
    assert(replaced(r, '\\', '/') =~= r);
}

} // verus!
