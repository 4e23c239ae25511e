//! What the command surface shows: the differences of an analysis,
//! unfinished transfers, the history, and the probe of a connection.

use vstd::prelude::*;
use vstd::string::StringExecFns;
use crate::comparator::action_views;
use crate::comparator::ActionSummary;
use crate::comparator::SyncAction;
use crate::comparator::SyncActionView;
use crate::storage::webdav_address;
use crate::storage::webdav_endpoint;
use crate::storage::FileInfoView;
use crate::transfer::transfer_status_name;
use crate::transfer::TransferState;
use crate::tree::has_path;
use crate::tree::lookup;
use crate::tree::FileTree;

verus! {

/// One difference between the two sides.
#[derive(Debug, Clone)]
pub struct DiffAction {
    pub action_type: String,
    pub path: String,
    pub size: u64,
    pub reverse: bool,
    pub source_exists: bool,
    pub dest_exists: bool,
}

/// Mathematical value of a [`DiffAction`].
pub struct DiffActionView {
    pub action_type: Seq<char>,
    pub path: Seq<char>,
    pub size: u64,
    pub reverse: bool,
    pub source_exists: bool,
    pub dest_exists: bool,
}

impl View for DiffAction {
    type V = DiffActionView;

    open spec fn view(&self) -> DiffActionView {
        DiffActionView {
            action_type: self.action_type@,
            path: self.path@,
            size: self.size,
            reverse: self.reverse,
            source_exists: self.source_exists,
            dest_exists: self.dest_exists,
        }
    }
}

/// The result of an analysis.
#[derive(Debug, Clone)]
pub struct DiffResult {
    pub source_name: String,
    pub dest_name: String,
    pub source_files: usize,
    pub dest_files: usize,
    pub actions: Vec<DiffAction>,
    pub copy_count: usize,
    pub delete_count: usize,
    pub skip_count: usize,
    pub conflict_count: usize,
    pub total_bytes: u64,
    /// When the listing of the source was cached; 0 where it was scanned.
    pub source_cached_at: u64,
    /// When the listing of the destination was cached; 0 where it was scanned.
    pub dest_cached_at: u64,
}

/// The size of the file under `p`, or 0 where there is none.
pub open spec fn size_in(tree: Seq<FileInfoView>, p: Seq<char>) -> u64 {
    match lookup(tree, p) {
        Some(f) => f.size,
        None => 0,
    }
}

/// How an action is shown: a copy with its size and direction, a deletion
/// with the size of the file on the destination, a skip and a conflict
/// with the size of the file on the source; and on which sides the file is.
pub open spec fn shown(action: SyncActionView, source: Seq<FileInfoView>, dest: Seq<FileInfoView>) -> DiffActionView {
    match action {
        SyncActionView::Copy { source_path, size, reverse, .. } => DiffActionView {
            action_type: "copy"@,
            path: source_path,
            size,
            reverse,
            source_exists: !reverse || has_path(source, source_path),
            dest_exists: reverse || has_path(dest, source_path),
        },
        SyncActionView::Delete { path, from_dest } => DiffActionView {
            action_type: "delete"@,
            path,
            size: size_in(dest, path),
            reverse: false,
            source_exists: !from_dest,
            dest_exists: from_dest,
        },
        SyncActionView::Skip { path } => DiffActionView {
            action_type: "skip"@,
            path,
            size: size_in(source, path),
            reverse: false,
            source_exists: true,
            dest_exists: true,
        },
        SyncActionView::Conflict { path, .. } => DiffActionView {
            action_type: "conflict"@,
            path,
            size: size_in(source, path),
            reverse: false,
            source_exists: has_path(source, path),
            dest_exists: has_path(dest, path),
        },
    }
}

fn size_of(tree: &FileTree, path: &str) -> (size: u64)
    ensures
        size == size_in(tree@, path@),
{
    match tree.get(path) {
        Some(f) => f.size,
        None => 0,
    }
}

/// How `action` is shown.
pub fn diff_action(action: &SyncAction, source: &FileTree, dest: &FileTree) -> (r: DiffAction)
    ensures
        r@ == shown(action@, source@, dest@),
{
    match action {
        SyncAction::Copy { source_path, size, reverse, .. } => DiffAction {
            action_type: String::from_str("copy"),
            path: source_path.clone(),
            size: *size,
            reverse: *reverse,
            source_exists: !*reverse || source.contains_key(source_path.as_str()),
            dest_exists: *reverse || dest.contains_key(source_path.as_str()),
        },
        SyncAction::Delete { path, from_dest } => DiffAction {
            action_type: String::from_str("delete"),
            path: path.clone(),
            size: size_of(dest, path.as_str()),
            reverse: false,
            source_exists: !*from_dest,
            dest_exists: *from_dest,
        },
        SyncAction::Skip { path } => DiffAction {
            action_type: String::from_str("skip"),
            path: path.clone(),
            size: size_of(source, path.as_str()),
            reverse: false,
            source_exists: true,
            dest_exists: true,
        },
        SyncAction::Conflict { path, .. } => DiffAction {
            action_type: String::from_str("conflict"),
            path: path.clone(),
            size: size_of(source, path.as_str()),
            reverse: false,
            source_exists: source.contains_key(path.as_str()),
            dest_exists: dest.contains_key(path.as_str()),
        },
    }
}

/// The values of a list of differences.
pub open spec fn diff_views(list: Seq<DiffAction>) -> Seq<DiffActionView> {
    list.map_values(|d: DiffAction| d@)
}

/// The result of the analysis of two trees with the given plan: every
/// action as it is shown, in the order of the plan, and the counts of the
/// summary, copies in both directions taken together.
pub fn build_diff(
    source_name: &str,
    dest_name: &str,
    source: &FileTree,
    dest: &FileTree,
    actions: &Vec<SyncAction>,
    summary: &ActionSummary,
    source_cached_at: u64,
    dest_cached_at: u64,
) -> (r: DiffResult)
    requires
        summary.copy_count + summary.reverse_copy_count <= usize::MAX,
        summary.copy_bytes + summary.reverse_copy_bytes <= u64::MAX,
    ensures
        r.source_name@ == source_name@,
        r.dest_name@ == dest_name@,
        r.source_files == source@.len(),
        r.dest_files == dest@.len(),
        diff_views(r.actions@) == action_views(actions@).map_values(
            |a: SyncActionView| shown(a, source@, dest@),
        ),
        r.copy_count == summary.copy_count + summary.reverse_copy_count,
        r.delete_count == summary.delete_count,
        r.skip_count == summary.skip_count,
        r.conflict_count == summary.conflict_count,
        r.total_bytes == summary.copy_bytes + summary.reverse_copy_bytes,
        r.source_cached_at == source_cached_at,
        r.dest_cached_at == dest_cached_at,
{
    let mut list: Vec<DiffAction> = Vec::new();
    let ghost want = action_views(actions@).map_values(|a: SyncActionView| shown(a, source@, dest@));
    let mut i: usize = 0;
    assert(diff_views(list@) =~= want.take(0));
    while i < actions.len()
        invariant
            i <= actions@.len(),
            want == action_views(actions@).map_values(|a: SyncActionView| shown(a, source@, dest@)),
            diff_views(list@) == want.take(i as int),
        decreases actions@.len() - i,
    {
        let ghost before = diff_views(list@);
        let item = diff_action(&actions[i], source, dest);
        let ghost added = item@;
        list.push(item);
        assert(diff_views(list@) =~= before.push(added));
        assert(want.take(i + 1) =~= want.take(i as int).push(added));
        i = i + 1;
    }
    assert(want.take(actions@.len() as int) =~= want);
    DiffResult {
        source_name: String::from_str(source_name),
        dest_name: String::from_str(dest_name),
        source_files: source.len(),
        dest_files: dest.len(),
        actions: list,
        copy_count: summary.copy_count + summary.reverse_copy_count,
        delete_count: summary.delete_count,
        skip_count: summary.skip_count,
        conflict_count: summary.conflict_count,
        total_bytes: summary.copy_bytes + summary.reverse_copy_bytes,
        source_cached_at,
        dest_cached_at,
    }
}

/// A transfer that is still to be finished.
#[derive(Debug, Clone)]
pub struct PendingTransfer {
    pub id: String,
    pub file_path: String,
    pub total_size: u64,
    pub transferred_size: u64,
    pub status: String,
}

impl PendingTransfer {
    /// How the state of a transfer is shown.
    pub fn from_state(state: TransferState) -> (r: PendingTransfer)
        ensures
            r.id == state.id,
            r.file_path == state.file_path,
            r.total_size == state.total_size,
            r.transferred_size == state.transferred_size,
            r.status@ == transfer_status_name(state.status),
    {
        PendingTransfer {
            id: state.id,
            file_path: state.file_path,
            total_size: state.total_size,
            transferred_size: state.transferred_size,
            status: state.status.to_text(),
        }
    }
}

/// One run in the history.
#[derive(Debug, Clone)]
pub struct SyncHistoryEntry {
    pub id: i64,
    pub job_id: String,
    pub start_time: i64,
    pub end_time: Option<i64>,
    pub status: String,
    pub files_scanned: i64,
    pub files_copied: i64,
    pub files_deleted: Option<i64>,
    pub files_skipped: Option<i64>,
    pub files_failed: Option<i64>,
    pub bytes_transferred: i64,
    pub error_message: Option<String>,
}

impl SyncHistoryEntry {
    /// The entry of a stored row; the store keeps no counts of skipped and
    /// failed files.
    pub fn from_columns(
        id: i64,
        job_id: String,
        start_time: i64,
        end_time: Option<i64>,
        status: String,
        files_scanned: i64,
        files_copied: i64,
        files_deleted: Option<i64>,
        bytes_transferred: i64,
        error_message: Option<String>,
    ) -> (r: SyncHistoryEntry)
        ensures
            r.id == id,
            r.job_id == job_id,
            r.start_time == start_time,
            r.end_time == end_time,
            r.status == status,
            r.files_scanned == files_scanned,
            r.files_copied == files_copied,
            r.files_deleted == files_deleted,
            r.files_skipped is None,
            r.files_failed is None,
            r.bytes_transferred == bytes_transferred,
            r.error_message == error_message,
    {
        SyncHistoryEntry {
            id,
            job_id,
            start_time,
            end_time,
            status,
            files_scanned,
            files_copied,
            files_deleted,
            files_skipped: None,
            files_failed: None,
            bytes_transferred,
            error_message,
        }
    }
}

/// What the probe of a connection found.
#[derive(Debug, Clone)]
pub struct TestConnectionResult {
    pub success: bool,
    pub message: String,
    pub details: Option<String>,
}

/// What is needed to probe a WebDAV storage.
#[derive(Debug, Clone)]
pub struct WebDavProbe {
    pub address: String,
    pub username: String,
    pub password: String,
}

/// What is needed to probe a WebDAV storage with the given settings, or
/// the refusal that names the first setting that is missing: the
/// endpoint, the user name, then the password.
pub fn webdav_probe(
    webdav_endpoint_setting: Option<&str>,
    root: Option<&str>,
    username: Option<&str>,
    password: Option<&str>,
) -> (r: Result<WebDavProbe, String>)
    ensures
        match r {
            Ok(probe) => {
                &&& webdav_endpoint_setting is Some
                &&& username is Some
                &&& password is Some
                &&& probe.address@ == webdav_address(
                    webdav_endpoint_setting->0@,
                    match root {
                        Some(t) => Some(t@),
                        None => None,
                    },
                )
                &&& probe.username@ == username->0@
                &&& probe.password@ == password->0@
            },
            Err(e) => if webdav_endpoint_setting is None {
                e@ == "WebDAV endpoint 不能为空"@
            } else if username is None {
                e@ == "WebDAV 用户名不能为空"@
            } else {
                password is None && e@ == "WebDAV 密码不能为空"@
            },
        },
{
    let endpoint = match webdav_endpoint_setting {
        Some(e) => e,
        None => {
            return Err(String::from_str("WebDAV endpoint 不能为空"));
        },
    };
    let user = match username {
        Some(u) => u,
        None => {
            return Err(String::from_str("WebDAV 用户名不能为空"));
        },
    };
    let pass = match password {
        Some(p) => p,
        None => {
            return Err(String::from_str("WebDAV 密码不能为空"));
        },
    };
    Ok(
        WebDavProbe {
            address: webdav_endpoint(endpoint, root),
            username: String::from_str(user),
            password: String::from_str(pass),
        },
    )
}

/// The result of the probe of a WebDAV storage at `address`, which
/// succeeded or failed with the given error.
pub fn webdav_probe_result(address: String, error: Option<&str>) -> (r: TestConnectionResult)
    ensures
        match error {
            None => r.success && r.message@ == "WebDAV 连接成功"@ && r.details == Some(address),
            Some(e) => !r.success && r.message@ == "WebDAV 连接失败"@ && r.details is Some
                && r.details->0@ == "检查凭证和服务器地址: "@ + e@,
        },
{
    match error {
        None => TestConnectionResult {
            success: true,
            message: String::from_str("WebDAV 连接成功"),
            details: Some(address),
        },
        Some(e) => TestConnectionResult {
            success: false,
            message: String::from_str("WebDAV 连接失败"),
            details: Some(String::from_str("检查凭证和服务器地址: ").concat(e)),
        },
    }
}

/// The result of the probe of a storage of a type that is not known.
pub fn unsupported_type_result() -> (r: TestConnectionResult)
    ensures
        !r.success,
        r.message@ == "不支持的存储类型"@,
        r.details is None,
{
    TestConnectionResult {
        success: false,
        message: String::from_str("不支持的存储类型"),
        details: None,
    }
}

/// The kind of storage that a probe is asked for.
#[derive(Debug, Clone, Copy, PartialEq, Eq, Structural)]
pub enum ProbeKind {
    Local,
    S3,
    WebDav,
    Unsupported,
}

/// The kind of storage that a type name asks for.
pub fn probe_kind(typ: &str) -> (k: ProbeKind)
    ensures
        k == if typ@ == "local"@ {
            ProbeKind::Local
        } else if typ@ == "s3"@ {
            ProbeKind::S3
        } else if typ@ == "webdav"@ {
            ProbeKind::WebDav
        } else {
            ProbeKind::Unsupported
        },
{
    if crate::text::str_equal(typ, "local") {
        ProbeKind::Local
    } else if crate::text::str_equal(typ, "s3") {
        ProbeKind::S3
    } else if crate::text::str_equal(typ, "webdav") {
        ProbeKind::WebDav
    } else {
        ProbeKind::Unsupported
    }
}

/// The path of a local storage to probe, or the refusal where none is given.
pub fn local_probe(path: Option<&str>) -> (r: Result<String, String>)
    ensures
        match r {
            Ok(p) => path is Some && p@ == path->0@,
            Err(e) => path is None && e@ == "本地路径不能为空"@,
        },
{
    match path {
        Some(p) => Ok(String::from_str(p)),
        None => Err(String::from_str("本地路径不能为空")),
    }
}

/// The result of the probe of the local directory `path`, of which the
/// file system tells whether it exists, is a directory and can only be read.
pub fn local_probe_result(path: &str, exists: bool, is_dir: bool, readonly: bool) -> (r:
    TestConnectionResult)
    ensures
        r.success == (exists && is_dir),
        r.details is Some,
        !exists ==> r.message@ == "路径不存在"@ && r.details->0@ == "路径 '"@ + path@ + "' 不存在"@,
        exists && !is_dir ==> r.message@ == "路径不是文件夹"@ && r.details->0@ == "'"@ + path@
            + "' 不是一个文件夹"@,
        exists && is_dir ==> r.message@ == "连接成功"@ && r.details->0@ == if readonly {
            "只读访问"@
        } else {
            "读写访问"@
        },
{
    if !exists {
        let mut details = String::from_str("路径 '");
        details.append(path);
        details.append("' 不存在");
        TestConnectionResult {
            success: false,
            message: String::from_str("路径不存在"),
            details: Some(details),
        }
    } else if !is_dir {
        let mut details = String::from_str("'");
        details.append(path);
        details.append("' 不是一个文件夹");
        TestConnectionResult {
            success: false,
            message: String::from_str("路径不是文件夹"),
            details: Some(details),
        }
    } else {
        TestConnectionResult {
            success: true,
            message: String::from_str("连接成功"),
            details: Some(
                if readonly {
                    String::from_str("只读访问")
                } else {
                    String::from_str("读写访问")
                },
            ),
        }
    }
}

/// What is needed to probe an S3 storage.
#[derive(Debug, Clone)]
pub struct S3Probe {
    pub bucket: String,
    pub region: String,
    pub access_key: String,
    pub secret_key: String,
    /// The endpoint, where one is given that is not empty.
    pub endpoint: Option<String>,
}

/// What is needed to probe an S3 storage with the given settings, or the
/// refusal that names the first setting that is missing: the bucket, the
/// region, the access key, then the secret key.
pub fn s3_probe(
    bucket: Option<&str>,
    region: Option<&str>,
    access_key: Option<&str>,
    secret_key: Option<&str>,
    endpoint: Option<&str>,
) -> (r: Result<S3Probe, String>)
    ensures
        match r {
            Ok(probe) => {
                &&& bucket is Some && probe.bucket@ == bucket->0@
                &&& region is Some && probe.region@ == region->0@
                &&& access_key is Some && probe.access_key@ == access_key->0@
                &&& secret_key is Some && probe.secret_key@ == secret_key->0@
                &&& match probe.endpoint {
                    Some(e) => endpoint is Some && endpoint->0@.len() > 0 && e@ == endpoint->0@,
                    None => endpoint is None || endpoint->0@.len() == 0,
                }
            },
            Err(e) => if bucket is None {
                e@ == "S3 bucket 不能为空"@
            } else if region is None {
                e@ == "S3 region 不能为空"@
            } else if access_key is None {
                e@ == "Access Key 不能为空"@
            } else {
                secret_key is None && e@ == "Secret Key 不能为空"@
            },
        },
{
    let b = match bucket {
        Some(b) => b,
        None => {
            return Err(String::from_str("S3 bucket 不能为空"));
        },
    };
    let r = match region {
        Some(r) => r,
        None => {
            return Err(String::from_str("S3 region 不能为空"));
        },
    };
    let a = match access_key {
        Some(a) => a,
        None => {
            return Err(String::from_str("Access Key 不能为空"));
        },
    };
    let s = match secret_key {
        Some(s) => s,
        None => {
            return Err(String::from_str("Secret Key 不能为空"));
        },
    };
    Ok(
        S3Probe {
            bucket: String::from_str(b),
            region: String::from_str(r),
            access_key: String::from_str(a),
            secret_key: String::from_str(s),
            endpoint: match endpoint {
                Some(e) => if e.is_empty() {
                    None
                } else {
                    Some(String::from_str(e))
                },
                None => None,
            },
        },
    )
}

/// The result of the probe of the S3 bucket `bucket`, which succeeded or
/// failed with the given error.
pub fn s3_probe_result(bucket: &str, error: Option<&str>) -> (r: TestConnectionResult)
    ensures
        r.details is Some,
        match error {
            None => r.success && r.message@ == "S3 连接成功"@ && r.details->0@ == "Bucket: "@
                + bucket@,
            Some(e) => !r.success && r.message@ == "S3 连接失败"@ && r.details->0@
                == "检查凭证和 bucket 名称: "@ + e@,
        },
{
    match error {
        None => TestConnectionResult {
            success: true,
            message: String::from_str("S3 连接成功"),
            details: Some(String::from_str("Bucket: ").concat(bucket)),
        },
        Some(e) => TestConnectionResult {
            success: false,
            message: String::from_str("S3 连接失败"),
            details: Some(String::from_str("检查凭证和 bucket 名称: ").concat(e)),
        },
    }
}

/// Whether a text can be the new name of a file: it holds no separator
/// of paths.
pub fn is_plain_name(name: &str) -> (b: bool)
    ensures
        b == (!name@.contains('/') && !name@.contains('\\')),
{
    let v = crate::text::chars_of(name);
    !crate::text::occurs_from(&v, 0, '/') && !crate::text::occurs_from(&v, 0, '\\')
}

} // verus!
