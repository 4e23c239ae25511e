//! Persistent records: jobs, storage configurations, run status and reports.

use vstd::prelude::*;
use vstd::string::StringExecFns;
use crate::ambient::fresh_id;
use crate::ambient::clock_seconds;
use crate::text::str_equal;
use crate::text::trim_end;
use crate::text::trim_start;
use crate::text::without_end;
use crate::text::without_start;

verus! {

/// Kind of storage backend.
#[derive(Debug, Clone, Copy, PartialEq, Eq, Structural)]
pub enum StorageType {
    Local,
    S3,
    WebDav,
}

/// How the two sides of a job are reconciled.
#[derive(Debug, Clone, Copy, PartialEq, Eq, Structural)]
pub enum SyncMode {
    Bidirectional,
    Mirror,
    Backup,
}

/// Phase of a run.
#[derive(Debug, Clone, Copy, PartialEq, Eq, Structural)]
pub enum SyncStatus {
    Idle,
    Scanning,
    Comparing,
    Syncing,
    Completed,
    Failed,
    Cancelled,
}

/// The mode that a mode name stands for.
pub open spec fn mode_of_name(name: Seq<char>) -> Option<SyncMode> {
    if name == "bidirectional"@ {
        Some(SyncMode::Bidirectional)
    } else if name == "mirror"@ {
        Some(SyncMode::Mirror)
    } else if name == "backup"@ {
        Some(SyncMode::Backup)
    } else {
        None
    }
}

/// Reads a mode name; any other word is rejected with a message that quotes it.
pub fn parse_sync_mode(mode: &str) -> (r: Result<SyncMode, String>)
    ensures
        match r {
            Ok(m) => mode_of_name(mode@) == Some(m),
            Err(e) => mode_of_name(mode@) is None && e@ == "无效的同步模式: "@ + mode@,
        },
{
    if str_equal(mode, "bidirectional") {
        Ok(SyncMode::Bidirectional)
    } else if str_equal(mode, "mirror") {
        Ok(SyncMode::Mirror)
    } else if str_equal(mode, "backup") {
        Ok(SyncMode::Backup)
    } else {
        Err(String::from_str("无效的同步模式: ").concat(mode))
    }
}

/// The name of a storage type in the store.
pub open spec fn storage_type_name(kind: StorageType) -> Seq<char> {
    match kind {
        StorageType::Local => "local"@,
        StorageType::S3 => "s3"@,
        StorageType::WebDav => "webdav"@,
    }
}

/// The name of a storage type in the store.
pub fn storage_type_text(kind: StorageType) -> (s: String)
    ensures
        s@ == storage_type_name(kind),
{
    match kind {
        StorageType::Local => String::from_str("local"),
        StorageType::S3 => String::from_str("s3"),
        StorageType::WebDav => String::from_str("webdav"),
    }
}

/// The name of a mode in the store.
pub open spec fn mode_name(mode: SyncMode) -> Seq<char> {
    match mode {
        SyncMode::Bidirectional => "bidirectional"@,
        SyncMode::Mirror => "mirror"@,
        SyncMode::Backup => "backup"@,
    }
}

/// The name of a mode in the store.
pub fn mode_text(mode: SyncMode) -> (s: String)
    ensures
        s@ == mode_name(mode),
{
    match mode {
        SyncMode::Bidirectional => String::from_str("bidirectional"),
        SyncMode::Mirror => String::from_str("mirror"),
        SyncMode::Backup => String::from_str("backup"),
    }
}

/// Reading back the name of a mode gives the mode.
pub proof fn law_mode_name_round_trip(mode: SyncMode)
    ensures
        mode_of_name(mode_name(mode)) == Some(mode),
{
    reveal_strlit("bidirectional");
    reveal_strlit("mirror");
    reveal_strlit("backup");
    assert("bidirectional"@.len() == 13);
    assert("mirror"@[0] == 'm');
    assert("backup"@[0] == 'b');
    assert("mirror"@.len() == 6);
}

/// Where and how a side of a job is stored.
#[derive(Debug, Clone)]
pub struct StorageConfig {
    pub typ: StorageType,
    pub path: Option<String>,
    pub bucket: Option<String>,
    pub region: Option<String>,
    pub accessKey: Option<String>,
    pub secretKey: Option<String>,
    pub endpoint: Option<String>,
    pub prefix: Option<String>,
    pub webdavEndpoint: Option<String>,
    pub username: Option<String>,
    pub password: Option<String>,
    pub root: Option<String>,
}

/// A synchronisation job.
#[derive(Debug, Clone)]
pub struct SyncJob {
    pub id: String,
    pub name: String,
    pub sourceConfig: StorageConfig,
    pub destConfig: StorageConfig,
    pub syncMode: SyncMode,
    pub schedule: Option<String>,
    pub enabled: bool,
    pub createdAt: i64,
    pub updatedAt: i64,
}

/// What a run tells of itself while it is under way.
#[derive(Debug, Clone)]
pub struct SyncProgress {
    pub jobId: String,
    pub status: SyncStatus,
    pub phase: String,
    pub currentFile: String,
    pub filesScanned: u32,
    pub filesToSync: u32,
    pub filesCompleted: u32,
    pub filesSkipped: u32,
    pub filesFailed: u32,
    pub bytesTransferred: u64,
    pub bytesTotal: u64,
    pub speed: u64,
    pub eta: u64,
    pub startTime: i64,
    /// When the run ended; 0 while it is under way.
    pub endTime: i64,
}

/// The summary of a run as it is stored.
#[derive(Debug, Clone)]
pub struct SyncReport {
    pub job_id: String,
    pub start_time: i64,
    pub end_time: i64,
    pub status: SyncStatus,
    pub files_scanned: u32,
    pub files_copied: u32,
    pub files_deleted: u32,
    pub files_skipped: u32,
    pub files_failed: u32,
    pub bytes_transferred: u64,
    pub duration: u64,
    pub errors: Vec<String>,
}

/// A job as a row of the store holds it.
#[derive(Debug, Clone)]
pub struct SyncJobRow {
    pub id: String,
    pub name: String,
    pub source_type: String,
    pub source_config: String,
    pub dest_type: String,
    pub dest_config: String,
    pub sync_mode: String,
    pub schedule: Option<String>,
    pub enabled: bool,
    pub created_at: i64,
    pub updated_at: i64,
}

/// The mode column of a row without the quotation marks around it.
pub open spec fn bare_mode(column: Seq<char>) -> Seq<char> {
    trim_end(trim_start(column, '"'), '"')
}

/// Reads the mode column of a row, with or without quotation marks around
/// the name; any other text is rejected with a message that quotes it.
pub fn row_sync_mode(column: &str) -> (r: Result<SyncMode, String>)
    ensures
        match r {
            Ok(m) => mode_of_name(bare_mode(column@)) == Some(m),
            Err(e) => mode_of_name(bare_mode(column@)) is None && e@ == "Invalid sync mode: "@
                + column@,
        },
{
    let bare = without_end(without_start(column, '"').as_str(), '"');
    if str_equal(bare.as_str(), "bidirectional") {
        Ok(SyncMode::Bidirectional)
    } else if str_equal(bare.as_str(), "mirror") {
        Ok(SyncMode::Mirror)
    } else if str_equal(bare.as_str(), "backup") {
        Ok(SyncMode::Backup)
    } else {
        Err(String::from_str("Invalid sync mode: ").concat(column))
    }
}

/// The time stamp that a reading of the clock stands for: its seconds
/// since 1970, the largest time stamp where they are more than a time
/// stamp holds, and 0 where the clock gave no reading because it stands
/// before 1970.
pub fn timestamp_of(reading: Option<u64>) -> (stamp: i64)
    ensures
        stamp == match reading {
            Some(s) => if s > i64::MAX {
                i64::MAX as int
            } else {
                s as int
            },
            None => 0,
        },
{
    match reading {
        Some(s) => if s > i64::MAX as u64 {
            i64::MAX
        } else {
            s as i64
        },
        None => 0,
    }
}

impl SyncJob {
    /// The job that a row stands for, given the mode and the two storage
    /// configurations read from its columns.
    pub fn from_row(row: SyncJobRow, mode: SyncMode, source: StorageConfig, dest: StorageConfig) -> (job:
        SyncJob)
        ensures
            job.id == row.id,
            job.name == row.name,
            job.sourceConfig == source,
            job.destConfig == dest,
            job.syncMode == mode,
            job.schedule == row.schedule,
            job.enabled == row.enabled,
            job.createdAt == row.created_at,
            job.updatedAt == row.updated_at,
    {
        SyncJob {
            id: row.id,
            name: row.name,
            sourceConfig: source,
            destConfig: dest,
            syncMode: mode,
            schedule: row.schedule,
            enabled: row.enabled,
            createdAt: row.created_at,
            updatedAt: row.updated_at,
        }
    }

    /// A job with the given identifier that is created at the time `now`:
    /// enabled, and not yet updated since.
    pub fn with_identity(
        id: String,
        now: i64,
        name: String,
        sourceConfig: StorageConfig,
        destConfig: StorageConfig,
        syncMode: SyncMode,
        schedule: Option<String>,
    ) -> (job: SyncJob)
        ensures
            job.id == id,
            job.name == name,
            job.sourceConfig == sourceConfig,
            job.destConfig == destConfig,
            job.syncMode == syncMode,
            job.schedule == schedule,
            job.enabled,
            job.createdAt == now,
            job.updatedAt == now,
    {
        SyncJob {
            id,
            name,
            sourceConfig,
            destConfig,
            syncMode,
            schedule,
            enabled: true,
            createdAt: now,
            updatedAt: now,
        }
    }

    /// A new job: enabled, created now, under a fresh identifier.
    pub fn new(
        name: String,
        sourceConfig: StorageConfig,
        destConfig: StorageConfig,
        syncMode: SyncMode,
        schedule: Option<String>,
    ) -> (job: SyncJob)
        ensures
            job.name == name,
            job.sourceConfig == sourceConfig,
            job.destConfig == destConfig,
            job.syncMode == syncMode,
            job.schedule == schedule,
            job.enabled,
            job.createdAt == job.updatedAt,
    {
        SyncJob::with_identity(
            fresh_id(),
            timestamp_of(clock_seconds()),
            name,
            sourceConfig,
            destConfig,
            syncMode,
            schedule,
        )
    }

    /// Whether a run of the job may be started; a job that is switched off
    /// is refused.
    pub fn check_startable(&self) -> (r: Result<(), String>)
        ensures
            self.enabled ==> r is Ok,
            !self.enabled ==> r is Err && r->Err_0@ == "任务已禁用"@,
    {
        if self.enabled {
            Ok(())
        } else {
            Err(String::from_str("任务已禁用"))
        }
    }
}

/// The mode as the store keeps it: its name in quotation marks.
pub fn mode_column(mode: SyncMode) -> (s: String)
    ensures
        s@ == "\""@ + mode_name(mode) + "\""@,
{
    let mut s = String::from_str("\"");
    s.append(mode_text(mode).as_str());
    s.append("\"");
    s
}

/// What an update changes of a job; what is `None` stays as it is.
#[derive(Debug, Clone)]
pub struct JobUpdate {
    pub name: Option<String>,
    pub sourceConfig: Option<StorageConfig>,
    pub destConfig: Option<StorageConfig>,
    pub syncMode: Option<SyncMode>,
    pub schedule: Option<Option<String>>,
    pub enabled: Option<bool>,
}

impl SyncJob {
    /// Applies an update at the time `now`: every setting that the update
    /// names is replaced, the time of the last update is set, and the
    /// identifier and the time of creation stay.
    pub fn apply_update(&mut self, update: JobUpdate, now: i64)
        ensures
            final(self).id == old(self).id,
            final(self).createdAt == old(self).createdAt,
            final(self).updatedAt == now,
            final(self).name == match update.name {
                Some(n) => n,
                None => old(self).name,
            },
            final(self).sourceConfig == match update.sourceConfig {
                Some(c) => c,
                None => old(self).sourceConfig,
            },
            final(self).destConfig == match update.destConfig {
                Some(c) => c,
                None => old(self).destConfig,
            },
            final(self).syncMode == match update.syncMode {
                Some(m) => m,
                None => old(self).syncMode,
            },
            final(self).schedule == match update.schedule {
                Some(s) => s,
                None => old(self).schedule,
            },
            final(self).enabled == match update.enabled {
                Some(e) => e,
                None => old(self).enabled,
            },
    {
        match update.name {
            Some(n) => {
                self.name = n;
            },
            None => {},
        }
        match update.sourceConfig {
            Some(c) => {
                self.sourceConfig = c;
            },
            None => {},
        }
        match update.destConfig {
            Some(c) => {
                self.destConfig = c;
            },
            None => {},
        }
        match update.syncMode {
            Some(m) => {
                self.syncMode = m;
            },
            None => {},
        }
        match update.schedule {
            Some(s) => {
                self.schedule = s;
            },
            None => {},
        }
        match update.enabled {
            Some(e) => {
                self.enabled = e;
            },
            None => {},
        }
        self.updatedAt = now;
    }
}

} // verus!
