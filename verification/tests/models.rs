use synctools::config::{mb_to_bytes, CacheConfig, TransferConfig};
use synctools::logging::{log_file_name, needs_rotation, rotated_file_name, LogConfig, LogLevel};
use synctools::models::timestamp_of;
use synctools::models::{
    mode_column, mode_text, parse_sync_mode, row_sync_mode, storage_type_text, JobUpdate, StorageConfig,
    StorageType, SyncJob, SyncJobRow, SyncMode,
};

fn local(path: &str) -> StorageConfig {
    StorageConfig {
        typ: StorageType::Local,
        path: Some(path.to_string()),
        bucket: None,
        region: None,
        accessKey: None,
        secretKey: None,
        endpoint: None,
        prefix: None,
        webdavEndpoint: None,
        username: None,
        password: None,
        root: None,
    }
}

#[test]
fn mode_names_are_read() {
    assert_eq!(parse_sync_mode("bidirectional"), Ok(SyncMode::Bidirectional));
    assert_eq!(parse_sync_mode("mirror"), Ok(SyncMode::Mirror));
    assert_eq!(parse_sync_mode("backup"), Ok(SyncMode::Backup));
    assert_eq!(parse_sync_mode("Mirror"), Err("无效的同步模式: Mirror".to_string()));
    assert_eq!(parse_sync_mode(""), Err("无效的同步模式: ".to_string()));
    assert_eq!(parse_sync_mode("\"mirror\""), Err("无效的同步模式: \"mirror\"".to_string()));
}

#[test]
fn mode_column_is_read_with_or_without_quotes() {
    assert_eq!(row_sync_mode("mirror"), Ok(SyncMode::Mirror));
    assert_eq!(row_sync_mode("\"mirror\""), Ok(SyncMode::Mirror));
    assert_eq!(row_sync_mode("\"\"backup\""), Ok(SyncMode::Backup));
    assert_eq!(row_sync_mode("\"bidirectional"), Ok(SyncMode::Bidirectional));
    assert_eq!(row_sync_mode("\"mir\"ror\""), Err("Invalid sync mode: \"mir\"ror\"".to_string()));
    assert_eq!(row_sync_mode("sync"), Err("Invalid sync mode: sync".to_string()));
    for mode in [SyncMode::Bidirectional, SyncMode::Mirror, SyncMode::Backup] {
        assert_eq!(row_sync_mode(&mode_column(mode)), Ok(mode));
        assert_eq!(parse_sync_mode(&mode_text(mode)), Ok(mode));
    }
    assert_eq!(mode_column(SyncMode::Mirror), "\"mirror\"");
    assert_eq!(storage_type_text(StorageType::Local), "local");
    assert_eq!(storage_type_text(StorageType::S3), "s3");
    assert_eq!(storage_type_text(StorageType::WebDav), "webdav");
}

#[test]
fn new_job_is_enabled_and_has_a_fresh_identifier() {
    let a = SyncJob::new("n".to_string(), local("/A"), local("/B"), SyncMode::Mirror, None);
    let b = SyncJob::new("n".to_string(), local("/A"), local("/B"), SyncMode::Mirror, None);
    assert!(a.enabled);
    assert_eq!(a.createdAt, a.updatedAt);
    assert!(a.createdAt > 1_577_836_800);
    assert_eq!(a.id.len(), 36);
    assert_ne!(a.id, b.id);
    assert_eq!(a.syncMode, SyncMode::Mirror);
    assert_eq!(a.sourceConfig.path.as_deref(), Some("/A"));
    assert_eq!(a.check_startable(), Ok(()));
    let fixed = SyncJob::with_identity(
        "id".to_string(),
        7,
        "n".to_string(),
        local("/A"),
        local("/B"),
        SyncMode::Backup,
        Some("daily".to_string()),
    );
    assert_eq!((fixed.id.as_str(), fixed.createdAt, fixed.updatedAt), ("id", 7, 7));
    assert_eq!(fixed.schedule.as_deref(), Some("daily"));
}

#[test]
fn update_changes_what_it_names_and_the_time() {
    let mut job =
        SyncJob::with_identity("id".to_string(), 7, "n".to_string(), local("/A"), local("/B"), SyncMode::Backup, None);
    job.apply_update(
        JobUpdate {
            name: Some("m".to_string()),
            sourceConfig: None,
            destConfig: Some(local("/C")),
            syncMode: Some(SyncMode::Mirror),
            schedule: Some(Some("hourly".to_string())),
            enabled: Some(false),
        },
        20,
    );
    assert_eq!((job.id.as_str(), job.createdAt, job.updatedAt), ("id", 7, 20));
    assert_eq!(job.name, "m");
    assert_eq!(job.sourceConfig.path.as_deref(), Some("/A"));
    assert_eq!(job.destConfig.path.as_deref(), Some("/C"));
    assert_eq!(job.syncMode, SyncMode::Mirror);
    assert_eq!(job.schedule.as_deref(), Some("hourly"));
    assert!(!job.enabled);
    assert_eq!(job.check_startable(), Err("任务已禁用".to_string()));
    job.apply_update(
        JobUpdate { name: None, sourceConfig: None, destConfig: None, syncMode: None, schedule: Some(None), enabled: None },
        21,
    );
    assert_eq!((job.name.as_str(), job.updatedAt, job.schedule.clone()), ("m", 21, None));
}

#[test]
fn job_of_a_row() {
    let row = SyncJobRow {
        id: "id".to_string(),
        name: "n".to_string(),
        source_type: "local".to_string(),
        source_config: "{}".to_string(),
        dest_type: "local".to_string(),
        dest_config: "{}".to_string(),
        sync_mode: "\"mirror\"".to_string(),
        schedule: None,
        enabled: false,
        created_at: 3,
        updated_at: 4,
    };
    let mode = row_sync_mode(&row.sync_mode).unwrap();
    let job = SyncJob::from_row(row, mode, local("/A"), local("/B"));
    assert_eq!((job.id.as_str(), job.name.as_str()), ("id", "n"));
    assert_eq!((job.syncMode, job.enabled, job.createdAt, job.updatedAt), (SyncMode::Mirror, false, 3, 4));
    assert_eq!(job.destConfig.path.as_deref(), Some("/B"));
}

#[test]
fn settings_have_their_defaults() {
    assert_eq!(CacheConfig::default().remote_ttl, 1800);
    let t = TransferConfig::default();
    assert_eq!((t.chunk_size_mb, t.stream_threshold_mb), (8, 128));
    assert_eq!(t.chunk_size(), 8 * 1024 * 1024);
    assert_eq!(t.stream_threshold(), 128 * 1024 * 1024);
    assert_eq!(mb_to_bytes(0), 0);
    assert_eq!(mb_to_bytes(17592186044415), 17592186044415 * 1048576);
    assert_eq!(mb_to_bytes(17592186044416), u64::MAX);
    assert_eq!(mb_to_bytes(u64::MAX), u64::MAX);
    let l = LogConfig::default();
    assert_eq!((l.enabled, l.max_size_mb, l.level.as_str()), (true, 5, "info"));
    assert_eq!(l.max_size_bytes(), 5 * 1024 * 1024);
}

#[test]
fn log_level_is_read_in_any_case() {
    let level = |name: &str| LogConfig { enabled: true, max_size_mb: 1, level: name.to_string() }.tracing_level();
    assert_eq!(level("error"), LogLevel::Error);
    assert_eq!(level("WARN"), LogLevel::Warn);
    assert_eq!(level("Debug"), LogLevel::Debug);
    assert_eq!(level("trace"), LogLevel::Trace);
    assert_eq!(level("info"), LogLevel::Info);
    assert_eq!(level("verbose"), LogLevel::Info);
    assert_eq!(level(""), LogLevel::Info);
}

#[test]
fn log_is_rotated_once_it_reaches_the_limit() {
    assert!(!needs_rotation(4, 5));
    assert!(needs_rotation(5, 5));
    assert!(needs_rotation(6, 5));
    assert!(needs_rotation(0, 0));
    assert!(!needs_rotation(0, 1));
    assert!(needs_rotation(u64::MAX, u64::MAX));
    assert_eq!(log_file_name(), "app.log");
    assert_eq!(rotated_file_name(), "app.log.old");
    let huge = LogConfig { enabled: true, max_size_mb: u32::MAX, level: String::new() };
    assert_eq!(huge.max_size_bytes(), u32::MAX as u64 * 1048576);
}

#[test]
fn settings_are_updated_where_a_value_is_given() {
    assert_eq!(CacheConfig::default().with_update(None).remote_ttl, 1800);
    assert_eq!(CacheConfig::default().with_update(Some(0)).remote_ttl, 0);
    let t = TransferConfig::default().with_update(Some(16), None);
    assert_eq!((t.chunk_size_mb, t.stream_threshold_mb), (16, 128));
    let t = TransferConfig::default().with_update(None, Some(1));
    assert_eq!((t.chunk_size_mb, t.stream_threshold_mb), (8, 1));
}

#[test]
fn log_settings_are_checked_before_they_are_changed() {
    let mut c = LogConfig::default();
    assert_eq!(c.apply_update(Some(false), Some(0), Some("DEBUG")), Ok(()));
    assert_eq!((c.enabled, c.max_size_mb, c.level.as_str()), (false, 1, "debug"));
    assert_eq!(c.apply_update(None, Some(101), None), Ok(()));
    assert_eq!((c.enabled, c.max_size_mb, c.level.as_str()), (false, 100, "debug"));
    assert_eq!(c.apply_update(None, Some(50), Some("trace")), Ok(()));
    assert_eq!((c.max_size_mb, c.level.as_str()), (50, "trace"));
    assert_eq!(c.apply_update(Some(true), Some(7), Some("loud")), Err("无效的日志级别: loud".to_string()));
    assert_eq!((c.enabled, c.max_size_mb, c.level.as_str()), (false, 50, "trace"));
    for name in ["error", "Warn", "INFO", "debug", "trace"] {
        assert_eq!(c.apply_update(None, None, Some(name)), Ok(()));
        assert_eq!(c.level, name.to_lowercase());
    }
    assert!(c.apply_update(None, None, Some("")).is_err());
}

#[test]
fn time_stamp_of_a_reading_of_the_clock() {
    assert_eq!(timestamp_of(None), 0);
    assert_eq!(timestamp_of(Some(0)), 0);
    assert_eq!(timestamp_of(Some(1_700_000_000)), 1_700_000_000);
    assert_eq!(timestamp_of(Some(i64::MAX as u64)), i64::MAX);
    assert_eq!(timestamp_of(Some(i64::MAX as u64 + 1)), i64::MAX);
    assert_eq!(timestamp_of(Some(u64::MAX)), i64::MAX);
}

#[test]
fn new_job_is_created_in_the_present() {
    let job = SyncJob::new("n".to_string(), local("/a"), local("/b"), SyncMode::Mirror, None);
    assert!(job.createdAt > 1_577_836_800);
    assert_eq!(job.createdAt, job.updatedAt);
    assert_eq!(job.id.len(), 36);
}
