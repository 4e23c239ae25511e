use synctools::comparator::{ActionSummary, FileComparator, SyncAction};
use synctools::conflict::{ChosenResolution, ResolutionTable};
use synctools::engine::{
    after_failure, apply_resolutions, backoff_delay, blocked_message, deletion_is_done, execution_groups,
    is_retryable, kind_message, waits_for, ErrorKind, cancelled_action_message, cancelled_report, check_unchanged,
    decide_after_probe, duration_secs, error_message, executable_actions, failed_report, files_to_sync,
    finish_action, history_row, invalidates_cache, missing_destination_message, next_chunk_len, plan_action,
    proceed_after_create, saved_hash_to_check, side_cache_ttl, state_after, status_text,
    uncreatable_destination_message, ActionPlan, ActionResult, ProbeDecision, RetryConfig, RetryDecision, RunTally,
    Side, SyncConfig, TransferParams,
};
use synctools::cache::{CacheEntry, FileListCache};
use synctools::engine::{
    cached_listing, consults_cache, finished_progress, stores_listing, transfer_is_settled, transfer_progress,
    worker_slots, TransferCounts,
};
use synctools::comparator::checked_summary;
use synctools::engine::after_slice;
use synctools::file_state::{calculate_quick_hash, FileState, StateTable};
use synctools::models::{StorageType, SyncMode, SyncStatus};
use synctools::storage::FileInfo;
use synctools::tree::FileTree;

fn file(path: &str, size: u64) -> FileInfo {
    FileInfo { path: path.to_string(), size, modified_time: 1, is_dir: false, checksum: None }
}

fn copy(path: &str, size: u64, reverse: bool) -> SyncAction {
    SyncAction::Copy { source_path: path.to_string(), dest_path: path.to_string(), size, reverse }
}

fn describe(a: &SyncAction) -> String {
    match a {
        SyncAction::Copy { source_path, dest_path, size, reverse } => {
            format!("copy {} {} {} {}", source_path, dest_path, size, reverse)
        }
        SyncAction::Delete { path, from_dest } => format!("delete {} {}", path, from_dest),
        SyncAction::Skip { path } => format!("skip {}", path),
        SyncAction::Conflict { path, .. } => format!("conflict {}", path),
    }
}

fn params() -> TransferParams {
    TransferParams { chunk_size: 8 * 1024 * 1024, stream_threshold: 128 * 1024 * 1024 }
}

fn saved(path: &str, size: i64, content: &[u8]) -> StateTable {
    StateTable::from_listing(vec![FileState {
        job_id: "job".to_string(),
        file_path: path.to_string(),
        file_size: size,
        modified_time: 1,
        checksum: Some(calculate_quick_hash(content)),
        last_sync_time: Some(1),
    }])
}

/// Carries a plan out as a backend without faults would.
fn run_all(actions: &[SyncAction], tally: &mut RunTally) {
    for a in actions {
        let bytes = match a {
            SyncAction::Copy { size, .. } => *size,
            _ => 0,
        };
        let result = finish_action(a, "00000000000000000000000000000000".to_string(), bytes);
        tally.record_success("job", a, result, 50);
    }
}

#[test]
fn default_config_has_the_documented_values() {
    let c = SyncConfig::default();
    assert_eq!(c.max_concurrent_transfers, 4);
    assert_eq!(c.large_file_threshold, 128 * 1024 * 1024);
    assert_eq!(c.chunk_size, 8 * 1024 * 1024);
    assert_eq!(c.max_retries, 5);
    assert_eq!(c.retry_base_delay_ms, 2000);
    assert!(c.enable_resume);
    assert!(c.auto_create_dir);
    assert!(c.conflict_resolutions.is_empty());
    assert!(!c.force_refresh);
    assert_eq!(c.cache_dir, None);
    assert_eq!(c.remote_cache_ttl, 1800);
    assert_eq!(c.scan_config.exclude_patterns.len(), 8);
}

#[test]
fn start_options_are_defaulted_and_clamped() {
    let make = |n: Option<usize>| SyncConfig::for_start(None, n, ResolutionTable::new(), None, 60);
    assert_eq!(make(None).max_concurrent_transfers, 4);
    assert_eq!(make(Some(0)).max_concurrent_transfers, 1);
    assert_eq!(make(Some(1)).max_concurrent_transfers, 1);
    assert_eq!(make(Some(64)).max_concurrent_transfers, 64);
    assert_eq!(make(Some(128)).max_concurrent_transfers, 128);
    assert_eq!(make(Some(129)).max_concurrent_transfers, 128);
    assert_eq!(make(Some(usize::MAX)).max_concurrent_transfers, 128);
    assert!(make(None).auto_create_dir);
    let c = SyncConfig::for_start(Some(false), Some(2), ResolutionTable::new(), Some("/c".to_string()), 7);
    assert!(!c.auto_create_dir);
    assert_eq!(c.cache_dir.as_deref(), Some("/c"));
    assert_eq!(c.remote_cache_ttl, 7);
    assert_eq!(c.max_retries, 5);
}

#[test]
fn local_sides_are_never_cached() {
    assert_eq!(side_cache_ttl(StorageType::Local, 1800), 0);
    assert_eq!(side_cache_ttl(StorageType::S3, 1800), 1800);
    assert_eq!(side_cache_ttl(StorageType::WebDav, 5), 5);
}

#[test]
fn probe_errors_that_say_missing_lead_to_creation_or_refusal() {
    assert_eq!(decide_after_probe(None, true), ProbeDecision::Proceed);
    assert_eq!(decide_after_probe(None, false), ProbeDecision::Proceed);
    for text in ["HTTP 409 on PROPFIND", "Conflict", "status: 404", "NotFound (permanent)"] {
        assert_eq!(decide_after_probe(Some(text), true), ProbeDecision::CreateRoot);
        assert_eq!(decide_after_probe(Some(text), false), ProbeDecision::MissingDestination);
    }
    assert_eq!(decide_after_probe(Some("connection reset"), false), ProbeDecision::Proceed);
    assert_eq!(decide_after_probe(Some("not found"), true), ProbeDecision::Proceed);
    assert_eq!(decide_after_probe(Some(""), true), ProbeDecision::Proceed);
    assert!(proceed_after_create(true, false));
    assert!(proceed_after_create(false, true));
    assert!(!proceed_after_create(false, false));
    assert!(missing_destination_message().starts_with("目标目录不存在，"));
    assert!(uncreatable_destination_message().starts_with("目标目录不存在且无法自动创建"));
}

#[test]
fn unchanged_file_is_skipped_when_the_destination_has_it() {
    let content = b"hello\nwor";
    let states = saved("foo.txt", 9, content);
    let dest = FileTree::from_listing(vec![file("foo.txt", 5)]);
    let action = copy("foo.txt", 9, false);
    assert_eq!(saved_hash_to_check(&action, &states, &dest), Some(calculate_quick_hash(content)));
    let after = check_unchanged(action, &states, &dest, content);
    assert_eq!(describe(&after), "skip foo.txt");
}

#[test]
fn unchanged_file_is_still_copied_when_the_destination_lacks_it() {
    let content = b"hello\nwor!";
    let states = saved("foo.txt", 10, content);
    let dest = FileTree::from_listing(vec![]);
    let action = copy("foo.txt", 10, false);
    assert_eq!(saved_hash_to_check(&action, &states, &dest), None);
    let after = check_unchanged(action, &states, &dest, content);
    assert_eq!(describe(&after), "copy foo.txt foo.txt 10 false");
}

#[test]
fn incremental_rerun_copies_the_file_that_was_deleted_on_the_destination() {
    // First run: both files are copied and their states are kept.
    let source = FileTree::from_listing(vec![file("foo.txt", 10), file("dir/bar.bin", 3)]);
    let empty = FileTree::from_listing(vec![]);
    let comparator = FileComparator::default();
    let first = comparator.compare_trees(&source, &empty, &SyncMode::Mirror);
    let mut tally = RunTally::new();
    for a in &first {
        let content: &[u8] = if describe(a).contains("foo") { b"hello\nwor!" } else { &[1, 2, 3] };
        let result = finish_action(a, calculate_quick_hash(content), content.len() as u64);
        tally.record_success("job", a, result, 10);
    }
    let states = StateTable::from_listing(tally.synced_states().clone());
    assert_eq!(states.len(), 2);
    // Second run: foo.txt is gone from the destination.
    let dest = FileTree::from_listing(vec![file("dir/bar.bin", 3)]);
    let second = comparator.compare_trees(&source, &dest, &SyncMode::Mirror);
    let checked: Vec<SyncAction> = second
        .into_iter()
        .map(|a| {
            let content: &[u8] = if describe(&a).contains("foo") { b"hello\nwor!" } else { &[1, 2, 3] };
            check_unchanged(a, &states, &dest, content)
        })
        .collect();
    let summary = FileComparator::summarize_actions(&checked);
    assert_eq!(summary.copy_count, 1);
    let names: Vec<String> = checked.iter().map(describe).collect();
    assert_eq!(names, vec!["copy foo.txt foo.txt 10 false", "skip dir/bar.bin"]);
    let mut rerun = RunTally::new();
    run_all(&executable_actions(checked), &mut rerun);
    let report = rerun.report("job", 0, 1, 3, &summary, false);
    assert_eq!(report.filesCopied, 1);
}

#[test]
fn hash_check_needs_same_size_a_checksum_and_a_forward_copy() {
    let content = b"0123456789";
    let dest = FileTree::from_listing(vec![file("f", 10)]);
    let states = saved("f", 10, content);
    assert_eq!(describe(&check_unchanged(copy("f", 11, false), &states, &dest, content)), "copy f f 11 false");
    assert_eq!(describe(&check_unchanged(copy("f", 10, true), &states, &dest, content)), "copy f f 10 true");
    assert_eq!(describe(&check_unchanged(copy("g", 10, false), &states, &dest, content)), "copy g g 10 false");
    assert_eq!(describe(&check_unchanged(copy("f", 10, false), &states, &dest, b"0123456780")), "copy f f 10 false");
    assert_eq!(describe(&check_unchanged(copy("f", 10, false), &states, &dest, content)), "skip f");
    let without_sum = StateTable::from_listing(vec![FileState {
        job_id: "job".to_string(),
        file_path: "f".to_string(),
        file_size: 10,
        modified_time: 1,
        checksum: None,
        last_sync_time: None,
    }]);
    assert_eq!(describe(&check_unchanged(copy("f", 10, false), &without_sum, &dest, content)), "copy f f 10 false");
    let delete = SyncAction::Delete { path: "f".to_string(), from_dest: true };
    assert_eq!(describe(&check_unchanged(delete, &states, &dest, content)), "delete f true");
}

#[test]
fn plan_of_a_copy_names_direction_and_streaming() {
    match plan_action(&copy("a", 10, false), params()) {
        ActionPlan::Copy { from, to, from_path, to_path, size, streamed } => {
            assert_eq!((from, to), (Side::Source, Side::Dest));
            assert_eq!((from_path.as_str(), to_path.as_str()), ("a", "a"));
            assert_eq!(size, 10);
            assert!(!streamed);
        }
        other => panic!("unexpected plan {:?}", other),
    }
    let back = SyncAction::Copy {
        source_path: "s".to_string(),
        dest_path: "d".to_string(),
        size: 128 * 1024 * 1024 + 1,
        reverse: true,
    };
    match plan_action(&back, params()) {
        ActionPlan::Copy { from, to, from_path, to_path, streamed, .. } => {
            assert_eq!((from, to), (Side::Dest, Side::Source));
            assert_eq!((from_path.as_str(), to_path.as_str()), ("d", "s"));
            assert!(streamed);
        }
        other => panic!("unexpected plan {:?}", other),
    }
    match plan_action(&copy("edge", 128 * 1024 * 1024, false), params()) {
        ActionPlan::Copy { streamed, .. } => assert!(!streamed),
        other => panic!("unexpected plan {:?}", other),
    }
}

#[test]
fn plan_of_the_other_actions() {
    match plan_action(&SyncAction::Delete { path: "x".to_string(), from_dest: true }, params()) {
        ActionPlan::Delete { on, path } => assert_eq!((on, path.as_str()), (Side::Dest, "x")),
        other => panic!("unexpected plan {:?}", other),
    }
    match plan_action(&SyncAction::Delete { path: "x".to_string(), from_dest: false }, params()) {
        ActionPlan::Delete { on, .. } => assert_eq!(on, Side::Source),
        other => panic!("unexpected plan {:?}", other),
    }
    assert!(matches!(plan_action(&SyncAction::Skip { path: "x".to_string() }, params()), ActionPlan::Nothing));
    let conflict = SyncAction::Conflict {
        path: "c.txt".to_string(),
        source_info: None,
        dest_info: None,
        conflict_type: synctools::comparator::ConflictType::BothModified,
    };
    match plan_action(&conflict, params()) {
        ActionPlan::Unresolved { message } => assert_eq!(message, "冲突未解决: c.txt"),
        other => panic!("unexpected plan {:?}", other),
    }
}

#[test]
fn large_file_is_read_in_slices_that_add_up_to_its_size() {
    let total: u64 = 200 * 1024 * 1024;
    let chunk: u64 = 8 * 1024 * 1024;
    match plan_action(&copy("big", total, false), params()) {
        ActionPlan::Copy { streamed, .. } => assert!(streamed),
        other => panic!("unexpected plan {:?}", other),
    }
    let mut offset = 0u64;
    let mut slices = 0;
    let mut tally = RunTally::new();
    let mut sent = 0u64;
    let mut seen = vec![];
    while offset < total {
        let len = next_chunk_len(total, offset, chunk);
        assert!(len > 0 && len <= chunk);
        offset += len;
        sent += len;
        seen.push(sent);
        slices += 1;
    }
    assert_eq!(slices, 25);
    assert_eq!(offset, total);
    assert!(seen.windows(2).all(|w| w[0] < w[1]));
    let action = copy("big", total, false);
    let result = finish_action(&action, "ab".repeat(32), total);
    assert_eq!(sent, total);
    tally.record_success("job", &action, result, 9);
    assert_eq!(tally.bytes_transferred(), 200 * 1024 * 1024);
    assert_eq!(next_chunk_len(10, 8, 4), 2);
    assert_eq!(next_chunk_len(10, 10, 4), 0);
    assert_eq!(next_chunk_len(10, 0, 0), 0);
}

#[test]
fn result_and_state_of_a_forward_copy() {
    let r = finish_action(&copy("p/q", 5, false), "abcd".to_string(), 7);
    assert_eq!(r.file_path.as_deref(), Some("p/q"));
    assert_eq!(r.file_hash.as_deref(), Some("abcd"));
    assert_eq!(r.file_size, Some(7));
    let st = state_after("job-1", r, 1234).unwrap();
    assert_eq!(st.job_id, "job-1");
    assert_eq!(st.file_path, "p/q");
    assert_eq!(st.file_size, 7);
    assert_eq!(st.modified_time, 1234);
    assert_eq!(st.checksum.as_deref(), Some("abcd"));
    assert_eq!(st.last_sync_time, Some(1234));
}

#[test]
fn other_actions_leave_no_state() {
    let r = finish_action(&copy("p", 5, true), "abcd".to_string(), 5);
    assert!(r.file_path.is_none() && r.file_hash.is_none() && r.file_size.is_none());
    assert!(state_after("job", r, 1).is_none());
    let d = finish_action(&SyncAction::Delete { path: "p".to_string(), from_dest: true }, String::new(), 0);
    assert!(state_after("job", d, 1).is_none());
    let partial = ActionResult { file_path: Some("p".to_string()), file_hash: None, file_size: Some(1) };
    assert!(state_after("job", partial, 1).is_none());
}

#[test]
fn backoff_doubles_with_each_attempt() {
    assert_eq!(backoff_delay(2000, 0), 2000);
    assert_eq!(backoff_delay(2000, 1), 4000);
    assert_eq!(backoff_delay(2000, 2), 8000);
    assert_eq!(backoff_delay(2000, 4), 32000);
    assert_eq!(backoff_delay(1, 63), 1u64 << 63);
    assert_eq!(backoff_delay(1, 64), u64::MAX);
    assert_eq!(backoff_delay(3, 63), u64::MAX);
    assert_eq!(backoff_delay(2000, u32::MAX), u64::MAX);
    assert_eq!(backoff_delay(0, 10), 0);
    assert_eq!(backoff_delay(0, u32::MAX), 0);
    assert_eq!(backoff_delay(u64::MAX, 0), u64::MAX);
    assert_eq!(backoff_delay(u64::MAX, 1), u64::MAX);
}

#[test]
fn failure_is_retried_until_the_retries_are_used_up() {
    let retry = RetryConfig { max_retries: 2, base_delay_ms: 100 };
    let action = copy("a/b", 1, false);
    match after_failure(&action, ErrorKind::Transient, "boom", 0, retry) {
        RetryDecision::RetryAfter { delay_ms } => assert_eq!(delay_ms, 100),
        other => panic!("unexpected {:?}", other),
    }
    match after_failure(&action, ErrorKind::Timeout, "boom", 1, retry) {
        RetryDecision::RetryAfter { delay_ms } => assert_eq!(delay_ms, 200),
        other => panic!("unexpected {:?}", other),
    }
    match after_failure(&action, ErrorKind::Transient, "boom", 2, retry) {
        RetryDecision::GiveUp { message } => assert_eq!(message, "a/b: boom"),
        other => panic!("unexpected {:?}", other),
    }
    let none = RetryConfig { max_retries: 0, base_delay_ms: 100 };
    let delete = SyncAction::Delete { path: "gone".to_string(), from_dest: true };
    match after_failure(&delete, ErrorKind::Transient, "denied", 0, none) {
        RetryDecision::GiveUp { message } => assert_eq!(message, "gone: denied"),
        other => panic!("unexpected {:?}", other),
    }
    assert_eq!(cancelled_action_message(), "操作已取消");
}

#[test]
fn only_failures_that_may_pass_are_retried() {
    let retry = RetryConfig { max_retries: 5, base_delay_ms: 2000 };
    let action = copy("f", 1, false);
    let all = [
        (ErrorKind::ConfigInvalid, false, "配置无效"),
        (ErrorKind::StorageUnreachable, false, "存储无法访问"),
        (ErrorKind::NotFound, false, "文件不存在"),
        (ErrorKind::PermissionDenied, false, "权限不足"),
        (ErrorKind::Timeout, true, "操作超时"),
        (ErrorKind::Transient, true, "网络错误"),
        (ErrorKind::Integrity, false, "数据校验失败"),
        (ErrorKind::Cancelled, false, "操作已取消"),
        (ErrorKind::Conflict, false, "文件冲突"),
    ];
    for (kind, retried, message) in all {
        assert_eq!(is_retryable(kind), retried);
        assert_eq!(kind_message(kind), message);
        match after_failure(&action, kind, "e", 0, retry) {
            RetryDecision::RetryAfter { delay_ms } => {
                assert!(retried);
                assert_eq!(delay_ms, 2000);
            }
            RetryDecision::GiveUp { message } => {
                assert!(!retried);
                assert_eq!(message, "f: e");
            }
        }
        assert_eq!(deletion_is_done(kind), kind == ErrorKind::NotFound);
    }
}

#[test]
fn fresh_mirror_reports_two_copies_and_thirteen_bytes() {
    let source = FileTree::from_listing(vec![file("foo.txt", 10), file("dir/bar.bin", 3)]);
    let dest = FileTree::from_listing(vec![]);
    let actions = FileComparator::default().compare_trees(&source, &dest, &SyncMode::Mirror);
    let summary = FileComparator::summarize_actions(&actions);
    let scanned = (source.len() + dest.len()) as u32;
    assert_eq!(files_to_sync(&summary), 2);
    let mut tally = RunTally::new();
    run_all(&executable_actions(actions), &mut tally);
    let report = tally.report("job", 100, 103, scanned, &summary, false);
    assert_eq!(report.jobId, "job");
    assert_eq!(report.filesScanned, 2);
    assert_eq!(report.filesCopied, 2);
    assert_eq!(report.filesDeleted, 0);
    assert_eq!(report.filesSkipped, 0);
    assert_eq!(report.filesFailed, 0);
    assert_eq!(report.bytesTransferred, 13);
    assert_eq!(report.status, SyncStatus::Completed);
    assert_eq!(report.duration, 3);
    assert!(report.errors.is_empty());
    assert!(invalidates_cache(&report));
    let states: Vec<(String, i64)> =
        tally.synced_states().iter().map(|s| (s.file_path.clone(), s.file_size)).collect();
    assert_eq!(states, vec![("dir/bar.bin".to_string(), 3), ("foo.txt".to_string(), 10)]);
}

#[test]
fn mirror_with_extraneous_file_reports_one_deletion_and_one_skip() {
    let source = FileTree::from_listing(vec![file("x", 1)]);
    let dest = FileTree::from_listing(vec![file("x", 1), file("y", 1)]);
    let actions = FileComparator::default().compare_trees(&source, &dest, &SyncMode::Mirror);
    let summary = FileComparator::summarize_actions(&actions);
    let mut tally = RunTally::new();
    let pending = executable_actions(actions);
    assert_eq!(pending.iter().map(describe).collect::<Vec<_>>(), vec!["delete y true"]);
    run_all(&pending, &mut tally);
    let report = tally.report("job", 0, 0, 3, &summary, false);
    assert_eq!(report.filesCopied, 0);
    assert_eq!(report.filesDeleted, 1);
    assert_eq!(report.filesSkipped, 1);
    assert_eq!(report.bytesTransferred, 0);
    assert_eq!(report.status, SyncStatus::Completed);
    assert!(tally.synced_states().is_empty());
}

#[test]
fn backup_run_copies_and_deletes_nothing() {
    let source = FileTree::from_listing(vec![file("p", 1)]);
    let dest = FileTree::from_listing(vec![file("p", 1), file("q", 1)]);
    let actions = FileComparator::default().compare_trees(&source, &dest, &SyncMode::Backup);
    let summary = FileComparator::summarize_actions(&actions);
    let pending = executable_actions(actions);
    assert!(pending.is_empty());
    let report = RunTally::new().report("job", 0, 0, 3, &summary, false);
    assert_eq!((report.filesCopied, report.filesDeleted, report.filesSkipped), (0, 0, 2));
    assert!(!invalidates_cache(&report));
}

#[test]
fn failed_action_fails_the_run_and_leaves_no_state() {
    let mut tally = RunTally::new();
    let ok = copy("a", 4, false);
    let bad = copy("b", 6, false);
    let result = finish_action(&ok, "h".to_string(), 4);
    tally.record_success("job", &ok, result, 1);
    tally.record_failure("job", &bad, "b: boom".to_string(), 2);
    assert_eq!(tally.files_completed(), 1);
    assert_eq!(tally.files_failed(), 1);
    assert_eq!(tally.bytes_transferred(), 4);
    assert_eq!(tally.error_list(), &vec!["b: boom".to_string()]);
    assert_eq!(tally.synced_states().len(), 1);
    assert_eq!(tally.synced_states()[0].file_path, "a");
    let summary = FileComparator::summarize_actions(&[ok, bad]);
    let report = tally.report("job", 5, 9, 2, &summary, true);
    assert_eq!(report.status, SyncStatus::Failed);
    assert_eq!(report.filesCopied, 1);
    assert_eq!(report.filesFailed, 1);
    assert_eq!(report.errors, vec!["b: boom"]);
    let row = history_row(&report);
    assert_eq!(row.status, "failed");
    assert_eq!(row.error_message.as_deref(), Some("b: boom"));
}

#[test]
fn cancelled_run_is_reported_and_recorded_as_cancelled() {
    let mut tally = RunTally::new();
    let done = copy("a", 4, false);
    let result = finish_action(&done, "h".to_string(), 4);
    tally.record_success("job", &done, result, 1);
    let summary = FileComparator::summarize_actions(&[done, copy("in-flight", 9, false)]);
    let report = tally.report("job", 5, 9, 2, &summary, true);
    assert_eq!(report.status, SyncStatus::Cancelled);
    assert_eq!(history_row(&report).status, "cancelled");
    let kept: Vec<&str> = tally.synced_states().iter().map(|s| s.file_path.as_str()).collect();
    assert_eq!(kept, vec!["a"]);
    let early = cancelled_report("job", 10, 12);
    assert_eq!(early.status, SyncStatus::Cancelled);
    assert_eq!(early.errors, vec!["同步已取消"]);
    assert_eq!((early.filesScanned, early.filesCopied, early.bytesTransferred), (0, 0, 0));
    assert_eq!(early.duration, 2);
    let row = history_row(&early);
    assert_eq!(row.status, "cancelled");
    assert_eq!(row.error_message.as_deref(), Some("同步已取消"));
}

#[test]
fn failed_report_carries_the_errors() {
    let r = failed_report("j", 1, 4, vec!["源存储连接失败: x".to_string()]);
    assert_eq!(r.status, SyncStatus::Failed);
    assert_eq!(r.duration, 3);
    assert_eq!(r.errors, vec!["源存储连接失败: x"]);
    assert_eq!((r.filesScanned, r.filesCopied, r.filesDeleted, r.filesSkipped, r.filesFailed), (0, 0, 0, 0, 0));
}

#[test]
fn completed_actions_are_split_into_copies_and_deletions() {
    let mut tally = RunTally::new();
    let actions = vec![
        copy("a", 1, false),
        copy("b", 2, true),
        SyncAction::Delete { path: "c".to_string(), from_dest: true },
        SyncAction::Delete { path: "d".to_string(), from_dest: true },
    ];
    run_all(&actions, &mut tally);
    let summary = FileComparator::summarize_actions(&actions);
    let report = tally.report("job", 0, 0, 0, &summary, false);
    assert_eq!(report.filesCopied, 2);
    assert_eq!(report.filesDeleted, 2);
    assert_eq!(report.bytesTransferred, 3);
    assert_eq!(tally.synced_states().len(), 1);
}

#[test]
fn history_row_joins_errors_and_names_the_status() {
    assert_eq!(error_message(&vec![]), None);
    assert_eq!(error_message(&vec!["a".to_string()]).unwrap(), "a");
    assert_eq!(error_message(&vec!["a".to_string(), "b".to_string(), "c".to_string()]).unwrap(), "a; b; c");
    assert_eq!(status_text(SyncStatus::Completed), "completed");
    assert_eq!(status_text(SyncStatus::Failed), "failed");
    assert_eq!(status_text(SyncStatus::Cancelled), "cancelled");
    assert_eq!(status_text(SyncStatus::Syncing), "unknown");
    assert_eq!(status_text(SyncStatus::Idle), "unknown");
    let report = RunTally::new().report("j", 7, 9, 5, &ActionSummary::default(), false);
    let row = history_row(&report);
    assert_eq!(row.job_id, "j");
    assert_eq!((row.start_time, row.end_time), (7, 9));
    assert_eq!(row.status, "completed");
    assert_eq!((row.files_scanned, row.files_copied, row.files_deleted, row.bytes_transferred), (5, 0, 0, 0));
    assert_eq!(row.error_message, None);
}

#[test]
fn duration_is_the_difference_of_the_two_times() {
    assert_eq!(duration_secs(10, 25), 15);
    assert_eq!(duration_secs(-5, 5), 10);
    assert_eq!(duration_secs(7, 7), 0);
    assert_eq!(duration_secs(i64::MIN, i64::MAX), u64::MAX);
    assert_eq!(duration_secs(5, 3), u64::MAX - 1);
}

#[test]
fn executable_actions_are_all_but_the_skips() {
    let actions = vec![
        copy("a", 1, false),
        SyncAction::Skip { path: "s".to_string() },
        SyncAction::Delete { path: "d".to_string(), from_dest: true },
        SyncAction::Skip { path: "t".to_string() },
    ];
    let got: Vec<String> = executable_actions(actions).iter().map(describe).collect();
    assert_eq!(got, vec!["copy a a 1 false", "delete d true"]);
    assert!(executable_actions(vec![]).is_empty());
}

#[test]
fn conflicts_with_a_choice_are_replaced() {
    let conflict = |p: &str| SyncAction::Conflict {
        path: p.to_string(),
        source_info: Some(file(p, 11)),
        dest_info: Some(file(p, 22)),
        conflict_type: synctools::comparator::ConflictType::BothModified,
    };
    let mut choices = ResolutionTable::new();
    for (path, resolution) in [("a.txt", "keep_source"), ("b.txt", "keep_dest"), ("c.txt", "keep_both"), ("d", "skip"), ("e", "???")] {
        choices.insert(ChosenResolution { path: path.to_string(), resolution: resolution.to_string() });
    }
    let actions = vec![
        copy("0", 1, false),
        conflict("a.txt"),
        conflict("b.txt"),
        conflict("c.txt"),
        conflict("d"),
        conflict("e"),
        conflict("open"),
    ];
    let got: Vec<String> = apply_resolutions(actions, &choices, 1431648000).iter().map(describe).collect();
    assert_eq!(
        got,
        vec![
            "copy 0 0 1 false",
            "copy a.txt a.txt 11 false",
            "copy b.txt b.txt 22 true",
            "copy c_conflict_dest_20150515_000000.txt c.txt 22 true",
            "copy c.txt c.txt 11 false",
            "skip d",
            "skip e",
            "conflict open",
        ]
    );
}

#[test]
fn actions_on_one_file_form_a_group() {
    let rescue = SyncAction::Copy {
        source_path: "c_conflict_dest_20150515_000000.txt".to_string(),
        dest_path: "c.txt".to_string(),
        size: 22,
        reverse: true,
    };
    let overwrite = copy("c.txt", 11, false);
    assert!(waits_for(&rescue, &overwrite));
    assert!(waits_for(&overwrite, &rescue));
    assert!(!waits_for(&copy("a", 1, false), &copy("b", 1, false)));
    assert!(waits_for(&copy("a", 1, false), &copy("a", 1, true)));
    assert!(waits_for(&copy("a", 1, false), &copy("a", 1, false)));
    let delete_dest = SyncAction::Delete { path: "a".to_string(), from_dest: true };
    let delete_source = SyncAction::Delete { path: "a".to_string(), from_dest: false };
    assert!(waits_for(&copy("a", 1, false), &delete_dest));
    assert!(waits_for(&delete_source, &copy("a", 1, false)));
    assert!(!waits_for(&delete_dest, &delete_source));
    assert!(!waits_for(&SyncAction::Skip { path: "a".to_string() }, &copy("a", 1, false)));

    let groups = execution_groups(vec![copy("a", 1, false), rescue, overwrite, copy("z", 1, false)]);
    let shape: Vec<Vec<String>> = groups.iter().map(|g| g.iter().map(describe).collect()).collect();
    assert_eq!(
        shape,
        vec![
            vec!["copy a a 1 false".to_string()],
            vec![
                "copy c_conflict_dest_20150515_000000.txt c.txt 22 true".to_string(),
                "copy c.txt c.txt 11 false".to_string()
            ],
            vec!["copy z z 1 false".to_string()],
        ]
    );
    assert!(execution_groups(vec![]).is_empty());
    assert_eq!(execution_groups(vec![copy("only", 1, false)]).len(), 1);
    assert_eq!(blocked_message(&copy("p/q", 1, false)), "p/q: 前置操作失败，已跳过");
}

#[test]
fn report_is_stored_with_all_its_counts() {
    let mut tally = RunTally::new();
    let action = copy("a", 4, false);
    let result = finish_action(&action, "h".to_string(), 4);
    tally.record_success("job", &action, result, 1);
    tally.record_failure("job", &copy("b", 1, false), "b: x".to_string(), 2);
    let summary = FileComparator::summarize_actions(&[action, copy("b", 1, false)]);
    let report = tally.report("job", 1, 3, 2, &summary, false);
    let stored = synctools::engine::stored_report(&report);
    assert_eq!(stored.job_id, "job");
    assert_eq!((stored.start_time, stored.end_time, stored.duration), (1, 3, 2));
    assert_eq!(stored.status, SyncStatus::Failed);
    assert_eq!((stored.files_scanned, stored.files_copied, stored.files_deleted), (2, 1, 0));
    assert_eq!((stored.files_skipped, stored.files_failed, stored.bytes_transferred), (0, 1, 4));
    assert_eq!(stored.errors, vec!["b: x"]);
}

#[test]
fn failed_copy_and_successful_deletion_are_told_apart() {
    let mut tally = RunTally::new();
    let lost = copy("a", 7, false);
    let gone = SyncAction::Delete { path: "b".to_string(), from_dest: true };
    tally.record_failure("job", &lost, "a: boom".to_string(), 1);
    let result = finish_action(&gone, String::new(), 0);
    tally.record_success("job", &gone, result, 2);
    assert_eq!((tally.files_copied(), tally.files_deleted()), (0, 1));
    assert_eq!((tally.files_completed(), tally.files_failed()), (1, 1));
    assert_eq!(tally.bytes_transferred(), 0);
    let summary = FileComparator::summarize_actions(&[lost, gone]);
    assert_eq!((summary.copy_count, summary.delete_count), (1, 1));
    let report = tally.report("job", 0, 1, 2, &summary, false);
    assert_eq!((report.filesCopied, report.filesDeleted, report.filesFailed), (0, 1, 1));
    assert_eq!(report.bytesTransferred, 0);
    assert_eq!(report.errors.len(), 1);
    assert_eq!(report.status, SyncStatus::Failed);
}

#[test]
fn failed_deletion_and_successful_copy_are_told_apart() {
    let mut tally = RunTally::new();
    let sent = copy("a", 7, true);
    let stuck = SyncAction::Delete { path: "b".to_string(), from_dest: true };
    let result = finish_action(&sent, String::new(), 7);
    tally.record_success("job", &sent, result, 1);
    tally.record_failure("job", &stuck, "b: locked".to_string(), 2);
    let summary = FileComparator::summarize_actions(&[sent, stuck]);
    let report = tally.report("job", 0, 1, 2, &summary, false);
    assert_eq!((report.filesCopied, report.filesDeleted, report.filesFailed), (1, 0, 1));
    assert_eq!(report.bytesTransferred, 7);
    assert!(tally.synced_states().is_empty());
}

#[test]
fn bytes_of_a_failed_copy_are_not_counted() {
    let mut tally = RunTally::new();
    let first = copy("a", 100, false);
    let second = copy("b", 30, false);
    tally.record_failure("job", &first, "a: cut off".to_string(), 1);
    let result = finish_action(&second, "h".to_string(), 30);
    tally.record_success("job", &second, result, 2);
    assert_eq!(tally.bytes_transferred(), 30);
    let summary = FileComparator::summarize_actions(&[first, second]);
    let report = tally.report("job", 0, 1, 2, &summary, false);
    assert_eq!(report.bytesTransferred, 30);
    assert_eq!((report.filesCopied, report.filesFailed), (1, 1));
    assert!(report.filesCopied + report.filesDeleted + report.filesFailed <= 2);
}

#[test]
fn local_side_is_never_served_from_the_cache() {
    assert!(!consults_cache(StorageType::Local, false));
    assert!(!consults_cache(StorageType::Local, true));
    assert!(consults_cache(StorageType::S3, false));
    assert!(consults_cache(StorageType::WebDav, false));
    assert!(!consults_cache(StorageType::S3, true));
    assert!(!consults_cache(StorageType::WebDav, true));
    assert!(!stores_listing(StorageType::Local));
    assert!(stores_listing(StorageType::S3));
    assert!(stores_listing(StorageType::WebDav));
}

#[test]
fn stored_entry_serves_a_remote_side_only() {
    let entry = || {
        FileListCache::entry_for("{\"type\":\"x\"}", FileTree::from_listing(vec![file("a", 1)]), 1000)
    };
    let kept: CacheEntry = entry();
    assert_eq!(kept.cached_at, 1000);
    let local = FileListCache::new("cache".to_string()).with_ttl(side_cache_ttl(StorageType::Local, 1800));
    let remote = FileListCache::new("cache".to_string()).with_ttl(side_cache_ttl(StorageType::S3, 1800));
    assert!(cached_listing(StorageType::Local, false, &local, entry(), "{\"type\":\"x\"}", 1001).is_none());
    assert!(cached_listing(StorageType::Local, false, &remote, entry(), "{\"type\":\"x\"}", 1001).is_none());
    let hit = cached_listing(StorageType::S3, false, &remote, entry(), "{\"type\":\"x\"}", 1001).unwrap();
    assert_eq!(hit.cached_at, 1000);
    assert_eq!(hit.files.len(), 1);
    assert!(cached_listing(StorageType::S3, true, &remote, entry(), "{\"type\":\"x\"}", 1001).is_none());
    assert!(cached_listing(StorageType::S3, false, &remote, entry(), "{\"type\":\"y\"}", 1001).is_none());
    assert!(cached_listing(StorageType::S3, false, &remote, entry(), "{\"type\":\"x\"}", 2801).is_none());
    assert!(cached_listing(StorageType::S3, false, &remote, entry(), "{\"type\":\"x\"}", 2800).is_some());
}

#[test]
fn worker_slots_stay_between_one_and_the_limit() {
    assert_eq!(worker_slots(0), 1);
    assert_eq!(worker_slots(1), 1);
    assert_eq!(worker_slots(4), 4);
    assert_eq!(worker_slots(128), 128);
    assert_eq!(worker_slots(129), 128);
    assert_eq!(worker_slots(usize::MAX), 128);
    let mut config = SyncConfig::default();
    assert_eq!(config.workers(), 4);
    config.max_concurrent_transfers = 0;
    assert_eq!(config.workers(), 1);
    config.max_concurrent_transfers = 100000;
    assert_eq!(config.workers(), 128);
}

#[test]
fn transfer_progress_counts_what_is_settled() {
    let counts =
        TransferCounts { files_scanned: 9, files_to_sync: 5, completed: 2, failed: 1, bytes: 300, bytes_total: 1000 };
    let p = transfer_progress("job", 77, counts, 150, 4);
    assert_eq!(p.jobId, "job");
    assert_eq!(p.status, SyncStatus::Syncing);
    assert_eq!(p.phase, "同步中 3/5");
    assert_eq!(p.currentFile, "");
    assert_eq!((p.filesScanned, p.filesToSync, p.filesCompleted, p.filesSkipped, p.filesFailed), (9, 5, 3, 0, 1));
    assert_eq!((p.bytesTransferred, p.bytesTotal, p.speed, p.eta), (300, 1000, 150, 4));
    assert_eq!((p.startTime, p.endTime), (77, 0));
    assert!(!transfer_is_settled(counts));
    assert!(transfer_is_settled(TransferCounts { completed: 4, ..counts }));
    assert!(transfer_is_settled(TransferCounts { completed: u64::MAX, failed: 7, ..counts }));
    assert!(transfer_is_settled(TransferCounts { files_to_sync: 0, completed: 0, failed: 0, ..counts }));
}

#[test]
fn finished_progress_shows_the_report() {
    let mut tally = RunTally::new();
    let actions = vec![
        copy("a", 5, false),
        SyncAction::Delete { path: "b".to_string(), from_dest: true },
        copy("c", 2, false),
    ];
    run_all(&actions[..2], &mut tally);
    tally.record_failure("job", &actions[2], "c: x".to_string(), 3);
    let summary = FileComparator::summarize_actions(&actions);
    let report = tally.report("job", 10, 20, 4, &summary, false);
    let p = finished_progress(&report, files_to_sync(&summary));
    assert_eq!(p.jobId, "job");
    assert_eq!(p.status, SyncStatus::Failed);
    assert_eq!(p.phase, "同步完成");
    assert_eq!((p.filesScanned, p.filesToSync, p.filesCompleted, p.filesSkipped, p.filesFailed), (4, 3, 2, 0, 1));
    assert_eq!((p.bytesTransferred, p.bytesTotal, p.speed, p.eta), (5, 0, 0, 0));
    assert_eq!((p.startTime, p.endTime), (10, 20));
}

#[test]
fn checked_summary_refuses_what_cannot_be_counted() {
    let fits = vec![copy("a", u64::MAX - 1, false), copy("b", 1, true), SyncAction::Skip { path: "c".to_string() }];
    let summary = checked_summary(&fits).unwrap();
    assert_eq!((summary.copy_count, summary.reverse_copy_count, summary.skip_count), (1, 1, 1));
    assert_eq!((summary.copy_bytes, summary.reverse_copy_bytes), (u64::MAX - 1, 1));
    assert_eq!(summary.total_transfer_bytes(), u64::MAX);
    let too_much = vec![copy("a", u64::MAX, false), copy("b", 1, true)];
    assert!(checked_summary(&too_much).is_none());
    assert!(checked_summary(&[copy("a", u64::MAX, false), copy("b", 1, false)]).is_none());
    assert_eq!(checked_summary(&[]).unwrap().total_files(), 0);
}

#[test]
fn after_slice_moves_forward_or_gives_up() {
    assert_eq!(after_slice(10, 0, 0), None);
    assert_eq!(after_slice(10, 9, 0), None);
    assert_eq!(after_slice(10, 0, 4), Some(4));
    assert_eq!(after_slice(10, 4, 4), Some(8));
    assert_eq!(after_slice(10, 8, 2), Some(10));
    assert_eq!(after_slice(10, 8, 4), Some(10));
    assert_eq!(after_slice(u64::MAX, u64::MAX - 1, u64::MAX), Some(u64::MAX));
    assert_eq!(after_slice(u64::MAX, 0, u64::MAX - 1), Some(u64::MAX - 1));
    // A file of 200 MiB read in slices of 8 MiB is through after 25 slices.
    let (total, chunk) = (200u64 * 1024 * 1024, 8u64 * 1024 * 1024);
    let mut offset = 0u64;
    let mut slices = 0;
    while offset < total {
        let asked = next_chunk_len(total, offset, chunk);
        offset = after_slice(total, offset, asked).unwrap();
        slices += 1;
    }
    assert_eq!((offset, slices), (total, 25));
}

#[test]
fn default_settings_leave_out_the_usual_patterns() {
    let expected = vec![".git/**", ".svn/**", "node_modules/**", ".DS_Store", "Thumbs.db", "*.tmp", "*.temp", "~*"];
    assert_eq!(SyncConfig::default().scan_config.exclude_patterns, expected);
    let started = SyncConfig::for_start(None, Some(3), ResolutionTable::new(), None, 60);
    assert_eq!(started.scan_config.exclude_patterns, expected);
    assert!(started.scan_config.include_extensions.is_empty());
    assert_eq!(started.scan_config.max_file_size, 0);
    assert!(!started.scan_config.include_dirs);
}
