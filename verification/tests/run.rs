use synctools::engine::ProbeDecision;
use synctools::models::SyncStatus;
use synctools::run::{next_step, status_in, RunCommand, RunEvent, RunPhase, SyncEngine};

#[test]
fn an_undisturbed_run_goes_through_every_phase() {
    let steps = [
        (RunEvent::Started, RunPhase::Connecting, RunCommand::Connect),
        (RunEvent::Connected, RunPhase::Probing, RunCommand::Probe),
        (RunEvent::ProbeJudged(ProbeDecision::Proceed), RunPhase::ScanningSource, RunCommand::ScanSource),
        (RunEvent::Listed, RunPhase::ScanningDest, RunCommand::ScanDest),
        (RunEvent::Listed, RunPhase::Comparing, RunCommand::Plan),
        (RunEvent::Planned, RunPhase::Syncing, RunCommand::Transfer),
        (RunEvent::Settled { failed: 0 }, RunPhase::Finished, RunCommand::End(SyncStatus::Completed)),
    ];
    let mut phase = RunPhase::Idle;
    for (event, next, command) in steps {
        assert_eq!(next_step(phase, event, false), Some((next, command)));
        phase = next;
    }
    assert_eq!(next_step(phase, RunEvent::Started, false), None);
}

#[test]
fn missing_destination_is_created_or_ends_the_run() {
    let probing = RunPhase::Probing;
    assert_eq!(
        next_step(probing, RunEvent::ProbeJudged(ProbeDecision::CreateRoot), false),
        Some((RunPhase::CreatingRoot, RunCommand::CreateRoot))
    );
    assert_eq!(
        next_step(probing, RunEvent::ProbeJudged(ProbeDecision::MissingDestination), false),
        Some((RunPhase::Finished, RunCommand::End(SyncStatus::Failed)))
    );
    assert_eq!(
        next_step(RunPhase::CreatingRoot, RunEvent::RootSettled { usable: true }, false),
        Some((RunPhase::ScanningSource, RunCommand::ScanSource))
    );
    assert_eq!(
        next_step(RunPhase::CreatingRoot, RunEvent::RootSettled { usable: false }, false),
        Some((RunPhase::Finished, RunCommand::End(SyncStatus::Failed)))
    );
}

#[test]
fn faults_before_the_transfer_end_the_run_as_failed() {
    let failed = Some((RunPhase::Finished, RunCommand::End(SyncStatus::Failed)));
    assert_eq!(next_step(RunPhase::Connecting, RunEvent::Unreachable, false), failed);
    assert_eq!(next_step(RunPhase::ScanningSource, RunEvent::ListingFailed, false), failed);
    assert_eq!(next_step(RunPhase::ScanningDest, RunEvent::ListingFailed, true), failed);
}

#[test]
fn cancellation_is_noticed_between_the_phases() {
    let cancelled = Some((RunPhase::Finished, RunCommand::End(SyncStatus::Cancelled)));
    assert_eq!(next_step(RunPhase::Probing, RunEvent::ProbeJudged(ProbeDecision::Proceed), true), cancelled);
    assert_eq!(next_step(RunPhase::CreatingRoot, RunEvent::RootSettled { usable: true }, true), cancelled);
    assert_eq!(next_step(RunPhase::ScanningSource, RunEvent::Listed, true), cancelled);
    assert_eq!(next_step(RunPhase::ScanningDest, RunEvent::Listed, true), cancelled);
    assert_eq!(next_step(RunPhase::Comparing, RunEvent::Planned, true), cancelled);
    assert_eq!(next_step(RunPhase::Syncing, RunEvent::Settled { failed: 0 }, true), cancelled);
    assert_eq!(
        next_step(RunPhase::Syncing, RunEvent::Settled { failed: 2 }, true),
        Some((RunPhase::Finished, RunCommand::End(SyncStatus::Failed)))
    );
    assert_eq!(
        next_step(RunPhase::Syncing, RunEvent::Settled { failed: 1 }, false),
        Some((RunPhase::Finished, RunCommand::End(SyncStatus::Failed)))
    );
}

#[test]
fn events_out_of_place_have_no_step() {
    assert_eq!(next_step(RunPhase::Idle, RunEvent::Listed, false), None);
    assert_eq!(next_step(RunPhase::Syncing, RunEvent::Planned, false), None);
    assert_eq!(next_step(RunPhase::Comparing, RunEvent::Settled { failed: 0 }, false), None);
    assert_eq!(next_step(RunPhase::Finished, RunEvent::Settled { failed: 0 }, true), None);
}

#[test]
fn status_shown_in_each_phase() {
    assert_eq!(status_in(RunPhase::Idle), SyncStatus::Idle);
    assert_eq!(status_in(RunPhase::Connecting), SyncStatus::Scanning);
    assert_eq!(status_in(RunPhase::Probing), SyncStatus::Scanning);
    assert_eq!(status_in(RunPhase::ScanningDest), SyncStatus::Scanning);
    assert_eq!(status_in(RunPhase::Comparing), SyncStatus::Comparing);
    assert_eq!(status_in(RunPhase::Syncing), SyncStatus::Syncing);
}

#[test]
fn engine_remembers_the_request_to_stop() {
    let engine = SyncEngine::new();
    assert_eq!(engine.config().max_concurrent_transfers, 4);
    assert!(!engine.is_cancelled());
    assert_eq!(
        engine.step(RunPhase::Comparing, RunEvent::Planned),
        Some((RunPhase::Syncing, RunCommand::Transfer))
    );
    engine.cancel();
    assert!(engine.is_cancelled());
    assert_eq!(
        engine.step(RunPhase::Comparing, RunEvent::Planned),
        Some((RunPhase::Finished, RunCommand::End(SyncStatus::Cancelled)))
    );
    engine.reset();
    assert!(!engine.is_cancelled());
    let mut config = synctools::engine::SyncConfig::default();
    config.max_retries = 1;
    assert_eq!(SyncEngine::with_config(config).config().max_retries, 1);
}

#[test]
fn new_engine_has_the_default_settings() {
    let engine = SyncEngine::new();
    let config = engine.config();
    assert_eq!(config.max_concurrent_transfers, 4);
    assert_eq!(config.large_file_threshold, 128 * 1024 * 1024);
    assert_eq!(config.chunk_size, 8 * 1024 * 1024);
    assert_eq!((config.max_retries, config.retry_base_delay_ms), (5, 2000));
    assert!(config.enable_resume && config.auto_create_dir && !config.force_refresh);
    assert!(config.cache_dir.is_none());
    assert_eq!(config.remote_cache_ttl, 1800);
    assert_eq!(
        config.scan_config.exclude_patterns,
        vec![".git/**", ".svn/**", "node_modules/**", ".DS_Store", "Thumbs.db", "*.tmp", "*.temp", "~*"]
    );
}
