//! The course of a run: which step follows which, where a cancellation is
//! noticed, and how the run ends.

use std::sync::atomic::AtomicBool;
use std::sync::atomic::Ordering;
use vstd::prelude::*;
use crate::engine::final_status;
use crate::engine::is_default_config;
use crate::engine::ProbeDecision;
use crate::engine::SyncConfig;
use crate::models::SyncStatus;

verus! {

/// Where a run stands.
#[derive(Debug, Clone, Copy, PartialEq, Eq, Structural)]
pub enum RunPhase {
    /// Not begun.
    Idle,
    /// The two storages are being opened.
    Connecting,
    /// The destination is being probed.
    Probing,
    /// The root directory of the destination is being created.
    CreatingRoot,
    /// The source is being listed.
    ScanningSource,
    /// The destination is being listed.
    ScanningDest,
    /// The two listings are being compared.
    Comparing,
    /// The actions are being carried out.
    Syncing,
    /// The run is over.
    Finished,
}

/// What has happened since the last step.
#[derive(Debug, Clone, Copy, PartialEq, Eq, Structural)]
pub enum RunEvent {
    /// The run was asked for.
    Started,
    /// Both storages are open.
    Connected,
    /// A storage could not be opened.
    Unreachable,
    /// The probe of the destination was judged.
    ProbeJudged(ProbeDecision),
    /// The attempt to create the root is over; `usable` tells whether the
    /// destination can be used now.
    RootSettled { usable: bool },
    /// The listing of the side that is being scanned is there.
    Listed,
    /// The side that is being scanned could not be listed.
    ListingFailed,
    /// The plan is made.
    Planned,
    /// Every action is settled or given up; `failed` tells how many failed.
    Settled { failed: u64 },
}

/// What is to be done next.
#[derive(Debug, Clone, Copy, PartialEq, Eq, Structural)]
pub enum RunCommand {
    /// Open the two storages.
    Connect,
    /// List one level of the destination.
    Probe,
    /// Create the root directory of the destination, and probe again
    /// where that fails.
    CreateRoot,
    /// List the source, from the cache or by a scan.
    ScanSource,
    /// List the destination, from the cache or by a scan.
    ScanDest,
    /// Compare the listings and make the plan.
    Plan,
    /// Carry the plan out.
    Transfer,
    /// Report the end of the run in the given status.
    End(SyncStatus),
}

/// The position of a phase in the course of a run.
pub open spec fn phase_rank(phase: RunPhase) -> int {
    match phase {
        RunPhase::Idle => 0,
        RunPhase::Connecting => 1,
        RunPhase::Probing => 2,
        RunPhase::CreatingRoot => 3,
        RunPhase::ScanningSource => 4,
        RunPhase::ScanningDest => 5,
        RunPhase::Comparing => 6,
        RunPhase::Syncing => 7,
        RunPhase::Finished => 8,
    }
}

/// The status that is shown while a run is in a phase before its end.
pub open spec fn phase_status(phase: RunPhase) -> SyncStatus {
    match phase {
        RunPhase::Idle => SyncStatus::Idle,
        RunPhase::Comparing => SyncStatus::Comparing,
        RunPhase::Syncing => SyncStatus::Syncing,
        _ => SyncStatus::Scanning,
    }
}

/// The step from `phase` to `next` with `command`, unless the run was
/// cancelled: then it ends as cancelled.
pub open spec fn unless_cancelled(cancelled: bool, next: RunPhase, command: RunCommand) -> Option<
    (RunPhase, RunCommand),
> {
    if cancelled {
        Some((RunPhase::Finished, RunCommand::End(SyncStatus::Cancelled)))
    } else {
        Some((next, command))
    }
}

/// A run that ends as failed.
pub open spec fn fails() -> Option<(RunPhase, RunCommand)> {
    Some((RunPhase::Finished, RunCommand::End(SyncStatus::Failed)))
}

/// The step that follows an event in a phase. The cancellation is looked
/// at before each of the two scans, before the comparison and before the
/// transfer; a storage that cannot be opened or listed, and a destination
/// that is missing and cannot be used, end the run as failed. Events that
/// cannot happen in a phase have no step.
pub open spec fn transition(phase: RunPhase, event: RunEvent, cancelled: bool) -> Option<
    (RunPhase, RunCommand),
> {
    match (phase, event) {
        (RunPhase::Idle, RunEvent::Started) => Some((RunPhase::Connecting, RunCommand::Connect)),
        (RunPhase::Connecting, RunEvent::Connected) => Some(
            (RunPhase::Probing, RunCommand::Probe),
        ),
        (RunPhase::Connecting, RunEvent::Unreachable) => fails(),
        (RunPhase::Probing, RunEvent::ProbeJudged(decision)) => match decision {
            ProbeDecision::Proceed => unless_cancelled(
                cancelled,
                RunPhase::ScanningSource,
                RunCommand::ScanSource,
            ),
            ProbeDecision::CreateRoot => Some((RunPhase::CreatingRoot, RunCommand::CreateRoot)),
            ProbeDecision::MissingDestination => fails(),
        },
        (RunPhase::CreatingRoot, RunEvent::RootSettled { usable }) => if usable {
            unless_cancelled(cancelled, RunPhase::ScanningSource, RunCommand::ScanSource)
        } else {
            fails()
        },
        (RunPhase::ScanningSource, RunEvent::Listed) => unless_cancelled(
            cancelled,
            RunPhase::ScanningDest,
            RunCommand::ScanDest,
        ),
        (RunPhase::ScanningSource, RunEvent::ListingFailed) => fails(),
        (RunPhase::ScanningDest, RunEvent::Listed) => unless_cancelled(
            cancelled,
            RunPhase::Comparing,
            RunCommand::Plan,
        ),
        (RunPhase::ScanningDest, RunEvent::ListingFailed) => fails(),
        (RunPhase::Comparing, RunEvent::Planned) => unless_cancelled(
            cancelled,
            RunPhase::Syncing,
            RunCommand::Transfer,
        ),
        (RunPhase::Syncing, RunEvent::Settled { failed }) => Some(
            (RunPhase::Finished, RunCommand::End(final_status(failed, cancelled))),
        ),
        _ => None,
    }
}

/// The step that follows `event` in `phase`, given whether the run has
/// been cancelled.
pub fn next_step(phase: RunPhase, event: RunEvent, cancelled: bool) -> (r: Option<
    (RunPhase, RunCommand),
>)
    ensures
        r == transition(phase, event, cancelled),
{
    let stop = Some((RunPhase::Finished, RunCommand::End(SyncStatus::Cancelled)));
    let fail = Some((RunPhase::Finished, RunCommand::End(SyncStatus::Failed)));
    match (phase, event) {
        (RunPhase::Idle, RunEvent::Started) => Some((RunPhase::Connecting, RunCommand::Connect)),
        (RunPhase::Connecting, RunEvent::Connected) => Some(
            (RunPhase::Probing, RunCommand::Probe),
        ),
        (RunPhase::Connecting, RunEvent::Unreachable) => fail,
        (RunPhase::Probing, RunEvent::ProbeJudged(decision)) => match decision {
            ProbeDecision::Proceed => if cancelled {
                stop
            } else {
                Some((RunPhase::ScanningSource, RunCommand::ScanSource))
            },
            ProbeDecision::CreateRoot => Some((RunPhase::CreatingRoot, RunCommand::CreateRoot)),
            ProbeDecision::MissingDestination => fail,
        },
        (RunPhase::CreatingRoot, RunEvent::RootSettled { usable }) => if !usable {
            fail
        } else if cancelled {
            stop
        } else {
            Some((RunPhase::ScanningSource, RunCommand::ScanSource))
        },
        (RunPhase::ScanningSource, RunEvent::Listed) => if cancelled {
            stop
        } else {
            Some((RunPhase::ScanningDest, RunCommand::ScanDest))
        },
        (RunPhase::ScanningSource, RunEvent::ListingFailed) => fail,
        (RunPhase::ScanningDest, RunEvent::Listed) => if cancelled {
            stop
        } else {
            Some((RunPhase::Comparing, RunCommand::Plan))
        },
        (RunPhase::ScanningDest, RunEvent::ListingFailed) => fail,
        (RunPhase::Comparing, RunEvent::Planned) => if cancelled {
            stop
        } else {
            Some((RunPhase::Syncing, RunCommand::Transfer))
        },
        (RunPhase::Syncing, RunEvent::Settled { failed }) => {
            let status = if failed > 0 {
                SyncStatus::Failed
            } else if cancelled {
                SyncStatus::Cancelled
            } else {
                SyncStatus::Completed
            };
            Some((RunPhase::Finished, RunCommand::End(status)))
        },
        _ => None,
    }
}

/// The status that is shown while a run is in `phase`.
pub fn status_in(phase: RunPhase) -> (s: SyncStatus)
    ensures
        s == phase_status(phase),
{
    match phase {
        RunPhase::Idle => SyncStatus::Idle,
        RunPhase::Comparing => SyncStatus::Comparing,
        RunPhase::Syncing => SyncStatus::Syncing,
        _ => SyncStatus::Scanning,
    }
}

/// Every step leads on: a run never comes back to a phase that it has
/// left, and a run that is over takes no further step.
pub proof fn law_run_moves_forward(phase: RunPhase, event: RunEvent, cancelled: bool)
    ensures
        transition(phase, event, cancelled) matches Some((next, _)) ==> phase_rank(next)
            > phase_rank(phase),
        transition(RunPhase::Finished, event, cancelled) is None,
{
}

/// A run is over exactly when its end is to be reported, and it ends as
/// completed, failed or cancelled.
pub proof fn law_run_ends_in_a_final_status(phase: RunPhase, event: RunEvent, cancelled: bool)
    ensures
        transition(phase, event, cancelled) matches Some((next, command)) ==> (next
            == RunPhase::Finished <==> command is End),
        transition(phase, event, cancelled) matches Some((_, RunCommand::End(status))) ==> status
            == SyncStatus::Completed || status == SyncStatus::Failed || status
            == SyncStatus::Cancelled,
{
}

/// The transfer begins only after the plan is made, and never in a run
/// that was cancelled by then.
pub proof fn law_transfer_follows_plan(phase: RunPhase, event: RunEvent, cancelled: bool)
    ensures
        transition(phase, event, cancelled) matches Some((_, RunCommand::Transfer)) ==> phase
            == RunPhase::Comparing && event == RunEvent::Planned && !cancelled,
{
}

/// A cancellation that is noticed before the transfer ends the run as
/// cancelled; after the transfer it does so unless an action failed.
pub proof fn law_cancelled_run_ends_cancelled(phase: RunPhase, event: RunEvent)
    ensures
        transition(phase, event, true) matches Some((_, command)) ==> command is End || command
            == RunCommand::Connect || command == RunCommand::Probe || command
            == RunCommand::CreateRoot,
        forall|failed: u64|
            transition(RunPhase::Syncing, RunEvent::Settled { failed }, true) == Some(
                (
                    RunPhase::Finished,
                    RunCommand::End(
                        if failed > 0 {
                            SyncStatus::Failed
                        } else {
                            SyncStatus::Cancelled
                        },
                    ),
                ),
            ),
{
}

/// The settings of a run and the flag by which it is cancelled.
pub struct SyncEngine {
    config: SyncConfig,
    cancelled: AtomicBool,
}

impl SyncEngine {
    /// The settings of the engine.
    pub closed spec fn settings(&self) -> SyncConfig {
        self.config
    }

    /// An engine with the default settings.
    pub fn new() -> (r: SyncEngine)
        ensures
            is_default_config(r.settings()),
    {
        SyncEngine { config: SyncConfig::default(), cancelled: AtomicBool::new(false) }
    }

    /// An engine with the given settings.
    pub fn with_config(config: SyncConfig) -> (r: SyncEngine)
        ensures
            r.settings() == config,
    {
        SyncEngine { config, cancelled: AtomicBool::new(false) }
    }

    /// The settings of the engine.
    pub fn config(&self) -> (c: &SyncConfig)
        ensures
            *c == self.settings(),
    {
        &self.config
    }

    /// Asks the run to stop at the next point where it looks.
    pub fn cancel(&self) {
        self.cancelled.store(true, Ordering::SeqCst);
    }

    /// Takes back an earlier request to stop, as a new run does.
    pub fn reset(&self) {
        self.cancelled.store(false, Ordering::SeqCst);
    }

    /// Whether the run was asked to stop.
    pub fn is_cancelled(&self) -> bool {
        self.cancelled.load(Ordering::SeqCst)
    }

    /// The step that follows `event` in `phase`; the request to stop is
    /// looked at now.
    pub fn step(&self, phase: RunPhase, event: RunEvent) -> (r: Option<(RunPhase, RunCommand)>)
        ensures
            r == transition(phase, event, true) || r == transition(phase, event, false),
            phase == RunPhase::Finished ==> r is None,
    {
        next_step(phase, event, self.is_cancelled())
    }
}

} // verus!
