//! The decisions of a synchronisation run: what to do before the scan,
//! which copies an unchanged file spares, how an action is carried out and
//! retried, and what the run reports at its end.

use vstd::prelude::*;
use vstd::string::StringExecFns;
use crate::cache::usable;
use crate::cache::CacheEntry;
use crate::cache::CacheResult;
use crate::cache::FileListCache;
use crate::comparator::action_views;
use crate::comparator::ActionSummary;
use crate::comparator::SyncAction;
use crate::comparator::SyncActionView;
use crate::conflict::ConflictResolution;
use crate::conflict::ResolutionTable;
use crate::conflict::ChosenResolution;
use crate::conflict::resolution_of_name;
use crate::conflict::resolved_actions;
use crate::conflict::resolve_action;
use crate::file_state::calculate_quick_hash;
use crate::file_state::quick_hash;
use crate::file_state::FileState;
use crate::file_state::FileStateView;
use crate::file_state::StateTable;
use crate::models::StorageType;
use crate::models::SyncProgress;
use crate::models::SyncStatus;
use crate::scanner::is_default_scan;
use crate::scanner::ScanConfig;
use crate::storage::FileInfoView;
use crate::table::lookup_key;
use crate::text::contains_str;
use crate::text::decimal;
use crate::text::decimal_text;
use crate::text::contains_text;
use crate::text::str_equal;
use crate::tree::FileTree;
use crate::tree::has_path;

verus! {

/// Transfers that run at the same time unless configured otherwise.
pub const DEFAULT_MAX_CONCURRENT: usize = 4;

/// Size above which a file is streamed: 128 MiB.
pub const DEFAULT_STREAM_THRESHOLD: u64 = 134217728;

/// Size of the slices in which a streamed file is read: 8 MiB.
pub const DEFAULT_CHUNK_SIZE: u64 = 8388608;

/// How often a failed action is tried again.
pub const DEFAULT_MAX_RETRIES: u32 = 5;

/// Delay before the first retry, in milliseconds.
pub const DEFAULT_RETRY_BASE_DELAY_MS: u64 = 2000;

/// Life time of a cached listing of a remote side, in seconds.
pub const DEFAULT_REMOTE_CACHE_TTL: u64 = 1800;

/// Listings that the scanner walks at the same time.
pub const SCANNER_CONCURRENCY: usize = 8;

/// Time between two progress reports, in milliseconds.
pub const PROGRESS_UPDATE_INTERVAL_MS: u64 = 500;

/// Progress reports that may wait for their reader; one more is dropped.
pub const PROGRESS_CHANNEL_CAPACITY: usize = 100;

/// Fewest transfers that may run at the same time.
pub const MIN_CONCURRENT: usize = 1;

/// Most transfers that may run at the same time.
pub const MAX_CONCURRENT: usize = 128;

/// The settings of a run.
#[derive(Debug)]
pub struct SyncConfig {
    /// Transfers that run at the same time.
    pub max_concurrent_transfers: usize,
    /// Size above which a file is streamed.
    pub large_file_threshold: u64,
    /// Size of the slices in which a streamed file is read.
    pub chunk_size: u64,
    /// How often a failed action is tried again.
    pub max_retries: u32,
    /// Delay before the first retry, in milliseconds.
    pub retry_base_delay_ms: u64,
    /// Whether interrupted transfers are resumed.
    pub enable_resume: bool,
    /// What the scan leaves out.
    pub scan_config: ScanConfig,
    /// Whether a missing destination directory is created.
    pub auto_create_dir: bool,
    /// The choices made for conflicts, by path.
    pub conflict_resolutions: ResolutionTable,
    /// Whether cached listings are set aside.
    pub force_refresh: bool,
    /// Where listings are cached.
    pub cache_dir: Option<String>,
    /// Life time of a cached listing of a remote side, in seconds.
    pub remote_cache_ttl: u64,
}

/// The settings of a run that is told nothing.
pub open spec fn is_default_config(c: SyncConfig) -> bool {
    &&& c.max_concurrent_transfers == DEFAULT_MAX_CONCURRENT
    &&& c.large_file_threshold == DEFAULT_STREAM_THRESHOLD
    &&& c.chunk_size == DEFAULT_CHUNK_SIZE
    &&& c.max_retries == DEFAULT_MAX_RETRIES
    &&& c.retry_base_delay_ms == DEFAULT_RETRY_BASE_DELAY_MS
    &&& c.enable_resume
    &&& c.auto_create_dir
    &&& c.conflict_resolutions@.len() == 0
    &&& !c.force_refresh
    &&& c.cache_dir is None
    &&& c.remote_cache_ttl == DEFAULT_REMOTE_CACHE_TTL
    &&& is_default_scan(c.scan_config)
}

impl Default for SyncConfig {
    fn default() -> (r: SyncConfig)
        ensures
            is_default_config(r),
    {
        SyncConfig {
            max_concurrent_transfers: DEFAULT_MAX_CONCURRENT,
            large_file_threshold: DEFAULT_STREAM_THRESHOLD,
            chunk_size: DEFAULT_CHUNK_SIZE,
            max_retries: DEFAULT_MAX_RETRIES,
            retry_base_delay_ms: DEFAULT_RETRY_BASE_DELAY_MS,
            enable_resume: true,
            scan_config: ScanConfig::default(),
            auto_create_dir: true,
            conflict_resolutions: ResolutionTable::new(),
            force_refresh: false,
            cache_dir: None,
            remote_cache_ttl: DEFAULT_REMOTE_CACHE_TTL,
        }
    }
}

/// The number of transfers that run at the same time when `requested` are
/// asked for: 4 where none are, and never fewer than 1 or more than 128.
pub open spec fn concurrency_for(requested: Option<usize>) -> usize {
    match requested {
        None => DEFAULT_MAX_CONCURRENT,
        Some(n) => if n < MIN_CONCURRENT {
            MIN_CONCURRENT
        } else if n > MAX_CONCURRENT {
            MAX_CONCURRENT
        } else {
            n
        },
    }
}

/// The number of workers that carry out the actions of a run whose
/// settings ask for `max_concurrent_transfers`: that number, but never
/// fewer than 1 or more than 128.
pub fn worker_slots(max_concurrent_transfers: usize) -> (n: usize)
    ensures
        n == concurrency_for(Some(max_concurrent_transfers)),
        MIN_CONCURRENT <= n <= MAX_CONCURRENT,
        MIN_CONCURRENT <= max_concurrent_transfers <= MAX_CONCURRENT ==> n
            == max_concurrent_transfers,
{
    if max_concurrent_transfers < MIN_CONCURRENT {
        MIN_CONCURRENT
    } else if max_concurrent_transfers > MAX_CONCURRENT {
        MAX_CONCURRENT
    } else {
        max_concurrent_transfers
    }
}

impl SyncConfig {
    /// The number of workers that carry out the actions of a run with
    /// these settings.
    pub fn workers(&self) -> (n: usize)
        ensures
            n == concurrency_for(Some(self.max_concurrent_transfers)),
            MIN_CONCURRENT <= n <= MAX_CONCURRENT,
    {
        worker_slots(self.max_concurrent_transfers)
    }

    /// The settings of a run that is started with the given options; what
    /// is not given keeps its default.
    pub fn for_start(
        auto_create_dir: Option<bool>,
        max_concurrent: Option<usize>,
        conflict_resolutions: ResolutionTable,
        cache_dir: Option<String>,
        remote_cache_ttl: u64,
    ) -> (r: SyncConfig)
        ensures
            r.auto_create_dir == match auto_create_dir {
                Some(b) => b,
                None => true,
            },
            r.max_concurrent_transfers == concurrency_for(max_concurrent),
            r.conflict_resolutions@ == conflict_resolutions@,
            r.cache_dir == cache_dir,
            r.remote_cache_ttl == remote_cache_ttl,
            r.large_file_threshold == DEFAULT_STREAM_THRESHOLD,
            r.chunk_size == DEFAULT_CHUNK_SIZE,
            r.max_retries == DEFAULT_MAX_RETRIES,
            r.retry_base_delay_ms == DEFAULT_RETRY_BASE_DELAY_MS,
            r.enable_resume,
            !r.force_refresh,
            is_default_scan(r.scan_config),
    {
        let mut config = SyncConfig::default();
        config.auto_create_dir = match auto_create_dir {
            Some(b) => b,
            None => true,
        };
        config.max_concurrent_transfers = match max_concurrent {
            None => DEFAULT_MAX_CONCURRENT,
            Some(n) => worker_slots(n),
        };
        config.conflict_resolutions = conflict_resolutions;
        config.cache_dir = cache_dir;
        config.remote_cache_ttl = remote_cache_ttl;
        config
    }
}

/// Whether the listing of a side may be taken from the cache: only that
/// of a remote side, and only where no fresh scan was asked for. A local
/// side is always scanned.
pub open spec fn cache_consulted(kind: StorageType, force_refresh: bool) -> bool {
    kind != StorageType::Local && !force_refresh
}

/// Whether the listing of a side may be taken from the cache.
pub fn consults_cache(kind: StorageType, force_refresh: bool) -> (b: bool)
    ensures
        b == cache_consulted(kind, force_refresh),
        kind == StorageType::Local ==> !b,
        force_refresh ==> !b,
{
    match kind {
        StorageType::Local => false,
        _ => !force_refresh,
    }
}

/// Whether the listing that a scan of a side gave is put into the cache:
/// that of a remote side is, that of a local side never.
pub fn stores_listing(kind: StorageType) -> (b: bool)
    ensures
        b == (kind != StorageType::Local),
{
    match kind {
        StorageType::Local => false,
        _ => true,
    }
}

/// What a stored entry gives for the listing of a side at the time `now`:
/// the stored listing where the cache may be consulted for that side and
/// the entry is usable, nothing otherwise. For a local side it gives
/// nothing, whatever is stored.
pub fn cached_listing(
    kind: StorageType,
    force_refresh: bool,
    cache: &FileListCache,
    entry: CacheEntry,
    config_json: &str,
    now: u64,
) -> (r: Option<CacheResult>)
    ensures
        r is Some <==> cache_consulted(kind, force_refresh) && usable(
            cache.ttl(),
            entry.config_hash@,
            entry.cached_at,
            config_json@,
            now,
        ),
        r matches Some(hit) ==> hit.files@ == entry.files@ && hit.cached_at == entry.cached_at,
        kind == StorageType::Local ==> r is None,
{
    if consults_cache(kind, force_refresh) {
        cache.accept(entry, config_json, now)
    } else {
        None
    }
}

/// The life time handed to the cache of one side: the configured time for
/// a remote side, 0 for a local side, whose listing the cache never holds.
pub fn side_cache_ttl(kind: StorageType, remote_cache_ttl: u64) -> (ttl: u64)
    ensures
        ttl == if kind == StorageType::Local {
            0
        } else {
            remote_cache_ttl
        },
{
    match kind {
        StorageType::Local => 0,
        _ => remote_cache_ttl,
    }
}

/// What to do after the destination was probed.
#[derive(Debug, Clone, Copy, PartialEq, Eq, Structural)]
pub enum ProbeDecision {
    /// Go on with the scan.
    Proceed,
    /// Try to create the destination's root directory first.
    CreateRoot,
    /// Give up: the destination is missing and is not to be created.
    MissingDestination,
}

/// Whether an error text says that the directory is missing.
pub open spec fn says_missing(error: Seq<char>) -> bool {
    contains_text(error, "409"@) || contains_text(error, "Conflict"@) || contains_text(
        error,
        "404"@,
    ) || contains_text(error, "NotFound"@)
}

/// The decision after the probe of the destination, which succeeded or
/// failed with the given error text.
pub open spec fn probe_decision(error: Option<Seq<char>>, auto_create_dir: bool) -> ProbeDecision {
    match error {
        None => ProbeDecision::Proceed,
        Some(e) => if says_missing(e) {
            if auto_create_dir {
                ProbeDecision::CreateRoot
            } else {
                ProbeDecision::MissingDestination
            }
        } else {
            ProbeDecision::Proceed
        },
    }
}

/// Decides what to do after the probe of the destination. Errors that do
/// not say that the directory is missing do not stop the run.
pub fn decide_after_probe(error: Option<&str>, auto_create_dir: bool) -> (d: ProbeDecision)
    ensures
        d == probe_decision(
            match error {
                Some(e) => Some(e@),
                None => None,
            },
            auto_create_dir,
        ),
{
    match error {
        None => ProbeDecision::Proceed,
        Some(e) => {
            if contains_str(e, "409") || contains_str(e, "Conflict") || contains_str(e, "404")
                || contains_str(e, "NotFound") {
                if auto_create_dir {
                    ProbeDecision::CreateRoot
                } else {
                    ProbeDecision::MissingDestination
                }
            } else {
                ProbeDecision::Proceed
            }
        },
    }
}

/// Whether the run goes on after the attempt to create the destination's
/// root: it does unless both the creation and the second probe failed.
pub fn proceed_after_create(created: bool, second_probe_ok: bool) -> (go: bool)
    ensures
        go == (created || second_probe_ok),
{
    created || second_probe_ok
}

/// The message of a run that stops because the destination is missing and
/// may not be created.
pub fn missing_destination_message() -> (s: String)
    ensures
        s@ == "目标目录不存在，请先在云端创建该目录，或在设置中开启「自动创建目录」"@,
{
    String::from_str("目标目录不存在，请先在云端创建该目录，或在设置中开启「自动创建目录」")
}

/// The message of a run that stops because the destination is missing and
/// could not be created.
pub fn uncreatable_destination_message() -> (s: String)
    ensures
        s@ == "目标目录不存在且无法自动创建，请先在云端手动创建该目录"@,
{
    String::from_str("目标目录不存在且无法自动创建，请先在云端手动创建该目录")
}

/// The checksum against which a copy is checked before it is carried out:
/// the action is a forward copy, the destination holds the file, and the
/// state remembered for the path has the copy's size and a checksum.
pub open spec fn skip_candidate(
    action: SyncActionView,
    saved: Seq<FileStateView>,
    dest: Seq<FileInfoView>,
) -> Option<Seq<char>> {
    match action {
        SyncActionView::Copy { source_path, size, reverse, .. } => {
            let state = lookup_key::<FileState>(saved, source_path);
            if !reverse && has_path(dest, source_path) && state is Some && state->0.file_size
                == size as i64 && state->0.checksum is Some {
                state->0.checksum
            } else {
                None
            }
        },
        _ => None,
    }
}

/// The checksum against which `action` is to be checked, if it is one that
/// an unchanged source file spares.
pub fn saved_hash_to_check(action: &SyncAction, saved: &StateTable, dest: &FileTree) -> (r: Option<
    String,
>)
    ensures
        match r {
            Some(h) => skip_candidate(action@, saved@, dest@) == Some(h@),
            None => skip_candidate(action@, saved@, dest@) is None,
        },
{
    match action {
        SyncAction::Copy { source_path, size, reverse, .. } => {
            if *reverse {
                return None;
            }
            if !dest.contains_key(source_path.as_str()) {
                return None;
            }
            match saved.get(source_path.as_str()) {
                Some(state) => {
                    if state.file_size == #[verifier::truncate] (*size as i64) {
                        match &state.checksum {
                            Some(h) => Some(h.clone()),
                            None => None,
                        }
                    } else {
                        None
                    }
                },
                None => None,
            }
        },
        _ => None,
    }
}

/// The action after the check of the source file's content: a copy whose
/// file still has the remembered checksum becomes a skip.
pub open spec fn after_hash_check(
    action: SyncActionView,
    saved: Seq<FileStateView>,
    dest: Seq<FileInfoView>,
    content: Seq<u8>,
) -> SyncActionView {
    if skip_candidate(action, saved, dest) == Some(quick_hash(content)) {
        SyncActionView::Skip { path: action->Copy_source_path }
    } else {
        action
    }
}

/// Checks the content read from the source against the remembered state
/// and turns the copy into a skip where the file has not changed.
pub fn check_unchanged(action: SyncAction, saved: &StateTable, dest: &FileTree, content: &[u8]) -> (r:
    SyncAction)
    ensures
        r@ == after_hash_check(action@, saved@, dest@, content@),
{
    match saved_hash_to_check(&action, saved, dest) {
        Some(remembered) => {
            let current = calculate_quick_hash(content);
            if str_equal(current.as_str(), remembered.as_str()) {
                match action {
                    SyncAction::Copy { source_path, .. } => SyncAction::Skip { path: source_path },
                    other => other,
                }
            } else {
                action
            }
        },
        None => action,
    }
}

/// The actions with every conflict replaced for which a choice was made.
pub open spec fn with_resolutions(
    actions: Seq<SyncActionView>,
    choices: Seq<crate::conflict::ChosenResolutionView>,
    kept_names: spec_fn(Seq<char>) -> Seq<char>,
) -> Seq<SyncActionView>
    decreases actions.len(),
{
    if actions.len() == 0 {
        Seq::<SyncActionView>::empty()
    } else {
        with_resolutions(actions.drop_last(), choices, kept_names) + resolved_one(
            actions.last(),
            choices,
            kept_names,
        )
    }
}

/// What one action becomes under the choices made.
pub open spec fn resolved_one(
    action: SyncActionView,
    choices: Seq<crate::conflict::ChosenResolutionView>,
    kept_names: spec_fn(Seq<char>) -> Seq<char>,
) -> Seq<SyncActionView> {
    match action {
        SyncActionView::Conflict { path, source_info, dest_info, .. } => {
            match lookup_key::<ChosenResolution>(choices, path) {
                Some(choice) => resolved_actions(
                    path,
                    source_info,
                    dest_info,
                    resolution_of_name(choice.resolution),
                    kept_names(path),
                ),
                None => seq![action],
            }
        },
        other => seq![other],
    }
}

/// The name under which the destination's version of `path` is kept when
/// both versions are kept at the time `timestamp`.
pub open spec fn kept_name_at(timestamp: i64) -> spec_fn(Seq<char>) -> Seq<char> {
    |path: Seq<char>|
        crate::conflict::conflict_name(
            path,
            "dest"@,
            crate::conflict::stamp_text(crate::conflict::utc_stamp(timestamp)),
        )
}

/// Replaces every conflict for which a choice was made by the actions that
/// carry the choice out; conflicts without a choice stay and will fail.
pub fn apply_resolutions(actions: Vec<SyncAction>, choices: &ResolutionTable, timestamp: i64) -> (r:
    Vec<SyncAction>)
    ensures
        action_views(r@) == with_resolutions(
            action_views(actions@),
            choices@,
            kept_name_at(timestamp),
        ),
{
    let ghost all = action_views(actions@);
    let ghost raw = actions@;
    let ghost names = kept_name_at(timestamp);
    let mut out: Vec<SyncAction> = Vec::new();
    proof {
        assert(all.take(0) =~= Seq::<SyncActionView>::empty());
        assert(action_views(out@) =~= Seq::<SyncActionView>::empty());
    }
    for action in it: actions
        invariant
            it.seq() == raw,
            all == action_views(raw),
            names == kept_name_at(timestamp),
            action_views(out@) == with_resolutions(all.take(it.index() as int), choices@, names),
    {
        let ghost done = all.take(it.index() as int);
        let ghost next = all.take(it.index() + 1);
        let ghost before = action_views(out@);
        proof {
            assert(next.drop_last() =~= done);
            assert(next.last() == action@);
        }
        let choice = match &action {
            SyncAction::Conflict { path, .. } => match choices.get(path.as_str()) {
                Some(chosen) => Some(
                    (
                        ConflictResolution::from(chosen.resolution.as_str()),
                        crate::conflict::ConflictResolver::generate_conflict_name(
                            path.as_str(),
                            "dest",
                            timestamp,
                        ),
                    ),
                ),
                None => None,
            },
            _ => None,
        };
        match choice {
            Some((resolution, kept_name)) => {
                let mut replaced = resolve_action(action, resolution, kept_name.as_str());
                let ghost added = action_views(replaced@);
                out.append(&mut replaced);
                assert(action_views(out@) =~= before + added);
            },
            None => {
                let ghost added = action@;
                out.push(action);
                assert(action_views(out@) =~= before + seq![added]);
            },
        }
    }
    proof {
        assert(all.take(all.len() as int) =~= all);
    }
    out
}

/// The actions that are carried out: all but the skips, in their order.
pub open spec fn executable(actions: Seq<SyncActionView>) -> Seq<SyncActionView> {
    actions.filter(|a: SyncActionView| !(a is Skip))
}

/// The actions that are carried out.
pub fn executable_actions(actions: Vec<SyncAction>) -> (r: Vec<SyncAction>)
    ensures
        action_views(r@) == executable(action_views(actions@)),
{
    let ghost all = action_views(actions@);
    let ghost raw = actions@;
    let mut out: Vec<SyncAction> = Vec::new();
    proof {
        assert(all.take(0) =~= Seq::<SyncActionView>::empty());
        assert(action_views(out@) =~= Seq::<SyncActionView>::empty());
        assert(executable(all.take(0)) =~= Seq::<SyncActionView>::empty());
    }
    for action in it: actions
        invariant
            it.seq() == raw,
            all == action_views(raw),
            action_views(out@) == executable(all.take(it.index() as int)),
    {
        let ghost done = all.take(it.index() as int);
        let ghost next = all.take(it.index() + 1);
        let ghost before = action_views(out@);
        proof {
            assert(next =~= done.push(action@));
            reveal(Seq::filter);
            assert(next.drop_last() =~= done);
        }
        match action {
            SyncAction::Skip { .. } => {},
            other => {
                let ghost added = other@;
                out.push(other);
                assert(action_views(out@) =~= before.push(added));
            },
        }
    }
    proof {
        assert(all.take(all.len() as int) =~= all);
    }
    out
}

/// One of the two sides of a job.
#[derive(Debug, Clone, Copy, PartialEq, Eq, Structural)]
pub enum Side {
    Source,
    Dest,
}

/// How an action is carried out on the two storages.
#[derive(Debug, Clone)]
pub enum ActionPlan {
    /// Read `from_path` on `from` and write it to `to_path` on `to`, in
    /// slices through a temporary file where `streamed`.
    Copy { from: Side, to: Side, from_path: String, to_path: String, size: u64, streamed: bool },
    /// Delete `path` on `on`.
    Delete { on: Side, path: String },
    /// Nothing is to be done.
    Nothing,
    /// The action cannot be carried out; it fails with `message`.
    Unresolved { message: String },
}

/// Mathematical value of an [`ActionPlan`].
pub enum ActionPlanView {
    Copy { from: Side, to: Side, from_path: Seq<char>, to_path: Seq<char>, size: u64, streamed: bool },
    Delete { on: Side, path: Seq<char> },
    Nothing,
    Unresolved { message: Seq<char> },
}

impl View for ActionPlan {
    type V = ActionPlanView;

    open spec fn view(&self) -> ActionPlanView {
        match *self {
            ActionPlan::Copy { from, to, from_path, to_path, size, streamed } => ActionPlanView::Copy {
                from,
                to,
                from_path: from_path@,
                to_path: to_path@,
                size,
                streamed,
            },
            ActionPlan::Delete { on, path } => ActionPlanView::Delete { on, path: path@ },
            ActionPlan::Nothing => ActionPlanView::Nothing,
            ActionPlan::Unresolved { message } => ActionPlanView::Unresolved { message: message@ },
        }
    }
}

/// The sizes that decide how a file is transferred.
#[derive(Debug, Clone, Copy, PartialEq, Eq, Structural)]
pub struct TransferParams {
    /// Size of the slices in which a streamed file is read.
    pub chunk_size: u64,
    /// Size above which a file is streamed.
    pub stream_threshold: u64,
}

/// How an action is carried out: a copy goes from the source to the
/// destination, or back where it is reversed, and is streamed where the
/// file is larger than the threshold; a deletion names its side; a skip
/// needs nothing; a conflict cannot be carried out.
pub open spec fn plan_of(action: SyncActionView, params: TransferParams) -> ActionPlanView {
    match action {
        SyncActionView::Copy { source_path, dest_path, size, reverse } => if reverse {
            ActionPlanView::Copy {
                from: Side::Dest,
                to: Side::Source,
                from_path: dest_path,
                to_path: source_path,
                size,
                streamed: size > params.stream_threshold,
            }
        } else {
            ActionPlanView::Copy {
                from: Side::Source,
                to: Side::Dest,
                from_path: source_path,
                to_path: dest_path,
                size,
                streamed: size > params.stream_threshold,
            }
        },
        SyncActionView::Delete { path, from_dest } => ActionPlanView::Delete {
            on: if from_dest {
                Side::Dest
            } else {
                Side::Source
            },
            path,
        },
        SyncActionView::Skip { .. } => ActionPlanView::Nothing,
        SyncActionView::Conflict { path, .. } => ActionPlanView::Unresolved {
            message: "冲突未解决: "@ + path,
        },
    }
}

/// How `action` is carried out.
pub fn plan_action(action: &SyncAction, params: TransferParams) -> (plan: ActionPlan)
    ensures
        plan@ == plan_of(action@, params),
{
    match action {
        SyncAction::Copy { source_path, dest_path, size, reverse } => {
            if *reverse {
                ActionPlan::Copy {
                    from: Side::Dest,
                    to: Side::Source,
                    from_path: dest_path.clone(),
                    to_path: source_path.clone(),
                    size: *size,
                    streamed: *size > params.stream_threshold,
                }
            } else {
                ActionPlan::Copy {
                    from: Side::Source,
                    to: Side::Dest,
                    from_path: source_path.clone(),
                    to_path: dest_path.clone(),
                    size: *size,
                    streamed: *size > params.stream_threshold,
                }
            }
        },
        SyncAction::Delete { path, from_dest } => ActionPlan::Delete {
            on: if *from_dest {
                Side::Dest
            } else {
                Side::Source
            },
            path: path.clone(),
        },
        SyncAction::Skip { .. } => ActionPlan::Nothing,
        SyncAction::Conflict { path, .. } => ActionPlan::Unresolved {
            message: String::from_str("冲突未解决: ").concat(path.as_str()),
        },
    }
}

/// The length of the slice that is read at `offset` of a streamed file of
/// `total` bytes: what is left of the file, but no more than the slice size.
pub open spec fn slice_at(total: u64, offset: u64, chunk_size: u64) -> u64 {
    if total - offset < chunk_size {
        (total - offset) as u64
    } else {
        chunk_size
    }
}

/// The length of the slice that is read next of a streamed file: what is
/// left of the file, but no more than the slice size.
pub fn next_chunk_len(total: u64, offset: u64, chunk_size: u64) -> (len: u64)
    requires
        offset <= total,
    ensures
        len == slice_at(total, offset, chunk_size),
        offset + len <= total,
        offset < total && chunk_size > 0 ==> len > 0,
{
    let left = total - offset;
    if left < chunk_size {
        left
    } else {
        chunk_size
    }
}

/// Where the reading of a streamed file stands after a slice of `got`
/// bytes was read at `offset`: further by the length of the slice, but
/// not beyond the end of the file. A slice without bytes moves nothing
/// forward: the source has ended before the file was read whole, and
/// there is no place to go on from.
pub fn after_slice(total: u64, offset: u64, got: u64) -> (r: Option<u64>)
    requires
        offset < total,
    ensures
        r == if got == 0 {
            None
        } else if got >= total - offset {
            Some(total)
        } else {
            Some((offset + got) as u64)
        },
        r matches Some(next) ==> offset < next <= total,
{
    if got == 0 {
        None
    } else if got >= total - offset {
        Some(total)
    } else {
        Some(offset + got)
    }
}

/// What a successful action hands on: the path, content hash and size of
/// the file whose state is to be remembered.
#[derive(Debug, Clone)]
pub struct ActionResult {
    pub file_path: Option<String>,
    pub file_hash: Option<String>,
    pub file_size: Option<i64>,
}

/// Mathematical value of an [`ActionResult`].
pub struct ActionResultView {
    pub file_path: Option<Seq<char>>,
    pub file_hash: Option<Seq<char>>,
    pub file_size: Option<i64>,
}

impl View for ActionResult {
    type V = ActionResultView;

    open spec fn view(&self) -> ActionResultView {
        ActionResultView {
            file_path: match self.file_path {
                Some(s) => Some(s@),
                None => None,
            },
            file_hash: match self.file_hash {
                Some(s) => Some(s@),
                None => None,
            },
            file_size: self.file_size,
        }
    }
}

/// The result that remembers nothing.
pub open spec fn empty_result() -> ActionResultView {
    ActionResultView { file_path: None, file_hash: None, file_size: None }
}

/// The result of an action that succeeded: a forward copy hands on the
/// source path, the hash of what was read and the number of bytes written;
/// every other action hands on nothing.
pub open spec fn result_of(action: SyncActionView, hash: Seq<char>, written: u64) -> ActionResultView {
    match action {
        SyncActionView::Copy { source_path, reverse, .. } => if reverse {
            empty_result()
        } else {
            ActionResultView {
                file_path: Some(source_path),
                file_hash: Some(hash),
                file_size: Some(written as i64),
            }
        },
        _ => empty_result(),
    }
}

/// The result of `action` once it has succeeded; `hash` and `written` are
/// the content hash and the size of what a copy has transferred.
pub fn finish_action(action: &SyncAction, hash: String, written: u64) -> (r: ActionResult)
    ensures
        r@ == result_of(action@, hash@, written),
{
    match action {
        SyncAction::Copy { source_path, reverse, .. } => {
            if *reverse {
                ActionResult { file_path: None, file_hash: None, file_size: None }
            } else {
                ActionResult {
                    file_path: Some(source_path.clone()),
                    file_hash: Some(hash),
                    file_size: Some(#[verifier::truncate] (written as i64)),
                }
            }
        },
        _ => ActionResult { file_path: None, file_hash: None, file_size: None },
    }
}

/// The state to remember after an action of job `job_id` succeeded at the
/// time `now`: there is one where the result names path, hash and size.
pub open spec fn state_of(job_id: Seq<char>, result: ActionResultView, now: i64) -> Option<
    FileStateView,
> {
    if result.file_path is Some && result.file_hash is Some && result.file_size is Some {
        Some(
            FileStateView {
                job_id,
                file_path: result.file_path->0,
                file_size: result.file_size->0,
                modified_time: now,
                checksum: result.file_hash,
                last_sync_time: Some(now),
            },
        )
    } else {
        None
    }
}

/// The state to remember after an action succeeded.
pub fn state_after(job_id: &str, result: ActionResult, now: i64) -> (r: Option<FileState>)
    ensures
        match r {
            Some(st) => state_of(job_id@, result@, now) == Some(st@),
            None => state_of(job_id@, result@, now) is None,
        },
{
    match (result.file_path, result.file_hash, result.file_size) {
        (Some(path), Some(hash), Some(size)) => Some(
            FileState {
                job_id: String::from_str(job_id),
                file_path: path,
                file_size: size,
                modified_time: now,
                checksum: Some(hash),
                last_sync_time: Some(now),
            },
        ),
        _ => None,
    }
}

/// How failed actions are tried again.
#[derive(Debug, Clone, Copy, PartialEq, Eq, Structural)]
pub struct RetryConfig {
    /// How often a failed action is tried again.
    pub max_retries: u32,
    /// Delay before the first retry, in milliseconds.
    pub base_delay_ms: u64,
}

/// Two to the power of `n`.
pub open spec fn pow2(n: nat) -> nat
    decreases n,
{
    if n == 0 {
        1
    } else {
        2 * pow2((n - 1) as nat)
    }
}

/// The delay before the retry that follows the failed attempt number
/// `attempt` (counted from 0): the base delay doubled `attempt` times, and
/// no more than fits.
pub open spec fn backoff_ms(base: u64, attempt: u32) -> u64 {
    if base * pow2(attempt as nat) > u64::MAX {
        u64::MAX
    } else {
        (base * pow2(attempt as nat)) as u64
    }
}

proof fn lemma_pow2_grows(a: nat, b: nat)
    requires
        a <= b,
    ensures
        pow2(a) <= pow2(b),
        pow2(a) >= 1,
    decreases b,
{
    if a < b {
        lemma_pow2_grows(a, (b - 1) as nat);
    } else if a > 0 {
        lemma_pow2_grows((a - 1) as nat, (a - 1) as nat);
    }
}

/// The delay before the retry that follows the failed attempt `attempt`.
pub fn backoff_delay(base: u64, attempt: u32) -> (delay: u64)
    ensures
        delay == backoff_ms(base, attempt),
{
    let mut delay: u64 = base;
    let mut k: u32 = 0;
    assert(pow2(0) == 1);
    assert(base * pow2(0) == base) by (nonlinear_arith)
        requires
            pow2(0) == 1,
    ;
    while k < attempt && delay != 0 && delay != u64::MAX
        invariant
            k <= attempt,
            delay == backoff_ms(base, k),
        decreases attempt - k,
    {
        proof {
            assert(base * pow2((k + 1) as nat) == 2 * (base * pow2(k as nat))) by (nonlinear_arith)
                requires
                    pow2((k + 1) as nat) == 2 * pow2(k as nat),
            ;
        }
        if delay > u64::MAX / 2 {
            delay = u64::MAX;
        } else {
            delay = delay * 2;
        }
        k = k + 1;
    }
    proof {
        if k < attempt {
            lemma_pow2_grows(k as nat, attempt as nat);
            if delay == 0 {
                assert(base == 0) by (nonlinear_arith)
                    requires
                        base * pow2(k as nat) == 0,
                        pow2(k as nat) >= 1,
                ;
                assert(base * pow2(attempt as nat) == 0) by (nonlinear_arith)
                    requires
                        base == 0,
                ;
            } else {
                assert(base * pow2(attempt as nat) >= base * pow2(k as nat)) by (nonlinear_arith)
                    requires
                        pow2(k as nat) <= pow2(attempt as nat),
                ;
            }
        }
    }
    delay
}

/// What follows a failed attempt.
#[derive(Debug, Clone)]
pub enum RetryDecision {
    /// Wait and try again.
    RetryAfter { delay_ms: u64 },
    /// The action has failed for good, with this message.
    GiveUp { message: String },
}

/// The path that a failure is reported under.
pub open spec fn reported_path(action: SyncActionView) -> Seq<char> {
    crate::comparator::action_path(action)
}

/// What went wrong.
#[derive(Debug, Clone, Copy, PartialEq, Eq, Structural)]
pub enum ErrorKind {
    /// The settings are wrong.
    ConfigInvalid,
    /// The storage cannot be reached.
    StorageUnreachable,
    /// There is no such file.
    NotFound,
    /// The storage refuses the operation.
    PermissionDenied,
    /// The operation took too long.
    Timeout,
    /// The network failed in a way that may pass.
    Transient,
    /// The content is not what it should be.
    Integrity,
    /// The run was cancelled.
    Cancelled,
    /// The two sides disagree.
    Conflict,
}

/// Whether an action that failed in this way is tried again: only what
/// may pass with time is.
pub open spec fn retryable(kind: ErrorKind) -> bool {
    kind == ErrorKind::Timeout || kind == ErrorKind::Transient
}

/// Whether an action that failed in this way is tried again.
pub fn is_retryable(kind: ErrorKind) -> (b: bool)
    ensures
        b == retryable(kind),
{
    match kind {
        ErrorKind::Timeout | ErrorKind::Transient => true,
        _ => false,
    }
}

/// The short message shown for a kind of error.
pub open spec fn kind_text(kind: ErrorKind) -> Seq<char> {
    match kind {
        ErrorKind::ConfigInvalid => "配置无效"@,
        ErrorKind::StorageUnreachable => "存储无法访问"@,
        ErrorKind::NotFound => "文件不存在"@,
        ErrorKind::PermissionDenied => "权限不足"@,
        ErrorKind::Timeout => "操作超时"@,
        ErrorKind::Transient => "网络错误"@,
        ErrorKind::Integrity => "数据校验失败"@,
        ErrorKind::Cancelled => "操作已取消"@,
        ErrorKind::Conflict => "文件冲突"@,
    }
}

/// The short message shown for a kind of error.
pub fn kind_message(kind: ErrorKind) -> (s: String)
    ensures
        s@ == kind_text(kind),
{
    match kind {
        ErrorKind::ConfigInvalid => String::from_str("配置无效"),
        ErrorKind::StorageUnreachable => String::from_str("存储无法访问"),
        ErrorKind::NotFound => String::from_str("文件不存在"),
        ErrorKind::PermissionDenied => String::from_str("权限不足"),
        ErrorKind::Timeout => String::from_str("操作超时"),
        ErrorKind::Transient => String::from_str("网络错误"),
        ErrorKind::Integrity => String::from_str("数据校验失败"),
        ErrorKind::Cancelled => String::from_str("操作已取消"),
        ErrorKind::Conflict => String::from_str("文件冲突"),
    }
}

/// Whether a deletion that failed in this way counts as done: a file that
/// is not there is deleted already.
pub fn deletion_is_done(kind: ErrorKind) -> (b: bool)
    ensures
        b == (kind == ErrorKind::NotFound),
{
    match kind {
        ErrorKind::NotFound => true,
        _ => false,
    }
}

/// Decides what follows the failure of attempt number `attempt` (counted
/// from 0) of `action`: while the failure is of a kind that may pass and
/// retries are left, another attempt after the backoff delay; otherwise
/// failure with the path and the error.
pub fn after_failure(
    action: &SyncAction,
    kind: ErrorKind,
    error: &str,
    attempt: u32,
    retry: RetryConfig,
) -> (d: RetryDecision)
    ensures
        retryable(kind) && attempt < retry.max_retries ==> d == (RetryDecision::RetryAfter {
            delay_ms: backoff_ms(retry.base_delay_ms, attempt),
        }),
        !(retryable(kind) && attempt < retry.max_retries) ==> d is GiveUp && d->message@
            == reported_path(action@) + ": "@ + error@,
{
    if is_retryable(kind) && attempt < retry.max_retries {
        RetryDecision::RetryAfter { delay_ms: backoff_delay(retry.base_delay_ms, attempt) }
    } else {
        let path = match action {
            SyncAction::Copy { source_path, .. } => source_path,
            SyncAction::Delete { path, .. } => path,
            SyncAction::Skip { path } => path,
            SyncAction::Conflict { path, .. } => path,
        };
        let mut message = path.clone();
        message.append(": ");
        message.append(error);
        RetryDecision::GiveUp { message }
    }
}

/// The error of an action that was not tried because the run was cancelled.
pub fn cancelled_action_message() -> (s: String)
    ensures
        s@ == "操作已取消"@,
{
    String::from_str("操作已取消")
}

/// The error of a run that was cancelled before it began to transfer.
pub fn cancelled_run_message() -> (s: String)
    ensures
        s@ == "同步已取消"@,
{
    String::from_str("同步已取消")
}

/// One action of a run that has come to its end.
pub struct Settled {
    /// The job that the action belongs to.
    pub job_id: Seq<char>,
    /// The action.
    pub action: SyncActionView,
    /// What the action handed on where it succeeded, its error where it failed.
    pub outcome: Result<ActionResultView, Seq<char>>,
    /// When it came to its end.
    pub at: i64,
}

/// The state that a settled action leaves to be remembered.
pub open spec fn settled_state(s: Settled) -> Option<FileStateView> {
    match s.outcome {
        Ok(result) => state_of(s.job_id, result, s.at),
        Err(_) => None,
    }
}

/// How many of the settled actions succeeded.
pub open spec fn done_count(log: Seq<Settled>) -> nat
    decreases log.len(),
{
    if log.len() == 0 {
        0
    } else {
        done_count(log.drop_last()) + if log.last().outcome is Ok {
            1nat
        } else {
            0nat
        }
    }
}

/// How many of the settled actions failed.
pub open spec fn failed_count(log: Seq<Settled>) -> nat
    decreases log.len(),
{
    if log.len() == 0 {
        0
    } else {
        failed_count(log.drop_last()) + if log.last().outcome is Err {
            1nat
        } else {
            0nat
        }
    }
}

/// How many of the settled actions are copies that succeeded.
pub open spec fn copied_count(log: Seq<Settled>) -> nat
    decreases log.len(),
{
    if log.len() == 0 {
        0
    } else {
        copied_count(log.drop_last()) + if log.last().outcome is Ok && log.last().action is Copy {
            1nat
        } else {
            0nat
        }
    }
}

/// How many of the settled actions are deletions that succeeded.
pub open spec fn deleted_count(log: Seq<Settled>) -> nat
    decreases log.len(),
{
    if log.len() == 0 {
        0
    } else {
        deleted_count(log.drop_last()) + if log.last().outcome is Ok && log.last().action is Delete {
            1nat
        } else {
            0nat
        }
    }
}

/// The sizes of the copies among the settled actions that succeeded, added up.
pub open spec fn copied_bytes(log: Seq<Settled>) -> nat
    decreases log.len(),
{
    if log.len() == 0 {
        0
    } else {
        copied_bytes(log.drop_last()) + due_bytes(log.last())
    }
}

/// The bytes that a settled action accounts for: the size of the file
/// where it is a copy that succeeded, and none otherwise.
pub open spec fn due_bytes(s: Settled) -> nat {
    if s.outcome is Ok {
        crate::comparator::bytes_moved(s.action)
    } else {
        0
    }
}

/// The states that the settled actions leave, in their order.
pub open spec fn states_in(log: Seq<Settled>) -> Seq<FileStateView>
    decreases log.len(),
{
    if log.len() == 0 {
        Seq::<FileStateView>::empty()
    } else {
        match settled_state(log.last()) {
            Some(st) => states_in(log.drop_last()).push(st),
            None => states_in(log.drop_last()),
        }
    }
}

/// The errors of the settled actions that failed, in their order.
pub open spec fn errors_in(log: Seq<Settled>) -> Seq<Seq<char>>
    decreases log.len(),
{
    if log.len() == 0 {
        Seq::<Seq<char>>::empty()
    } else {
        match log.last().outcome {
            Err(e) => errors_in(log.drop_last()).push(e),
            Ok(_) => errors_in(log.drop_last()),
        }
    }
}

/// A count as a 64-bit counter shows it.
pub open spec fn wrap64(n: int) -> u64 {
    (n % 0x1_0000_0000_0000_0000) as u64
}

proof fn lemma_wrap_add(n: nat, k: nat)
    requires
        k <= u64::MAX,
    ensures
        wrap64(wrap64(n as int) + k) == wrap64((n + k) as int),
{
    let m = 0x1_0000_0000_0000_0000int;
    let q = n as int / m;
    assert(n as int == q * m + (n as int % m)) by (nonlinear_arith)
        requires
            m == 0x1_0000_0000_0000_0000int,
            q == n as int / m,
    ;
    assert((q * m + (n as int % m) + k) % m == ((n as int % m) + k) % m) by (nonlinear_arith)
        requires
            m == 0x1_0000_0000_0000_0000int,
    ;
}

fn add_wrapping(x: u64, y: u64) -> (r: u64)
    ensures
        r == wrap64(x + y),
{
    let sum: u128 = x as u128 + y as u128;
    if sum > u64::MAX as u128 {
        (sum - u64::MAX as u128 - 1) as u64
    } else {
        sum as u64
    }
}

/// The texts of a list of strings.
pub open spec fn texts(v: Seq<String>) -> Seq<Seq<char>> {
    v.map_values(|s: String| s@)
}

/// The values of a list of states.
pub open spec fn state_views(v: Seq<FileState>) -> Seq<FileStateView> {
    v.map_values(|s: FileState| s@)
}

/// The books of a run: what has succeeded, what has failed, how many bytes
/// the copies that succeeded have moved, and the states to remember.
pub struct RunTally {
    files_completed: u64,
    files_failed: u64,
    files_copied: u64,
    files_deleted: u64,
    bytes_transferred: u64,
    errors: Vec<String>,
    synced_states: Vec<FileState>,
    log: Ghost<Seq<Settled>>,
}

impl RunTally {
    /// The actions settled so far, in the order in which they were recorded.
    pub closed spec fn log(&self) -> Seq<Settled> {
        self.log@
    }

    /// The counter of successes.
    pub closed spec fn completed(&self) -> u64 {
        self.files_completed
    }

    /// The counter of failures.
    pub closed spec fn failed(&self) -> u64 {
        self.files_failed
    }

    /// The counter of copies that succeeded.
    pub closed spec fn copied(&self) -> u64 {
        self.files_copied
    }

    /// The counter of deletions that succeeded.
    pub closed spec fn deleted(&self) -> u64 {
        self.files_deleted
    }

    /// The counter of bytes.
    pub closed spec fn bytes(&self) -> u64 {
        self.bytes_transferred
    }

    /// The errors recorded.
    pub closed spec fn errors(&self) -> Seq<Seq<char>> {
        texts(self.errors@)
    }

    /// The states to remember.
    pub closed spec fn states(&self) -> Seq<FileStateView> {
        state_views(self.synced_states@)
    }

    /// The books agree with the actions settled.
    pub open spec fn wf(&self) -> bool {
        &&& self.completed() == wrap64(done_count(self.log()) as int)
        &&& self.failed() == wrap64(failed_count(self.log()) as int)
        &&& self.copied() == wrap64(copied_count(self.log()) as int)
        &&& self.deleted() == wrap64(deleted_count(self.log()) as int)
        &&& self.bytes() == wrap64(copied_bytes(self.log()) as int)
        &&& self.errors() == errors_in(self.log())
        &&& self.states() == states_in(self.log())
    }

    /// The books of a run in which nothing has been settled.
    pub fn new() -> (r: RunTally)
        ensures
            r.wf(),
            r.log() == Seq::<Settled>::empty(),
    {
        let r = RunTally {
            files_completed: 0,
            files_failed: 0,
            files_copied: 0,
            files_deleted: 0,
            bytes_transferred: 0,
            errors: Vec::new(),
            synced_states: Vec::new(),
            log: Ghost(Seq::empty()),
        };
        proof {
            assert(r.errors() =~= errors_in(r.log()));
            assert(r.states() =~= states_in(r.log()));
        }
        r
    }

    /// Records that `action` succeeded at the time `now` with `result`:
    /// the success is counted, as a copy or a deletion where it is one; the
    /// size of a copy is added to the bytes; and the state that the result
    /// gives is kept.
    pub fn record_success(&mut self, job_id: &str, action: &SyncAction, result: ActionResult, now: i64)
        requires
            old(self).wf(),
        ensures
            final(self).wf(),
            final(self).log() == old(self).log().push(
                Settled { job_id: job_id@, action: action@, outcome: Ok(result@), at: now },
            ),
    {
        let ghost entry = Settled { job_id: job_id@, action: action@, outcome: Ok(result@), at: now };
        let ghost before = self.log@;
        let ghost after = before.push(entry);
        let ghost states0 = self.states();
        proof {
            assert(after.drop_last() =~= before);
            assert(after.last() == entry);
            assert(done_count(after) == done_count(before) + 1);
            assert(failed_count(after) == failed_count(before));
            assert(errors_in(after) == errors_in(before));
            lemma_wrap_add(done_count(before), 1);
        }
        self.files_completed = add_wrapping(self.files_completed, 1);
        match action {
            SyncAction::Copy { size, .. } => {
                proof {
                    assert(copied_count(after) == copied_count(before) + 1);
                    assert(deleted_count(after) == deleted_count(before));
                    assert(copied_bytes(after) == copied_bytes(before) + *size);
                    lemma_wrap_add(copied_count(before), 1);
                    lemma_wrap_add(copied_bytes(before), *size as nat);
                }
                self.files_copied = add_wrapping(self.files_copied, 1);
                self.bytes_transferred = add_wrapping(self.bytes_transferred, *size);
            },
            SyncAction::Delete { .. } => {
                proof {
                    assert(copied_count(after) == copied_count(before));
                    assert(deleted_count(after) == deleted_count(before) + 1);
                    assert(copied_bytes(after) == copied_bytes(before));
                    lemma_wrap_add(deleted_count(before), 1);
                }
                self.files_deleted = add_wrapping(self.files_deleted, 1);
            },
            _ => {
                proof {
                    assert(copied_count(after) == copied_count(before));
                    assert(deleted_count(after) == deleted_count(before));
                    assert(copied_bytes(after) == copied_bytes(before));
                }
            },
        }
        match state_after(job_id, result, now) {
            Some(state) => {
                let ghost st = state@;
                self.synced_states.push(state);
                assert(self.states() =~= states0.push(st));
            },
            None => {
                assert(self.states() =~= states0);
            },
        }
        self.log = Ghost(after);
    }

    /// Records that `action` failed for good at the time `now` with
    /// `error`: the failure is counted and the error is kept; no bytes are
    /// added and no state is kept.
    pub fn record_failure(&mut self, job_id: &str, action: &SyncAction, error: String, now: i64)
        requires
            old(self).wf(),
        ensures
            final(self).wf(),
            final(self).log() == old(self).log().push(
                Settled { job_id: job_id@, action: action@, outcome: Err(error@), at: now },
            ),
    {
        let ghost entry = Settled { job_id: job_id@, action: action@, outcome: Err(error@), at: now };
        let ghost before = self.log@;
        let ghost after = before.push(entry);
        let ghost errors0 = self.errors();
        let ghost text = error@;
        proof {
            assert(after.drop_last() =~= before);
            assert(after.last() == entry);
            assert(done_count(after) == done_count(before));
            assert(failed_count(after) == failed_count(before) + 1);
            assert(copied_count(after) == copied_count(before));
            assert(deleted_count(after) == deleted_count(before));
            assert(copied_bytes(after) == copied_bytes(before));
            assert(states_in(after) == states_in(before));
            lemma_wrap_add(failed_count(before), 1);
        }
        self.files_failed = add_wrapping(self.files_failed, 1);
        self.errors.push(error);
        assert(self.errors() =~= errors0.push(text));
        self.log = Ghost(after);
    }

    /// The number of actions that succeeded.
    pub fn files_completed(&self) -> (n: u64)
        ensures
            n == self.completed(),
    {
        self.files_completed
    }

    /// The number of actions that failed.
    pub fn files_failed(&self) -> (n: u64)
        ensures
            n == self.failed(),
    {
        self.files_failed
    }

    /// The number of copies that succeeded.
    pub fn files_copied(&self) -> (n: u64)
        ensures
            n == self.copied(),
    {
        self.files_copied
    }

    /// The number of deletions that succeeded.
    pub fn files_deleted(&self) -> (n: u64)
        ensures
            n == self.deleted(),
    {
        self.files_deleted
    }

    /// The number of bytes that the copies that succeeded have moved.
    pub fn bytes_transferred(&self) -> (n: u64)
        ensures
            n == self.bytes(),
    {
        self.bytes_transferred
    }

    /// The errors of the actions that failed, in the order of their failure.
    pub fn error_list(&self) -> (r: &Vec<String>)
        ensures
            texts(r@) == self.errors(),
    {
        &self.errors
    }

    /// The states to remember, in the order in which their copies succeeded.
    pub fn synced_states(&self) -> (r: &Vec<FileState>)
        ensures
            state_views(r@) == self.states(),
    {
        &self.synced_states
    }
}

proof fn lemma_state_is_kept(log: Seq<Settled>, i: int)
    requires
        0 <= i < log.len(),
        settled_state(log[i]) is Some,
    ensures
        states_in(log).contains(settled_state(log[i])->0),
    decreases log.len(),
{
    let st = settled_state(log[i])->0;
    let rest = log.drop_last();
    if i == log.len() - 1 {
        let all = states_in(log);
        assert(all == states_in(rest).push(st));
        assert(all[all.len() - 1] == st);
    } else {
        lemma_state_is_kept(rest, i);
        let k = choose|k: int| 0 <= k < states_in(rest).len() && states_in(rest)[k] == st;
        match settled_state(log.last()) {
            Some(other) => {
                assert(states_in(log)[k] == st);
            },
            None => {},
        }
    }
}

proof fn lemma_state_has_origin(log: Seq<Settled>, k: int) -> (i: int)
    requires
        0 <= k < states_in(log).len(),
    ensures
        0 <= i < log.len(),
        log[i].outcome is Ok,
        settled_state(log[i]) == Some(states_in(log)[k]),
    decreases log.len(),
{
    let rest = log.drop_last();
    match settled_state(log.last()) {
        Some(st) => {
            if k == states_in(rest).len() {
                log.len() - 1
            } else {
                lemma_state_has_origin(rest, k)
            }
        },
        None => lemma_state_has_origin(rest, k),
    }
}

/// Every forward copy that succeeded has left its state: the state of its
/// job and path, with the size written and the hash of what was read, is
/// among the states to remember.
pub proof fn law_forward_copy_leaves_state(tally: RunTally, i: int, hash: Seq<char>, written: u64)
    requires
        tally.wf(),
        0 <= i < tally.log().len(),
        tally.log()[i].action is Copy,
        !tally.log()[i].action->Copy_reverse,
        tally.log()[i].outcome == Ok::<ActionResultView, Seq<char>>(
            result_of(tally.log()[i].action, hash, written),
        ),
    ensures
        tally.states().contains(
            FileStateView {
                job_id: tally.log()[i].job_id,
                file_path: tally.log()[i].action->Copy_source_path,
                file_size: written as i64,
                modified_time: tally.log()[i].at,
                checksum: Some(hash),
                last_sync_time: Some(tally.log()[i].at),
            },
        ),
{
    lemma_state_is_kept(tally.log(), i);
}

/// Every state to remember comes from an action that succeeded: an action
/// that failed, was cancelled or is still under way leaves none.
pub proof fn law_states_come_from_successes(tally: RunTally, k: int)
    requires
        tally.wf(),
        0 <= k < tally.states().len(),
    ensures
        exists|i: int|
            0 <= i < tally.log().len() && (#[trigger] tally.log()[i]).outcome is Ok
                && settled_state(tally.log()[i]) == Some(tally.states()[k]),
{
    let i = lemma_state_has_origin(tally.log(), k);
    assert(tally.log()[i].outcome is Ok);
}

/// The counter of bytes shows the sizes of the copies that succeeded,
/// added up: attempts that failed and actions that failed for good add
/// nothing.
pub proof fn law_bytes_are_sizes_of_copies(tally: RunTally)
    requires
        tally.wf(),
    ensures
        tally.bytes() == wrap64(copied_bytes(tally.log()) as int),
{
}

/// Every settled action has either succeeded or failed; the copies and the
/// deletions that succeeded are among the successes, and there is one
/// error for each failure.
pub proof fn law_settled_actions_are_counted(tally: RunTally)
    requires
        tally.wf(),
    ensures
        done_count(tally.log()) + failed_count(tally.log()) == tally.log().len(),
        copied_count(tally.log()) + deleted_count(tally.log()) <= done_count(tally.log()),
        tally.errors().len() == failed_count(tally.log()),
{
    lemma_counts(tally.log());
}

proof fn lemma_counts(log: Seq<Settled>)
    ensures
        done_count(log) + failed_count(log) == log.len(),
        copied_count(log) + deleted_count(log) <= done_count(log),
        errors_in(log).len() == failed_count(log),
    decreases log.len(),
{
    if log.len() > 0 {
        lemma_counts(log.drop_last());
    }
}

/// The counters of a transfer under way, as the workers have raised them.
#[derive(Debug, Clone, Copy)]
pub struct TransferCounts {
    /// Entries that the scans of both sides found.
    pub files_scanned: u32,
    /// Actions that are to be carried out.
    pub files_to_sync: u32,
    /// Actions that succeeded.
    pub completed: u64,
    /// Actions that failed.
    pub failed: u64,
    /// Bytes sent so far.
    pub bytes: u64,
    /// Bytes that the plan moves.
    pub bytes_total: u64,
}

/// The actions that are settled, as a counter shows them: those that
/// succeeded and those that failed, no more than the counter holds.
pub open spec fn settled_of(counts: TransferCounts) -> u64 {
    if counts.completed + counts.failed > u64::MAX {
        u64::MAX
    } else {
        (counts.completed + counts.failed) as u64
    }
}

/// Whether the transfer has no more progress to tell of: as many actions
/// are settled as were to be carried out.
pub fn transfer_is_settled(counts: TransferCounts) -> (b: bool)
    ensures
        b == (settled_of(counts) >= counts.files_to_sync),
{
    counts.completed.saturating_add(counts.failed) >= counts.files_to_sync as u64
}

/// What a transfer under way tells of itself: how many of its actions
/// are settled and how many of those failed, the bytes sent and to send,
/// and the speed and the remaining time as they were measured.
pub fn transfer_progress(job_id: &str, start_time: i64, counts: TransferCounts, speed: u64, eta: u64) -> (p:
    SyncProgress)
    ensures
        p.jobId@ == job_id@,
        p.status == SyncStatus::Syncing,
        p.phase@ == "同步中 "@ + decimal(settled_of(counts) as nat) + "/"@ + decimal(
            counts.files_to_sync as nat,
        ),
        p.currentFile@.len() == 0,
        p.filesScanned == counts.files_scanned,
        p.filesToSync == counts.files_to_sync,
        p.filesCompleted == settled_of(counts) as u32,
        p.filesSkipped == 0,
        p.filesFailed == counts.failed as u32,
        p.bytesTransferred == counts.bytes,
        p.bytesTotal == counts.bytes_total,
        p.speed == speed,
        p.eta == eta,
        p.startTime == start_time,
        p.endTime == 0,
{
    let settled = counts.completed.saturating_add(counts.failed);
    let mut phase = String::from_str("同步中 ");
    phase.append(decimal_text(settled).as_str());
    phase.append("/");
    phase.append(decimal_text(counts.files_to_sync as u64).as_str());
    SyncProgress {
        jobId: String::from_str(job_id),
        status: SyncStatus::Syncing,
        phase,
        currentFile: String::new(),
        filesScanned: counts.files_scanned,
        filesToSync: counts.files_to_sync,
        filesCompleted: #[verifier::truncate] (settled as u32),
        filesSkipped: 0,
        filesFailed: #[verifier::truncate] (counts.failed as u32),
        bytesTransferred: counts.bytes,
        bytesTotal: counts.bytes_total,
        speed,
        eta,
        startTime: start_time,
        endTime: 0,
    }
}

/// What a run reports at its end.
#[derive(Debug, Clone)]
pub struct SyncReport {
    pub jobId: String,
    pub startTime: i64,
    pub endTime: i64,
    pub status: SyncStatus,
    pub filesScanned: u32,
    pub filesCopied: u32,
    pub filesDeleted: u32,
    pub filesSkipped: u32,
    pub filesFailed: u32,
    pub bytesTransferred: u64,
    pub duration: u64,
    pub errors: Vec<String>,
}

/// What a run tells of itself when it has ended: the counts of its
/// report, with the copies and deletions that succeeded as the actions
/// completed.
pub fn finished_progress(report: &SyncReport, files_to_sync: u32) -> (p: SyncProgress)
    ensures
        p.jobId@ == report.jobId@,
        p.status == report.status,
        p.phase@ == "同步完成"@,
        p.currentFile@.len() == 0,
        p.filesScanned == report.filesScanned,
        p.filesToSync == files_to_sync,
        p.filesCompleted == if report.filesCopied + report.filesDeleted > u32::MAX {
            u32::MAX
        } else {
            (report.filesCopied + report.filesDeleted) as u32
        },
        p.filesSkipped == report.filesSkipped,
        p.filesFailed == report.filesFailed,
        p.bytesTransferred == report.bytesTransferred,
        p.bytesTotal == 0,
        p.speed == 0,
        p.eta == 0,
        p.startTime == report.startTime,
        p.endTime == report.endTime,
{
    SyncProgress {
        jobId: report.jobId.clone(),
        status: report.status,
        phase: String::from_str("同步完成"),
        currentFile: String::new(),
        filesScanned: report.filesScanned,
        filesToSync: files_to_sync,
        filesCompleted: report.filesCopied.saturating_add(report.filesDeleted),
        filesSkipped: report.filesSkipped,
        filesFailed: report.filesFailed,
        bytesTransferred: report.bytesTransferred,
        bytesTotal: 0,
        speed: 0,
        eta: 0,
        startTime: report.startTime,
        endTime: report.endTime,
    }
}

/// The status in which a run ends: failed where an action failed,
/// cancelled where none failed and the run was cancelled, completed
/// otherwise.
pub open spec fn final_status(failed: u64, cancelled: bool) -> SyncStatus {
    if failed > 0 {
        SyncStatus::Failed
    } else if cancelled {
        SyncStatus::Cancelled
    } else {
        SyncStatus::Completed
    }
}

/// The seconds from `start` to `end` as the report shows them: the
/// difference as a 64-bit counter.
pub open spec fn duration_between(start: i64, end: i64) -> u64 {
    wrap64(end - start)
}

/// The number of actions of a plan that are carried out: the copies in
/// both directions and the deletions.
pub open spec fn to_sync(summary: ActionSummary) -> int {
    summary.copy_count + summary.reverse_copy_count + summary.delete_count
}

/// The seconds from `start` to `end` as the report shows them.
pub fn duration_secs(start: i64, end: i64) -> (d: u64)
    ensures
        d == duration_between(start, end),
{
    if end >= start {
        (end as i128 - start as i128) as u64
    } else {
        let back: u64 = (start as i128 - end as i128) as u64;
        (u64::MAX - back) + 1
    }
}

/// The number of actions of a plan that are carried out, as the progress
/// shows it.
pub fn files_to_sync(summary: &ActionSummary) -> (n: u32)
    ensures
        n == to_sync(*summary) as u32,
{
    let total: u128 = summary.copy_count as u128 + summary.reverse_copy_count as u128
        + summary.delete_count as u128;
    #[verifier::truncate]
    (total as u32)
}

fn copy_texts(list: &Vec<String>) -> (r: Vec<String>)
    ensures
        texts(r@) == texts(list@),
{
    let mut out: Vec<String> = Vec::new();
    let mut i: usize = 0;
    while i < list.len()
        invariant
            i <= list@.len(),
            texts(out@) == texts(list@).take(i as int),
        decreases list@.len() - i,
    {
        let ghost before = texts(out@);
        out.push(list[i].clone());
        assert(texts(out@) =~= before.push(list@[i as int]@));
        assert(texts(list@).take(i + 1) =~= texts(list@).take(i as int).push(list@[i as int]@));
        i = i + 1;
    }
    assert(texts(list@).take(list@.len() as int) =~= texts(list@));
    out
}

impl RunTally {
    /// The report of a run whose actions have all been settled or given
    /// up: the copies and the deletions that succeeded, the failures with
    /// their errors, the bytes that the copies that succeeded have moved,
    /// and the skips of the plan.
    pub fn report(
        &self,
        job_id: &str,
        start_time: i64,
        end_time: i64,
        files_scanned: u32,
        summary: &ActionSummary,
        cancelled: bool,
    ) -> (r: SyncReport)
        requires
            self.wf(),
        ensures
            r.jobId@ == job_id@,
            r.startTime == start_time,
            r.endTime == end_time,
            r.status == final_status(wrap64(failed_count(self.log()) as int), cancelled),
            r.filesScanned == files_scanned,
            r.filesCopied == wrap64(copied_count(self.log()) as int) as u32,
            r.filesDeleted == wrap64(deleted_count(self.log()) as int) as u32,
            r.filesSkipped == summary.skip_count as u32,
            r.filesFailed == wrap64(failed_count(self.log()) as int) as u32,
            r.bytesTransferred == wrap64(copied_bytes(self.log()) as int),
            r.duration == duration_between(start_time, end_time),
            texts(r.errors@) == errors_in(self.log()),
    {
        let status = if self.files_failed > 0 {
            SyncStatus::Failed
        } else if cancelled {
            SyncStatus::Cancelled
        } else {
            SyncStatus::Completed
        };
        SyncReport {
            jobId: String::from_str(job_id),
            startTime: start_time,
            endTime: end_time,
            status,
            filesScanned: files_scanned,
            filesCopied: #[verifier::truncate] (self.files_copied as u32),
            filesDeleted: #[verifier::truncate] (self.files_deleted as u32),
            filesSkipped: #[verifier::truncate] (summary.skip_count as u32),
            filesFailed: #[verifier::truncate] (self.files_failed as u32),
            bytesTransferred: self.bytes_transferred,
            duration: duration_secs(start_time, end_time),
            errors: copy_texts(&self.errors),
        }
    }
}

/// The report of a run that failed before it began to transfer.
pub fn failed_report(job_id: &str, start_time: i64, end_time: i64, errors: Vec<String>) -> (r:
    SyncReport)
    ensures
        r.jobId@ == job_id@,
        r.startTime == start_time,
        r.endTime == end_time,
        r.status == SyncStatus::Failed,
        r.filesScanned == 0 && r.filesCopied == 0 && r.filesDeleted == 0 && r.filesSkipped == 0
            && r.filesFailed == 0 && r.bytesTransferred == 0,
        r.duration == duration_between(start_time, end_time),
        r.errors == errors,
{
    SyncReport {
        jobId: String::from_str(job_id),
        startTime: start_time,
        endTime: end_time,
        status: SyncStatus::Failed,
        filesScanned: 0,
        filesCopied: 0,
        filesDeleted: 0,
        filesSkipped: 0,
        filesFailed: 0,
        bytesTransferred: 0,
        duration: duration_secs(start_time, end_time),
        errors,
    }
}

/// The report of a run that was cancelled before it began to transfer.
pub fn cancelled_report(job_id: &str, start_time: i64, end_time: i64) -> (r: SyncReport)
    ensures
        r.jobId@ == job_id@,
        r.startTime == start_time,
        r.endTime == end_time,
        r.status == SyncStatus::Cancelled,
        r.filesScanned == 0 && r.filesCopied == 0 && r.filesDeleted == 0 && r.filesSkipped == 0
            && r.filesFailed == 0 && r.bytesTransferred == 0,
        r.duration == duration_between(start_time, end_time),
        texts(r.errors@) == seq!["同步已取消"@],
{
    let mut errors: Vec<String> = Vec::new();
    errors.push(cancelled_run_message());
    assert(texts(errors@) =~= seq!["同步已取消"@]);
    SyncReport {
        jobId: String::from_str(job_id),
        startTime: start_time,
        endTime: end_time,
        status: SyncStatus::Cancelled,
        filesScanned: 0,
        filesCopied: 0,
        filesDeleted: 0,
        filesSkipped: 0,
        filesFailed: 0,
        bytesTransferred: 0,
        duration: duration_secs(start_time, end_time),
        errors,
    }
}

/// Whether the cached listings of both sides are dropped after the run:
/// they are once a file was copied or deleted.
pub fn invalidates_cache(report: &SyncReport) -> (b: bool)
    ensures
        b == (report.filesCopied > 0 || report.filesDeleted > 0),
{
    report.filesCopied > 0 || report.filesDeleted > 0
}

/// The row that the history keeps of a run.
#[derive(Debug, Clone)]
pub struct HistoryRow {
    pub job_id: String,
    pub start_time: i64,
    pub end_time: i64,
    pub status: String,
    pub files_scanned: i64,
    pub files_copied: i64,
    pub files_deleted: i64,
    pub bytes_transferred: i64,
    pub error_message: Option<String>,
}

/// The name of a status in the history.
pub open spec fn status_name(status: SyncStatus) -> Seq<char> {
    match status {
        SyncStatus::Completed => "completed"@,
        SyncStatus::Failed => "failed"@,
        SyncStatus::Cancelled => "cancelled"@,
        _ => "unknown"@,
    }
}

/// The name of a status in the history.
pub fn status_text(status: SyncStatus) -> (s: String)
    ensures
        s@ == status_name(status),
{
    match status {
        SyncStatus::Completed => String::from_str("completed"),
        SyncStatus::Failed => String::from_str("failed"),
        SyncStatus::Cancelled => String::from_str("cancelled"),
        _ => String::from_str("unknown"),
    }
}

/// The texts put one after the other with `sep` between them.
pub open spec fn joined(list: Seq<Seq<char>>, sep: Seq<char>) -> Seq<char>
    decreases list.len(),
{
    if list.len() == 0 {
        Seq::<char>::empty()
    } else if list.len() == 1 {
        list[0]
    } else {
        joined(list.drop_last(), sep) + sep + list.last()
    }
}

/// The errors of a run as the history keeps them: none where there are
/// none, else all of them with `; ` between them.
pub fn error_message(errors: &Vec<String>) -> (r: Option<String>)
    ensures
        match r {
            Some(m) => errors@.len() > 0 && m@ == joined(texts(errors@), "; "@),
            None => errors@.len() == 0,
        },
{
    if errors.len() == 0 {
        return None;
    }
    let ghost all = texts(errors@);
    let mut message = errors[0].clone();
    assert(all.take(1) =~= seq![all[0]]);
    let mut i: usize = 1;
    while i < errors.len()
        invariant
            1 <= i <= errors@.len(),
            all == texts(errors@),
            message@ == joined(all.take(i as int), "; "@),
        decreases errors@.len() - i,
    {
        proof {
            let next = all.take(i + 1);
            assert(next.drop_last() =~= all.take(i as int));
            assert(next.last() == errors@[i as int]@);
        }
        message.append("; ");
        message.append(errors[i].as_str());
        i = i + 1;
    }
    assert(all.take(errors@.len() as int) =~= all);
    Some(message)
}

/// The row that the history keeps of the run with the given report.
pub fn history_row(report: &SyncReport) -> (row: HistoryRow)
    ensures
        row.job_id@ == report.jobId@,
        row.start_time == report.startTime,
        row.end_time == report.endTime,
        row.status@ == status_name(report.status),
        row.files_scanned == report.filesScanned,
        row.files_copied == report.filesCopied,
        row.files_deleted == report.filesDeleted,
        row.bytes_transferred == report.bytesTransferred as i64,
        match row.error_message {
            Some(m) => report.errors@.len() > 0 && m@ == joined(texts(report.errors@), "; "@),
            None => report.errors@.len() == 0,
        },
{
    HistoryRow {
        job_id: report.jobId.clone(),
        start_time: report.startTime,
        end_time: report.endTime,
        status: status_text(report.status),
        files_scanned: report.filesScanned as i64,
        files_copied: report.filesCopied as i64,
        files_deleted: report.filesDeleted as i64,
        bytes_transferred: #[verifier::truncate] (report.bytesTransferred as i64),
        error_message: error_message(&report.errors),
    }
}

/// A run that was cancelled and in which no action failed ends as
/// cancelled, and the history keeps it under that name.
pub proof fn law_cancelled_run_is_recorded(tally: RunTally)
    requires
        tally.failed() == 0,
    ensures
        final_status(tally.failed(), true) == SyncStatus::Cancelled,
        status_name(final_status(tally.failed(), true)) == "cancelled"@,
{
}

/// A file on one side.
pub struct Place {
    pub side: Side,
    pub path: Seq<char>,
}

/// The file that an action reads.
pub open spec fn read_place(a: SyncActionView) -> Option<Place> {
    match a {
        SyncActionView::Copy { source_path, dest_path, reverse, .. } => if reverse {
            Some(Place { side: Side::Dest, path: dest_path })
        } else {
            Some(Place { side: Side::Source, path: source_path })
        },
        _ => None,
    }
}

/// The file that an action writes or deletes.
pub open spec fn written_place(a: SyncActionView) -> Option<Place> {
    match a {
        SyncActionView::Copy { source_path, dest_path, reverse, .. } => if reverse {
            Some(Place { side: Side::Source, path: source_path })
        } else {
            Some(Place { side: Side::Dest, path: dest_path })
        },
        SyncActionView::Delete { path, from_dest } => Some(
            Place {
                side: if from_dest {
                    Side::Dest
                } else {
                    Side::Source
                },
                path,
            },
        ),
        _ => None,
    }
}

/// `later` must wait for `earlier`: one of them writes a file that the
/// other reads or writes.
pub open spec fn must_follow(earlier: SyncActionView, later: SyncActionView) -> bool {
    let w1 = written_place(earlier);
    let w2 = written_place(later);
    (w1 is Some && (w1 == w2 || w1 == read_place(later))) || (w2 is Some && w2 == read_place(
        earlier,
    ))
}

/// The actions of the groups, one group after the other.
pub open spec fn flattened(groups: Seq<Seq<SyncActionView>>) -> Seq<SyncActionView>
    decreases groups.len(),
{
    if groups.len() == 0 {
        Seq::<SyncActionView>::empty()
    } else {
        flattened(groups.drop_last()) + groups.last()
    }
}

/// The values of a list of groups of actions.
pub open spec fn group_views(groups: Seq<Vec<SyncAction>>) -> Seq<Seq<SyncActionView>> {
    groups.map_values(|g: Vec<SyncAction>| action_views(g@))
}

/// `groups` cuts `actions` into the runs that must be carried out in
/// order: no group is empty, within a group every action must follow the
/// one before it, and the first action of a group need not follow the
/// last of the group before.
pub open spec fn is_grouping(groups: Seq<Seq<SyncActionView>>, actions: Seq<SyncActionView>) -> bool {
    &&& flattened(groups) == actions
    &&& forall|g: int| 0 <= g < groups.len() ==> (#[trigger] groups[g]).len() > 0
    &&& forall|g: int, k: int|
        0 <= g < groups.len() && 0 < k < groups[g].len() ==> must_follow(
            groups[g][k - 1],
            #[trigger] groups[g][k],
        )
    &&& forall|g: int|
        0 < g < groups.len() ==> !must_follow(groups[g - 1].last(), (#[trigger] groups[g])[0])
}

fn same_place(side_a: Side, path_a: &str, side_b: Side, path_b: &str) -> (r: bool)
    ensures
        r == (Place { side: side_a, path: path_a@ } == Place { side: side_b, path: path_b@ }),
{
    let same_side = match (side_a, side_b) {
        (Side::Source, Side::Source) => true,
        (Side::Dest, Side::Dest) => true,
        _ => false,
    };
    same_side && str_equal(path_a, path_b)
}

fn reads_of(a: &SyncAction) -> (r: Option<(Side, &String)>)
    ensures
        match r {
            Some((side, path)) => read_place(a@) == Some(Place { side, path: path@ }),
            None => read_place(a@) is None,
        },
{
    match a {
        SyncAction::Copy { source_path, dest_path, reverse, .. } => if *reverse {
            Some((Side::Dest, dest_path))
        } else {
            Some((Side::Source, source_path))
        },
        _ => None,
    }
}

fn writes_of(a: &SyncAction) -> (r: Option<(Side, &String)>)
    ensures
        match r {
            Some((side, path)) => written_place(a@) == Some(Place { side, path: path@ }),
            None => written_place(a@) is None,
        },
{
    match a {
        SyncAction::Copy { source_path, dest_path, reverse, .. } => if *reverse {
            Some((Side::Source, source_path))
        } else {
            Some((Side::Dest, dest_path))
        },
        SyncAction::Delete { path, from_dest } => Some(
            (
                if *from_dest {
                    Side::Dest
                } else {
                    Side::Source
                },
                path,
            ),
        ),
        _ => None,
    }
}

/// The file that a side and a path name.
pub open spec fn place_of(p: Option<(Side, &String)>) -> Option<Place> {
    match p {
        Some((side, path)) => Some(Place { side, path: path@ }),
        None => None,
    }
}

fn opt_same(a: Option<(Side, &String)>, b: Option<(Side, &String)>) -> (r: bool)
    ensures
        r == (place_of(a) is Some && place_of(a) == place_of(b)),
{
    match (a, b) {
        (Some((sa, pa)), Some((sb, pb))) => same_place(sa, pa.as_str(), sb, pb.as_str()),
        _ => false,
    }
}

/// Whether `later` must wait for `earlier`.
pub fn waits_for(earlier: &SyncAction, later: &SyncAction) -> (r: bool)
    ensures
        r == must_follow(earlier@, later@),
{
    let w1 = writes_of(earlier);
    let w2 = writes_of(later);
    let r1 = reads_of(earlier);
    let r2 = reads_of(later);
    opt_same(w1, w2) || opt_same(w1, r2) || opt_same(w2, r1)
}

/// Cuts the actions into the runs that must be carried out in order.
/// Groups may be carried out side by side; the actions of a group one
/// after the other.
#[verifier::rlimit(100)]
pub fn execution_groups(actions: Vec<SyncAction>) -> (groups: Vec<Vec<SyncAction>>)
    ensures
        is_grouping(group_views(groups@), action_views(actions@)),
{
    let ghost all = action_views(actions@);
    let ghost raw = actions@;
    let mut groups: Vec<Vec<SyncAction>> = Vec::new();
    let mut current: Vec<SyncAction> = Vec::new();
    proof {
        assert(all.take(0) =~= Seq::<SyncActionView>::empty());
        assert(group_views(groups@) =~= Seq::<Seq<SyncActionView>>::empty());
        assert(flattened(group_views(groups@)) + action_views(current@) =~= all.take(0));
    }
    for action in it: actions
        invariant
            it.seq() == raw,
            all == action_views(raw),
            flattened(group_views(groups@)) + action_views(current@) == all.take(it.index() as int),
            it.index() > 0 ==> current@.len() > 0,
            it.index() == 0 ==> groups@.len() == 0 && current@.len() == 0,
            forall|g: int| 0 <= g < groups@.len() ==> (#[trigger] group_views(groups@)[g]).len() > 0,
            forall|g: int, k: int|
                0 <= g < groups@.len() && 0 < k < group_views(groups@)[g].len() ==> must_follow(
                    group_views(groups@)[g][k - 1],
                    #[trigger] group_views(groups@)[g][k],
                ),
            forall|k: int|
                0 < k < current@.len() ==> must_follow(
                    action_views(current@)[k - 1],
                    #[trigger] action_views(current@)[k],
                ),
            forall|g: int|
                0 < g < groups@.len() ==> !must_follow(
                    group_views(groups@)[g - 1].last(),
                    (#[trigger] group_views(groups@)[g])[0],
                ),
            groups@.len() > 0 && current@.len() > 0 ==> !must_follow(
                group_views(groups@).last().last(),
                action_views(current@)[0],
            ),
    {
        let ghost done = all.take(it.index() as int);
        let ghost gv0 = group_views(groups@);
        let ghost cv0 = action_views(current@);
        let ghost added = action@;
        proof {
            assert(all.take(it.index() + 1) =~= done.push(added));
        }
        let tied = current.len() > 0 && waits_for(&current[current.len() - 1], &action);
        if tied || current.len() == 0 {
            current.push(action);
            proof {
                let cv1 = action_views(current@);
                assert(cv1 =~= cv0.push(added));
                assert(flattened(gv0) + cv1 =~= done.push(added));
                assert forall|k: int| 0 < k < cv1.len() implies must_follow(
                    cv1[k - 1],
                    #[trigger] cv1[k],
                ) by {
                    if k < cv0.len() {
                        assert(cv1[k] == cv0[k]);
                        assert(cv1[k - 1] == cv0[k - 1]);
                    } else {
                        assert(cv1[k - 1] == cv0[cv0.len() - 1]);
                    }
                }
            }
        } else {
            let mut next: Vec<SyncAction> = Vec::new();
            next.push(action);
            std::mem::swap(&mut current, &mut next);
            groups.push(next);
            proof {
                let gv1 = group_views(groups@);
                let cv1 = action_views(current@);
                assert(cv1 =~= seq![added]);
                assert(gv1 =~= gv0.push(cv0));
                assert(gv1.drop_last() =~= gv0);
                assert(flattened(gv1) == flattened(gv0) + cv0);
                assert(flattened(gv1) + cv1 =~= done.push(added));
                assert forall|g: int| 0 <= g < gv1.len() implies (#[trigger] gv1[g]).len() > 0 by {
                    if g < gv0.len() {
                        assert(gv1[g] == gv0[g]);
                    }
                }
                assert forall|g: int, k: int| 0 <= g < gv1.len() && 0 < k < gv1[g].len() implies must_follow(
                    gv1[g][k - 1],
                    #[trigger] gv1[g][k],
                ) by {
                    if g < gv0.len() {
                        assert(gv1[g] == gv0[g]);
                    }
                }
                assert forall|g: int| 0 < g < gv1.len() implies !must_follow(
                    gv1[g - 1].last(),
                    (#[trigger] gv1[g])[0],
                ) by {
                    assert(gv1[g - 1] == gv0[g - 1]);
                    if g < gv0.len() {
                        assert(gv1[g] == gv0[g]);
                    } else {
                        assert(gv0[g - 1] == gv0.last());
                    }
                }
            }
        }
    }
    proof {
        assert(all.take(all.len() as int) =~= all);
    }
    if current.len() > 0 {
        let ghost gv0 = group_views(groups@);
        let ghost cv0 = action_views(current@);
        groups.push(current);
        proof {
            let gv1 = group_views(groups@);
            assert(gv1 =~= gv0.push(cv0));
            assert(gv1.drop_last() =~= gv0);
            assert forall|g: int| 0 <= g < gv1.len() implies (#[trigger] gv1[g]).len() > 0 by {
                if g < gv0.len() {
                    assert(gv1[g] == gv0[g]);
                }
            }
            assert forall|g: int, k: int| 0 <= g < gv1.len() && 0 < k < gv1[g].len() implies must_follow(
                gv1[g][k - 1],
                #[trigger] gv1[g][k],
            ) by {
                if g < gv0.len() {
                    assert(gv1[g] == gv0[g]);
                }
            }
            assert forall|g: int| 0 < g < gv1.len() implies !must_follow(
                gv1[g - 1].last(),
                (#[trigger] gv1[g])[0],
            ) by {
                assert(gv1[g - 1] == gv0[g - 1]);
                if g < gv0.len() {
                    assert(gv1[g] == gv0[g]);
                } else {
                    assert(gv0[g - 1] == gv0.last());
                }
            }
        }
    } else {
        proof {
            assert(flattened(group_views(groups@)) + action_views(current@) =~= flattened(
                group_views(groups@),
            ));
        }
    }
    groups
}

/// The error of an action that was not tried because the action before
/// it, for which it had to wait, failed.
pub fn blocked_message(action: &SyncAction) -> (s: String)
    ensures
        s@ == reported_path(action@) + ": 前置操作失败，已跳过"@,
{
    let path = match action {
        SyncAction::Copy { source_path, .. } => source_path,
        SyncAction::Delete { path, .. } => path,
        SyncAction::Skip { path } => path,
        SyncAction::Conflict { path, .. } => path,
    };
    let mut message = path.clone();
    message.append(": 前置操作失败，已跳过");
    message
}

/// The report in the form in which it is stored.
pub fn stored_report(report: &SyncReport) -> (r: crate::models::SyncReport)
    ensures
        r.job_id@ == report.jobId@,
        r.start_time == report.startTime,
        r.end_time == report.endTime,
        r.status == report.status,
        r.files_scanned == report.filesScanned,
        r.files_copied == report.filesCopied,
        r.files_deleted == report.filesDeleted,
        r.files_skipped == report.filesSkipped,
        r.files_failed == report.filesFailed,
        r.bytes_transferred == report.bytesTransferred,
        r.duration == report.duration,
        texts(r.errors@) == texts(report.errors@),
{
    crate::models::SyncReport {
        job_id: report.jobId.clone(),
        start_time: report.startTime,
        end_time: report.endTime,
        status: report.status,
        files_scanned: report.filesScanned,
        files_copied: report.filesCopied,
        files_deleted: report.filesDeleted,
        files_skipped: report.filesSkipped,
        files_failed: report.filesFailed,
        bytes_transferred: report.bytesTransferred,
        duration: report.duration,
        errors: copy_texts(&report.errors),
    }
}

} // verus!
