//! The comparator: from two file trees and a mode to the ordered list of
//! actions that reconciles them.

use vstd::prelude::*;
use crate::models::SyncMode;
use crate::storage::FileInfo;
use crate::storage::FileInfoView;
use crate::storage::info_view;
use crate::text::path_lt;
use crate::text::compare_paths;
use crate::text::str_equal;
use crate::text::PathOrder;
use crate::text::lemma_path_lt_strict_total;
use crate::tree::FileTree;
use crate::tree::sorted_by_path;
use crate::tree::has_path;
use crate::tree::lookup;
use crate::tree::lemma_lookup_at;
use crate::tree::lemma_lookup_gap;

verus! {

/// Why two versions of a file are in conflict.
#[derive(Debug, Clone, Copy, PartialEq, Eq, Structural)]
pub enum ConflictType {
    /// Both sides changed.
    BothModified,
    /// Same size, different time.
    SameSizeDifferentTime,
    /// One side changed, the other was deleted.
    ModifiedVsDeleted,
}

/// One step of a reconciliation.
#[derive(Debug, Clone)]
pub enum SyncAction {
    /// Copy a file; `reverse` means from the destination to the source.
    Copy { source_path: String, dest_path: String, size: u64, reverse: bool },
    /// Delete a file on one side.
    Delete { path: String, from_dest: bool },
    /// Leave the file alone.
    Skip { path: String },
    /// The two sides disagree and the user has to decide.
    Conflict {
        path: String,
        source_info: Option<FileInfo>,
        dest_info: Option<FileInfo>,
        conflict_type: ConflictType,
    },
}

/// Mathematical value of a [`SyncAction`].
pub enum SyncActionView {
    Copy { source_path: Seq<char>, dest_path: Seq<char>, size: u64, reverse: bool },
    Delete { path: Seq<char>, from_dest: bool },
    Skip { path: Seq<char> },
    Conflict {
        path: Seq<char>,
        source_info: Option<FileInfoView>,
        dest_info: Option<FileInfoView>,
        conflict_type: ConflictType,
    },
}

impl View for SyncAction {
    type V = SyncActionView;

    open spec fn view(&self) -> SyncActionView {
        match *self {
            SyncAction::Copy { source_path, dest_path, size, reverse } => SyncActionView::Copy {
                source_path: source_path@,
                dest_path: dest_path@,
                size,
                reverse,
            },
            SyncAction::Delete { path, from_dest } => SyncActionView::Delete {
                path: path@,
                from_dest,
            },
            SyncAction::Skip { path } => SyncActionView::Skip { path: path@ },
            SyncAction::Conflict {
                path,
                source_info,
                dest_info,
                conflict_type,
            } => SyncActionView::Conflict {
                path: path@,
                source_info: info_view(source_info),
                dest_info: info_view(dest_info),
                conflict_type,
            },
        }
    }
}

/// The values of a list of actions.
pub open spec fn action_views(actions: Seq<SyncAction>) -> Seq<SyncActionView> {
    actions.map_values(|a: SyncAction| a@)
}

/// How two versions of one file relate.
#[derive(Debug, Clone, Copy, PartialEq, Eq, Structural)]
pub enum FileRelation {
    /// Same content.
    Equal,
    /// The source is newer.
    SourceNewer,
    /// The destination is newer.
    DestNewer,
    /// Different content.
    Different,
    /// Same size, modification times not consulted.
    ProbablyEqual,
}

/// What counts as equal.
#[derive(Debug, Clone, Copy, PartialEq, Eq, Structural)]
pub struct CompareConfig {
    /// Largest difference of modification times, in seconds, that still counts as equal.
    pub time_tolerance_seconds: i64,
    /// Decide by checksum where both sides carry one.
    pub use_checksum: bool,
    /// Do not consult modification times.
    pub ignore_mtime: bool,
    /// Files of equal size are equal (for backends that do not keep modification times).
    pub size_only_for_same_size: bool,
}

/// The configuration used when none is given.
pub open spec fn default_compare_config() -> CompareConfig {
    CompareConfig {
        time_tolerance_seconds: 2,
        use_checksum: false,
        ignore_mtime: false,
        size_only_for_same_size: true,
    }
}

impl Default for CompareConfig {
    fn default() -> (r: CompareConfig)
        ensures
            r == default_compare_config(),
    {
        CompareConfig {
            time_tolerance_seconds: 2,
            use_checksum: false,
            ignore_mtime: false,
            size_only_for_same_size: true,
        }
    }
}

/// The relation of a source version to a destination version of one file.
pub open spec fn relation(cfg: CompareConfig, src: FileInfoView, dst: FileInfoView) -> FileRelation {
    if cfg.use_checksum && src.checksum is Some && dst.checksum is Some {
        if src.checksum == dst.checksum {
            FileRelation::Equal
        } else {
            FileRelation::Different
        }
    } else if src.size != dst.size {
        FileRelation::Different
    } else if cfg.size_only_for_same_size {
        FileRelation::Equal
    } else if cfg.ignore_mtime {
        FileRelation::ProbablyEqual
    } else if -cfg.time_tolerance_seconds <= src.modified_time - dst.modified_time
        <= cfg.time_tolerance_seconds {
        FileRelation::Equal
    } else if src.modified_time > dst.modified_time {
        FileRelation::SourceNewer
    } else {
        FileRelation::DestNewer
    }
}

/// A copy of `p` from the source to the destination.
pub open spec fn forward_copy(p: Seq<char>, size: u64) -> SyncActionView {
    SyncActionView::Copy { source_path: p, dest_path: p, size, reverse: false }
}

/// A copy of `p` from the destination back to the source.
pub open spec fn reverse_copy(p: Seq<char>, size: u64) -> SyncActionView {
    SyncActionView::Copy { source_path: p, dest_path: p, size, reverse: true }
}

/// The action for path `p`, given what each side holds under it. Two
/// directories, and a directory that only one side has, call for none.
pub open spec fn planned(
    cfg: CompareConfig,
    mode: SyncMode,
    src: Option<FileInfoView>,
    dst: Option<FileInfoView>,
    p: Seq<char>,
) -> Option<SyncActionView> {
    match (src, dst) {
        (Some(s), Some(d)) => {
            if s.is_dir && d.is_dir {
                None
            } else {
                match relation(cfg, s, d) {
                    FileRelation::Equal | FileRelation::ProbablyEqual => Some(
                        SyncActionView::Skip { path: p },
                    ),
                    FileRelation::SourceNewer => Some(forward_copy(p, s.size)),
                    FileRelation::DestNewer => match mode {
                        SyncMode::Bidirectional => Some(reverse_copy(p, d.size)),
                        _ => Some(forward_copy(p, s.size)),
                    },
                    FileRelation::Different => match mode {
                        SyncMode::Bidirectional => Some(
                            SyncActionView::Conflict {
                                path: p,
                                source_info: Some(s),
                                dest_info: Some(d),
                                conflict_type: ConflictType::BothModified,
                            },
                        ),
                        _ => Some(forward_copy(p, s.size)),
                    },
                }
            }
        },
        (Some(s), None) => {
            if s.is_dir {
                None
            } else {
                Some(forward_copy(p, s.size))
            }
        },
        (None, Some(d)) => {
            if d.is_dir {
                None
            } else {
                match mode {
                    SyncMode::Mirror => Some(SyncActionView::Delete { path: p, from_dest: true }),
                    SyncMode::Bidirectional => Some(reverse_copy(p, d.size)),
                    SyncMode::Backup => Some(SyncActionView::Skip { path: p }),
                }
            }
        },
        (None, None) => None,
    }
}

/// The action planned for `p` between two trees.
pub open spec fn planned_in(
    cfg: CompareConfig,
    mode: SyncMode,
    source: Seq<FileInfoView>,
    dest: Seq<FileInfoView>,
    p: Seq<char>,
) -> Option<SyncActionView> {
    planned(cfg, mode, lookup(source, p), lookup(dest, p), p)
}

/// Position of an action's kind in the execution order.
pub open spec fn action_rank(a: SyncActionView) -> int {
    match a {
        SyncActionView::Copy { .. } => 0,
        SyncActionView::Conflict { .. } => 1,
        SyncActionView::Delete { .. } => 2,
        SyncActionView::Skip { .. } => 3,
    }
}

/// The path an action is about.
pub open spec fn action_path(a: SyncActionView) -> Seq<char> {
    match a {
        SyncActionView::Copy { source_path, .. } => source_path,
        SyncActionView::Delete { path, .. } => path,
        SyncActionView::Skip { path } => path,
        SyncActionView::Conflict { path, .. } => path,
    }
}

/// `a` is executed before `b`: by kind first, then by path.
pub open spec fn action_before(a: SyncActionView, b: SyncActionView) -> bool {
    action_rank(a) < action_rank(b) || (action_rank(a) == action_rank(b) && path_lt(
        action_path(a),
        action_path(b),
    ))
}

/// Strictly increasing in the execution order.
pub open spec fn actions_sorted(s: Seq<SyncActionView>) -> bool {
    forall|i: int, j: int| #![trigger s[i], s[j]] 0 <= i < j < s.len() ==> action_before(s[i], s[j])
}

/// `actions` is the plan for the two trees: it is in execution order, each
/// of its actions is the one planned for its own path, and it holds the
/// action planned for every path.
pub open spec fn is_plan(
    actions: Seq<SyncActionView>,
    cfg: CompareConfig,
    mode: SyncMode,
    source: Seq<FileInfoView>,
    dest: Seq<FileInfoView>,
) -> bool {
    &&& actions_sorted(actions)
    &&& forall|i: int|
        0 <= i < actions.len() ==> planned_in(
            cfg,
            mode,
            source,
            dest,
            action_path(#[trigger] actions[i]),
        ) == Some(actions[i])
    &&& forall|p: Seq<char>|
        (#[trigger] planned_in(cfg, mode, source, dest, p)) is Some ==> actions.contains(
            planned_in(cfg, mode, source, dest, p)->0,
        )
}

/// Counts over a list of actions.
#[derive(Debug, Clone, Copy, PartialEq, Eq, Structural)]
pub struct ActionSummary {
    pub copy_count: usize,
    pub copy_bytes: u64,
    pub reverse_copy_count: usize,
    pub reverse_copy_bytes: u64,
    pub delete_count: usize,
    pub skip_count: usize,
    pub conflict_count: usize,
}

/// Compares files and trees under one configuration.
#[derive(Debug, Clone, Copy)]
pub struct FileComparator {
    config: CompareConfig,
}

impl View for FileComparator {
    type V = CompareConfig;

    closed spec fn view(&self) -> CompareConfig {
        self.config
    }
}

impl FileComparator {
    /// A comparator with the default settings and the given checksum switch.
    pub fn new(use_checksum: bool) -> (r: FileComparator)
        ensures
            r@ == (CompareConfig { use_checksum, ..default_compare_config() }),
    {
        FileComparator {
            config: CompareConfig {
                time_tolerance_seconds: 2,
                use_checksum,
                ignore_mtime: false,
                size_only_for_same_size: true,
            },
        }
    }

    /// A comparator with the given settings.
    pub fn with_config(config: CompareConfig) -> (r: FileComparator)
        ensures
            r@ == config,
    {
        FileComparator { config }
    }

    /// How `source` relates to `dest`.
    pub fn compare_files(&self, source: &FileInfo, dest: &FileInfo) -> (r: FileRelation)
        ensures
            r == relation(self@, source@, dest@),
    {
        if self.config.use_checksum {
            match (&source.checksum, &dest.checksum) {
                (Some(a), Some(b)) => {
                    if str_equal(a.as_str(), b.as_str()) {
                        return FileRelation::Equal;
                    } else {
                        return FileRelation::Different;
                    }
                },
                _ => {},
            }
        }
        if source.size != dest.size {
            return FileRelation::Different;
        }
        if self.config.size_only_for_same_size {
            return FileRelation::Equal;
        }
        if self.config.ignore_mtime {
            return FileRelation::ProbablyEqual;
        }
        let diff: i128 = source.modified_time as i128 - dest.modified_time as i128;
        let tolerance: i128 = self.config.time_tolerance_seconds as i128;
        if -tolerance <= diff && diff <= tolerance {
            FileRelation::Equal
        } else if source.modified_time > dest.modified_time {
            FileRelation::SourceNewer
        } else {
            FileRelation::DestNewer
        }
    }

    /// The action for one path, given what each side holds under it.
    pub fn plan_path(
        &self,
        mode: &SyncMode,
        src: Option<&FileInfo>,
        dst: Option<&FileInfo>,
        path: &String,
    ) -> (r: Option<SyncAction>)
        ensures
            action_opt_view(r) == planned(self@, *mode, info_ref_view(src), info_ref_view(dst), path@),
    {
        match (src, dst) {
            (Some(s), Some(d)) => {
                if s.is_dir && d.is_dir {
                    return None;
                }
                match self.compare_files(s, d) {
                    FileRelation::Equal | FileRelation::ProbablyEqual => Some(
                        SyncAction::Skip { path: path.clone() },
                    ),
                    FileRelation::SourceNewer => Some(
                        SyncAction::Copy {
                            source_path: path.clone(),
                            dest_path: path.clone(),
                            size: s.size,
                            reverse: false,
                        },
                    ),
                    FileRelation::DestNewer => match mode {
                        SyncMode::Bidirectional => Some(
                            SyncAction::Copy {
                                source_path: path.clone(),
                                dest_path: path.clone(),
                                size: d.size,
                                reverse: true,
                            },
                        ),
                        _ => Some(
                            SyncAction::Copy {
                                source_path: path.clone(),
                                dest_path: path.clone(),
                                size: s.size,
                                reverse: false,
                            },
                        ),
                    },
                    FileRelation::Different => match mode {
                        SyncMode::Bidirectional => Some(
                            SyncAction::Conflict {
                                path: path.clone(),
                                source_info: Some(s.duplicate()),
                                dest_info: Some(d.duplicate()),
                                conflict_type: ConflictType::BothModified,
                            },
                        ),
                        _ => Some(
                            SyncAction::Copy {
                                source_path: path.clone(),
                                dest_path: path.clone(),
                                size: s.size,
                                reverse: false,
                            },
                        ),
                    },
                }
            },
            (Some(s), None) => {
                if s.is_dir {
                    None
                } else {
                    Some(
                        SyncAction::Copy {
                            source_path: path.clone(),
                            dest_path: path.clone(),
                            size: s.size,
                            reverse: false,
                        },
                    )
                }
            },
            (None, Some(d)) => {
                if d.is_dir {
                    None
                } else {
                    match mode {
                        SyncMode::Mirror => Some(
                            SyncAction::Delete { path: path.clone(), from_dest: true },
                        ),
                        SyncMode::Bidirectional => Some(
                            SyncAction::Copy {
                                source_path: path.clone(),
                                dest_path: path.clone(),
                                size: d.size,
                                reverse: true,
                            },
                        ),
                        SyncMode::Backup => Some(SyncAction::Skip { path: path.clone() }),
                    }
                }
            },
            (None, None) => None,
        }
    }

    /// The plan that reconciles `source` and `dest` under `mode`: one action
    /// for every path that calls for one, copies first, then conflicts, then
    /// deletions, then skips, each group in path order.
    #[verifier::rlimit(40)]
    pub fn compare_trees(&self, source: &FileTree, dest: &FileTree, mode: &SyncMode) -> (actions:
        Vec<SyncAction>)
        ensures
            is_plan(action_views(actions@), self@, *mode, source@, dest@),
    {
        let src = source.entries();
        let dst = dest.entries();
        let n = src.len();
        let m = dst.len();
        let ghost cfg = self@;
        let ghost md = *mode;
        let ghost sv = source@;
        let ghost dv = dest@;
        let mut i: usize = 0;
        let mut j: usize = 0;
        let mut copies: Vec<SyncAction> = Vec::new();
        let mut conflicts: Vec<SyncAction> = Vec::new();
        let mut deletes: Vec<SyncAction> = Vec::new();
        let mut skips: Vec<SyncAction> = Vec::new();
        proof {
            assert(action_views(copies@) =~= Seq::<SyncActionView>::empty());
            assert(action_views(conflicts@) =~= Seq::<SyncActionView>::empty());
            assert(action_views(deletes@) =~= Seq::<SyncActionView>::empty());
            assert(action_views(skips@) =~= Seq::<SyncActionView>::empty());
        }
        while i < n || j < m
            invariant
                cfg == self@,
                md == *mode,
                sv == source@,
                dv == dest@,
                n == sv.len(),
                m == dv.len(),
                n == src@.len(),
                m == dst@.len(),
                forall|k: int| 0 <= k < n ==> (#[trigger] src@[k])@ == sv[k],
                forall|l: int| 0 <= l < m ==> (#[trigger] dst@[l])@ == dv[l],
                sorted_by_path(sv),
                sorted_by_path(dv),
                i <= n,
                j <= m,
                frontier(sv, dv, i as int, j as int),
                bucket_inv(action_views(copies@), 0, cfg, md, sv, dv, i as int, j as int),
                bucket_inv(action_views(conflicts@), 1, cfg, md, sv, dv, i as int, j as int),
                bucket_inv(action_views(deletes@), 2, cfg, md, sv, dv, i as int, j as int),
                bucket_inv(action_views(skips@), 3, cfg, md, sv, dv, i as int, j as int),
                covered(
                    action_views(copies@),
                    action_views(conflicts@),
                    action_views(deletes@),
                    action_views(skips@),
                    cfg,
                    md,
                    sv,
                    dv,
                    i as int,
                    j as int,
                ),
            decreases (n - i) + (m - j),
        {
            let side = if i == n {
                PathOrder::After
            } else if j == m {
                PathOrder::Before
            } else {
                compare_paths(src[i].path.as_str(), dst[j].path.as_str())
            };
            let ghost i0 = i as int;
            let ghost j0 = j as int;
            let ghost c0 = action_views(copies@);
            let ghost f0 = action_views(conflicts@);
            let ghost d0 = action_views(deletes@);
            let ghost s0 = action_views(skips@);
            let ghost p = if side == PathOrder::After {
                dv[j0].path
            } else {
                sv[i0].path
            };
            let step = match side {
                PathOrder::Before => {
                    proof {
                        lemma_only_source(sv, dv, i0, j0);
                    }
                    self.plan_path(mode, Some(&src[i]), None, &src[i].path)
                },
                PathOrder::After => {
                    proof {
                        lemma_only_dest(sv, dv, i0, j0);
                    }
                    self.plan_path(mode, None, Some(&dst[j]), &dst[j].path)
                },
                PathOrder::Same => {
                    proof {
                        lemma_both(sv, dv, i0, j0);
                    }
                    self.plan_path(mode, Some(&src[i]), Some(&dst[j]), &src[i].path)
                },
            };
            match side {
                PathOrder::Before => {
                    i = i + 1;
                },
                PathOrder::After => {
                    j = j + 1;
                },
                PathOrder::Same => {
                    i = i + 1;
                    j = j + 1;
                },
            }
            assert(action_opt_view(step) == planned_in(cfg, md, sv, dv, p));
            assert(frontier(sv, dv, i as int, j as int));
            assert(above(sv, dv, i as int, j as int, p));
            assert(below(c0, p) && below(f0, p) && below(d0, p) && below(s0, p));
            match step {
                Some(a) => {
                    let ghost av = a@;
                    assert(action_path(av) == p);
                    match a {
                        SyncAction::Copy { .. } => {
                            copies.push(a);
                            proof {
                                assert(action_views(copies@) =~= c0.push(av));
                                lemma_bucket_push(c0, av, 0, cfg, md, sv, dv, i0, j0, i as int, j as int);
                                lemma_bucket_keep(f0, 1, cfg, md, sv, dv, i0, j0, i as int, j as int);
                                lemma_bucket_keep(d0, 2, cfg, md, sv, dv, i0, j0, i as int, j as int);
                                lemma_bucket_keep(s0, 3, cfg, md, sv, dv, i0, j0, i as int, j as int);
                                lemma_push_contains(c0, av);
                            }
                        },
                        SyncAction::Conflict { .. } => {
                            conflicts.push(a);
                            proof {
                                assert(action_views(conflicts@) =~= f0.push(av));
                                lemma_bucket_keep(c0, 0, cfg, md, sv, dv, i0, j0, i as int, j as int);
                                lemma_bucket_push(f0, av, 1, cfg, md, sv, dv, i0, j0, i as int, j as int);
                                lemma_bucket_keep(d0, 2, cfg, md, sv, dv, i0, j0, i as int, j as int);
                                lemma_bucket_keep(s0, 3, cfg, md, sv, dv, i0, j0, i as int, j as int);
                                lemma_push_contains(f0, av);
                            }
                        },
                        SyncAction::Delete { .. } => {
                            deletes.push(a);
                            proof {
                                assert(action_views(deletes@) =~= d0.push(av));
                                lemma_bucket_keep(c0, 0, cfg, md, sv, dv, i0, j0, i as int, j as int);
                                lemma_bucket_keep(f0, 1, cfg, md, sv, dv, i0, j0, i as int, j as int);
                                lemma_bucket_push(d0, av, 2, cfg, md, sv, dv, i0, j0, i as int, j as int);
                                lemma_bucket_keep(s0, 3, cfg, md, sv, dv, i0, j0, i as int, j as int);
                                lemma_push_contains(d0, av);
                            }
                        },
                        SyncAction::Skip { .. } => {
                            skips.push(a);
                            proof {
                                assert(action_views(skips@) =~= s0.push(av));
                                lemma_bucket_keep(c0, 0, cfg, md, sv, dv, i0, j0, i as int, j as int);
                                lemma_bucket_keep(f0, 1, cfg, md, sv, dv, i0, j0, i as int, j as int);
                                lemma_bucket_keep(d0, 2, cfg, md, sv, dv, i0, j0, i as int, j as int);
                                lemma_bucket_push(s0, av, 3, cfg, md, sv, dv, i0, j0, i as int, j as int);
                                lemma_push_contains(s0, av);
                            }
                        },
                    }
                },
                None => {
                    proof {
                        lemma_bucket_keep(c0, 0, cfg, md, sv, dv, i0, j0, i as int, j as int);
                        lemma_bucket_keep(f0, 1, cfg, md, sv, dv, i0, j0, i as int, j as int);
                        lemma_bucket_keep(d0, 2, cfg, md, sv, dv, i0, j0, i as int, j as int);
                        lemma_bucket_keep(s0, 3, cfg, md, sv, dv, i0, j0, i as int, j as int);
                    }
                },
            }
        }
        proof {
            lemma_plan_from_buckets(
                action_views(copies@),
                action_views(conflicts@),
                action_views(deletes@),
                action_views(skips@),
                cfg,
                md,
                sv,
                dv,
            );
        }
        let ghost c = action_views(copies@);
        let ghost f = action_views(conflicts@);
        let ghost d = action_views(deletes@);
        let ghost s = action_views(skips@);
        copies.append(&mut conflicts);
        copies.append(&mut deletes);
        copies.append(&mut skips);
        assert(action_views(copies@) =~= c + f + d + s);
        copies
    }

    /// Counts the actions of each kind and adds up the sizes of the copies,
    /// forward and reverse apart.
    pub fn summarize_actions(actions: &[SyncAction]) -> (summary: ActionSummary)
        requires
            bytes_kind(action_views(actions@), ActionKind::Copy) <= u64::MAX,
            bytes_kind(action_views(actions@), ActionKind::ReverseCopy) <= u64::MAX,
        ensures
            summarizes(summary, action_views(actions@)),
    {
        let mut summary = ActionSummary {
            copy_count: 0,
            copy_bytes: 0,
            reverse_copy_count: 0,
            reverse_copy_bytes: 0,
            delete_count: 0,
            skip_count: 0,
            conflict_count: 0,
        };
        let ghost all = action_views(actions@);
        let n = actions.len();
        let mut i: usize = 0;
        assert(all.take(0) =~= Seq::<SyncActionView>::empty());
        while i < n
            invariant
                n == actions@.len(),
                all == action_views(actions@),
                i <= n,
                summarizes(summary, all.take(i as int)),
                bytes_kind(all, ActionKind::Copy) <= u64::MAX,
                bytes_kind(all, ActionKind::ReverseCopy) <= u64::MAX,
            decreases n - i,
        {
            proof {
                let next = all.take(i as int + 1);
                assert(next.drop_last() =~= all.take(i as int));
                assert(next.last() == actions@[i as int]@);
                lemma_bytes_prefix(all, i as int + 1, ActionKind::Copy);
                lemma_bytes_prefix(all, i as int + 1, ActionKind::ReverseCopy);
            }
            match &actions[i] {
                SyncAction::Copy { size, reverse, .. } => {
                    if *reverse {
                        summary.reverse_copy_count = summary.reverse_copy_count + 1;
                        summary.reverse_copy_bytes = summary.reverse_copy_bytes + *size;
                    } else {
                        summary.copy_count = summary.copy_count + 1;
                        summary.copy_bytes = summary.copy_bytes + *size;
                    }
                },
                SyncAction::Delete { .. } => {
                    summary.delete_count = summary.delete_count + 1;
                },
                SyncAction::Skip { .. } => {
                    summary.skip_count = summary.skip_count + 1;
                },
                SyncAction::Conflict { .. } => {
                    summary.conflict_count = summary.conflict_count + 1;
                },
            }
            i = i + 1;
        }
        assert(all.take(n as int) =~= all);
        summary
    }
}

/// The summary of the actions, where the bytes that their copies move in
/// both directions together can be counted in 64 bits; nothing where they
/// cannot.
pub fn checked_summary(actions: &[SyncAction]) -> (r: Option<ActionSummary>)
    ensures
        match r {
            Some(summary) => summarizes(summary, action_views(actions@)) && summary.copy_bytes
                + summary.reverse_copy_bytes <= u64::MAX,
            None => bytes_kind(action_views(actions@), ActionKind::Copy) + bytes_kind(
                action_views(actions@),
                ActionKind::ReverseCopy,
            ) > u64::MAX,
        },
{
    let ghost all = action_views(actions@);
    let n = actions.len();
    let mut total: u64 = 0;
    let mut i: usize = 0;
    assert(all.take(0) =~= Seq::<SyncActionView>::empty());
    while i < n
        invariant
            n == actions@.len(),
            all == action_views(actions@),
            i <= n,
            total == bytes_kind(all.take(i as int), ActionKind::Copy) + bytes_kind(
                all.take(i as int),
                ActionKind::ReverseCopy,
            ),
        decreases n - i,
    {
        proof {
            let next = all.take(i as int + 1);
            assert(next.drop_last() =~= all.take(i as int));
            assert(next.last() == actions@[i as int]@);
            lemma_bytes_prefix(all, i as int + 1, ActionKind::Copy);
            lemma_bytes_prefix(all, i as int + 1, ActionKind::ReverseCopy);
        }
        match &actions[i] {
            SyncAction::Copy { size, .. } => {
                match total.checked_add(*size) {
                    Some(sum) => {
                        total = sum;
                    },
                    None => {
                        return None;
                    },
                }
            },
            _ => {},
        }
        i = i + 1;
    }
    assert(all.take(n as int) =~= all);
    Some(FileComparator::summarize_actions(actions))
}

impl Default for FileComparator {
    fn default() -> (r: FileComparator)
        ensures
            r@ == default_compare_config(),
    {
        FileComparator::new(false)
    }
}

impl Default for ActionSummary {
    fn default() -> (r: ActionSummary)
        ensures
            r.total() == 0,
            r.copy_bytes == 0,
            r.reverse_copy_bytes == 0,
    {
        ActionSummary {
            copy_count: 0,
            copy_bytes: 0,
            reverse_copy_count: 0,
            reverse_copy_bytes: 0,
            delete_count: 0,
            skip_count: 0,
            conflict_count: 0,
        }
    }
}

impl ActionSummary {
    /// The number of actions counted.
    pub open spec fn total(self) -> int {
        self.copy_count + self.reverse_copy_count + self.delete_count + self.skip_count
            + self.conflict_count
    }

    /// The number of actions counted.
    pub fn total_files(&self) -> (n: usize)
        requires
            self.total() <= usize::MAX,
        ensures
            n == self.total(),
    {
        self.copy_count + self.reverse_copy_count + self.delete_count + self.skip_count
            + self.conflict_count
    }

    /// The number of bytes that the copies move, in both directions.
    pub fn total_transfer_bytes(&self) -> (n: u64)
        requires
            self.copy_bytes + self.reverse_copy_bytes <= u64::MAX,
        ensures
            n == self.copy_bytes + self.reverse_copy_bytes,
    {
        self.copy_bytes + self.reverse_copy_bytes
    }
}

/// The kinds of action that a summary tells apart.
#[derive(Debug, Clone, Copy, PartialEq, Eq, Structural)]
pub enum ActionKind {
    Copy,
    ReverseCopy,
    Delete,
    Skip,
    Conflict,
}

/// The kind of an action.
pub open spec fn kind_of(a: SyncActionView) -> ActionKind {
    match a {
        SyncActionView::Copy { reverse, .. } => if reverse {
            ActionKind::ReverseCopy
        } else {
            ActionKind::Copy
        },
        SyncActionView::Delete { .. } => ActionKind::Delete,
        SyncActionView::Skip { .. } => ActionKind::Skip,
        SyncActionView::Conflict { .. } => ActionKind::Conflict,
    }
}

/// The number of bytes an action moves.
pub open spec fn bytes_moved(a: SyncActionView) -> nat {
    match a {
        SyncActionView::Copy { size, .. } => size as nat,
        _ => 0,
    }
}

/// How many actions of `s` are of kind `k`.
pub open spec fn count_kind(s: Seq<SyncActionView>, k: ActionKind) -> nat
    decreases s.len(),
{
    if s.len() == 0 {
        0
    } else {
        count_kind(s.drop_last(), k) + if kind_of(s.last()) == k {
            1nat
        } else {
            0nat
        }
    }
}

/// How many bytes the actions of kind `k` in `s` move.
pub open spec fn bytes_kind(s: Seq<SyncActionView>, k: ActionKind) -> nat
    decreases s.len(),
{
    if s.len() == 0 {
        0
    } else {
        bytes_kind(s.drop_last(), k) + if kind_of(s.last()) == k {
            bytes_moved(s.last())
        } else {
            0nat
        }
    }
}

/// `summary` holds the counts and byte totals of `s`.
pub open spec fn summarizes(summary: ActionSummary, s: Seq<SyncActionView>) -> bool {
    &&& summary.copy_count == count_kind(s, ActionKind::Copy)
    &&& summary.copy_bytes == bytes_kind(s, ActionKind::Copy)
    &&& summary.reverse_copy_count == count_kind(s, ActionKind::ReverseCopy)
    &&& summary.reverse_copy_bytes == bytes_kind(s, ActionKind::ReverseCopy)
    &&& summary.delete_count == count_kind(s, ActionKind::Delete)
    &&& summary.skip_count == count_kind(s, ActionKind::Skip)
    &&& summary.conflict_count == count_kind(s, ActionKind::Conflict)
    &&& summary.total() == s.len()
}

/// A prefix moves no more bytes than the whole list.
pub proof fn lemma_bytes_prefix(s: Seq<SyncActionView>, i: int, k: ActionKind)
    requires
        0 <= i <= s.len(),
    ensures
        bytes_kind(s.take(i), k) <= bytes_kind(s, k),
    decreases s.len() - i,
{
    if i == s.len() {
        assert(s.take(i) =~= s);
    } else {
        lemma_bytes_prefix(s, i + 1, k);
        assert(s.take(i + 1).drop_last() =~= s.take(i));
    }
}

/// The value of an optional action.
pub open spec fn action_opt_view(a: Option<SyncAction>) -> Option<SyncActionView> {
    match a {
        Some(x) => Some(x@),
        None => None,
    }
}

/// The value of an optional borrowed entry.
pub open spec fn info_ref_view(info: Option<&FileInfo>) -> Option<FileInfoView> {
    match info {
        Some(f) => Some(f@),
        None => None,
    }
}

/// Every path taken from `source` sorts before every path still waiting in
/// `dest`, and the other way round.
spec fn frontier(source: Seq<FileInfoView>, dest: Seq<FileInfoView>, i: int, j: int) -> bool {
    &&& forall|k: int, l: int|
        #![trigger source[k], dest[l]]
        0 <= k < i && j <= l < dest.len() ==> path_lt(source[k].path, dest[l].path)
    &&& forall|k: int, l: int|
        #![trigger source[k], dest[l]]
        i <= k < source.len() && 0 <= l < j ==> path_lt(dest[l].path, source[k].path)
}

/// `p` sorts before every path still waiting on either side.
spec fn above(source: Seq<FileInfoView>, dest: Seq<FileInfoView>, i: int, j: int, p: Seq<char>) -> bool {
    &&& forall|k: int| i <= k < source.len() ==> path_lt(p, (#[trigger] source[k]).path)
    &&& forall|l: int| j <= l < dest.len() ==> path_lt(p, (#[trigger] dest[l]).path)
}

/// Every action of `b` is about a path that sorts before `p`.
spec fn below(b: Seq<SyncActionView>, p: Seq<char>) -> bool {
    forall|x: int| 0 <= x < b.len() ==> path_lt(action_path(#[trigger] b[x]), p)
}

/// What holds of one group of actions while the two trees are walked.
spec fn bucket_inv(
    b: Seq<SyncActionView>,
    rank: int,
    cfg: CompareConfig,
    mode: SyncMode,
    source: Seq<FileInfoView>,
    dest: Seq<FileInfoView>,
    i: int,
    j: int,
) -> bool {
    &&& forall|x: int| 0 <= x < b.len() ==> action_rank(#[trigger] b[x]) == rank
    &&& forall|x: int|
        0 <= x < b.len() ==> planned_in(cfg, mode, source, dest, action_path(#[trigger] b[x]))
            == Some(b[x])
    &&& forall|x: int, y: int|
        #![trigger b[x], b[y]]
        0 <= x < y < b.len() ==> path_lt(action_path(b[x]), action_path(b[y]))
    &&& forall|k: int| i <= k < source.len() ==> below(b, (#[trigger] source[k]).path)
    &&& forall|l: int| j <= l < dest.len() ==> below(b, (#[trigger] dest[l]).path)
}

/// The groups hold the action of every path that has been taken.
spec fn covered(
    c: Seq<SyncActionView>,
    f: Seq<SyncActionView>,
    d: Seq<SyncActionView>,
    s: Seq<SyncActionView>,
    cfg: CompareConfig,
    mode: SyncMode,
    source: Seq<FileInfoView>,
    dest: Seq<FileInfoView>,
    i: int,
    j: int,
) -> bool {
    &&& forall|k: int|
        0 <= k < i && planned_in(cfg, mode, source, dest, (#[trigger] source[k]).path) is Some
            ==> in_groups(c, f, d, s, planned_in(cfg, mode, source, dest, source[k].path)->0)
    &&& forall|l: int|
        0 <= l < j && planned_in(cfg, mode, source, dest, (#[trigger] dest[l]).path) is Some
            ==> in_groups(c, f, d, s, planned_in(cfg, mode, source, dest, dest[l].path)->0)
}

spec fn in_groups(
    c: Seq<SyncActionView>,
    f: Seq<SyncActionView>,
    d: Seq<SyncActionView>,
    s: Seq<SyncActionView>,
    a: SyncActionView,
) -> bool {
    c.contains(a) || f.contains(a) || d.contains(a) || s.contains(a)
}

proof fn lemma_push_contains(s: Seq<SyncActionView>, a: SyncActionView)
    ensures
        s.push(a).contains(a),
        forall|b: SyncActionView| s.contains(b) ==> #[trigger] s.push(a).contains(b),
{
    assert(s.push(a)[s.len() as int] == a);
    assert forall|b: SyncActionView| s.contains(b) implies #[trigger] s.push(a).contains(b) by {
        let x = choose|x: int| 0 <= x < s.len() && s[x] == b;
        assert(s.push(a)[x] == b);
    }
}

proof fn lemma_only_source(source: Seq<FileInfoView>, dest: Seq<FileInfoView>, i: int, j: int)
    requires
        sorted_by_path(source),
        sorted_by_path(dest),
        frontier(source, dest, i, j),
        0 <= i < source.len(),
        0 <= j <= dest.len(),
        j < dest.len() ==> path_lt(source[i].path, dest[j].path),
    ensures
        lookup(source, source[i].path) == Some(source[i]),
        lookup(dest, source[i].path) is None,
        frontier(source, dest, i + 1, j),
        above(source, dest, i + 1, j, source[i].path),
{
    let p = source[i].path;
    lemma_lookup_at(source, i);
    assert forall|l: int| j <= l < dest.len() implies path_lt(p, (#[trigger] dest[l]).path) by {
        if j < l {
            assert(path_lt(dest[j].path, dest[l].path));
            lemma_path_lt_strict_total(p, dest[j].path, dest[l].path);
        }
    }
    assert forall|l: int| 0 <= l < j implies path_lt((#[trigger] dest[l]).path, p) by {
        assert(path_lt(dest[l].path, source[i].path));
    }
    lemma_lookup_gap(dest, j, p);
    assert forall|k: int| i + 1 <= k < source.len() implies path_lt(
        p,
        (#[trigger] source[k]).path,
    ) by {
        assert(path_lt(source[i].path, source[k].path));
    }
}

proof fn lemma_only_dest(source: Seq<FileInfoView>, dest: Seq<FileInfoView>, i: int, j: int)
    requires
        sorted_by_path(source),
        sorted_by_path(dest),
        frontier(source, dest, i, j),
        0 <= i <= source.len(),
        0 <= j < dest.len(),
        i < source.len() ==> path_lt(dest[j].path, source[i].path),
    ensures
        lookup(dest, dest[j].path) == Some(dest[j]),
        lookup(source, dest[j].path) is None,
        frontier(source, dest, i, j + 1),
        above(source, dest, i, j + 1, dest[j].path),
{
    let p = dest[j].path;
    lemma_lookup_at(dest, j);
    assert forall|k: int| i <= k < source.len() implies path_lt(p, (#[trigger] source[k]).path) by {
        if i < k {
            assert(path_lt(source[i].path, source[k].path));
            lemma_path_lt_strict_total(p, source[i].path, source[k].path);
        }
    }
    assert forall|k: int| 0 <= k < i implies path_lt((#[trigger] source[k]).path, p) by {
        assert(path_lt(source[k].path, dest[j].path));
    }
    lemma_lookup_gap(source, i, p);
    assert forall|l: int| j + 1 <= l < dest.len() implies path_lt(p, (#[trigger] dest[l]).path) by {
        assert(path_lt(dest[j].path, dest[l].path));
    }
}

proof fn lemma_both(source: Seq<FileInfoView>, dest: Seq<FileInfoView>, i: int, j: int)
    requires
        sorted_by_path(source),
        sorted_by_path(dest),
        frontier(source, dest, i, j),
        0 <= i < source.len(),
        0 <= j < dest.len(),
        source[i].path == dest[j].path,
    ensures
        lookup(source, source[i].path) == Some(source[i]),
        lookup(dest, source[i].path) == Some(dest[j]),
        frontier(source, dest, i + 1, j + 1),
        above(source, dest, i + 1, j + 1, source[i].path),
{
    let p = source[i].path;
    lemma_lookup_at(source, i);
    lemma_lookup_at(dest, j);
    assert forall|k: int| i + 1 <= k < source.len() implies path_lt(
        p,
        (#[trigger] source[k]).path,
    ) by {
        assert(path_lt(source[i].path, source[k].path));
    }
    assert forall|l: int| j + 1 <= l < dest.len() implies path_lt(p, (#[trigger] dest[l]).path) by {
        assert(path_lt(dest[j].path, dest[l].path));
    }
    assert forall|k: int, l: int|
        #![trigger source[k], dest[l]]
        0 <= k < i + 1 && j + 1 <= l < dest.len() implies path_lt(source[k].path, dest[l].path) by {
        if k < i {
            assert(path_lt(source[k].path, dest[l].path));
        } else {
            assert(path_lt(dest[j].path, dest[l].path));
        }
    }
    assert forall|k: int, l: int|
        #![trigger source[k], dest[l]]
        i + 1 <= k < source.len() && 0 <= l < j + 1 implies path_lt(
        dest[l].path,
        source[k].path,
    ) by {
        if l < j {
            assert(path_lt(dest[l].path, source[k].path));
        } else {
            assert(path_lt(source[i].path, source[k].path));
        }
    }
}

proof fn lemma_bucket_push(
    b: Seq<SyncActionView>,
    a: SyncActionView,
    rank: int,
    cfg: CompareConfig,
    mode: SyncMode,
    source: Seq<FileInfoView>,
    dest: Seq<FileInfoView>,
    i0: int,
    j0: int,
    i: int,
    j: int,
)
    requires
        bucket_inv(b, rank, cfg, mode, source, dest, i0, j0),
        action_rank(a) == rank,
        planned_in(cfg, mode, source, dest, action_path(a)) == Some(a),
        below(b, action_path(a)),
        above(source, dest, i, j, action_path(a)),
        0 <= i0 <= i,
        0 <= j0 <= j,
    ensures
        bucket_inv(b.push(a), rank, cfg, mode, source, dest, i, j),
{
    let b2 = b.push(a);
    assert forall|x: int| 0 <= x < b2.len() implies action_rank(#[trigger] b2[x]) == rank by {
        if x < b.len() {
            assert(b2[x] == b[x]);
        }
    }
    assert forall|x: int| 0 <= x < b2.len() implies planned_in(
        cfg,
        mode,
        source,
        dest,
        action_path(#[trigger] b2[x]),
    ) == Some(b2[x]) by {
        if x < b.len() {
            assert(b2[x] == b[x]);
        }
    }
    assert forall|x: int, y: int|
        #![trigger b2[x], b2[y]]
        0 <= x < y < b2.len() implies path_lt(action_path(b2[x]), action_path(b2[y])) by {
        assert(b2[x] == b[x]);
        if y < b.len() {
            assert(b2[y] == b[y]);
        }
    }
    assert forall|k: int| i <= k < source.len() implies below(b2, (#[trigger] source[k]).path) by {
        assert(below(b, source[k].path));
        assert forall|x: int| 0 <= x < b2.len() implies path_lt(
            action_path(#[trigger] b2[x]),
            source[k].path,
        ) by {
            if x < b.len() {
                assert(b2[x] == b[x]);
            }
        }
    }
    assert forall|l: int| j <= l < dest.len() implies below(b2, (#[trigger] dest[l]).path) by {
        assert(below(b, dest[l].path));
        assert forall|x: int| 0 <= x < b2.len() implies path_lt(
            action_path(#[trigger] b2[x]),
            dest[l].path,
        ) by {
            if x < b.len() {
                assert(b2[x] == b[x]);
            }
        }
    }
}

proof fn lemma_bucket_keep(
    b: Seq<SyncActionView>,
    rank: int,
    cfg: CompareConfig,
    mode: SyncMode,
    source: Seq<FileInfoView>,
    dest: Seq<FileInfoView>,
    i0: int,
    j0: int,
    i: int,
    j: int,
)
    requires
        bucket_inv(b, rank, cfg, mode, source, dest, i0, j0),
        0 <= i0 <= i,
        0 <= j0 <= j,
    ensures
        bucket_inv(b, rank, cfg, mode, source, dest, i, j),
{
}

proof fn lemma_concat_contains(
    c: Seq<SyncActionView>,
    f: Seq<SyncActionView>,
    d: Seq<SyncActionView>,
    s: Seq<SyncActionView>,
    a: SyncActionView,
)
    requires
        in_groups(c, f, d, s, a),
    ensures
        (c + f + d + s).contains(a),
{
    let r = c + f + d + s;
    if c.contains(a) {
        let x = choose|x: int| 0 <= x < c.len() && c[x] == a;
        assert(r[x] == a);
    } else if f.contains(a) {
        let x = choose|x: int| 0 <= x < f.len() && f[x] == a;
        assert(r[c.len() + x] == a);
    } else if d.contains(a) {
        let x = choose|x: int| 0 <= x < d.len() && d[x] == a;
        assert(r[c.len() + f.len() + x] == a);
    } else {
        let x = choose|x: int| 0 <= x < s.len() && s[x] == a;
        assert(r[c.len() + f.len() + d.len() + x] == a);
    }
}

proof fn lemma_plan_from_buckets(
    c: Seq<SyncActionView>,
    f: Seq<SyncActionView>,
    d: Seq<SyncActionView>,
    s: Seq<SyncActionView>,
    cfg: CompareConfig,
    mode: SyncMode,
    source: Seq<FileInfoView>,
    dest: Seq<FileInfoView>,
)
    requires
        sorted_by_path(source),
        sorted_by_path(dest),
        bucket_inv(c, 0, cfg, mode, source, dest, source.len() as int, dest.len() as int),
        bucket_inv(f, 1, cfg, mode, source, dest, source.len() as int, dest.len() as int),
        bucket_inv(d, 2, cfg, mode, source, dest, source.len() as int, dest.len() as int),
        bucket_inv(s, 3, cfg, mode, source, dest, source.len() as int, dest.len() as int),
        covered(c, f, d, s, cfg, mode, source, dest, source.len() as int, dest.len() as int),
    ensures
        is_plan(c + f + d + s, cfg, mode, source, dest),
{
    let r = c + f + d + s;
    let group = |x: int|
        if x < c.len() {
            0int
        } else if x < c.len() + f.len() {
            1int
        } else if x < c.len() + f.len() + d.len() {
            2int
        } else {
            3int
        };
    assert forall|x: int| 0 <= x < r.len() implies action_rank(#[trigger] r[x]) == group(x)
        && planned_in(cfg, mode, source, dest, action_path(r[x])) == Some(r[x]) by {
        if x < c.len() {
            assert(r[x] == c[x]);
        } else if x < c.len() + f.len() {
            assert(r[x] == f[x - c.len()]);
        } else if x < c.len() + f.len() + d.len() {
            assert(r[x] == d[x - c.len() - f.len()]);
        } else {
            assert(r[x] == s[x - c.len() - f.len() - d.len()]);
        }
    }
    assert forall|x: int, y: int| #![trigger r[x], r[y]] 0 <= x < y < r.len() implies action_before(
        r[x],
        r[y],
    ) by {
        assert(action_rank(r[x]) == group(x));
        assert(action_rank(r[y]) == group(y));
        if group(x) == group(y) {
            if x < c.len() {
                assert(r[x] == c[x] && r[y] == c[y]);
            } else if x < c.len() + f.len() {
                assert(r[x] == f[x - c.len()] && r[y] == f[y - c.len()]);
            } else if x < c.len() + f.len() + d.len() {
                assert(r[x] == d[x - c.len() - f.len()] && r[y] == d[y - c.len() - f.len()]);
            } else {
                assert(r[x] == s[x - c.len() - f.len() - d.len()] && r[y] == s[y - c.len()
                    - f.len() - d.len()]);
            }
        }
    }
    assert forall|p: Seq<char>|
        (#[trigger] planned_in(cfg, mode, source, dest, p)) is Some implies r.contains(
        planned_in(cfg, mode, source, dest, p)->0,
    ) by {
        let a = planned_in(cfg, mode, source, dest, p)->0;
        if has_path(source, p) {
            let k = choose|k: int| 0 <= k < source.len() && (#[trigger] source[k]).path == p;
            assert(in_groups(c, f, d, s, a));
        } else {
            assert(has_path(dest, p));
            let l = choose|l: int| 0 <= l < dest.len() && (#[trigger] dest[l]).path == p;
            assert(in_groups(c, f, d, s, a));
        }
        lemma_concat_contains(c, f, d, s, a);
    }
}

/// The execution order is strict: no action comes before itself, and of two
/// actions at most one comes before the other.
pub proof fn lemma_action_before_strict(a: SyncActionView, b: SyncActionView)
    ensures
        !action_before(a, a),
        action_before(a, b) ==> !action_before(b, a),
{
    lemma_path_lt_strict_total(action_path(a), action_path(b), action_path(a));
}

proof fn lemma_sorted_same_members(a: Seq<SyncActionView>, b: Seq<SyncActionView>)
    requires
        actions_sorted(a),
        actions_sorted(b),
        forall|x: SyncActionView| a.contains(x) <==> b.contains(x),
    ensures
        a == b,
    decreases a.len(),
{
    if a.len() == 0 {
        if b.len() > 0 {
            assert(b.contains(b[0]));
            assert(a.contains(b[0]));
        }
        assert(a =~= b);
    } else {
        assert(a.contains(a[0]));
        assert(b.contains(a[0]));
        let j = choose|j: int| 0 <= j < b.len() && b[j] == a[0];
        assert(b.contains(b[0]));
        assert(a.contains(b[0]));
        let i = choose|i: int| 0 <= i < a.len() && a[i] == b[0];
        lemma_action_before_strict(a[0], b[0]);
        if j > 0 {
            assert(action_before(b[0], b[j]));
            if i > 0 {
                assert(action_before(a[0], a[i]));
            }
        }
        assert(a[0] == b[0]);
        let a1 = a.skip(1);
        let b1 = b.skip(1);
        assert forall|x: int, y: int| #![trigger a1[x], a1[y]] 0 <= x < y < a1.len() implies action_before(
            a1[x],
            a1[y],
        ) by {
            assert(action_before(a[x + 1], a[y + 1]));
        }
        assert forall|x: int, y: int| #![trigger b1[x], b1[y]] 0 <= x < y < b1.len() implies action_before(
            b1[x],
            b1[y],
        ) by {
            assert(action_before(b[x + 1], b[y + 1]));
        }
        assert forall|x: SyncActionView| a1.contains(x) <==> b1.contains(x) by {
            lemma_action_before_strict(x, x);
            if a1.contains(x) {
                let k = choose|k: int| 0 <= k < a1.len() && a1[k] == x;
                assert(a[k + 1] == x);
                assert(action_before(a[0], a[k + 1]));
                assert(a.contains(x));
                let l = choose|l: int| 0 <= l < b.len() && b[l] == x;
                assert(l != 0);
                assert(b1[l - 1] == x);
            }
            if b1.contains(x) {
                let k = choose|k: int| 0 <= k < b1.len() && b1[k] == x;
                assert(b[k + 1] == x);
                assert(action_before(b[0], b[k + 1]));
                assert(b.contains(x));
                let l = choose|l: int| 0 <= l < a.len() && a[l] == x;
                assert(l != 0);
                assert(a1[l - 1] == x);
            }
        }
        lemma_sorted_same_members(a1, b1);
        assert(a =~= seq![a[0]] + a1);
        assert(b =~= seq![b[0]] + b1);
    }
}

/// The plan is a function of the two trees, the mode and the settings: any
/// two plans for the same inputs are the same list in the same order.
pub proof fn law_plan_is_unique(
    first: Seq<SyncActionView>,
    second: Seq<SyncActionView>,
    cfg: CompareConfig,
    mode: SyncMode,
    source: Seq<FileInfoView>,
    dest: Seq<FileInfoView>,
)
    requires
        is_plan(first, cfg, mode, source, dest),
        is_plan(second, cfg, mode, source, dest),
    ensures
        first == second,
{
    assert forall|x: SyncActionView| first.contains(x) <==> second.contains(x) by {
        if first.contains(x) {
            let i = choose|i: int| 0 <= i < first.len() && first[i] == x;
            assert(planned_in(cfg, mode, source, dest, action_path(first[i])) == Some(x));
        }
        if second.contains(x) {
            let i = choose|i: int| 0 <= i < second.len() && second[i] == x;
            assert(planned_in(cfg, mode, source, dest, action_path(second[i])) == Some(x));
        }
    }
    lemma_sorted_same_members(first, second);
}

/// With checksum comparison switched on, a file that both sides hold with
/// different checksums is copied or reported as a conflict; the plan never
/// skips it.
pub proof fn law_checksum_mismatch_is_not_skipped(
    actions: Seq<SyncActionView>,
    cfg: CompareConfig,
    mode: SyncMode,
    source: Seq<FileInfoView>,
    dest: Seq<FileInfoView>,
    p: Seq<char>,
)
    requires
        is_plan(actions, cfg, mode, source, dest),
        cfg.use_checksum,
        lookup(source, p) is Some,
        lookup(dest, p) is Some,
        !lookup(source, p)->0.is_dir,
        lookup(source, p)->0.checksum is Some,
        lookup(dest, p)->0.checksum is Some,
        lookup(source, p)->0.checksum != lookup(dest, p)->0.checksum,
    ensures
        exists|i: int|
            0 <= i < actions.len() && action_path(#[trigger] actions[i]) == p && (actions[i] is Copy
                || actions[i] is Conflict),
        forall|i: int|
            0 <= i < actions.len() && action_path(#[trigger] actions[i]) == p ==> !(actions[i] is Skip),
{
    let a = planned_in(cfg, mode, source, dest, p)->0;
    assert(planned_in(cfg, mode, source, dest, p) is Some);
    assert(actions.contains(a));
    let i = choose|i: int| 0 <= i < actions.len() && actions[i] == a;
    assert(action_path(actions[i]) == p);
}

/// Every copy of a plan has its origin: a forward copy's file is in the
/// source tree, a reverse copy's file is in the destination tree, and the
/// size of the copy is the size of that file.
pub proof fn law_copy_has_origin(
    actions: Seq<SyncActionView>,
    cfg: CompareConfig,
    mode: SyncMode,
    source: Seq<FileInfoView>,
    dest: Seq<FileInfoView>,
    i: int,
)
    requires
        is_plan(actions, cfg, mode, source, dest),
        0 <= i < actions.len(),
        actions[i] is Copy,
    ensures
        actions[i]->Copy_source_path == actions[i]->Copy_dest_path,
        !actions[i]->Copy_reverse ==> lookup(source, actions[i]->Copy_source_path) is Some
            && lookup(source, actions[i]->Copy_source_path)->0.size == actions[i]->Copy_size,
        actions[i]->Copy_reverse ==> lookup(dest, actions[i]->Copy_source_path) is Some && lookup(
            dest,
            actions[i]->Copy_source_path,
        )->0.size == actions[i]->Copy_size,
{
    assert(planned_in(cfg, mode, source, dest, action_path(actions[i])) == Some(actions[i]));
}

/// A plan holds at most one action for a path, and only for paths that
/// one of the two trees holds.
pub proof fn law_one_action_per_path(
    actions: Seq<SyncActionView>,
    cfg: CompareConfig,
    mode: SyncMode,
    source: Seq<FileInfoView>,
    dest: Seq<FileInfoView>,
    i: int,
    j: int,
)
    requires
        is_plan(actions, cfg, mode, source, dest),
        0 <= i < actions.len(),
        0 <= j < actions.len(),
    ensures
        action_path(actions[i]) == action_path(actions[j]) ==> i == j,
        has_path(source, action_path(actions[i])) || has_path(dest, action_path(actions[i])),
{
    assert(planned_in(cfg, mode, source, dest, action_path(actions[i])) == Some(actions[i]));
    assert(planned_in(cfg, mode, source, dest, action_path(actions[j])) == Some(actions[j]));
    if action_path(actions[i]) == action_path(actions[j]) {
        lemma_action_before_strict(actions[i], actions[j]);
        if i < j {
            assert(action_before(actions[i], actions[j]));
        } else if j < i {
            assert(action_before(actions[j], actions[i]));
        }
    }
}

/// Into a destination that holds nothing, every file of the source is
/// copied, whatever the mode, and nothing else is planned: each action is
/// the forward copy of a file of the source, with that file's size.
pub proof fn law_empty_destination_gets_every_file(
    actions: Seq<SyncActionView>,
    cfg: CompareConfig,
    mode: SyncMode,
    source: Seq<FileInfoView>,
    dest: Seq<FileInfoView>,
)
    requires
        is_plan(actions, cfg, mode, source, dest),
        dest.len() == 0,
    ensures
        forall|p: Seq<char>|
            (#[trigger] lookup(source, p)) is Some && !lookup(source, p)->0.is_dir ==> actions.contains(
                forward_copy(p, lookup(source, p)->0.size),
            ),
        forall|i: int|
            0 <= i < actions.len() ==> {
                let p = action_path(#[trigger] actions[i]);
                &&& lookup(source, p) is Some
                &&& !lookup(source, p)->0.is_dir
                &&& actions[i] == forward_copy(p, lookup(source, p)->0.size)
            },
{
    assert forall|p: Seq<char>|
        (#[trigger] lookup(source, p)) is Some && !lookup(source, p)->0.is_dir implies actions.contains(
        forward_copy(p, lookup(source, p)->0.size),
    ) by {
        assert(lookup(dest, p) is None);
        assert(planned_in(cfg, mode, source, dest, p) == Some(
            forward_copy(p, lookup(source, p)->0.size),
        ));
    }
    assert forall|i: int| 0 <= i < actions.len() implies {
        let p = action_path(#[trigger] actions[i]);
        &&& lookup(source, p) is Some
        &&& !lookup(source, p)->0.is_dir
        &&& actions[i] == forward_copy(p, lookup(source, p)->0.size)
    } by {
        let p = action_path(actions[i]);
        assert(lookup(dest, p) is None);
        assert(planned_in(cfg, mode, source, dest, p) == Some(actions[i]));
    }
}

/// A mirror run deletes from the destination every file that the source
/// lacks, and deletes nothing else; it never copies back to the source
/// and leaves no conflict open.
pub proof fn law_mirror_removes_what_the_source_lacks(
    actions: Seq<SyncActionView>,
    cfg: CompareConfig,
    source: Seq<FileInfoView>,
    dest: Seq<FileInfoView>,
)
    requires
        is_plan(actions, cfg, SyncMode::Mirror, source, dest),
    ensures
        forall|p: Seq<char>|
            (#[trigger] lookup(dest, p)) is Some && !lookup(dest, p)->0.is_dir && lookup(source, p) is None
                ==> actions.contains(SyncActionView::Delete { path: p, from_dest: true }),
        forall|i: int|
            0 <= i < actions.len() && (#[trigger] actions[i]) is Delete ==> {
                &&& actions[i]->from_dest
                &&& lookup(source, actions[i]->Delete_path) is None
                &&& lookup(dest, actions[i]->Delete_path) is Some
            },
        forall|i: int|
            0 <= i < actions.len() ==> kind_of(#[trigger] actions[i]) != ActionKind::ReverseCopy
                && kind_of(actions[i]) != ActionKind::Conflict,
{
    assert forall|p: Seq<char>|
        (#[trigger] lookup(dest, p)) is Some && !lookup(dest, p)->0.is_dir && lookup(source, p)
            is None implies actions.contains(SyncActionView::Delete { path: p, from_dest: true }) by {
        assert(planned_in(cfg, SyncMode::Mirror, source, dest, p) == Some(
            SyncActionView::Delete { path: p, from_dest: true },
        ));
    }
    assert forall|i: int| 0 <= i < actions.len() implies (((#[trigger] actions[i]) is Delete ==> {
        &&& actions[i]->from_dest
        &&& lookup(source, actions[i]->Delete_path) is None
        &&& lookup(dest, actions[i]->Delete_path) is Some
    }) && kind_of(actions[i]) != ActionKind::ReverseCopy && kind_of(actions[i])
        != ActionKind::Conflict) by {
        assert(planned_in(cfg, SyncMode::Mirror, source, dest, action_path(actions[i])) == Some(
            actions[i],
        ));
    }
}

/// A file that both sides hold in versions that count as equal is
/// skipped, in every mode.
pub proof fn law_equal_files_are_skipped(
    actions: Seq<SyncActionView>,
    cfg: CompareConfig,
    mode: SyncMode,
    source: Seq<FileInfoView>,
    dest: Seq<FileInfoView>,
    p: Seq<char>,
)
    requires
        is_plan(actions, cfg, mode, source, dest),
        lookup(source, p) is Some,
        lookup(dest, p) is Some,
        !(lookup(source, p)->0.is_dir && lookup(dest, p)->0.is_dir),
        relation(cfg, lookup(source, p)->0, lookup(dest, p)->0) == FileRelation::Equal || relation(
            cfg,
            lookup(source, p)->0,
            lookup(dest, p)->0,
        ) == FileRelation::ProbablyEqual,
    ensures
        actions.contains(SyncActionView::Skip { path: p }),
{
    assert(planned_in(cfg, mode, source, dest, p) == Some(SyncActionView::Skip { path: p }));
}

/// Two versions of the same size, where checksums do not decide: with
/// sizes alone deciding they are skipped; with modification times
/// consulted, a bidirectional run copies the version that is newer by
/// more than the tolerance over the older one, back to the source where
/// the destination is newer.
pub proof fn law_same_size_is_decided_by_time(
    actions: Seq<SyncActionView>,
    cfg: CompareConfig,
    source: Seq<FileInfoView>,
    dest: Seq<FileInfoView>,
    p: Seq<char>,
)
    requires
        is_plan(actions, cfg, SyncMode::Bidirectional, source, dest),
        lookup(source, p) is Some,
        lookup(dest, p) is Some,
        !(lookup(source, p)->0.is_dir && lookup(dest, p)->0.is_dir),
        lookup(source, p)->0.size == lookup(dest, p)->0.size,
        !(cfg.use_checksum && lookup(source, p)->0.checksum is Some && lookup(dest, p)->0.checksum
            is Some),
    ensures
        cfg.size_only_for_same_size ==> actions.contains(SyncActionView::Skip { path: p }),
        !cfg.size_only_for_same_size && !cfg.ignore_mtime && lookup(dest, p)->0.modified_time - lookup(
            source,
            p,
        )->0.modified_time > cfg.time_tolerance_seconds && cfg.time_tolerance_seconds >= 0
            ==> actions.contains(reverse_copy(p, lookup(dest, p)->0.size)),
        !cfg.size_only_for_same_size && !cfg.ignore_mtime && lookup(source, p)->0.modified_time
            - lookup(dest, p)->0.modified_time > cfg.time_tolerance_seconds
            && cfg.time_tolerance_seconds >= 0 ==> actions.contains(
            forward_copy(p, lookup(source, p)->0.size),
        ),
{
    assert(planned_in(cfg, SyncMode::Bidirectional, source, dest, p) is Some);
}

/// A backup run leaves alone what only the destination holds: such a
/// file is skipped, and the plan holds no deletion, no copy back to the
/// source and no conflict.
pub proof fn law_backup_keeps_the_extras(
    actions: Seq<SyncActionView>,
    cfg: CompareConfig,
    source: Seq<FileInfoView>,
    dest: Seq<FileInfoView>,
)
    requires
        is_plan(actions, cfg, SyncMode::Backup, source, dest),
    ensures
        forall|p: Seq<char>|
            (#[trigger] lookup(dest, p)) is Some && !lookup(dest, p)->0.is_dir && lookup(source, p) is None
                ==> actions.contains(SyncActionView::Skip { path: p }),
        forall|i: int|
            0 <= i < actions.len() ==> {
                &&& kind_of(#[trigger] actions[i]) != ActionKind::Delete
                &&& kind_of(actions[i]) != ActionKind::ReverseCopy
                &&& kind_of(actions[i]) != ActionKind::Conflict
            },
{
    assert forall|p: Seq<char>|
        (#[trigger] lookup(dest, p)) is Some && !lookup(dest, p)->0.is_dir && lookup(source, p)
            is None implies actions.contains(SyncActionView::Skip { path: p }) by {
        assert(planned_in(cfg, SyncMode::Backup, source, dest, p) == Some(
            SyncActionView::Skip { path: p },
        ));
    }
    assert forall|i: int| 0 <= i < actions.len() implies {
        &&& kind_of(#[trigger] actions[i]) != ActionKind::Delete
        &&& kind_of(actions[i]) != ActionKind::ReverseCopy
        &&& kind_of(actions[i]) != ActionKind::Conflict
    } by {
        assert(planned_in(cfg, SyncMode::Backup, source, dest, action_path(actions[i])) == Some(
            actions[i],
        ));
    }
}

} // verus!
