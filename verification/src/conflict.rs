//! Conflicts: how the user's choice turns a conflict into actions, and the
//! name under which the losing version is kept.

use vstd::prelude::*;
use vstd::std_specs::convert::FromSpecImpl;
use vstd::string::StrSliceExecFns;
use vstd::string::StringExecFns;
use crate::comparator::forward_copy;
use crate::comparator::ConflictType;
use crate::comparator::SyncAction;
use crate::comparator::SyncActionView;
use crate::scanner::extension_dot;
use crate::scanner::is_extension_dot;
use crate::scanner::lemma_extension_dot_is_unique;
use crate::storage::FileInfoView;
use crate::table::Keyed;
use crate::table::PathTable;
use crate::text::chars_of;
use crate::text::str_equal;

verus! {

/// What to do about a conflict.
#[derive(Debug, Clone, Copy, PartialEq, Eq, Structural)]
pub enum ConflictResolution {
    KeepSource,
    KeepDest,
    KeepBoth,
    Skip,
}

/// The resolution that a name stands for; an unknown name stands for `Skip`.
pub open spec fn resolution_of_name(name: Seq<char>) -> ConflictResolution {
    if name == "keep_source"@ {
        ConflictResolution::KeepSource
    } else if name == "keep_dest"@ {
        ConflictResolution::KeepDest
    } else if name == "keep_both"@ {
        ConflictResolution::KeepBoth
    } else {
        ConflictResolution::Skip
    }
}

/// The name of a resolution.
pub open spec fn resolution_name(r: ConflictResolution) -> Seq<char> {
    match r {
        ConflictResolution::KeepSource => "keep_source"@,
        ConflictResolution::KeepDest => "keep_dest"@,
        ConflictResolution::KeepBoth => "keep_both"@,
        ConflictResolution::Skip => "skip"@,
    }
}

impl ConflictResolution {
    /// The name under which the resolution is stored.
    pub fn to_text(&self) -> (s: String)
        ensures
            s@ == resolution_name(*self),
    {
        match self {
            ConflictResolution::KeepSource => String::from_str("keep_source"),
            ConflictResolution::KeepDest => String::from_str("keep_dest"),
            ConflictResolution::KeepBoth => String::from_str("keep_both"),
            ConflictResolution::Skip => String::from_str("skip"),
        }
    }
}

impl<'a> From<&'a str> for ConflictResolution {
    fn from(s: &'a str) -> (r: ConflictResolution) {
        if str_equal(s, "keep_source") {
            ConflictResolution::KeepSource
        } else if str_equal(s, "keep_dest") {
            ConflictResolution::KeepDest
        } else if str_equal(s, "keep_both") {
            ConflictResolution::KeepBoth
        } else {
            ConflictResolution::Skip
        }
    }
}

impl<'a> FromSpecImpl<&'a str> for ConflictResolution {
    open spec fn obeys_from_spec() -> bool {
        true
    }

    open spec fn from_spec(s: &'a str) -> ConflictResolution {
        resolution_of_name(s@)
    }
}

/// Reading back the name of a resolution gives the resolution.
pub proof fn law_resolution_name_round_trip(r: ConflictResolution)
    ensures
        resolution_of_name(resolution_name(r)) == r,
{
    reveal_strlit("keep_source");
    reveal_strlit("keep_dest");
    reveal_strlit("keep_both");
    reveal_strlit("skip");
    assert("keep_source"@.len() == 11);
    assert("keep_dest"@.len() == 9);
    assert("keep_both"@[5] == 'b');
    assert("keep_dest"@[5] == 'd');
    assert("skip"@.len() == 4);
}

/// A conflict as the registry stores it.
#[derive(Debug, Clone)]
pub struct ConflictRecord {
    pub id: i64,
    pub job_id: String,
    pub file_path: String,
    pub conflict_type: String,
    pub resolution: Option<String>,
    pub source_size: Option<u64>,
    pub source_time: Option<i64>,
    pub dest_size: Option<u64>,
    pub dest_time: Option<i64>,
    pub created_at: i64,
}

/// The choice made for the conflict on one path.
#[derive(Debug, Clone)]
pub struct ChosenResolution {
    pub path: String,
    pub resolution: String,
}

/// Mathematical value of a [`ChosenResolution`].
pub struct ChosenResolutionView {
    pub path: Seq<char>,
    pub resolution: Seq<char>,
}

impl View for ChosenResolution {
    type V = ChosenResolutionView;

    open spec fn view(&self) -> ChosenResolutionView {
        ChosenResolutionView { path: self.path@, resolution: self.resolution@ }
    }
}

impl Keyed for ChosenResolution {
    open spec fn key_of(v: ChosenResolutionView) -> Seq<char> {
        v.path
    }

    fn key(&self) -> (k: &str) {
        self.path.as_str()
    }

    fn duplicate(&self) -> (r: ChosenResolution) {
        ChosenResolution { path: self.path.clone(), resolution: self.resolution.clone() }
    }
}

/// The choices made before a run, one per path.
pub type ResolutionTable = PathTable<ChosenResolution>;

/// The name of a conflict type in the registry.
pub open spec fn conflict_type_name(t: ConflictType) -> Seq<char> {
    match t {
        ConflictType::BothModified => "both_modified"@,
        ConflictType::SameSizeDifferentTime => "same_size_different_time"@,
        ConflictType::ModifiedVsDeleted => "modified_vs_deleted"@,
    }
}

/// The name of a conflict type in the registry.
pub fn conflict_type_text(t: ConflictType) -> (s: String)
    ensures
        s@ == conflict_type_name(t),
{
    match t {
        ConflictType::BothModified => String::from_str("both_modified"),
        ConflictType::SameSizeDifferentTime => String::from_str("same_size_different_time"),
        ConflictType::ModifiedVsDeleted => String::from_str("modified_vs_deleted"),
    }
}

/// The time `YYYYMMDD_hhmmss` in UTC of a count of seconds since 1970, as
/// `chrono` formats it; `None` where the count is out of its range.
pub uninterp spec fn utc_stamp(timestamp: i64) -> Option<Seq<char>>;

/// Calls `chrono::DateTime::from_timestamp` with no nanoseconds and, where
/// it gives a time, `DateTime::format` with `%Y%m%d_%H%M%S`. The text is a
/// function of the count alone and is left to the name `utc_stamp`.
#[verifier::external_body]
fn format_utc_stamp(timestamp: i64) -> (r: Option<String>)
    ensures
        match r {
            Some(s) => utc_stamp(timestamp) == Some(s@),
            None => utc_stamp(timestamp) is None,
        },
{
    match chrono::DateTime::from_timestamp(timestamp, 0) {
        Some(at) => Some(at.format("%Y%m%d_%H%M%S").to_string()),
        None => None,
    }
}

/// The name for the losing version of `path`: `_conflict_`, the side and
/// the time stamp, put before the extension of the path with its `.`, or
/// at the end of the path where it has no extension. The extension is
/// looked for in the last component only, so a `.` in a directory's name
/// or at the start of the file's name splits nothing.
pub open spec fn conflict_name(path: Seq<char>, side: Seq<char>, stamp: Seq<char>) -> Seq<char> {
    let mark = "_conflict_"@ + side + "_"@ + stamp;
    if exists|k: int| is_extension_dot(path, k) {
        let k = choose|k: int| is_extension_dot(path, k);
        path.take(k) + mark + path.skip(k)
    } else {
        path + mark
    }
}

/// The text that stands for the time in a conflict name.
pub open spec fn stamp_text(stamp: Option<Seq<char>>) -> Seq<char> {
    match stamp {
        Some(s) => s,
        None => "unknown"@,
    }
}

/// The name for the losing version of `path`, given the time stamp.
pub fn conflict_name_with(path: &str, side: &str, stamp: Option<&str>) -> (name: String)
    ensures
        name@ == conflict_name(
            path@,
            side@,
            stamp_text(
                match stamp {
                    Some(s) => Some(s@),
                    None => None,
                },
            ),
        ),
{
    let v = chars_of(path);
    let text = match stamp {
        Some(s) => s,
        None => "unknown",
    };
    let mut mark = String::from_str("_conflict_");
    mark.append(side);
    mark.append("_");
    mark.append(text);
    match extension_dot(&v) {
        Some(k) => {
            proof {
                assert forall|x: int| is_extension_dot(path@, x) implies x == k by {
                    lemma_extension_dot_is_unique(path@, x, k as int);
                }
            }
            let mut name = String::from_str(path.substring_char(0, k));
            name.append(mark.as_str());
            name.append(path.substring_char(k, v.len()));
            assert(path@.subrange(0, k as int) =~= path@.take(k as int));
            assert(path@.subrange(k as int, v@.len() as int) =~= path@.skip(k as int));
            name
        },
        None => {
            let mut name = String::from_str(path);
            name.append(mark.as_str());
            name
        },
    }
}

/// Decides conflicts by a default that a choice can override.
#[derive(Debug, Clone, Copy)]
pub struct ConflictResolver {
    default_resolution: ConflictResolution,
}

impl ConflictResolver {
    /// The resolution used where no choice was made.
    pub closed spec fn fallback(&self) -> ConflictResolution {
        self.default_resolution
    }

    /// A resolver with the given default.
    pub fn new(default_resolution: ConflictResolution) -> (r: ConflictResolver)
        ensures
            r.fallback() == default_resolution,
    {
        ConflictResolver { default_resolution }
    }

    /// The resolution for a conflict: the choice, or the default.
    pub fn resolve(
        &self,
        _path: &str,
        _conflict_type: &str,
        custom_resolution: Option<ConflictResolution>,
    ) -> (r: ConflictResolution)
        ensures
            r == match custom_resolution {
                Some(c) => c,
                None => self.fallback(),
            },
    {
        match custom_resolution {
            Some(c) => c,
            None => self.default_resolution,
        }
    }

    /// The name for the losing version of `path` on `side`, stamped with
    /// the time `timestamp`, or with `unknown` where that is out of range.
    pub fn generate_conflict_name(path: &str, side: &str, timestamp: i64) -> (name: String)
        ensures
            name@ == conflict_name(path@, side@, stamp_text(utc_stamp(timestamp))),
    {
        match format_utc_stamp(timestamp) {
            Some(stamp) => conflict_name_with(path, side, Some(stamp.as_str())),
            None => conflict_name_with(path, side, None),
        }
    }
}

impl Default for ConflictResolver {
    fn default() -> (r: ConflictResolver)
        ensures
            r.fallback() == ConflictResolution::Skip,
    {
        ConflictResolver { default_resolution: ConflictResolution::Skip }
    }
}

/// What a resolved conflict on `path` is replaced with. Keeping one side
/// copies its version over the other, or deletes the other where the kept
/// side has no file. Keeping both first copies the destination's version to
/// the source under `kept_name` and then the source's version to the
/// destination; where only one side has a file, that file is copied across.
pub open spec fn resolved_actions(
    path: Seq<char>,
    source: Option<FileInfoView>,
    dest: Option<FileInfoView>,
    choice: ConflictResolution,
    kept_name: Seq<char>,
) -> Seq<SyncActionView> {
    match choice {
        ConflictResolution::Skip => seq![SyncActionView::Skip { path }],
        ConflictResolution::KeepSource => match source {
            Some(s) => seq![forward_copy(path, s.size)],
            None => seq![SyncActionView::Delete { path, from_dest: true }],
        },
        ConflictResolution::KeepDest => match dest {
            Some(d) => seq![
                SyncActionView::Copy { source_path: path, dest_path: path, size: d.size, reverse: true },
            ],
            None => seq![SyncActionView::Delete { path, from_dest: false }],
        },
        ConflictResolution::KeepBoth => match (source, dest) {
            (Some(s), Some(d)) => seq![
                SyncActionView::Copy {
                    source_path: kept_name,
                    dest_path: path,
                    size: d.size,
                    reverse: true,
                },
                forward_copy(path, s.size),
            ],
            (Some(s), None) => seq![forward_copy(path, s.size)],
            (None, Some(d)) => seq![
                SyncActionView::Copy { source_path: path, dest_path: path, size: d.size, reverse: true },
            ],
            (None, None) => seq![SyncActionView::Skip { path }],
        },
    }
}

/// The actions that replace a conflict once the choice is made; any other
/// action stays as it is.
pub fn resolve_action(action: SyncAction, choice: ConflictResolution, kept_name: &str) -> (r: Vec<
    SyncAction,
>)
    ensures
        crate::comparator::action_views(r@) == match action@ {
            SyncActionView::Conflict { path, source_info, dest_info, .. } => resolved_actions(
                path,
                source_info,
                dest_info,
                choice,
                kept_name@,
            ),
            other => seq![other],
        },
{
    let mut out: Vec<SyncAction> = Vec::new();
    let ghost before = action@;
    match action {
        SyncAction::Conflict { path, source_info, dest_info, conflict_type } => {
            match choice {
                ConflictResolution::Skip => {
                    out.push(SyncAction::Skip { path });
                },
                ConflictResolution::KeepSource => match source_info {
                    Some(s) => {
                        out.push(
                            SyncAction::Copy {
                                source_path: path.clone(),
                                dest_path: path,
                                size: s.size,
                                reverse: false,
                            },
                        );
                    },
                    None => {
                        out.push(SyncAction::Delete { path, from_dest: true });
                    },
                },
                ConflictResolution::KeepDest => match dest_info {
                    Some(d) => {
                        out.push(
                            SyncAction::Copy {
                                source_path: path.clone(),
                                dest_path: path,
                                size: d.size,
                                reverse: true,
                            },
                        );
                    },
                    None => {
                        out.push(SyncAction::Delete { path, from_dest: false });
                    },
                },
                ConflictResolution::KeepBoth => match (source_info, dest_info) {
                    (Some(s), Some(d)) => {
                        out.push(
                            SyncAction::Copy {
                                source_path: String::from_str(kept_name),
                                dest_path: path.clone(),
                                size: d.size,
                                reverse: true,
                            },
                        );
                        out.push(
                            SyncAction::Copy {
                                source_path: path.clone(),
                                dest_path: path,
                                size: s.size,
                                reverse: false,
                            },
                        );
                    },
                    (Some(s), None) => {
                        out.push(
                            SyncAction::Copy {
                                source_path: path.clone(),
                                dest_path: path,
                                size: s.size,
                                reverse: false,
                            },
                        );
                    },
                    (None, Some(d)) => {
                        out.push(
                            SyncAction::Copy {
                                source_path: path.clone(),
                                dest_path: path,
                                size: d.size,
                                reverse: true,
                            },
                        );
                    },
                    (None, None) => {
                        out.push(SyncAction::Skip { path });
                    },
                },
            }
        },
        other => {
            out.push(other);
        },
    }
    assert(crate::comparator::action_views(out@) =~= match before {
        SyncActionView::Conflict { path, source_info, dest_info, .. } => resolved_actions(
            path,
            source_info,
            dest_info,
            choice,
            kept_name@,
        ),
        other => seq![other],
    });
    out
}

impl ConflictRecord {
    /// The record of a stored row; the store keeps no sizes.
    pub fn from_columns(
        id: i64,
        job_id: String,
        file_path: String,
        conflict_type: String,
        resolution: Option<String>,
        source_time: Option<i64>,
        dest_time: Option<i64>,
        created_at: i64,
    ) -> (r: ConflictRecord)
        ensures
            r.id == id,
            r.job_id == job_id,
            r.file_path == file_path,
            r.conflict_type == conflict_type,
            r.resolution == resolution,
            r.source_size is None,
            r.source_time == source_time,
            r.dest_size is None,
            r.dest_time == dest_time,
            r.created_at == created_at,
    {
        ConflictRecord {
            id,
            job_id,
            file_path,
            conflict_type,
            resolution,
            source_size: None,
            source_time,
            dest_size: None,
            dest_time,
            created_at,
        }
    }

    /// Whether the conflict still waits for a choice.
    pub fn is_pending(&self) -> (b: bool)
        ensures
            b == (self.resolution is None),
    {
        self.resolution.is_none()
    }
}

/// What the registry records of a conflict that has no choice: its path,
/// the name of its type, and the times of the two versions.
pub fn conflict_to_record(action: &SyncAction) -> (r: Option<(String, String, Option<i64>, Option<i64>)>)
    ensures
        match r {
            Some((path, kind, source_time, dest_time)) => action@ matches SyncActionView::Conflict {
                path: p,
                source_info,
                dest_info,
                conflict_type,
            } && path@ == p && kind@ == conflict_type_name(conflict_type) && source_time == match source_info {
                Some(s) => Some(s.modified_time),
                None => None,
            } && dest_time == match dest_info {
                Some(d) => Some(d.modified_time),
                None => None,
            },
            None => !(action@ is Conflict),
        },
{
    match action {
        SyncAction::Conflict { path, source_info, dest_info, conflict_type } => Some(
            (
                path.clone(),
                conflict_type_text(*conflict_type),
                match source_info {
                    Some(s) => Some(s.modified_time),
                    None => None,
                },
                match dest_info {
                    Some(d) => Some(d.modified_time),
                    None => None,
                },
            ),
        ),
        _ => None,
    }
}

} // verus!
