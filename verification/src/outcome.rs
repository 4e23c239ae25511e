//! What holds of whole runs: what the books show after a run in which
//! nothing failed, what the plan for an empty destination is, and how the
//! slices of a streamed file add up.

use vstd::prelude::*;
use vstd::seq_lib::commutative_foldl;
use vstd::seq_lib::lemma_fold_left_permutation;
use vstd::seq_lib::to_multiset_len;
use crate::comparator::bytes_kind;
use crate::comparator::bytes_moved;
use crate::comparator::count_kind;
use crate::comparator::action_before;
use crate::comparator::action_path;
use crate::comparator::forward_copy;
use crate::comparator::is_plan;
use crate::comparator::law_plan_is_unique;
use crate::comparator::planned_in;
use crate::comparator::ActionKind;
use crate::comparator::CompareConfig;
use crate::comparator::SyncActionView;
use crate::engine::copied_bytes;
use crate::engine::copied_count;
use crate::engine::deleted_count;
use crate::engine::done_count;
use crate::engine::errors_in;
use crate::engine::executable;
use crate::engine::failed_count;
use crate::engine::final_status;
use crate::engine::slice_at;
use crate::engine::wrap64;
use crate::engine::RunTally;
use crate::engine::Settled;
use crate::models::SyncMode;
use crate::models::SyncStatus;
use crate::storage::FileInfoView;
use crate::text::path_lt;
use crate::tree::has_path;
use crate::tree::lemma_lookup_at;
use crate::tree::lookup;
use crate::tree::sorted_by_path;

verus! {

/// The actions that were settled, in the order in which they were settled.
pub open spec fn settled_actions(log: Seq<Settled>) -> Seq<SyncActionView> {
    log.map_values(|s: Settled| s.action)
}

/// A run of the plan `actions` in which nothing failed: each action of the
/// plan but the skips was settled once, in whatever order, and each with
/// success.
pub open spec fn faultless(log: Seq<Settled>, actions: Seq<SyncActionView>) -> bool {
    &&& settled_actions(log).to_multiset() == executable(actions).to_multiset()
    &&& forall|i: int| 0 <= i < log.len() ==> (#[trigger] log[i]).outcome is Ok
}

/// What is added up over a list of actions.
pub enum Measure {
    /// One for each copy, in either direction.
    Copies,
    /// One for each deletion.
    Deletions,
    /// The size of each copy.
    Bytes,
}

/// What one action adds to a measure.
pub open spec fn measure_of(m: Measure, a: SyncActionView) -> nat {
    match m {
        Measure::Copies => if a is Copy {
            1
        } else {
            0
        },
        Measure::Deletions => if a is Delete {
            1
        } else {
            0
        },
        Measure::Bytes => bytes_moved(a),
    }
}

/// A measure added up over a list of actions.
pub open spec fn measured(m: Measure, s: Seq<SyncActionView>) -> nat
    decreases s.len(),
{
    if s.len() == 0 {
        0
    } else {
        measured(m, s.drop_last()) + measure_of(m, s.last())
    }
}

spec fn adding(m: Measure) -> spec_fn(nat, SyncActionView) -> nat {
    |n: nat, a: SyncActionView| n + measure_of(m, a)
}

proof fn lemma_measured_is_a_fold(m: Measure, s: Seq<SyncActionView>)
    ensures
        measured(m, s) == s.fold_left(0nat, adding(m)),
    decreases s.len(),
{
    if s.len() > 0 {
        lemma_measured_is_a_fold(m, s.drop_last());
    }
}

/// A measure does not depend on the order of the actions.
pub proof fn lemma_measured_in_any_order(m: Measure, a: Seq<SyncActionView>, b: Seq<SyncActionView>)
    requires
        a.to_multiset() == b.to_multiset(),
    ensures
        measured(m, a) == measured(m, b),
{
    lemma_measured_is_a_fold(m, a);
    lemma_measured_is_a_fold(m, b);
    assert(commutative_foldl(adding(m)));
    lemma_fold_left_permutation(a, b, adding(m), 0nat);
}

proof fn lemma_measured_without_skips(m: Measure, s: Seq<SyncActionView>)
    ensures
        measured(m, executable(s)) == measured(m, s),
        executable(s).len() == s.len() - count_kind(s, ActionKind::Skip),
    decreases s.len(),
{
    reveal(Seq::filter);
    if s.len() > 0 {
        lemma_measured_without_skips(m, s.drop_last());
        let rest = executable(s.drop_last());
        if !(s.last() is Skip) {
            assert(executable(s) == rest.push(s.last()));
            assert(rest.push(s.last()).drop_last() =~= rest);
        } else {
            assert(executable(s) == rest);
        }
    }
}

proof fn lemma_measured_by_kind(s: Seq<SyncActionView>)
    ensures
        measured(Measure::Copies, s) == count_kind(s, ActionKind::Copy) + count_kind(
            s,
            ActionKind::ReverseCopy,
        ),
        measured(Measure::Deletions, s) == count_kind(s, ActionKind::Delete),
        measured(Measure::Bytes, s) == bytes_kind(s, ActionKind::Copy) + bytes_kind(
            s,
            ActionKind::ReverseCopy,
        ),
    decreases s.len(),
{
    if s.len() > 0 {
        lemma_measured_by_kind(s.drop_last());
    }
}

proof fn lemma_measured_of_successes(log: Seq<Settled>)
    requires
        forall|i: int| 0 <= i < log.len() ==> (#[trigger] log[i]).outcome is Ok,
    ensures
        failed_count(log) == 0,
        errors_in(log).len() == 0,
        done_count(log) == log.len(),
        copied_count(log) == measured(Measure::Copies, settled_actions(log)),
        deleted_count(log) == measured(Measure::Deletions, settled_actions(log)),
        copied_bytes(log) == measured(Measure::Bytes, settled_actions(log)),
    decreases log.len(),
{
    if log.len() > 0 {
        let rest = log.drop_last();
        assert forall|i: int| 0 <= i < rest.len() implies (#[trigger] rest[i]).outcome is Ok by {
            assert(rest[i] == log[i]);
        }
        lemma_measured_of_successes(rest);
        assert(log.last() == log[log.len() - 1]);
        assert(settled_actions(log).drop_last() =~= settled_actions(rest));
        assert(settled_actions(log).last() == log.last().action);
    }
}

/// After a run in which nothing failed, the books show the plan: as many
/// copies as the plan holds in both directions, as many deletions as it
/// holds, the sizes of its copies as the bytes, no failure and no error;
/// and as many actions were settled as the plan holds besides its skips.
pub proof fn law_faultless_run_shows_the_plan(log: Seq<Settled>, actions: Seq<SyncActionView>)
    requires
        faultless(log, actions),
    ensures
        failed_count(log) == 0,
        errors_in(log).len() == 0,
        done_count(log) == log.len(),
        log.len() == actions.len() - count_kind(actions, ActionKind::Skip),
        copied_count(log) == count_kind(actions, ActionKind::Copy) + count_kind(
            actions,
            ActionKind::ReverseCopy,
        ),
        deleted_count(log) == count_kind(actions, ActionKind::Delete),
        copied_bytes(log) == bytes_kind(actions, ActionKind::Copy) + bytes_kind(
            actions,
            ActionKind::ReverseCopy,
        ),
{
    let settled = settled_actions(log);
    let pending = executable(actions);
    lemma_measured_of_successes(log);
    lemma_measured_in_any_order(Measure::Copies, settled, pending);
    lemma_measured_in_any_order(Measure::Deletions, settled, pending);
    lemma_measured_in_any_order(Measure::Bytes, settled, pending);
    lemma_measured_without_skips(Measure::Copies, actions);
    lemma_measured_without_skips(Measure::Deletions, actions);
    lemma_measured_without_skips(Measure::Bytes, actions);
    lemma_measured_by_kind(actions);
    to_multiset_len(settled);
    to_multiset_len(pending);
}

/// The books of a run in which nothing failed and which was not
/// cancelled end in `Completed`, with the counters of the plan.
pub proof fn law_faultless_run_is_completed(tally: RunTally, actions: Seq<SyncActionView>)
    requires
        tally.wf(),
        faultless(tally.log(), actions),
    ensures
        final_status(tally.failed(), false) == SyncStatus::Completed,
        tally.failed() == 0,
        tally.errors().len() == 0,
        tally.copied() == wrap64(
            (count_kind(actions, ActionKind::Copy) + count_kind(actions, ActionKind::ReverseCopy)) as int,
        ),
        tally.deleted() == wrap64(count_kind(actions, ActionKind::Delete) as int),
        tally.bytes() == wrap64(
            (bytes_kind(actions, ActionKind::Copy) + bytes_kind(actions, ActionKind::ReverseCopy)) as int,
        ),
{
    law_faultless_run_shows_the_plan(tally.log(), actions);
}

/// The files of a listing: its entries without the directories.
pub open spec fn files_of(s: Seq<FileInfoView>) -> Seq<FileInfoView> {
    s.filter(|f: FileInfoView| !f.is_dir)
}

/// A forward copy of each file of a listing, in the order of the listing.
pub open spec fn copies_of(s: Seq<FileInfoView>) -> Seq<SyncActionView> {
    files_of(s).map_values(|f: FileInfoView| forward_copy(f.path, f.size))
}

/// The sizes of the entries of a listing, added up.
pub open spec fn total_size(s: Seq<FileInfoView>) -> nat
    decreases s.len(),
{
    if s.len() == 0 {
        0
    } else {
        total_size(s.drop_last()) + s.last().size as nat
    }
}

proof fn lemma_files_of(s: Seq<FileInfoView>)
    requires
        sorted_by_path(s),
    ensures
        sorted_by_path(files_of(s)),
        forall|i: int|
            0 <= i < files_of(s).len() ==> !(#[trigger] files_of(s)[i]).is_dir && s.contains(
                files_of(s)[i],
            ),
        forall|k: int| 0 <= k < s.len() && !(#[trigger] s[k]).is_dir ==> files_of(s).contains(s[k]),
    decreases s.len(),
{
    reveal(Seq::filter);
    if s.len() > 0 {
        let rest = s.drop_last();
        let last = s.last();
        assert forall|i: int, j: int| #![trigger rest[i], rest[j]] 0 <= i < j < rest.len() implies path_lt(
            rest[i].path,
            rest[j].path,
        ) by {
            assert(rest[i] == s[i] && rest[j] == s[j]);
        }
        lemma_files_of(rest);
        let inner = files_of(rest);
        let all = files_of(s);
        if !last.is_dir {
            assert(all == inner.push(last));
        } else {
            assert(all == inner);
        }
        assert forall|i: int| 0 <= i < all.len() implies !(#[trigger] all[i]).is_dir && s.contains(
            all[i],
        ) by {
            if i < inner.len() {
                assert(all[i] == inner[i]);
                assert(rest.contains(inner[i]));
                let k = choose|k: int| 0 <= k < rest.len() && rest[k] == inner[i];
                assert(s[k] == all[i]);
            } else {
                assert(all[i] == s[s.len() - 1]);
            }
        }
        assert forall|k: int| 0 <= k < s.len() && !(#[trigger] s[k]).is_dir implies all.contains(
            s[k],
        ) by {
            if k < rest.len() {
                assert(rest[k] == s[k]);
                assert(inner.contains(rest[k]));
                let i = choose|i: int| 0 <= i < inner.len() && inner[i] == rest[k];
                assert(all[i] == s[k]);
            } else {
                assert(all[all.len() - 1] == s[k]);
            }
        }
        assert forall|i: int, j: int| #![trigger all[i], all[j]] 0 <= i < j < all.len() implies path_lt(
            all[i].path,
            all[j].path,
        ) by {
            if j < inner.len() {
                assert(all[i] == inner[i] && all[j] == inner[j]);
            } else {
                assert(all[i] == inner[i]);
                assert(rest.contains(inner[i]));
                let k = choose|k: int| 0 <= k < rest.len() && rest[k] == inner[i];
                assert(s[k] == all[i]);
                assert(all[j] == s[s.len() - 1]);
            }
        }
    }
}

proof fn lemma_copies_are_counted(files: Seq<FileInfoView>)
    ensures
        ({
            let copies = files.map_values(|f: FileInfoView| forward_copy(f.path, f.size));
            &&& count_kind(copies, ActionKind::Copy) == files.len()
            &&& count_kind(copies, ActionKind::ReverseCopy) == 0
            &&& count_kind(copies, ActionKind::Delete) == 0
            &&& count_kind(copies, ActionKind::Skip) == 0
            &&& count_kind(copies, ActionKind::Conflict) == 0
            &&& bytes_kind(copies, ActionKind::Copy) == total_size(files)
            &&& bytes_kind(copies, ActionKind::ReverseCopy) == 0
        }),
    decreases files.len(),
{
    let to_copy = |f: FileInfoView| forward_copy(f.path, f.size);
    let copies = files.map_values(to_copy);
    if files.len() > 0 {
        lemma_copies_are_counted(files.drop_last());
        assert(copies.drop_last() =~= files.drop_last().map_values(to_copy));
        assert(copies.last() == forward_copy(files.last().path, files.last().size));
    }
}

/// The plan for a destination that holds nothing is the list of the
/// source's files, each to be copied over with its size, in the order of
/// their paths: as many copies as the source has files, moving as many
/// bytes as the files have together, and no other action.
pub proof fn law_plan_for_an_empty_destination(
    actions: Seq<SyncActionView>,
    cfg: CompareConfig,
    mode: SyncMode,
    source: Seq<FileInfoView>,
    dest: Seq<FileInfoView>,
)
    requires
        is_plan(actions, cfg, mode, source, dest),
        sorted_by_path(source),
        dest.len() == 0,
    ensures
        actions == copies_of(source),
        actions.len() == files_of(source).len(),
        count_kind(actions, ActionKind::Copy) == files_of(source).len(),
        bytes_kind(actions, ActionKind::Copy) == total_size(files_of(source)),
        count_kind(actions, ActionKind::ReverseCopy) == 0,
        count_kind(actions, ActionKind::Delete) == 0,
        count_kind(actions, ActionKind::Skip) == 0,
        count_kind(actions, ActionKind::Conflict) == 0,
{
    let files = files_of(source);
    let copies = copies_of(source);
    lemma_files_of(source);
    assert forall|i: int, j: int| #![trigger copies[i], copies[j]] 0 <= i < j < copies.len() implies action_before(
        copies[i],
        copies[j],
    ) by {
        assert(path_lt(files[i].path, files[j].path));
    }
    assert forall|i: int| 0 <= i < copies.len() implies planned_in(
        cfg,
        mode,
        source,
        dest,
        action_path(#[trigger] copies[i]),
    ) == Some(copies[i]) by {
        let f = files[i];
        assert(source.contains(f));
        let k = choose|k: int| 0 <= k < source.len() && source[k] == f;
        lemma_lookup_at(source, k);
        assert(lookup(dest, f.path) is None);
    }
    assert forall|p: Seq<char>|
        (#[trigger] planned_in(cfg, mode, source, dest, p)) is Some implies copies.contains(
        planned_in(cfg, mode, source, dest, p)->0,
    ) by {
        assert(lookup(dest, p) is None);
        assert(lookup(source, p) is Some);
        let f = lookup(source, p)->0;
        assert(has_path(source, p));
        let k = choose|k: int| 0 <= k < source.len() && (#[trigger] source[k]).path == p;
        lemma_lookup_at(source, k);
        assert(source[k] == f);
        assert(files.contains(source[k]));
        let i = choose|i: int| 0 <= i < files.len() && files[i] == f;
        assert(copies[i] == forward_copy(p, f.size));
    }
    assert(is_plan(copies, cfg, mode, source, dest));
    law_plan_is_unique(actions, copies, cfg, mode, source, dest);
    lemma_copies_are_counted(files);
}

/// The slices that are still to be read of a streamed file of `total`
/// bytes when `offset` bytes have been read, each slice as long as
/// `slice_at` says.
pub open spec fn slices_left(total: u64, offset: u64, chunk_size: u64) -> nat
    decreases total - offset,
{
    if offset >= total || chunk_size == 0 {
        0
    } else {
        1 + slices_left(total, (offset + slice_at(total, offset, chunk_size)) as u64, chunk_size)
    }
}

/// A streamed file is read whole in slices that are not empty: each slice
/// moves the offset forward and stays inside the file, and the slices left
/// at an offset are as many as are needed for the rest of the file and no
/// more, that is the rest divided by the slice size, rounded up.
pub proof fn law_slices_cover_the_file(total: u64, offset: u64, chunk_size: u64)
    requires
        offset <= total,
        chunk_size > 0,
    ensures
        offset < total ==> 0 < slice_at(total, offset, chunk_size) <= chunk_size && offset + slice_at(
            total,
            offset,
            chunk_size,
        ) <= total,
        slices_left(total, offset, chunk_size) * chunk_size >= total - offset,
        offset < total ==> (slices_left(total, offset, chunk_size) - 1) * chunk_size < total - offset,
        offset == total <==> slices_left(total, offset, chunk_size) == 0,
    decreases total - offset,
{
    if offset < total {
        let len = slice_at(total, offset, chunk_size);
        let next = (offset + len) as u64;
        law_slices_cover_the_file(total, next, chunk_size);
        let n = slices_left(total, next, chunk_size);
        assert(slices_left(total, offset, chunk_size) == 1 + n);
        assert((1 + n) * chunk_size == chunk_size + n * chunk_size) by (nonlinear_arith);
        assert((1 + n - 1) * chunk_size == n * chunk_size) by (nonlinear_arith);
        if next < total {
            assert((n - 1) * chunk_size == n * chunk_size - chunk_size) by (nonlinear_arith);
        } else {
            assert(n == 0);
            assert(n * chunk_size == 0) by (nonlinear_arith)
                requires
                    n == 0,
            ;
        }
    } else {
        assert(slices_left(total, offset, chunk_size) * chunk_size == 0) by (nonlinear_arith)
            requires
                slices_left(total, offset, chunk_size) == 0,
        ;
    }
}

} // verus!
