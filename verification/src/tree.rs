//! The scanned file tree: at most one entry per path, kept in path order.

use vstd::prelude::*;
use crate::storage::FileInfo;
use crate::storage::FileInfoView;
use crate::table::Keyed;
use crate::table::PathTable;
use crate::table::sorted_by_key;
use crate::table::has_key;
use crate::table::lookup_key;
use crate::table::stored_key;
use crate::table::lemma_lookup_key_at;
use crate::table::lemma_lookup_key_gap;
use crate::text::path_lt;

verus! {

impl Keyed for FileInfo {
    open spec fn key_of(v: FileInfoView) -> Seq<char> {
        v.path
    }

    fn key(&self) -> (k: &str) {
        self.path.as_str()
    }

    fn duplicate(&self) -> (r: FileInfo) {
        FileInfo::duplicate(self)
    }
}

/// A set of files keyed by path.
pub type FileTree = PathTable<FileInfo>;

/// Entries in strictly increasing path order; no path occurs twice.
pub open spec fn sorted_by_path(s: Seq<FileInfoView>) -> bool {
    sorted_by_key::<FileInfo>(s)
}

/// Some entry of `s` has path `p`.
pub open spec fn has_path(s: Seq<FileInfoView>, p: Seq<char>) -> bool {
    has_key::<FileInfo>(s, p)
}

/// The entry of `s` stored under path `p`, if there is one.
pub open spec fn lookup(s: Seq<FileInfoView>, p: Seq<char>) -> Option<FileInfoView> {
    lookup_key::<FileInfo>(s, p)
}

/// What a tree holds after `items` were stored into `base` one after the
/// other, each under its own path: a later item replaces an earlier one.
pub open spec fn stored(base: Seq<FileInfoView>, items: Seq<FileInfoView>, p: Seq<char>) -> Option<
    FileInfoView,
> {
    stored_key::<FileInfo>(base, items, p)
}

/// In a sorted tree every entry is the one found under its own path.
pub proof fn lemma_lookup_at(s: Seq<FileInfoView>, i: int)
    requires
        sorted_by_path(s),
        0 <= i < s.len(),
    ensures
        has_path(s, s[i].path),
        lookup(s, s[i].path) == Some(s[i]),
{
    lemma_lookup_key_at::<FileInfo>(s, i);
}

/// A path that sorts strictly between two neighbours is not in the tree.
pub proof fn lemma_lookup_gap(s: Seq<FileInfoView>, k: int, p: Seq<char>)
    requires
        sorted_by_path(s),
        0 <= k <= s.len(),
        forall|i: int| 0 <= i < k ==> path_lt((#[trigger] s[i]).path, p),
        forall|i: int| k <= i < s.len() ==> path_lt(p, (#[trigger] s[i]).path),
    ensures
        !has_path(s, p),
        lookup(s, p) is None,
{
    lemma_lookup_key_gap::<FileInfo>(s, k, p);
}

} // verus!
