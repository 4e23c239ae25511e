//! Tables keyed by path: at most one item per key, kept in key order.

use vstd::prelude::*;
use crate::text::path_lt;
use crate::text::compare_paths;
use crate::text::PathOrder;
use crate::text::lemma_path_lt_strict_total;

verus! {

/// A record that is filed under a path.
pub trait Keyed: View + Sized {
    /// The key that a value is filed under.
    spec fn key_of(v: Self::V) -> Seq<char>;

    /// The key of this record.
    fn key(&self) -> (k: &str)
        ensures
            k@ == Self::key_of(self@),
    ;

    /// A copy of this record.
    fn duplicate(&self) -> (r: Self)
        ensures
            r@ == self@,
    ;
}

/// Items in strictly increasing key order; no key occurs twice.
pub open spec fn sorted_by_key<T: Keyed>(s: Seq<T::V>) -> bool {
    forall|i: int, j: int|
        #![trigger s[i], s[j]]
        0 <= i < j < s.len() ==> path_lt(T::key_of(s[i]), T::key_of(s[j]))
}

/// Some item of `s` has key `p`.
pub open spec fn has_key<T: Keyed>(s: Seq<T::V>, p: Seq<char>) -> bool {
    exists|i: int| 0 <= i < s.len() && T::key_of(#[trigger] s[i]) == p
}

/// The item of `s` filed under `p`, if there is one.
pub open spec fn lookup_key<T: Keyed>(s: Seq<T::V>, p: Seq<char>) -> Option<T::V> {
    if has_key::<T>(s, p) {
        Some(s[choose|i: int| 0 <= i < s.len() && T::key_of(#[trigger] s[i]) == p])
    } else {
        None
    }
}

/// What a table holds after `items` were filed into `base` one after the
/// other, each under its own key: a later item replaces an earlier one.
pub open spec fn stored_key<T: Keyed>(base: Seq<T::V>, items: Seq<T::V>, p: Seq<char>) -> Option<
    T::V,
>
    decreases items.len(),
{
    if items.len() == 0 {
        lookup_key::<T>(base, p)
    } else if T::key_of(items.last()) == p {
        Some(items.last())
    } else {
        stored_key::<T>(base, items.drop_last(), p)
    }
}

/// In a sorted table every item is the one found under its own key.
pub proof fn lemma_lookup_key_at<T: Keyed>(s: Seq<T::V>, i: int)
    requires
        sorted_by_key::<T>(s),
        0 <= i < s.len(),
    ensures
        has_key::<T>(s, T::key_of(s[i])),
        lookup_key::<T>(s, T::key_of(s[i])) == Some(s[i]),
{
    let p = T::key_of(s[i]);
    assert(has_key::<T>(s, p));
    let j = choose|j: int| 0 <= j < s.len() && T::key_of(#[trigger] s[j]) == p;
    lemma_path_lt_strict_total(p, p, p);
    if j < i {
        assert(path_lt(T::key_of(s[j]), T::key_of(s[i])));
    } else if i < j {
        assert(path_lt(T::key_of(s[i]), T::key_of(s[j])));
    }
}

/// A key that sorts strictly between two neighbours is not in the table.
pub proof fn lemma_lookup_key_gap<T: Keyed>(s: Seq<T::V>, k: int, p: Seq<char>)
    requires
        sorted_by_key::<T>(s),
        0 <= k <= s.len(),
        forall|i: int| 0 <= i < k ==> path_lt(T::key_of(#[trigger] s[i]), p),
        forall|i: int| k <= i < s.len() ==> path_lt(p, T::key_of(#[trigger] s[i])),
    ensures
        !has_key::<T>(s, p),
        lookup_key::<T>(s, p) is None,
{
    lemma_path_lt_strict_total(p, p, p);
    if has_key::<T>(s, p) {
        let j = choose|j: int| 0 <= j < s.len() && T::key_of(#[trigger] s[j]) == p;
        if j < k {
            assert(path_lt(T::key_of(s[j]), p));
        } else {
            assert(path_lt(p, T::key_of(s[j])));
        }
    }
}

/// A set of records, one per key.
#[derive(Debug)]
pub struct PathTable<T: Keyed> {
    items: Vec<T>,
}

impl<T: Keyed> View for PathTable<T> {
    type V = Seq<T::V>;

    closed spec fn view(&self) -> Seq<T::V> {
        Seq::new(self.items@.len(), |i: int| self.items@[i]@)
    }
}

impl<T: Keyed> PathTable<T> {
    #[verifier::type_invariant]
    closed spec fn well_formed(self) -> bool {
        sorted_by_key::<T>(self@)
    }

    /// The empty table.
    pub fn new() -> (r: PathTable<T>)
        ensures
            r@ == Seq::<T::V>::empty(),
    {
        let r = PathTable::<T> { items: Vec::new() };
        assert(r@ =~= Seq::<T::V>::empty());
        r
    }

    /// Number of entries.
    pub fn len(&self) -> (n: usize)
        ensures
            n == self@.len(),
            sorted_by_key::<T>(self@),
    {
        proof {
            use_type_invariant(self);
        }
        self.items.len()
    }

    /// Whether the table holds no item.
    pub fn is_empty(&self) -> (b: bool)
        ensures
            b == (self@.len() == 0),
    {
        self.items.len() == 0
    }

    /// A copy of the table.
    pub fn duplicate(&self) -> (r: PathTable<T>)
        ensures
            r@ == self@,
    {
        proof {
            use_type_invariant(self);
        }
        let mut items: Vec<T> = Vec::new();
        let mut i: usize = 0;
        while i < self.items.len()
            invariant
                i <= self.items@.len(),
                items@.len() == i,
                forall|k: int| 0 <= k < i ==> (#[trigger] items@[k])@ == self.items@[k]@,
            decreases self.items@.len() - i,
        {
            items.push(self.items[i].duplicate());
            i = i + 1;
        }
        assert(Seq::new(items@.len(), |k: int| items@[k]@) =~= self@);
        PathTable { items }
    }

    /// The items in key order.
    pub fn entries(&self) -> (r: &Vec<T>)
        ensures
            r@.len() == self@.len(),
            forall|i: int| 0 <= i < r@.len() ==> (#[trigger] r@[i])@ == self@[i],
            sorted_by_key::<T>(self@),
    {
        proof {
            use_type_invariant(self);
        }
        &self.items
    }

    /// The items in key order, taken out of the table.
    pub fn into_entries(self) -> (r: Vec<T>)
        ensures
            r@.len() == self@.len(),
            forall|i: int| 0 <= i < r@.len() ==> (#[trigger] r@[i])@ == self@[i],
            sorted_by_key::<T>(self@),
    {
        proof {
            use_type_invariant(&self);
        }
        self.items
    }

    /// The `i`-th item in key order.
    pub fn entry(&self, i: usize) -> (r: &T)
        requires
            i < self@.len(),
        ensures
            r@ == self@[i as int],
    {
        &self.items[i]
    }

    /// Where `key` stands, or would stand, in key order.
    fn search(&self, key: &str) -> (r: (usize, bool))
        ensures
            sorted_by_key::<T>(self@),
            r.0 <= self@.len(),
            r.1 ==> r.0 < self@.len() && T::key_of(self@[r.0 as int]) == key@,
            !r.1 ==> forall|i: int| 0 <= i < r.0 ==> path_lt(T::key_of(#[trigger] self@[i]), key@),
            !r.1 ==> forall|i: int|
                r.0 <= i < self@.len() ==> path_lt(key@, T::key_of(#[trigger] self@[i])),
    {
        proof {
            use_type_invariant(self);
        }
        let mut lo: usize = 0;
        let mut hi: usize = self.items.len();
        while lo < hi
            invariant
                sorted_by_key::<T>(self@),
                self@.len() == self.items@.len(),
                lo <= hi <= self.items@.len(),
                forall|i: int| 0 <= i < lo ==> path_lt(T::key_of(#[trigger] self@[i]), key@),
                forall|i: int| hi <= i < self@.len() ==> path_lt(key@, T::key_of(#[trigger] self@[i])),
            decreases hi - lo,
        {
            let mid = lo + (hi - lo) / 2;
            let probe = &self.items[mid];
            assert(probe@ == self@[mid as int]);
            match compare_paths(probe.key(), key) {
                PathOrder::Same => {
                    return (mid, true);
                },
                PathOrder::Before => {
                    assert forall|i: int| 0 <= i < mid + 1 implies path_lt(
                        T::key_of(#[trigger] self@[i]),
                        key@,
                    ) by {
                        if i < mid {
                            assert(path_lt(T::key_of(self@[i]), T::key_of(self@[mid as int])));
                            lemma_path_lt_strict_total(T::key_of(self@[i]), T::key_of(self@[mid as int]), key@);
                        }
                    }
                    lo = mid + 1;
                },
                PathOrder::After => {
                    assert forall|i: int| mid <= i < self@.len() implies path_lt(
                        key@,
                        T::key_of(#[trigger] self@[i]),
                    ) by {
                        if mid < i {
                            assert(path_lt(T::key_of(self@[mid as int]), T::key_of(self@[i])));
                            lemma_path_lt_strict_total(key@, T::key_of(self@[mid as int]), T::key_of(self@[i]));
                        }
                    }
                    hi = mid;
                },
            }
        }
        (lo, false)
    }

    /// The item filed under `key`.
    pub fn get(&self, key: &str) -> (r: Option<&T>)
        ensures
            match r {
                Some(f) => lookup_key::<T>(self@, key@) == Some(f@),
                None => lookup_key::<T>(self@, key@) is None,
            },
    {
        let (k, found) = self.search(key);
        if found {
            proof {
                lemma_lookup_key_at::<T>(self@, k as int);
            }
            Some(&self.items[k])
        } else {
            proof {
                lemma_lookup_key_gap::<T>(self@, k as int, key@);
            }
            None
        }
    }

    /// Whether an item is filed under `key`.
    pub fn contains_key(&self, key: &str) -> (b: bool)
        ensures
            b == has_key::<T>(self@, key@),
    {
        self.get(key).is_some()
    }

    /// Files `item` under its own key, replacing what was there.
    pub fn insert(&mut self, item: T)
        ensures
            sorted_by_key::<T>(final(self)@),
            forall|p: Seq<char>|
                lookup_key::<T>(final(self)@, p) == if p == T::key_of(item@) {
                    Some(item@)
                } else {
                    lookup_key::<T>(old(self)@, p)
                },
            final(self)@.len() == if has_key::<T>(old(self)@, T::key_of(item@)) {
                old(self)@.len()
            } else {
                old(self)@.len() + 1
            },
    {
        let (k, found) = self.search(item.key());
        let ghost before = self@;
        let ghost added = item@;
        let mut items: Vec<T> = Vec::new();
        std::mem::swap(&mut self.items, &mut items);
        assert(self@ =~= Seq::<T::V>::empty());
        assert(Seq::new(items@.len(), |i: int| items@[i]@) =~= before);
        if found {
            items.set(k, item);
        } else {
            items.insert(k, item);
        }
        let ghost after = Seq::new(items@.len(), |i: int| items@[i]@);
        proof {
            if found {
                lemma_lookup_key_at::<T>(before, k as int);
                assert(after =~= before.update(k as int, added));
                assert forall|i: int, j: int|
                    #![trigger after[i], after[j]]
                    0 <= i < j < after.len() implies path_lt(T::key_of(after[i]), T::key_of(after[j])) by {
                    assert(path_lt(T::key_of(before[i]), T::key_of(before[j])));
                }
                assert forall|p: Seq<char>|
                    lookup_key::<T>(after, p) == if p == T::key_of(added) {
                        Some(added)
                    } else {
                        lookup_key::<T>(before, p)
                    } by {
                    lemma_insert_lookup_replace::<T>(before, after, k as int, added, p);
                }
            } else {
                lemma_lookup_key_gap::<T>(before, k as int, T::key_of(added));
                assert(after =~= before.insert(k as int, added));
                assert forall|i: int, j: int|
                    #![trigger after[i], after[j]]
                    0 <= i < j < after.len() implies path_lt(T::key_of(after[i]), T::key_of(after[j])) by {
                    let bi = if i < k { i } else { i - 1 };
                    let bj = if j < k { j } else { j - 1 };
                    if i == k {
                        assert(after[j] == before[bj]);
                    } else if j == k {
                        assert(after[i] == before[bi]);
                    } else {
                        assert(after[i] == before[bi]);
                        assert(after[j] == before[bj]);
                        assert(path_lt(T::key_of(before[bi]), T::key_of(before[bj])));
                    }
                }
                assert forall|p: Seq<char>|
                    lookup_key::<T>(after, p) == if p == T::key_of(added) {
                        Some(added)
                    } else {
                        lookup_key::<T>(before, p)
                    } by {
                    lemma_insert_lookup_fresh::<T>(before, after, k as int, added, p);
                }
            }
        }
        std::mem::swap(&mut self.items, &mut items);
        assert(self@ =~= after);
    }

    /// Files every item of `items` under its own key, one after the other;
    /// a later item replaces an earlier one with the same key.
    pub fn extend(&mut self, items: Vec<T>)
        ensures
            sorted_by_key::<T>(final(self)@),
            forall|p: Seq<char>|
                lookup_key::<T>(final(self)@, p) == stored_key::<T>(
                    old(self)@,
                    items@.map_values(|f: T| f@),
                    p,
                ),
    {
        proof {
            use_type_invariant(&*self);
        }
        let ghost raw = items@;
        let ghost views = items@.map_values(|f: T| f@);
        let ghost base = self@;
        assert(views.subrange(0, 0) =~= Seq::<T::V>::empty());
        for item in it: items
            invariant
                it.seq() == raw,
                views == raw.map_values(|f: T| f@),
                sorted_by_key::<T>(self@),
                forall|p: Seq<char>|
                    lookup_key::<T>(self@, p) == stored_key::<T>(
                        base,
                        views.subrange(0, it.index() as int),
                        p,
                    ),
        {
            proof {
                let grown = views.subrange(0, it.index() + 1);
                assert(grown.last() == item@);
                assert(grown.drop_last() =~= views.subrange(0, it.index() as int));
            }
            self.insert(item);
        }
        proof {
            assert(views.subrange(0, views.len() as int) =~= views);
        }
    }

    /// The table that holds every item of `listing` under its own key; where
    /// two items share a key the later one stays.
    pub fn from_listing(listing: Vec<T>) -> (r: PathTable<T>)
        ensures
            sorted_by_key::<T>(r@),
            forall|p: Seq<char>|
                lookup_key::<T>(r@, p) == stored_key::<T>(
                    Seq::<T::V>::empty(),
                    listing@.map_values(|f: T| f@),
                    p,
                ),
    {
        let mut table = PathTable::<T>::new();
        table.extend(listing);
        table
    }
}

proof fn lemma_insert_lookup_replace<T: Keyed>(
    before: Seq<T::V>,
    after: Seq<T::V>,
    k: int,
    item: T::V,
    p: Seq<char>,
)
    requires
        sorted_by_key::<T>(before),
        sorted_by_key::<T>(after),
        0 <= k < before.len(),
        T::key_of(before[k]) == T::key_of(item),
        after == before.update(k, item),
    ensures
        lookup_key::<T>(after, p) == if p == T::key_of(item) {
            Some(item)
        } else {
            lookup_key::<T>(before, p)
        },
{
    if p == T::key_of(item) {
        lemma_lookup_key_at::<T>(after, k);
    } else if has_key::<T>(before, p) {
        let j = choose|j: int| 0 <= j < before.len() && T::key_of(#[trigger] before[j]) == p;
        assert(after[j] == before[j]);
        lemma_lookup_key_at::<T>(before, j);
        lemma_lookup_key_at::<T>(after, j);
    } else {
        if has_key::<T>(after, p) {
            let j = choose|j: int| 0 <= j < after.len() && T::key_of(#[trigger] after[j]) == p;
            assert(before[j] == after[j]);
            assert(false);
        }
    }
}

proof fn lemma_insert_lookup_fresh<T: Keyed>(
    before: Seq<T::V>,
    after: Seq<T::V>,
    k: int,
    item: T::V,
    p: Seq<char>,
)
    requires
        sorted_by_key::<T>(before),
        sorted_by_key::<T>(after),
        0 <= k <= before.len(),
        after == before.insert(k, item),
    ensures
        lookup_key::<T>(after, p) == if p == T::key_of(item) {
            Some(item)
        } else {
            lookup_key::<T>(before, p)
        },
{
    if p == T::key_of(item) {
        assert(after[k] == item);
        lemma_lookup_key_at::<T>(after, k);
    } else if has_key::<T>(before, p) {
        let j = choose|j: int| 0 <= j < before.len() && T::key_of(#[trigger] before[j]) == p;
        let aj = if j < k { j } else { j + 1 };
        assert(after[aj] == before[j]);
        lemma_lookup_key_at::<T>(before, j);
        lemma_lookup_key_at::<T>(after, aj);
    } else {
        if has_key::<T>(after, p) {
            let j = choose|j: int| 0 <= j < after.len() && T::key_of(#[trigger] after[j]) == p;
            let bj = if j < k { j } else { j - 1 };
            assert(j != k);
            assert(before[bj] == after[j]);
            assert(false);
        }
    }
}

/// A table is what can be found in it: two tables in key order in which
/// every key leads to the same item hold the same items in the same order.
pub proof fn law_table_is_its_lookups<T: Keyed>(a: Seq<T::V>, b: Seq<T::V>)
    requires
        sorted_by_key::<T>(a),
        sorted_by_key::<T>(b),
        forall|p: Seq<char>| lookup_key::<T>(a, p) == lookup_key::<T>(b, p),
    ensures
        a == b,
    decreases a.len(),
{
    if a.len() == 0 {
        if b.len() > 0 {
            lemma_lookup_key_at::<T>(b, 0);
            assert(lookup_key::<T>(a, T::key_of(b[0])) is None);
        }
        assert(a =~= b);
    } else {
        lemma_lookup_key_at::<T>(a, 0);
        let pa = T::key_of(a[0]);
        assert(lookup_key::<T>(b, pa) == Some(a[0]));
        assert(has_key::<T>(b, pa));
        let j = choose|j: int| 0 <= j < b.len() && T::key_of(#[trigger] b[j]) == pa;
        lemma_lookup_key_at::<T>(b, j);
        lemma_lookup_key_at::<T>(b, 0);
        let pb = T::key_of(b[0]);
        assert(lookup_key::<T>(a, pb) == Some(b[0]));
        assert(has_key::<T>(a, pb));
        let i = choose|i: int| 0 <= i < a.len() && T::key_of(#[trigger] a[i]) == pb;
        lemma_lookup_key_at::<T>(a, i);
        lemma_path_lt_strict_total(pa, pb, pa);
        if j > 0 {
            assert(path_lt(T::key_of(b[0]), T::key_of(b[j])));
            if i > 0 {
                assert(path_lt(T::key_of(a[0]), T::key_of(a[i])));
            }
        }
        assert(a[0] == b[0]);
        let a1 = a.skip(1);
        let b1 = b.skip(1);
        assert forall|x: int, y: int| #![trigger a1[x], a1[y]] 0 <= x < y < a1.len() implies path_lt(
            T::key_of(a1[x]),
            T::key_of(a1[y]),
        ) by {
            assert(path_lt(T::key_of(a[x + 1]), T::key_of(a[y + 1])));
        }
        assert forall|x: int, y: int| #![trigger b1[x], b1[y]] 0 <= x < y < b1.len() implies path_lt(
            T::key_of(b1[x]),
            T::key_of(b1[y]),
        ) by {
            assert(path_lt(T::key_of(b[x + 1]), T::key_of(b[y + 1])));
        }
        assert forall|p: Seq<char>| lookup_key::<T>(a1, p) == lookup_key::<T>(b1, p) by {
            lemma_skip_lookup::<T>(a, p);
            lemma_skip_lookup::<T>(b, p);
        }
        law_table_is_its_lookups::<T>(a1, b1);
        assert(a =~= seq![a[0]] + a1);
        assert(b =~= seq![b[0]] + b1);
    }
}

proof fn lemma_skip_lookup<T: Keyed>(s: Seq<T::V>, p: Seq<char>)
    requires
        sorted_by_key::<T>(s),
        s.len() > 0,
    ensures
        lookup_key::<T>(s.skip(1), p) == if p == T::key_of(s[0]) {
            None
        } else {
            lookup_key::<T>(s, p)
        },
{
    let rest = s.skip(1);
    assert forall|x: int, y: int| #![trigger rest[x], rest[y]] 0 <= x < y < rest.len() implies path_lt(
        T::key_of(rest[x]),
        T::key_of(rest[y]),
    ) by {
        assert(path_lt(T::key_of(s[x + 1]), T::key_of(s[y + 1])));
    }
    lemma_path_lt_strict_total(p, p, p);
    if has_key::<T>(rest, p) {
        let k = choose|k: int| 0 <= k < rest.len() && T::key_of(#[trigger] rest[k]) == p;
        assert(rest[k] == s[k + 1]);
        assert(path_lt(T::key_of(s[0]), T::key_of(s[k + 1])));
        lemma_lookup_key_at::<T>(rest, k);
        lemma_lookup_key_at::<T>(s, k + 1);
    } else if p != T::key_of(s[0]) {
        if has_key::<T>(s, p) {
            let k = choose|k: int| 0 <= k < s.len() && T::key_of(#[trigger] s[k]) == p;
            assert(k > 0);
            assert(rest[k - 1] == s[k]);
            assert(false);
        }
    }
}

} // verus!
