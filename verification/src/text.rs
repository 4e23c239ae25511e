//! Text primitives shared by the planning code: the byte-wise order on
//! paths, conversions between strings and character vectors, and decimal
//! rendering of counters.

use vstd::prelude::*;
use vstd::string::StrSliceExecFns;
use vstd::string::StringExecFns;
use vstd::utf8::encode_utf8;
use vstd::utf8::decode_utf8;
use vstd::utf8::encode_utf8_decode_utf8;

verus! {

/// `k` is the length of the longest common prefix of `a` and `b`.
pub open spec fn is_mismatch(a: Seq<u8>, b: Seq<u8>, k: int) -> bool {
    &&& 0 <= k <= a.len()
    &&& k <= b.len()
    &&& forall|t: int| 0 <= t < k ==> a[t] == b[t]
    &&& (k < a.len() && k < b.len() ==> a[k] != b[k])
}

/// Strict lexicographic order on byte strings: at the first position where
/// the two differ `a` is shorter or holds the smaller byte.
pub open spec fn bytes_lt(a: Seq<u8>, b: Seq<u8>) -> bool {
    exists|k: int| #[trigger] is_mismatch(a, b, k) && k < b.len() && (k == a.len() || a[k] < b[k])
}

/// The order in which paths are listed: byte-wise over the UTF-8 encoding.
pub open spec fn path_lt(p: Seq<char>, q: Seq<char>) -> bool {
    bytes_lt(encode_utf8(p), encode_utf8(q))
}

/// Result of a three-way comparison of two paths.
#[derive(Debug, Clone, Copy, PartialEq, Eq, Structural)]
pub enum PathOrder {
    Before,
    Same,
    After,
}

/// Two byte strings with the same longest-common-prefix witness agree on it.
pub proof fn lemma_mismatch_unique(a: Seq<u8>, b: Seq<u8>, k1: int, k2: int)
    requires
        is_mismatch(a, b, k1),
        is_mismatch(a, b, k2),
    ensures
        k1 == k2,
{
    if k1 < k2 {
        assert(a[k1] == b[k1]);
    } else if k2 < k1 {
        assert(a[k2] == b[k2]);
    }
}

/// Every pair of byte strings has a longest common prefix.
pub proof fn lemma_mismatch_exists(a: Seq<u8>, b: Seq<u8>) -> (k: int)
    ensures
        is_mismatch(a, b, k),
{
    lemma_mismatch_from(a, b, 0)
}

proof fn lemma_mismatch_from(a: Seq<u8>, b: Seq<u8>, start: int) -> (k: int)
    requires
        0 <= start <= a.len(),
        start <= b.len(),
        forall|t: int| 0 <= t < start ==> a[t] == b[t],
    ensures
        is_mismatch(a, b, k),
    decreases a.len() - start,
{
    if start < a.len() && start < b.len() && a[start] == b[start] {
        lemma_mismatch_from(a, b, start + 1)
    } else {
        start
    }
}

/// `bytes_lt` is irreflexive.
pub proof fn lemma_bytes_lt_irreflexive(a: Seq<u8>)
    ensures
        !bytes_lt(a, a),
{
    if bytes_lt(a, a) {
        let k = choose|k: int| #[trigger] is_mismatch(a, a, k) && k < a.len() && (k == a.len() || a[k] < a[k]);
        assert(false);
    }
}

/// `bytes_lt` is asymmetric.
pub proof fn lemma_bytes_lt_asymmetric(a: Seq<u8>, b: Seq<u8>)
    requires
        bytes_lt(a, b),
    ensures
        !bytes_lt(b, a),
{
    if bytes_lt(b, a) {
        let k1 = choose|k: int| #[trigger] is_mismatch(a, b, k) && k < b.len() && (k == a.len() || a[k] < b[k]);
        let k2 = choose|k: int| #[trigger] is_mismatch(b, a, k) && k < a.len() && (k == b.len() || b[k] < a[k]);
        assert(is_mismatch(a, b, k2));
        lemma_mismatch_unique(a, b, k1, k2);
    }
}

/// `bytes_lt` is transitive.
pub proof fn lemma_bytes_lt_transitive(a: Seq<u8>, b: Seq<u8>, c: Seq<u8>)
    requires
        bytes_lt(a, b),
        bytes_lt(b, c),
    ensures
        bytes_lt(a, c),
{
    let k1 = choose|k: int| #[trigger] is_mismatch(a, b, k) && k < b.len() && (k == a.len() || a[k] < b[k]);
    let k2 = choose|k: int| #[trigger] is_mismatch(b, c, k) && k < c.len() && (k == b.len() || b[k] < c[k]);
    let k = if k1 <= k2 { k1 } else { k2 };
    assert forall|t: int| 0 <= t < k implies a[t] == c[t] by {
        assert(a[t] == b[t]);
        assert(b[t] == c[t]);
    }
    assert(is_mismatch(a, c, k));
}

/// Two different byte strings are ordered one way or the other.
pub proof fn lemma_bytes_lt_total(a: Seq<u8>, b: Seq<u8>)
    ensures
        a == b || bytes_lt(a, b) || bytes_lt(b, a),
{
    let k = lemma_mismatch_exists(a, b);
    assert(is_mismatch(b, a, k));
    if k == a.len() && k == b.len() {
        assert(a =~= b);
    }
}

/// The path order is a strict total order on character strings.
pub proof fn lemma_path_lt_strict_total(p: Seq<char>, q: Seq<char>, r: Seq<char>)
    ensures
        !path_lt(p, p),
        path_lt(p, q) ==> !path_lt(q, p),
        path_lt(p, q) && path_lt(q, r) ==> path_lt(p, r),
        p == q || path_lt(p, q) || path_lt(q, p),
{
    lemma_bytes_lt_irreflexive(encode_utf8(p));
    if path_lt(p, q) {
        lemma_bytes_lt_asymmetric(encode_utf8(p), encode_utf8(q));
        if path_lt(q, r) {
            lemma_bytes_lt_transitive(encode_utf8(p), encode_utf8(q), encode_utf8(r));
        }
    }
    lemma_bytes_lt_total(encode_utf8(p), encode_utf8(q));
    if encode_utf8(p) == encode_utf8(q) {
        encode_utf8_decode_utf8(p);
        encode_utf8_decode_utf8(q);
        assert(p == decode_utf8(encode_utf8(p)));
    }
}

/// Three-way comparison of two byte strings.
pub fn compare_bytes(a: &[u8], b: &[u8]) -> (r: PathOrder)
    ensures
        r == PathOrder::Before <==> bytes_lt(a@, b@),
        r == PathOrder::Same <==> a@ == b@,
        r == PathOrder::After <==> bytes_lt(b@, a@),
{
    let n = a.len();
    let m = b.len();
    let mut k: usize = 0;
    while k < n && k < m && a[k] == b[k]
        invariant
            n == a@.len(),
            m == b@.len(),
            k <= n,
            k <= m,
            forall|t: int| 0 <= t < k ==> a@[t] == b@[t],
        decreases n - k,
    {
        k = k + 1;
    }
    proof {
        assert(is_mismatch(a@, b@, k as int));
        assert(is_mismatch(b@, a@, k as int));
        lemma_bytes_lt_irreflexive(a@);
    }
    if k == n && k == m {
        proof {
            assert(a@ =~= b@);
        }
        PathOrder::Same
    } else if k == n {
        proof {
            lemma_bytes_lt_asymmetric(a@, b@);
        }
        PathOrder::Before
    } else if k == m {
        proof {
            lemma_bytes_lt_asymmetric(b@, a@);
        }
        PathOrder::After
    } else if a[k] < b[k] {
        proof {
            lemma_bytes_lt_asymmetric(a@, b@);
        }
        PathOrder::Before
    } else {
        proof {
            lemma_bytes_lt_asymmetric(b@, a@);
        }
        PathOrder::After
    }
}

/// Three-way comparison of two paths in the listing order.
pub fn compare_paths(a: &str, b: &str) -> (r: PathOrder)
    ensures
        r == PathOrder::Before <==> path_lt(a@, b@),
        r == PathOrder::Same <==> a@ == b@,
        r == PathOrder::After <==> path_lt(b@, a@),
{
    let r = compare_bytes(a.as_bytes(), b.as_bytes());
    proof {
        lemma_path_lt_strict_total(a@, b@, a@);
    }
    r
}

/// Whether two strings hold the same characters.
pub fn str_equal(a: &str, b: &str) -> (r: bool)
    ensures
        r == (a@ == b@),
{
    match compare_paths(a, b) {
        PathOrder::Same => true,
        _ => false,
    }
}

/// The characters of a string.
pub fn chars_of(s: &str) -> (v: Vec<char>)
    ensures
        v@ == s@,
{
    let mut v: Vec<char> = Vec::new();
    for c in it: s.chars()
        invariant
            it.seq() == s@,
            v@ == s@.take(it.index() as int),
    {
        v.push(c);
        assert(s@.take(it.index() + 1) =~= s@.take(it.index() as int).push(c));
    }
    assert(s@.take(s@.len() as int) =~= s@);
    v
}

/// `needle` occurs in `hay` at position `at`.
pub open spec fn occurs_at(hay: Seq<char>, needle: Seq<char>, at: int) -> bool {
    0 <= at && at + needle.len() <= hay.len() && hay.subrange(at, at + needle.len()) == needle
}

/// `needle` occurs somewhere in `hay`.
pub open spec fn contains_text(hay: Seq<char>, needle: Seq<char>) -> bool {
    exists|at: int| occurs_at(hay, needle, at)
}

/// Whether `needle` occurs in `hay` at position `at`.
pub fn matches_at(hay: &Vec<char>, needle: &Vec<char>, at: usize) -> (r: bool)
    ensures
        r == occurs_at(hay@, needle@, at as int),
{
    if at > hay.len() || needle.len() > hay.len() - at {
        return false;
    }
    let mut k: usize = 0;
    while k < needle.len()
        invariant
            at + needle@.len() <= hay@.len() <= usize::MAX,
            k <= needle@.len(),
            forall|t: int| 0 <= t < k ==> hay@[at + t] == needle@[t],
        decreases needle@.len() - k,
    {
        if hay[at + k] != needle[k] {
            proof {
                let sub = hay@.subrange(at as int, at + needle@.len());
                assert(sub[k as int] == hay@[at + k]);
            }
            return false;
        }
        k = k + 1;
    }
    assert(hay@.subrange(at as int, at + needle@.len()) =~= needle@);
    true
}

/// The first position at or after `from` where `needle` occurs in `hay`.
pub fn find_text(hay: &Vec<char>, needle: &Vec<char>, from: usize) -> (r: Option<usize>)
    ensures
        match r {
            Some(at) => from <= at && occurs_at(hay@, needle@, at as int) && forall|t: int|
                from <= t < at ==> !occurs_at(hay@, needle@, t),
            None => forall|t: int| from <= t ==> !occurs_at(hay@, needle@, t),
        },
{
    let n = hay.len();
    let mut at: usize = from;
    while at < n
        invariant
            from <= at,
            n == hay@.len(),
            forall|t: int| from <= t < at ==> !occurs_at(hay@, needle@, t),
        decreases n - at,
    {
        if matches_at(hay, needle, at) {
            return Some(at);
        }
        at = at + 1;
    }
    if at == n && matches_at(hay, needle, at) {
        Some(at)
    } else {
        None
    }
}

/// Whether `needle` occurs in `hay`.
pub fn contains_str(hay: &str, needle: &str) -> (r: bool)
    ensures
        r == contains_text(hay@, needle@),
{
    let h = chars_of(hay);
    let n = chars_of(needle);
    match find_text(&h, &n, 0) {
        Some(at) => {
            assert(occurs_at(hay@, needle@, at as int));
            true
        },
        None => {
            assert forall|t: int| !occurs_at(hay@, needle@, t) by {
                if t >= 0 {
                    assert(!occurs_at(h@, n@, t));
                }
            }
            false
        },
    }
}

/// Whether `hay` begins with `prefix`.
pub fn has_prefix(hay: &Vec<char>, prefix: &Vec<char>) -> (r: bool)
    ensures
        r == prefix@.is_prefix_of(hay@),
{
    let r = matches_at(hay, prefix, 0);
    proof {
        if r {
            assert(hay@.subrange(0, prefix@.len() as int) == prefix@);
            assert(prefix@.is_prefix_of(hay@));
        }
        if prefix@.is_prefix_of(hay@) {
            assert(hay@.subrange(0, prefix@.len() as int) =~= prefix@);
        }
    }
    r
}

/// Whether `hay` ends with `suffix`.
pub fn has_suffix(hay: &Vec<char>, suffix: &Vec<char>) -> (r: bool)
    ensures
        r == suffix@.is_suffix_of(hay@),
{
    if suffix.len() > hay.len() {
        return false;
    }
    let at = hay.len() - suffix.len();
    let r = matches_at(hay, suffix, at);
    proof {
        if r {
            assert(hay@.subrange(at as int, hay@.len() as int) == suffix@);
            assert(suffix@.is_suffix_of(hay@));
        }
        if suffix@.is_suffix_of(hay@) {
            assert(hay@.subrange(at as int, hay@.len() as int) =~= suffix@);
        }
    }
    r
}

/// `s` without the run of `c` at its end.
pub open spec fn trim_end(s: Seq<char>, c: char) -> Seq<char>
    decreases s.len(),
{
    if s.len() > 0 && s.last() == c {
        trim_end(s.drop_last(), c)
    } else {
        s
    }
}

/// `s` without the run of `c` at its start.
pub open spec fn trim_start(s: Seq<char>, c: char) -> Seq<char>
    decreases s.len(),
{
    if s.len() > 0 && s[0] == c {
        trim_start(s.drop_first(), c)
    } else {
        s
    }
}

/// The characters of `v` from `from` up to `to`.
pub fn sub_chars(v: &Vec<char>, from: usize, to: usize) -> (r: Vec<char>)
    requires
        from <= to <= v@.len(),
    ensures
        r@ == v@.subrange(from as int, to as int),
{
    let mut r: Vec<char> = Vec::new();
    let mut i: usize = from;
    while i < to
        invariant
            from <= i <= to <= v@.len(),
            r@ == v@.subrange(from as int, i as int),
        decreases to - i,
    {
        r.push(v[i]);
        assert(v@.subrange(from as int, i + 1) =~= v@.subrange(from as int, i as int).push(v@[i as int]));
        i = i + 1;
    }
    r
}

/// How much of `v` is left when the run of `c` at its end is cut off.
pub fn trim_end_len(v: &Vec<char>, c: char) -> (n: usize)
    ensures
        n <= v@.len(),
        v@.take(n as int) == trim_end(v@, c),
{
    let mut n: usize = v.len();
    assert(v@.take(n as int) =~= v@);
    while n > 0 && v[n - 1] == c
        invariant
            n <= v@.len(),
            trim_end(v@, c) == trim_end(v@.take(n as int), c),
        decreases n,
    {
        assert(v@.take(n as int).drop_last() =~= v@.take(n - 1));
        n = n - 1;
    }
    n
}

/// How many characters the run of `c` at the start of `v` has.
pub fn trim_start_len(v: &Vec<char>, c: char) -> (n: usize)
    ensures
        n <= v@.len(),
        v@.skip(n as int) == trim_start(v@, c),
{
    let len = v.len();
    let mut n: usize = 0;
    assert(v@.skip(0) =~= v@);
    while n < len && v[n] == c
        invariant
            len == v@.len(),
            n <= len,
            trim_start(v@, c) == trim_start(v@.skip(n as int), c),
        decreases len - n,
    {
        assert(v@.skip(n as int).drop_first() =~= v@.skip(n + 1));
        n = n + 1;
    }
    n
}

/// The position of the last `c` in `v`.
pub fn last_index_of(v: &Vec<char>, c: char) -> (r: Option<usize>)
    ensures
        match r {
            Some(k) => k < v@.len() && v@[k as int] == c && forall|t: int|
                k < t < v@.len() ==> v@[t] != c,
            None => forall|t: int| 0 <= t < v@.len() ==> v@[t] != c,
        },
{
    let mut n: usize = v.len();
    while n > 0
        invariant
            n <= v@.len(),
            forall|t: int| n <= t < v@.len() ==> v@[t] != c,
        decreases n,
    {
        if v[n - 1] == c {
            return Some(n - 1);
        }
        n = n - 1;
    }
    None
}

/// Whether `c` occurs in `v` at or after position `from`.
pub fn occurs_from(v: &Vec<char>, from: usize, c: char) -> (r: bool)
    ensures
        r == exists|x: int| from <= x < v@.len() && v@[x] == c,
{
    let n = v.len();
    let mut i: usize = from;
    while i < n
        invariant
            n == v@.len(),
            from <= i,
            forall|x: int| from <= x < i && x < n ==> v@[x] != c,
        decreases n - i,
    {
        if v[i] == c {
            return true;
        }
        i = i + 1;
    }
    false
}

/// The lowercase form of a text, as `str::to_lowercase` gives it.
pub uninterp spec fn lowercase(s: Seq<char>) -> Seq<char>;

/// Calls `str::to_lowercase`, which maps the text to lowercase by the
/// Unicode rules; the result is a function of the text alone and is left
/// to the name `lowercase`.
#[verifier::external_body]
pub(crate) fn to_lowercase(s: &str) -> (r: String)
    ensures
        r@ == lowercase(s@),
{
    s.to_lowercase()
}

/// The decimal digits of a number.
pub open spec fn decimal(n: nat) -> Seq<char>
    decreases n,
{
    if n < 10 {
        seq![digit_char(n)]
    } else {
        decimal(n / 10).push(digit_char(n % 10))
    }
}

/// The character of a digit.
pub open spec fn digit_char(d: nat) -> char {
    if d == 0 {
        '0'
    } else if d == 1 {
        '1'
    } else if d == 2 {
        '2'
    } else if d == 3 {
        '3'
    } else if d == 4 {
        '4'
    } else if d == 5 {
        '5'
    } else if d == 6 {
        '6'
    } else if d == 7 {
        '7'
    } else if d == 8 {
        '8'
    } else {
        '9'
    }
}

fn digit_str(d: u64) -> (s: &'static str)
    requires
        d < 10,
    ensures
        s@ == seq![digit_char(d as nat)],
{
    proof {
        reveal_strlit("0");
        reveal_strlit("1");
        reveal_strlit("2");
        reveal_strlit("3");
        reveal_strlit("4");
        reveal_strlit("5");
        reveal_strlit("6");
        reveal_strlit("7");
        reveal_strlit("8");
        reveal_strlit("9");
    }
    let s = if d == 0 {
        "0"
    } else if d == 1 {
        "1"
    } else if d == 2 {
        "2"
    } else if d == 3 {
        "3"
    } else if d == 4 {
        "4"
    } else if d == 5 {
        "5"
    } else if d == 6 {
        "6"
    } else if d == 7 {
        "7"
    } else if d == 8 {
        "8"
    } else {
        "9"
    };
    assert(s@ =~= seq![digit_char(d as nat)]);
    s
}

/// The number in decimal digits.
pub fn decimal_text(n: u64) -> (s: String)
    ensures
        s@ == decimal(n as nat),
    decreases n,
{
    if n < 10 {
        String::from_str(digit_str(n))
    } else {
        let mut s = decimal_text(n / 10);
        s.append(digit_str(n % 10));
        s
    }
}

/// `s` with every `from` replaced by `to`.
pub open spec fn replaced(s: Seq<char>, from: char, to: char) -> Seq<char> {
    Seq::new(
        s.len(),
        |i: int|
            if s[i] == from {
                to
            } else {
                s[i]
            },
    )
}

/// `s` without every leading repetition of `prefix`.
pub open spec fn without_leading(s: Seq<char>, prefix: Seq<char>) -> Seq<char>
    decreases s.len(),
{
    if prefix.len() > 0 && prefix.is_prefix_of(s) {
        without_leading(s.skip(prefix.len() as int), prefix)
    } else {
        s
    }
}

/// The characters `from..to` of a text, as a string.
pub fn text_between(s: &str, from: usize, to: usize) -> (r: String)
    requires
        from <= to <= s@.len(),
    ensures
        r@ == s@.subrange(from as int, to as int),
{
    String::from_str(s.substring_char(from, to))
}

/// The text with every backslash turned into a slash.
pub fn slashes_forward(path: &str) -> (r: String)
    ensures
        r@ == replaced(path@, '\\', '/'),
{
    let v = chars_of(path);
    let n = v.len();
    let mut out = String::new();
    let mut start: usize = 0;
    let mut i: usize = 0;
    proof {
        reveal_strlit("/");
    }
    while i < n
        invariant
            n == v@.len(),
            v@ == path@,
            start <= i <= n,
            "/"@ == seq!['/'],
            forall|k: int| start <= k < i ==> v@[k] != '\\',
            out@ == replaced(path@, '\\', '/').take(start as int),
        decreases n - i,
    {
        if v[i] == '\\' {
            out.append(path.substring_char(start, i));
            out.append("/");
            assert(out@ =~= replaced(path@, '\\', '/').take(i + 1));
            start = i + 1;
        }
        i = i + 1;
    }
    out.append(path.substring_char(start, n));
    assert(out@ =~= replaced(path@, '\\', '/'));
    out
}

/// The text without the run of `c` at its start.
pub fn without_start(s: &str, c: char) -> (r: String)
    ensures
        r@ == trim_start(s@, c),
{
    let v = chars_of(s);
    let from = trim_start_len(&v, c);
    assert(s@.subrange(from as int, v@.len() as int) =~= s@.skip(from as int));
    text_between(s, from, v.len())
}

/// The text without the run of `c` at its end.
pub fn without_end(s: &str, c: char) -> (r: String)
    ensures
        r@ == trim_end(s@, c),
{
    let v = chars_of(s);
    let to = trim_end_len(&v, c);
    assert(s@.subrange(0, to as int) =~= s@.take(to as int));
    text_between(s, 0, to)
}

/// The text without every leading repetition of `prefix`.
pub fn strip_leading(s: &str, prefix: &str) -> (r: String)
    ensures
        r@ == without_leading(s@, prefix@),
{
    let v = chars_of(s);
    let p = chars_of(prefix);
    let n = v.len();
    let step = p.len();
    let mut from: usize = 0;
    assert(s@.skip(0) =~= s@);
    if step > 0 {
        while from <= n && n - from >= step && matches_at(&v, &p, from)
            invariant
                n == v@.len(),
                step == p@.len(),
                step > 0,
                v@ == s@,
                p@ == prefix@,
                from <= n,
                without_leading(s@, prefix@) == without_leading(s@.skip(from as int), prefix@),
            decreases n - from,
        {
            proof {
                let rest = s@.skip(from as int);
                assert(rest.subrange(0, step as int) =~= s@.subrange(from as int, from + step));
                assert(prefix@.is_prefix_of(rest));
                assert(rest.skip(step as int) =~= s@.skip(from + step));
            }
            from = from + step;
        }
        proof {
            let rest = s@.skip(from as int);
            if prefix@.is_prefix_of(rest) {
                assert(rest.subrange(0, step as int) =~= s@.subrange(from as int, from + step));
                assert(occurs_at(s@, prefix@, from as int));
            }
        }
    }
    assert(s@.subrange(from as int, n as int) =~= s@.skip(from as int));
    text_between(s, from, n)
}

/// What is left when the run of `c` at the start is cut off is the end of
/// the text, and does not start with `c`.
pub proof fn lemma_trim_start(s: Seq<char>, c: char)
    ensures
        trim_start(s, c).is_suffix_of(s),
        trim_start(s, c).len() == 0 || trim_start(s, c)[0] != c,
        trim_start(trim_start(s, c), c) == trim_start(s, c),
    decreases s.len(),
{
    if s.len() > 0 && s[0] == c {
        let rest = s.drop_first();
        lemma_trim_start(rest, c);
        let t = trim_start(rest, c);
        assert(rest.subrange(rest.len() - t.len(), rest.len() as int) =~= s.subrange(
            s.len() - t.len(),
            s.len() as int,
        ));
    } else {
        assert(s.subrange(0, s.len() as int) =~= s);
    }
}

} // verus!
