//! What is remembered of a file after it was copied, and the content hash
//! by which an unchanged file is recognised on the next run.

use vstd::prelude::*;
use vstd::bytes::spec_u64_to_le_bytes;
use vstd::bytes::u64_to_le_bytes;
use vstd::slice::slice_subrange;
use vstd::string::StrSliceExecFns;
use vstd::string::StringExecFns;
use vstd::utf8::is_ascii_chars;
use crate::storage::FileInfoView;
use crate::table::Keyed;
use crate::text::digit_char;
use crate::tree::has_path;
use crate::tree::FileTree;
use crate::table::PathTable;

verus! {

/// The state of one file of one job after its last successful copy.
#[derive(Debug, Clone)]
pub struct FileState {
    pub job_id: String,
    pub file_path: String,
    pub file_size: i64,
    pub modified_time: i64,
    pub checksum: Option<String>,
    pub last_sync_time: Option<i64>,
}

/// Mathematical value of a [`FileState`].
pub struct FileStateView {
    pub job_id: Seq<char>,
    pub file_path: Seq<char>,
    pub file_size: i64,
    pub modified_time: i64,
    pub checksum: Option<Seq<char>>,
    pub last_sync_time: Option<i64>,
}

impl View for FileState {
    type V = FileStateView;

    open spec fn view(&self) -> FileStateView {
        FileStateView {
            job_id: self.job_id@,
            file_path: self.file_path@,
            file_size: self.file_size,
            modified_time: self.modified_time,
            checksum: match self.checksum {
                Some(s) => Some(s@),
                None => None,
            },
            last_sync_time: self.last_sync_time,
        }
    }
}

impl Keyed for FileState {
    open spec fn key_of(v: FileStateView) -> Seq<char> {
        v.file_path
    }

    fn key(&self) -> (k: &str) {
        self.file_path.as_str()
    }

    fn duplicate(&self) -> (r: FileState) {
        FileState {
            job_id: self.job_id.clone(),
            file_path: self.file_path.clone(),
            file_size: self.file_size,
            modified_time: self.modified_time,
            checksum: match &self.checksum {
                Some(s) => Some(s.clone()),
                None => None,
            },
            last_sync_time: self.last_sync_time,
        }
    }
}

/// The remembered states of one job, one per path.
pub type StateTable = PathTable<FileState>;

impl FileState {
    /// The time that is stored as the time of the last synchronisation: the
    /// recorded one, or `now` where none was recorded.
    pub fn stored_sync_time(&self, now: i64) -> (t: i64)
        ensures
            t == match self.last_sync_time {
                Some(at) => at,
                None => now,
            },
    {
        match self.last_sync_time {
            Some(at) => at,
            None => now,
        }
    }
}

/// A lowercase hexadecimal digit.
pub open spec fn is_hex_digit(c: char) -> bool {
    ('0' <= c && c <= '9') || ('a' <= c && c <= 'f')
}

/// The lowercase hexadecimal digit of a number below 16.
pub open spec fn hex_digit(n: nat) -> char {
    if n < 10 {
        digit_char(n)
    } else if n == 10 {
        'a'
    } else if n == 11 {
        'b'
    } else if n == 12 {
        'c'
    } else if n == 13 {
        'd'
    } else if n == 14 {
        'e'
    } else {
        'f'
    }
}

/// The bytes written as lowercase hexadecimal digits, two for each byte,
/// the higher half first.
pub open spec fn hex_lower(bytes: Seq<u8>) -> Seq<char>
    decreases bytes.len(),
{
    if bytes.len() == 0 {
        Seq::<char>::empty()
    } else {
        hex_lower(bytes.drop_last()).push(hex_digit((bytes.last() / 16) as nat)).push(
            hex_digit((bytes.last() % 16) as nat),
        )
    }
}

/// The text of `hex_lower` has two digits for each byte and holds
/// hexadecimal digits only.
pub proof fn lemma_hex_lower(bytes: Seq<u8>)
    ensures
        hex_lower(bytes).len() == 2 * bytes.len(),
        forall|i: int| 0 <= i < hex_lower(bytes).len() ==> is_hex_digit(#[trigger] hex_lower(bytes)[i]),
    decreases bytes.len(),
{
    if bytes.len() > 0 {
        lemma_hex_lower(bytes.drop_last());
    }
}

/// The 32 bytes of the BLAKE3 digest of `data`.
pub uninterp spec fn blake3_digest(data: Seq<u8>) -> Seq<u8>;

/// The BLAKE3 digest of `data`, written as 64 lowercase hexadecimal digits.
pub open spec fn blake3_hex(data: Seq<u8>) -> Seq<char> {
    hex_lower(blake3_digest(data))
}

/// Calls `blake3::hash` and renders the digest with `Hash::to_hex`. Which
/// bytes the digest has is left to the name `blake3_digest`; there are 32
/// of them, and `to_hex` writes for each in turn the digit of its higher
/// half and the digit of its lower half from `0123456789abcdef`, 64 digits
/// in all.
#[verifier::external_body]
pub(crate) fn blake3_hex_digest(data: &[u8]) -> (hex: String)
    ensures
        hex@ == hex_lower(blake3_digest(data@)),
        hex@.len() == 64,
{
    blake3::hash(data).to_hex().as_str().to_string()
}

/// The digits kept of a digest.
pub const HASH_DIGITS: usize = 32;

/// Up to this many bytes a file is hashed whole.
pub const WHOLE_HASH_LIMIT: usize = 65536;

/// Length of each of the three samples taken of a larger file.
pub const SAMPLE_LEN: usize = 16384;

/// The content hash of `data`: the first 32 digits of its BLAKE3 digest.
pub open spec fn content_hash(data: Seq<u8>) -> Seq<char> {
    blake3_hex(data).take(HASH_DIGITS as int)
}

/// What is hashed of a file of more than 64 KiB: its first 16 KiB, the
/// 16 KiB around its middle, its last 16 KiB, and its length as eight
/// little-endian bytes.
pub open spec fn quick_sample(data: Seq<u8>) -> Seq<u8> {
    let len = data.len() as int;
    let half = SAMPLE_LEN as int / 2;
    data.take(SAMPLE_LEN as int) + data.subrange(len / 2 - half, len / 2 + half) + data.skip(
        len - SAMPLE_LEN as int,
    ) + spec_u64_to_le_bytes(len as u64)
}

/// The quick hash of `data`: the content hash of the whole for up to
/// 64 KiB, of the sample beyond that.
pub open spec fn quick_hash(data: Seq<u8>) -> Seq<char> {
    if data.len() <= WHOLE_HASH_LIMIT {
        content_hash(data)
    } else {
        content_hash(quick_sample(data))
    }
}

/// The content hash of `data`: 32 lowercase hexadecimal digits.
pub fn calculate_hash(data: &[u8]) -> (hash: String)
    ensures
        hash@ == content_hash(data@),
        hash@.len() == HASH_DIGITS,
        forall|i: int| 0 <= i < hash@.len() ==> is_hex_digit(#[trigger] hash@[i]),
{
    let hex = blake3_hex_digest(data);
    assert(is_ascii_chars(hex@) && hex@.len() == 64) by {
        lemma_hex_lower(blake3_digest(data@));
        assert forall|i: int| 0 <= i < hex@.len() implies '\0' <= #[trigger] hex@[i] <= '\u{7f}' by {
            assert(is_hex_digit(hex@[i]));
        }
    }
    let hash = String::from_str(hex.as_str().substring_ascii(0, HASH_DIGITS));
    proof {
        lemma_hex_lower(blake3_digest(data@));
        assert forall|i: int| 0 <= i < hash@.len() implies is_hex_digit(#[trigger] hash@[i]) by {
            assert(hash@[i] == hex@[i]);
        }
    }
    hash
}

fn append_bytes(out: &mut Vec<u8>, part: &[u8])
    ensures
        final(out)@ == old(out)@ + part@,
{
    let n = part.len();
    let mut i: usize = 0;
    while i < n
        invariant
            n == part@.len(),
            i <= n,
            out@ == old(out)@ + part@.take(i as int),
        decreases n - i,
    {
        out.push(part[i]);
        assert(part@.take(i + 1) =~= part@.take(i as int).push(part@[i as int]));
        i = i + 1;
    }
    assert(part@.take(n as int) =~= part@);
}

/// The quick hash of `data`: 32 lowercase hexadecimal digits.
pub fn calculate_quick_hash(data: &[u8]) -> (hash: String)
    ensures
        hash@ == quick_hash(data@),
        hash@.len() == HASH_DIGITS,
        forall|i: int| 0 <= i < hash@.len() ==> is_hex_digit(#[trigger] hash@[i]),
{
    let len = data.len();
    if len <= WHOLE_HASH_LIMIT {
        return calculate_hash(data);
    }
    let half = SAMPLE_LEN / 2;
    let mut sample: Vec<u8> = Vec::new();
    append_bytes(&mut sample, slice_subrange(data, 0, SAMPLE_LEN));
    append_bytes(&mut sample, slice_subrange(data, len / 2 - half, len / 2 + half));
    append_bytes(&mut sample, slice_subrange(data, len - SAMPLE_LEN, len));
    let size = u64_to_le_bytes(len as u64);
    append_bytes(&mut sample, size.as_slice());
    assert(sample@ =~= quick_sample(data@));
    calculate_hash(sample.as_slice())
}

/// The part of `data` from `from` up to `to`, as far as `data` reaches.
pub open spec fn reach(data: Seq<u8>, from: int, to: int) -> Seq<u8>
    recommends
        0 <= from <= to,
{
    data.subrange(
        if from < data.len() {
            from
        } else {
            data.len() as int
        },
        if to < data.len() {
            to
        } else {
            data.len() as int
        },
    )
}

/// As many of `offered` bytes as still fit where `left` are missing.
pub open spec fn taken(left: int, offered: int) -> int {
    if offered < left {
        offered
    } else {
        left
    }
}

/// Computes the quick hash of a file that passes by in pieces. It is told
/// the length of the file first, keeps of the bytes it is fed only those
/// that the quick hash reads, and gives the hash once the whole file has
/// passed.
pub struct QuickSampler {
    total: u64,
    seen: u64,
    head: Vec<u8>,
    middle: Vec<u8>,
    tail: Vec<u8>,
    fed: Ghost<Seq<u8>>,
}

impl QuickSampler {
    /// The length of the file.
    pub closed spec fn total(&self) -> u64 {
        self.total
    }

    /// The bytes fed so far.
    pub closed spec fn fed(&self) -> Seq<u8> {
        self.fed@
    }

    /// What is kept is what the quick hash reads of the bytes fed so far.
    pub closed spec fn wf(&self) -> bool {
        &&& self.seen == self.fed@.len()
        &&& self.seen <= self.total
        &&& if self.total <= WHOLE_HASH_LIMIT {
            self.head@ == self.fed@ && self.middle@.len() == 0 && self.tail@.len() == 0
        } else {
            let mid = self.total / 2 - SAMPLE_LEN / 2;
            let end = self.total - SAMPLE_LEN;
            &&& self.head@ == reach(self.fed@, 0, SAMPLE_LEN as int)
            &&& self.middle@ == reach(self.fed@, mid, mid + SAMPLE_LEN)
            &&& self.tail@ == reach(self.fed@, end, self.total as int)
        }
    }

    /// A sampler for a file of `total` bytes, fed nothing yet.
    pub fn new(total: u64) -> (s: QuickSampler)
        ensures
            s.wf(),
            s.total() == total,
            s.fed().len() == 0,
    {
        let s = QuickSampler {
            total,
            seen: 0,
            head: Vec::new(),
            middle: Vec::new(),
            tail: Vec::new(),
            fed: Ghost(Seq::<u8>::empty()),
        };
        proof {
            assert(s.head@ =~= s.fed@);
            assert(s.head@ =~= reach(s.fed@, 0, SAMPLE_LEN as int));
            if total > WHOLE_HASH_LIMIT {
                let mid = total / 2 - SAMPLE_LEN / 2;
                let end = total - SAMPLE_LEN;
                assert(s.middle@ =~= reach(s.fed@, mid, mid + SAMPLE_LEN));
                assert(s.tail@ =~= reach(s.fed@, end, total as int));
            }
        }
        s
    }

    /// Whether the whole file has passed.
    pub fn is_complete(&self) -> (b: bool)
        requires
            self.wf(),
        ensures
            b == (self.fed().len() == self.total()),
    {
        self.seen == self.total
    }

    /// Takes the next piece of the file. Bytes beyond the length of the
    /// file are left aside.
    pub fn feed(&mut self, chunk: &[u8])
        requires
            old(self).wf(),
        ensures
            final(self).wf(),
            final(self).total() == old(self).total(),
            final(self).fed() == old(self).fed() + chunk@.take(
                taken(old(self).total() - old(self).fed().len(), chunk@.len() as int),
            ),
    {
        let n = chunk.len();
        let mut i: usize = 0;
        while i < n && self.seen < self.total
            invariant
                n == chunk@.len(),
                i <= n,
                self.wf(),
                self.total == old(self).total,
                i <= old(self).total - old(self).fed@.len(),
                self.fed@ == old(self).fed@ + chunk@.take(i as int),
                i < n && self.seen >= self.total ==> i == old(self).total - old(self).fed@.len(),
            decreases n - i,
        {
            let b = chunk[i];
            let at = self.seen;
            let ghost before = self.fed@;
            let ghost after = before.push(b);
            if self.total <= 65536 {
                self.head.push(b);
            } else {
                let mid = self.total / 2 - 8192;
                let end = self.total - 16384;
                if at < 16384 {
                    self.head.push(b);
                }
                if mid <= at && at - mid < 16384 {
                    self.middle.push(b);
                }
                if end <= at {
                    self.tail.push(b);
                }
                proof {
                    assert(self.head@ =~= reach(after, 0, SAMPLE_LEN as int));
                    assert(self.middle@ =~= reach(after, mid as int, mid + SAMPLE_LEN));
                    assert(self.tail@ =~= reach(after, end as int, self.total as int));
                }
            }
            self.seen = at + 1;
            self.fed = Ghost(after);
            assert(chunk@.take(i + 1) =~= chunk@.take(i as int).push(chunk@[i as int]));
            assert(after =~= old(self).fed@ + chunk@.take(i + 1));
            i = i + 1;
        }
    }

    /// The quick hash of the file, once the whole file has passed.
    pub fn finish(&self) -> (r: Option<String>)
        requires
            self.wf(),
        ensures
            match r {
                Some(hash) => self.fed().len() == self.total() && hash@ == quick_hash(self.fed())
                    && hash@.len() == HASH_DIGITS,
                None => self.fed().len() != self.total(),
            },
    {
        if self.seen != self.total {
            return None;
        }
        if self.total <= 65536 {
            return Some(calculate_hash(self.head.as_slice()));
        }
        let mut sample: Vec<u8> = Vec::new();
        append_bytes(&mut sample, self.head.as_slice());
        append_bytes(&mut sample, self.middle.as_slice());
        append_bytes(&mut sample, self.tail.as_slice());
        let size = u64_to_le_bytes(self.total);
        append_bytes(&mut sample, size.as_slice());
        assert(sample@ =~= quick_sample(self.fed@));
        Some(calculate_hash(sample.as_slice()))
    }
}

/// The quick hash depends on the bytes alone, and of a file of up to
/// 64 KiB it is the first 32 digits of the BLAKE3 digest of the whole file.
pub proof fn law_quick_hash_of_bytes(first: Seq<u8>, second: Seq<u8>)
    ensures
        first == second ==> quick_hash(first) == quick_hash(second),
        first.len() <= 65536 ==> quick_hash(first) == blake3_hex(first).take(32),
{
}

/// `n` question marks with commas between them.
pub open spec fn placeholders(n: nat) -> Seq<char>
    decreases n,
{
    if n == 0 {
        Seq::<char>::empty()
    } else if n == 1 {
        seq!['?']
    } else {
        placeholders((n - 1) as nat) + seq![',', '?']
    }
}

/// The statement that drops the states of a job for all paths but
/// `count` given ones; none where no path is given, for then nothing is
/// dropped.
pub fn cleanup_statement(count: usize) -> (r: Option<String>)
    ensures
        match r {
            Some(s) => count > 0 && s@
                == "DELETE FROM file_states WHERE job_id = ? AND file_path NOT IN ("@
                + placeholders(count as nat) + ")"@,
            None => count == 0,
        },
{
    if count == 0 {
        return None;
    }
    let mut s = String::from_str("DELETE FROM file_states WHERE job_id = ? AND file_path NOT IN (");
    let ghost head = s@;
    proof {
        reveal_strlit("?");
        reveal_strlit(",?");
    }
    s.append("?");
    assert(s@ =~= head + placeholders(1));
    let mut i: usize = 1;
    while i < count
        invariant
            1 <= i <= count,
            s@ == head + placeholders(i as nat),
            ",?"@ == seq![',', '?'],
        decreases count - i,
    {
        s.append(",?");
        assert(s@ =~= head + placeholders((i + 1) as nat));
        i = i + 1;
    }
    s.append(")");
    Some(s)
}

/// The paths of the states whose file is no longer in the tree of the
/// source, in path order.
pub open spec fn stale_paths(saved: Seq<FileStateView>, source: Seq<FileInfoView>) -> Seq<Seq<char>> {
    saved.filter(|st: FileStateView| !has_path(source, st.file_path)).map_values(
        |st: FileStateView| st.file_path,
    )
}

/// The paths of the states that are to be dropped because their file is
/// no longer in the tree of the source.
pub fn states_to_drop(saved: &StateTable, source: &FileTree) -> (paths: Vec<String>)
    ensures
        paths@.map_values(|s: String| s@) == stale_paths(saved@, source@),
{
    let states = saved.entries();
    let ghost all = saved@;
    let mut paths: Vec<String> = Vec::new();
    let mut i: usize = 0;
    proof {
        assert(all.take(0) =~= Seq::<FileStateView>::empty());
        assert(paths@.map_values(|s: String| s@) =~= stale_paths(all.take(0), source@));
    }
    while i < states.len()
        invariant
            i <= states@.len(),
            states@.len() == all.len(),
            all == saved@,
            forall|k: int| 0 <= k < states@.len() ==> (#[trigger] states@[k])@ == all[k],
            paths@.map_values(|s: String| s@) == stale_paths(all.take(i as int), source@),
        decreases states@.len() - i,
    {
        let ghost before = paths@.map_values(|s: String| s@);
        let ghost done = all.take(i as int);
        proof {
            assert(all.take(i + 1) =~= done.push(all[i as int]));
            reveal(Seq::filter);
            assert(done.push(all[i as int]).drop_last() =~= done);
        }
        if !source.contains_key(states[i].file_path.as_str()) {
            paths.push(states[i].file_path.clone());
            proof {
                let kept = done.filter(|st: FileStateView| !has_path(source@, st.file_path));
                assert(all.take(i + 1).filter(|st: FileStateView| !has_path(source@, st.file_path))
                    =~= kept.push(all[i as int]));
                assert(paths@.map_values(|s: String| s@) =~= before.push(all[i as int].file_path));
                assert(stale_paths(all.take(i + 1), source@) =~= before.push(all[i as int].file_path));
            }
        } else {
            proof {
                let kept = done.filter(|st: FileStateView| !has_path(source@, st.file_path));
                assert(all.take(i + 1).filter(|st: FileStateView| !has_path(source@, st.file_path))
                    =~= kept);
            }
        }
        i = i + 1;
    }
    proof {
        assert(all.take(all.len() as int) =~= all);
    }
    paths
}

} // verus!
