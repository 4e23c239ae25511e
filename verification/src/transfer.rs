//! The state of a streamed transfer, kept so that it can be resumed.

use vstd::prelude::*;
use vstd::std_specs::convert::FromSpecImpl;
use vstd::string::StringExecFns;
use crate::ambient::fresh_id;
use crate::ambient::clock_seconds;
use crate::models::timestamp_of;
use crate::text::decimal;
use crate::text::str_equal;

verus! {

/// How far a transfer has come.
#[derive(Debug, Clone, Copy, PartialEq, Eq, Structural)]
pub enum TransferStatus {
    Pending,
    InProgress,
    Completed,
    Failed,
    Paused,
}

/// The name of a status in the store.
pub open spec fn transfer_status_name(status: TransferStatus) -> Seq<char> {
    match status {
        TransferStatus::Pending => "pending"@,
        TransferStatus::InProgress => "in_progress"@,
        TransferStatus::Completed => "completed"@,
        TransferStatus::Failed => "failed"@,
        TransferStatus::Paused => "paused"@,
    }
}

/// The status that a name stands for; an unknown name stands for `Pending`.
pub open spec fn transfer_status_of_name(name: Seq<char>) -> TransferStatus {
    if name == "in_progress"@ {
        TransferStatus::InProgress
    } else if name == "completed"@ {
        TransferStatus::Completed
    } else if name == "failed"@ {
        TransferStatus::Failed
    } else if name == "paused"@ {
        TransferStatus::Paused
    } else {
        TransferStatus::Pending
    }
}

impl TransferStatus {
    /// The name under which the status is stored.
    pub fn to_text(&self) -> (s: String)
        ensures
            s@ == transfer_status_name(*self),
    {
        match self {
            TransferStatus::Pending => String::from_str("pending"),
            TransferStatus::InProgress => String::from_str("in_progress"),
            TransferStatus::Completed => String::from_str("completed"),
            TransferStatus::Failed => String::from_str("failed"),
            TransferStatus::Paused => String::from_str("paused"),
        }
    }

    /// Whether a transfer in this status is still to be finished.
    pub fn is_unfinished(&self) -> (b: bool)
        ensures
            b == (*self == TransferStatus::Pending || *self == TransferStatus::InProgress || *self
                == TransferStatus::Paused),
    {
        match self {
            TransferStatus::Pending | TransferStatus::InProgress | TransferStatus::Paused => true,
            _ => false,
        }
    }
}

impl<'a> From<&'a str> for TransferStatus {
    fn from(s: &'a str) -> (r: TransferStatus) {
        if str_equal(s, "in_progress") {
            TransferStatus::InProgress
        } else if str_equal(s, "completed") {
            TransferStatus::Completed
        } else if str_equal(s, "failed") {
            TransferStatus::Failed
        } else if str_equal(s, "paused") {
            TransferStatus::Paused
        } else {
            TransferStatus::Pending
        }
    }
}

impl<'a> FromSpecImpl<&'a str> for TransferStatus {
    open spec fn obeys_from_spec() -> bool {
        true
    }

    open spec fn from_spec(s: &'a str) -> TransferStatus {
        transfer_status_of_name(s@)
    }
}

/// Reading back the name of a status gives the status.
pub proof fn law_transfer_status_round_trip(status: TransferStatus)
    ensures
        transfer_status_of_name(transfer_status_name(status)) == status,
{
    reveal_strlit("pending");
    reveal_strlit("in_progress");
    reveal_strlit("completed");
    reveal_strlit("failed");
    reveal_strlit("paused");
    assert("pending"@.len() == 7);
    assert("in_progress"@.len() == 11);
    assert("completed"@.len() == 9);
    assert("failed"@.len() == 6);
    assert("paused"@[0] == 'p');
    assert("failed"@[0] == 'f');
}

/// The state of one transfer.
#[derive(Debug, Clone)]
pub struct TransferState {
    pub id: String,
    pub job_id: String,
    pub file_path: String,
    pub total_size: u64,
    pub transferred_size: u64,
    pub upload_id: Option<String>,
    pub parts_completed: Vec<u32>,
    pub status: TransferStatus,
    pub started_at: Option<i64>,
    pub updated_at: Option<i64>,
}

/// The list of numbers that a JSON text holds, as `serde_json` reads it;
/// `None` where it does not read the text as such a list.
pub uninterp spec fn json_numbers(text: Seq<char>) -> Option<Seq<u32>>;

/// The numbers in decimal with `,` between them.
pub open spec fn number_list(parts: Seq<u32>) -> Seq<char>
    decreases parts.len(),
{
    if parts.len() == 0 {
        Seq::<char>::empty()
    } else if parts.len() == 1 {
        decimal(parts[0] as nat)
    } else {
        number_list(parts.drop_last()) + seq![','] + decimal(parts.last() as nat)
    }
}

/// A list of numbers as compact JSON: the list of the numbers between
/// `[` and `]`.
pub open spec fn numbers_json(parts: Seq<u32>) -> Seq<char> {
    seq!['['] + number_list(parts) + seq![']']
}

/// Calls `serde_json::from_str` for a list of 32-bit numbers. What it reads
/// depends on the text alone and is left to the name `json_numbers`.
#[verifier::external_body]
fn read_numbers(text: &str) -> (r: Option<Vec<u32>>)
    ensures
        match r {
            Some(v) => json_numbers(text@) == Some(v@),
            None => json_numbers(text@) is None,
        },
{
    match serde_json::from_str::<Vec<u32>>(text) {
        Ok(v) => Some(v),
        Err(_) => None,
    }
}

/// Calls `serde_json::to_string` on a list of 32-bit numbers, which writes
/// compact JSON: `[`, each number in decimal with `,` before all but the
/// first, and `]`. Its documentation names the two ways in which it fails:
/// a value whose way of being written decides to fail, and a map with keys
/// that are no strings. A list of numbers is neither: it is handed to the
/// writer element by element, and the writer is a vector in memory.
#[verifier::external_body]
fn write_numbers(parts: &Vec<u32>) -> (r: Option<String>)
    ensures
        match r {
            Some(s) => s@ == numbers_json(parts@),
            None => false,
        },
{
    match serde_json::to_string(parts) {
        Ok(s) => Some(s),
        Err(_) => None,
    }
}

/// The parts that a stored column names: those that the text lists, and
/// none where there is no text or it is no list of numbers.
pub open spec fn parts_of_column(column: Option<Seq<char>>) -> Seq<u32> {
    match column {
        Some(text) => match json_numbers(text) {
            Some(parts) => parts,
            None => Seq::<u32>::empty(),
        },
        None => Seq::<u32>::empty(),
    }
}

/// The parts that a list read from a column stands for.
pub fn parts_or_none(read: Option<Vec<u32>>) -> (parts: Vec<u32>)
    ensures
        parts@ == match read {
            Some(v) => v@,
            None => Seq::<u32>::empty(),
        },
{
    match read {
        Some(v) => v,
        None => Vec::new(),
    }
}

/// The parts that a stored column names.
pub fn parts_from_column(column: Option<&str>) -> (parts: Vec<u32>)
    ensures
        parts@ == parts_of_column(
            match column {
                Some(text) => Some(text@),
                None => None,
            },
        ),
{
    match column {
        Some(text) => parts_or_none(read_numbers(text)),
        None => Vec::new(),
    }
}

/// The column that stores a list of parts: the list as compact JSON.
pub fn parts_to_column(parts: &Vec<u32>) -> (r: Option<String>)
    ensures
        r matches Some(s) && s@ == numbers_json(parts@),
{
    write_numbers(parts)
}

impl TransferState {
    /// No more has been transferred than there is.
    pub open spec fn wf(&self) -> bool {
        self.transferred_size <= self.total_size
    }

    /// The state of a transfer of `total_size` bytes that begins at `now`.
    pub fn begin(id: String, job_id: &str, file_path: &str, total_size: u64, now: i64) -> (r:
        TransferState)
        ensures
            r.wf(),
            r.id == id,
            r.job_id@ == job_id@,
            r.file_path@ == file_path@,
            r.total_size == total_size,
            r.transferred_size == 0,
            r.upload_id is None,
            r.parts_completed@.len() == 0,
            r.status == TransferStatus::Pending,
            r.started_at == Some(now),
            r.updated_at is None,
    {
        TransferState {
            id,
            job_id: String::from_str(job_id),
            file_path: String::from_str(file_path),
            total_size,
            transferred_size: 0,
            upload_id: None,
            parts_completed: Vec::new(),
            status: TransferStatus::Pending,
            started_at: Some(now),
            updated_at: None,
        }
    }

    /// The state as a stored row gives it. Sizes are stored as signed
    /// numbers and read back as the unsigned numbers with the same bits.
    pub fn from_columns(
        id: String,
        job_id: String,
        file_path: String,
        total_size: i64,
        transferred_size: i64,
        upload_id: Option<String>,
        parts_completed: Option<&str>,
        status: &str,
        started_at: Option<i64>,
        updated_at: Option<i64>,
    ) -> (r: TransferState)
        ensures
            r.id == id,
            r.job_id == job_id,
            r.file_path == file_path,
            r.total_size == total_size as u64,
            r.transferred_size == transferred_size as u64,
            r.upload_id == upload_id,
            r.parts_completed@ == parts_of_column(
                match parts_completed {
                    Some(text) => Some(text@),
                    None => None,
                },
            ),
            r.status == transfer_status_of_name(status@),
            r.started_at == started_at,
            r.updated_at == updated_at,
    {
        TransferState {
            id,
            job_id,
            file_path,
            total_size: #[verifier::truncate] (total_size as u64),
            transferred_size: #[verifier::truncate] (transferred_size as u64),
            upload_id,
            parts_completed: parts_from_column(parts_completed),
            status: TransferStatus::from(status),
            started_at,
            updated_at,
        }
    }

    /// Records that `transferred` bytes are through, at the time `now`.
    /// Progress that would go back, or beyond the size of the file, is
    /// refused and leaves the state as it is.
    pub fn record_progress(&mut self, transferred: u64, now: i64) -> (accepted: bool)
        requires
            old(self).wf(),
        ensures
            final(self).wf(),
            accepted == (old(self).transferred_size <= transferred <= old(self).total_size),
            accepted ==> final(self).transferred_size == transferred && final(self).updated_at
                == Some(now),
            !accepted ==> *final(self) == *old(self),
            final(self).transferred_size >= old(self).transferred_size,
            final(self).total_size == old(self).total_size,
            final(self).status == old(self).status,
            final(self).id == old(self).id,
    {
        if self.transferred_size <= transferred && transferred <= self.total_size {
            self.transferred_size = transferred;
            self.updated_at = Some(now);
            true
        } else {
            false
        }
    }

    /// Marks the transfer as completed at the time `now`.
    pub fn mark_completed(&mut self, now: i64)
        ensures
            final(self).status == TransferStatus::Completed,
            final(self).updated_at == Some(now),
            final(self).transferred_size == old(self).transferred_size,
            final(self).total_size == old(self).total_size,
            final(self).id == old(self).id,
    {
        self.status = TransferStatus::Completed;
        self.updated_at = Some(now);
    }

    /// Marks the transfer as failed at the time `now`.
    pub fn mark_failed(&mut self, now: i64)
        ensures
            final(self).status == TransferStatus::Failed,
            final(self).updated_at == Some(now),
            final(self).transferred_size == old(self).transferred_size,
            final(self).total_size == old(self).total_size,
            final(self).id == old(self).id,
    {
        self.status = TransferStatus::Failed;
        self.updated_at = Some(now);
    }

    /// The time that is stored as the start of the transfer: the recorded
    /// one, or `now` where none was recorded.
    pub fn stored_start(&self, now: i64) -> (t: i64)
        ensures
            t == match self.started_at {
                Some(at) => at,
                None => now,
            },
    {
        match self.started_at {
            Some(at) => at,
            None => now,
        }
    }
}

/// Makes the states of new transfers.
pub struct TransferManager {}

impl TransferManager {
    /// The state of a new transfer of `total_size` bytes: pending, nothing
    /// transferred, begun now, under a fresh identifier.
    pub fn create_transfer_state(job_id: &str, file_path: &str, total_size: u64) -> (r:
        TransferState)
        ensures
            r.wf(),
            r.job_id@ == job_id@,
            r.file_path@ == file_path@,
            r.total_size == total_size,
            r.transferred_size == 0,
            r.upload_id is None,
            r.parts_completed@.len() == 0,
            r.status == TransferStatus::Pending,
            r.started_at is Some,
            r.updated_at is None,
    {
        TransferState::begin(fresh_id(), job_id, file_path, total_size, timestamp_of(clock_seconds()))
    }
}

} // verus!
