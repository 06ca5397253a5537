//! One row of the hash table: the hash of a chunk with what it was bound to
//! and how often it has been confirmed.

use crate::hashing::{chunk_hash, compute_chunk_hash, is_hash_text};
use crate::provenance::{Provenance, ProvenanceView};
use crate::table::Row;
use crate::text::str_eq;
use vstd::prelude::*;

verus! {

/// The hash recorded for a chunk, with its provenance and access statistics.
#[derive(Debug)]
pub struct HashRecord {
    /// The chunk that the row belongs to.
    pub chunk_id: String,
    /// The logical source location of the chunk.
    pub path: String,
    /// The hash of path, content and `timestamp`.
    pub hash: String,
    /// The instant bound into the hash.
    pub timestamp: String,
    /// Where the content came from.
    pub provenance: Provenance,
    /// How many times the chunk has been verified successfully.
    pub access_count: i64,
    /// The instant of the latest successful verification, if there was one.
    pub last_accessed: Option<String>,
    /// The instant at which the row was written.
    pub created_at: String,
}

/// A row with its texts taken as sequences of characters.
pub struct RecordView {
    pub chunk_id: Seq<char>,
    pub path: Seq<char>,
    pub hash: Seq<char>,
    pub timestamp: Seq<char>,
    pub provenance: ProvenanceView,
    pub access_count: int,
    pub last_accessed: Option<Seq<char>>,
    pub created_at: Seq<char>,
}

/// An optional text taken as an optional sequence of characters.
pub open spec fn text_option(text: Option<String>) -> Option<Seq<char>> {
    match text {
        Some(t) => Some(t@),
        None => None,
    }
}

impl View for HashRecord {
    type V = RecordView;

    open spec fn view(&self) -> RecordView {
        RecordView {
            chunk_id: self.chunk_id@,
            path: self.path@,
            hash: self.hash@,
            timestamp: self.timestamp@,
            provenance: self.provenance@,
            access_count: self.access_count as int,
            last_accessed: text_option(self.last_accessed),
            created_at: self.created_at@,
        }
    }
}

/// The row that is written when the hash of `content` is recorded at the
/// instant `now`: never accessed, created at the instant bound into its hash.
pub open spec fn recorded_row(
    chunk_id: Seq<char>,
    path: Seq<char>,
    content: Seq<char>,
    provenance: ProvenanceView,
    now: Seq<char>,
) -> RecordView {
    RecordView {
        chunk_id,
        path,
        hash: chunk_hash(path, content, now),
        timestamp: now,
        provenance,
        access_count: 0,
        last_accessed: None,
        created_at: now,
    }
}

/// The access count after one more successful verification. The count stops
/// at the largest value that fits.
pub open spec fn next_access_count(count: int) -> int {
    if count < i64::MAX {
        count + 1
    } else {
        count
    }
}

/// The row after one more successful verification at the instant `now`.
/// Hash and timestamp are left as they were.
pub open spec fn accessed_row(row: RecordView, now: Seq<char>) -> RecordView {
    RecordView {
        chunk_id: row.chunk_id,
        path: row.path,
        hash: row.hash,
        timestamp: row.timestamp,
        provenance: row.provenance,
        access_count: next_access_count(row.access_count),
        last_accessed: Some(now),
        created_at: row.created_at,
    }
}

/// Whether `stored` is the hash of `path` and `content` at `timestamp`.
pub open spec fn hash_agrees(
    stored: Seq<char>,
    timestamp: Seq<char>,
    path: Seq<char>,
    content: Seq<char>,
) -> bool {
    stored == chunk_hash(path, content, timestamp)
}

/// Recomputes the hash of `path` and `content` at `timestamp` and compares
/// it with the stored one.
pub fn check_hash(stored: &str, timestamp: &str, path: &str, content: &str) -> (agrees: bool)
    ensures
        agrees == hash_agrees(stored@, timestamp@, path@, content@),
{
    let computed = compute_chunk_hash(path, content, timestamp);
    str_eq(stored, computed.as_str())
}

/// What a check of content against the recorded hash finds.
#[derive(Debug, Clone, Copy, PartialEq, Eq, Structural)]
pub enum CheckOutcome {
    /// The content is what was recorded.
    Verified,
    /// A hash is recorded and the content does not have it. This is what a
    /// caller warns of.
    Mismatch,
    /// No hash is recorded for the chunk.
    NotRecorded,
}

/// The outcome of checking `path` and `content` against what is stored for
/// a chunk: its hash and timestamp, or nothing.
pub open spec fn outcome_of(
    stored: Option<(Seq<char>, Seq<char>)>,
    path: Seq<char>,
    content: Seq<char>,
) -> CheckOutcome {
    match stored {
        None => CheckOutcome::NotRecorded,
        Some((hash, timestamp)) => if hash_agrees(hash, timestamp, path, content) {
            CheckOutcome::Verified
        } else {
            CheckOutcome::Mismatch
        },
    }
}

/// Checks `path` and `content` against the hash and timestamp that were
/// loaded for a chunk.
pub fn check_stored(stored: Option<(&str, &str)>, path: &str, content: &str) -> (outcome:
    CheckOutcome)
    ensures
        outcome == outcome_of(
            match stored {
                Some((hash, timestamp)) => Some((hash@, timestamp@)),
                None => None,
            },
            path@,
            content@,
        ),
{
    match stored {
        None => CheckOutcome::NotRecorded,
        Some((hash, timestamp)) => {
            if check_hash(hash, timestamp, path, content) {
                CheckOutcome::Verified
            } else {
                CheckOutcome::Mismatch
            }
        },
    }
}

impl HashRecord {
    /// Builds the row for `content` recorded at the instant `now`.
    pub fn recorded(
        chunk_id: &str,
        path: &str,
        content: &str,
        provenance: &Provenance,
        now: &str,
    ) -> (row: HashRecord)
        ensures
            row@ == recorded_row(chunk_id@, path@, content@, provenance@, now@),
            is_hash_text(row@.hash),
    {
        HashRecord {
            chunk_id: chunk_id.to_owned(),
            path: path.to_owned(),
            hash: compute_chunk_hash(path, content, now),
            timestamp: now.to_owned(),
            provenance: provenance.clone(),
            access_count: 0,
            last_accessed: None,
            created_at: now.to_owned(),
        }
    }

    /// Whether the stored hash is the hash of `path` and `content` at the
    /// stored timestamp.
    pub fn matches(&self, path: &str, content: &str) -> (agrees: bool)
        ensures
            agrees == hash_agrees(self@.hash, self@.timestamp, path@, content@),
    {
        check_hash(self.hash.as_str(), self.timestamp.as_str(), path, content)
    }

    /// Counts one more successful verification, made at the instant `now`.
    pub fn accessed(self, now: &str) -> (row: HashRecord)
        ensures
            row@ == accessed_row(self@, now@),
    {
        let count: i64 = if self.access_count < i64::MAX {
            self.access_count + 1
        } else {
            self.access_count
        };
        HashRecord {
            chunk_id: self.chunk_id,
            path: self.path,
            hash: self.hash,
            timestamp: self.timestamp,
            provenance: self.provenance,
            access_count: count,
            last_accessed: Some(now.to_owned()),
            created_at: self.created_at,
        }
    }
}

impl Row for HashRecord {
    open spec fn key_of(row: RecordView) -> Seq<char> {
        row.chunk_id
    }

    open spec fn path_of(row: RecordView) -> Seq<char> {
        row.path
    }

    fn key_text(&self) -> (key: &str) {
        self.chunk_id.as_str()
    }

    fn path_text(&self) -> (path: &str) {
        self.path.as_str()
    }
}

impl Clone for HashRecord {
    fn clone(&self) -> (copy: Self)
        ensures
            copy@ == self@,
    {
        HashRecord {
            chunk_id: self.chunk_id.clone(),
            path: self.path.clone(),
            hash: self.hash.clone(),
            timestamp: self.timestamp.clone(),
            provenance: self.provenance.clone(),
            access_count: self.access_count,
            last_accessed: match &self.last_accessed {
                Some(t) => Some(t.clone()),
                None => None,
            },
            created_at: self.created_at.clone(),
        }
    }
}

} // verus!
