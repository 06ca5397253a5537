//! The table of chunk hashes, and the operations that record a hash at
//! index time and verify content against it at retrieval time.

use crate::clock::{is_rfc3339_utc, utc_now_rfc3339};
use crate::confidence::{confidence_for, confidence_of, Confidence};
use crate::hashing::{chunk_hash, is_hash_text};
use crate::provenance::{Provenance, ProvenanceView};
use crate::record::{
    accessed_row, check_stored, hash_agrees, outcome_of, recorded_row, CheckOutcome, HashRecord,
    RecordView,
};
use crate::stats::tally;
use crate::table::{without_path, Rows};
use vstd::prelude::*;

pub use crate::stats::VerificationStats;

verus! {

/// The table as a map from chunk identifier to row.
pub type Table = Map<Seq<char>, RecordView>;

/// Whether the content of a chunk verifies against a table: the chunk has a
/// row, and the row's hash is the hash of `path` and `content` at the row's
/// own timestamp.
pub open spec fn verifies(
    table: Table,
    chunk_id: Seq<char>,
    path: Seq<char>,
    content: Seq<char>,
) -> bool {
    &&& table.contains_key(chunk_id)
    &&& hash_agrees(table[chunk_id].hash, table[chunk_id].timestamp, path, content)
}

/// What a check of `path` and `content` against a table finds: whether the
/// chunk has a row, and if so whether the row's hash is theirs.
pub open spec fn check_of(
    table: Table,
    chunk_id: Seq<char>,
    path: Seq<char>,
    content: Seq<char>,
) -> CheckOutcome {
    if table.contains_key(chunk_id) {
        outcome_of(Some((table[chunk_id].hash, table[chunk_id].timestamp)), path, content)
    } else {
        outcome_of(None, path, content)
    }
}

/// The table after the hash of `content` was recorded at the instant `now`.
/// A row that the chunk had before is replaced.
pub open spec fn after_record(
    table: Table,
    chunk_id: Seq<char>,
    path: Seq<char>,
    content: Seq<char>,
    provenance: ProvenanceView,
    now: Seq<char>,
) -> Table {
    table.insert(chunk_id, recorded_row(chunk_id, path, content, provenance, now))
}

/// The table after `content` was checked at the instant `now`: the chunk's
/// row counts one more access if the content verified, and nothing changes
/// if it did not.
pub open spec fn after_verify(
    table: Table,
    chunk_id: Seq<char>,
    path: Seq<char>,
    content: Seq<char>,
    now: Seq<char>,
) -> Table {
    if verifies(table, chunk_id, path, content) {
        table.insert(chunk_id, accessed_row(table[chunk_id], now))
    } else {
        table
    }
}

/// The table without the rows whose path is `path`.
pub open spec fn after_remove_path(table: Table, path: Seq<char>) -> Table {
    table.restrict(Set::new(|id: Seq<char>| table[id].path != path))
}

/// The chunks whose row has the path `path`.
pub open spec fn chunks_at_path(table: Table, path: Seq<char>) -> Set<Seq<char>> {
    table.dom().filter(|id: Seq<char>| table[id].path == path)
}

/// What a row tells of its chunk: hash, provenance, access count and the
/// instant of the latest successful verification.
pub open spec fn info_of(row: RecordView) -> (Seq<char>, ProvenanceView, int, Option<Seq<char>>) {
    (row.hash, row.provenance, row.access_count, row.last_accessed)
}

/// Content that was just recorded verifies: after the hash of `content` has
/// been recorded for a chunk, checking the same path and content against
/// the table succeeds, whatever the table held before and whatever the
/// instant of recording was.
pub proof fn lemma_recorded_content_verifies(
    table: Table,
    chunk_id: Seq<char>,
    path: Seq<char>,
    content: Seq<char>,
    provenance: ProvenanceView,
    now: Seq<char>,
)
    ensures
        verifies(
            after_record(table, chunk_id, path, content, provenance, now),
            chunk_id,
            path,
            content,
        ),
{
}

/// A successful check does not disturb later checks: it leaves hash and
/// timestamp as they were, so the same content verifies again and other
/// content fares as it would have before.
pub proof fn lemma_check_is_repeatable(
    table: Table,
    chunk_id: Seq<char>,
    path: Seq<char>,
    content: Seq<char>,
    now: Seq<char>,
    other_path: Seq<char>,
    other_content: Seq<char>,
)
    ensures
        verifies(
            after_verify(table, chunk_id, path, content, now),
            chunk_id,
            other_path,
            other_content,
        ) == verifies(table, chunk_id, other_path, other_content),
{
}

/// Changed content does not verify: once the hash of `content` has been
/// recorded, content whose hash at the recorded instant differs from the
/// recorded hash fails the check, before and after the recorded content was
/// checked itself, and the failed check leaves the table as it was. Two
/// contents with the same hash cannot be told apart, and are left out.
pub proof fn lemma_changed_content_fails(
    table: Table,
    chunk_id: Seq<char>,
    path: Seq<char>,
    content: Seq<char>,
    changed: Seq<char>,
    provenance: ProvenanceView,
    now: Seq<char>,
    later: Seq<char>,
)
    requires
        chunk_hash(path, changed, now) != chunk_hash(path, content, now),
    ensures
        ({
            let recorded = after_record(table, chunk_id, path, content, provenance, now);
            let checked = after_verify(recorded, chunk_id, path, content, later);
            &&& !verifies(recorded, chunk_id, path, changed)
            &&& !verifies(checked, chunk_id, path, changed)
            &&& after_verify(checked, chunk_id, path, changed, later) == checked
        }),
{
}

/// Every successful check is counted: it raises the access count of the
/// chunk by one and sets the instant of its last access. A count that
/// already stands at the largest value that fits cannot rise, and is left
/// out.
pub proof fn lemma_successful_check_is_counted(
    table: Table,
    chunk_id: Seq<char>,
    path: Seq<char>,
    content: Seq<char>,
    now: Seq<char>,
)
    requires
        verifies(table, chunk_id, path, content),
        table[chunk_id].access_count < i64::MAX,
    ensures
        after_verify(table, chunk_id, path, content, now)[chunk_id].access_count
            == table[chunk_id].access_count + 1,
        after_verify(table, chunk_id, path, content, now)[chunk_id].access_count
            > table[chunk_id].access_count,
        after_verify(table, chunk_id, path, content, now)[chunk_id].last_accessed == Some(now),
{
}

/// A failed check changes nothing: neither the access count nor the stored
/// hash of any chunk.
pub proof fn lemma_failed_check_changes_nothing(
    table: Table,
    chunk_id: Seq<char>,
    path: Seq<char>,
    content: Seq<char>,
    now: Seq<char>,
)
    requires
        !verifies(table, chunk_id, path, content),
    ensures
        after_verify(table, chunk_id, path, content, now) == table,
{
}

/// The hashes recorded for the chunks of a memory store, one row for each
/// chunk.
pub struct ChunkVerifier {
    table: Rows<HashRecord>,
}

impl View for ChunkVerifier {
    type V = Table;

    closed spec fn view(&self) -> Table {
        self.table@
    }
}

impl ChunkVerifier {
    /// Creates a verifier with an empty table.
    pub fn new() -> (verifier: ChunkVerifier)
        ensures
            verifier@ == Map::<Seq<char>, RecordView>::empty(),
    {
        ChunkVerifier { table: Rows::new() }
    }

    /// Writes `row` into the table, in place of the row that its chunk had.
    pub fn put(&mut self, row: HashRecord)
        ensures
            final(self)@ == old(self)@.insert(row@.chunk_id, row@),
    {
        self.table.put(row);
    }

    /// Records the hash of `content` as of the instant `now` and returns it.
    pub fn record_hash_at(
        &mut self,
        chunk_id: &str,
        path: &str,
        content: &str,
        provenance: &Provenance,
        now: &str,
    ) -> (hash: String)
        ensures
            final(self)@ == after_record(old(self)@, chunk_id@, path@, content@, provenance@, now@),
            hash@ == chunk_hash(path@, content@, now@),
            is_hash_text(hash@),
    {
        let row = HashRecord::recorded(chunk_id, path, content, provenance, now);
        let hash = row.hash.clone();
        self.put(row);
        hash
    }

    /// Records the hash of `content` as of the current instant and returns
    /// it. The instant bound into the hash is the timestamp of the new row:
    /// the reading of the clock, written in UTC.
    pub fn record_hash(
        &mut self,
        chunk_id: &str,
        path: &str,
        content: &str,
        provenance: &Provenance,
    ) -> (hash: String)
        ensures
            final(self)@ == after_record(
                old(self)@,
                chunk_id@,
                path@,
                content@,
                provenance@,
                final(self)@[chunk_id@].timestamp,
            ),
            is_rfc3339_utc(final(self)@[chunk_id@].timestamp),
            hash@ == final(self)@[chunk_id@].hash,
            is_hash_text(hash@),
    {
        let now = utc_now_rfc3339();
        self.record_hash_at(chunk_id, path, content, provenance, now.as_str())
    }

    /// Checks `content` against the recorded hash of the chunk, as of the
    /// instant `now`, and tells a failed check from a missing row. A
    /// successful check counts as an access; any other leaves the table as
    /// it was.
    pub fn check_chunk_at(
        &mut self,
        chunk_id: &str,
        path: &str,
        content: &str,
        now: &str,
    ) -> (outcome: CheckOutcome)
        ensures
            outcome == check_of(old(self)@, chunk_id@, path@, content@),
            outcome == CheckOutcome::Verified <==> verifies(old(self)@, chunk_id@, path@, content@),
            final(self)@ == after_verify(old(self)@, chunk_id@, path@, content@, now@),
    {
        let outcome = match self.table.get(chunk_id) {
            Some(row) => check_stored(
                Some((row.hash.as_str(), row.timestamp.as_str())),
                path,
                content,
            ),
            None => check_stored(None, path, content),
        };
        if outcome == CheckOutcome::Verified {
            match self.table.take(chunk_id) {
                Some(row) => {
                    self.table.put(row.accessed(now));
                    assert(self@ =~= after_verify(old(self)@, chunk_id@, path@, content@, now@));
                },
                None => {},
            }
        }
        outcome
    }

    /// Checks `content` against the recorded hash of the chunk, as of the
    /// instant `now`. A chunk without a row does not verify. A successful
    /// check counts as an access; a failed one leaves the table as it was.
    pub fn verify_chunk_at(
        &mut self,
        chunk_id: &str,
        path: &str,
        content: &str,
        now: &str,
    ) -> (verified: bool)
        ensures
            verified == verifies(old(self)@, chunk_id@, path@, content@),
            final(self)@ == after_verify(old(self)@, chunk_id@, path@, content@, now@),
    {
        self.check_chunk_at(chunk_id, path, content, now) == CheckOutcome::Verified
    }

    /// Checks `content` against the recorded hash of the chunk, as of the
    /// current instant.
    pub fn verify_chunk(&mut self, chunk_id: &str, path: &str, content: &str) -> (verified: bool)
        ensures
            verified == verifies(old(self)@, chunk_id@, path@, content@),
            !verified ==> final(self)@ == old(self)@,
            verified ==> final(self)@ == after_verify(
                old(self)@,
                chunk_id@,
                path@,
                content@,
                final(self)@[chunk_id@].last_accessed->0,
            ),
            verified ==> final(self)@[chunk_id@].last_accessed is Some && is_rfc3339_utc(
                final(self)@[chunk_id@].last_accessed->0,
            ),
            verified && old(self)@[chunk_id@].access_count < i64::MAX
                ==> final(self)@[chunk_id@].access_count > old(self)@[chunk_id@].access_count,
    {
        let now = utc_now_rfc3339();
        self.verify_chunk_at(chunk_id, path, content, now.as_str())
    }

    /// Looks up what is recorded for a chunk.
    pub fn get_chunk_info(&self, chunk_id: &str) -> (info: Option<
        (String, Provenance, i64, Option<String>),
    >)
        ensures
            info is Some <==> self@.contains_key(chunk_id@),
            info matches Some((hash, provenance, access_count, last_accessed)) ==> (
                hash@,
                provenance@,
                access_count as int,
                crate::record::text_option(last_accessed),
            ) == info_of(self@[chunk_id@]),
    {
        match self.table.get(chunk_id) {
            Some(row) => {
                let last_accessed = match &row.last_accessed {
                    Some(t) => Some(t.clone()),
                    None => None,
                };
                Some((row.hash.clone(), row.provenance.clone(), row.access_count, last_accessed))
            },
            None => None,
        }
    }

    /// The number of chunks that have a row.
    pub fn len(&self) -> (n: usize)
        ensures
            self@.dom().finite(),
            n == self@.dom().len(),
    {
        self.table.len()
    }

    /// Removes the rows of every chunk at `path`, as is done before the path
    /// is indexed again, and returns how many there were.
    pub fn remove_hashes_for_path(&mut self, path: &str) -> (removed: usize)
        ensures
            final(self)@ == after_remove_path(old(self)@, path@),
            removed == chunks_at_path(old(self)@, path@).len(),
    {
        let removed = self.table.remove_path(path);
        proof {
            assert(after_remove_path(old(self)@, path@) =~= without_path::<HashRecord>(
                old(self)@,
                path@,
            ));
            assert(chunks_at_path(old(self)@, path@) =~= crate::table::keys_at_path::<HashRecord>(
                old(self)@,
                path@,
            ));
        }
        removed
    }

    /// Counts the rows, in all and by provenance.
    pub fn stats(&self) -> (stats: VerificationStats)
        ensures
            stats.describes(self@),
    {
        let total = self.table.len();
        tally(self.table.rows(), total)
    }

    /// Derives the confidence of a retrieved chunk from whether it verified,
    /// where it came from and how often it has been read. The instant of the
    /// last access plays no part.
    pub fn calculate_confidence(
        &self,
        verified: bool,
        provenance: &Provenance,
        access_count: i64,
        _last_accessed: &Option<String>,
    ) -> (level: Confidence)
        ensures
            level == confidence_of(verified, provenance@, access_count as int),
    {
        confidence_for(verified, provenance, access_count)
    }
}

} // verus!
