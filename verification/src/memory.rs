//! The memory store as a whole: chunks and their hashes, kept in step.
//!
//! Every chunk is stored together with the hash of its content, and both
//! leave together, so whatever is stored verifies.

use crate::clock::{is_rfc3339_utc, utc_now_rfc3339};
use crate::hashing::{chunk_hash, is_hash_text};
use crate::provenance::{Provenance, ProvenanceView};
use crate::retrieval::{
    answers, candidate_limit, is_top_k, limit_for, search_at, table_after, ScoredChunk,
    VerifiedChunk,
};
use crate::store::{is_scan, Chunk, ChunkStore, ChunkView, Chunks};
use crate::table::{keys_at_path, without_path};
use crate::verification::{
    after_record, after_remove_path, after_verify, verifies, ChunkVerifier, Table,
    VerificationStats,
};
use vstd::prelude::*;

verus! {

/// Whether chunks and hashes are in step: the same chunks have a row in
/// both, at the same path, and the content of every chunk verifies against
/// its hash.
pub open spec fn coherent(chunks: Chunks, hashes: Table) -> bool {
    &&& forall|id: Seq<char>| chunks.contains_key(id) <==> hashes.contains_key(id)
    &&& forall|id: Seq<char>| #[trigger]
        hashes.contains_key(id) ==> hashes[id].path == chunks[id].path && verifies(
            hashes,
            id,
            chunks[id].path,
            chunks[id].content,
        )
}

/// Checks do not disturb what is recorded: after any number of them the
/// same chunks have rows, with the hash, timestamp and path that they had.
pub proof fn lemma_checks_keep_hashes(table: Table, checked: Seq<ScoredChunk>, now: Seq<char>)
    ensures
        forall|id: Seq<char>|
            table_after(table, checked, now).contains_key(id) <==> table.contains_key(id),
        forall|id: Seq<char>| #[trigger]
            table.contains_key(id) ==> {
                &&& table_after(table, checked, now)[id].hash == table[id].hash
                &&& table_after(table, checked, now)[id].timestamp == table[id].timestamp
                &&& table_after(table, checked, now)[id].path == table[id].path
            },
    decreases checked.len(),
{
    if checked.len() > 0 {
        lemma_checks_keep_hashes(table, checked.drop_last(), now);
        let before = table_after(table, checked.drop_last(), now);
        let c = checked.last();
        assert(table_after(table, checked, now) == after_verify(
            before,
            c.chunk_id@,
            c.path@,
            c.content@,
            now,
        ));
        assert forall|id: Seq<char>| #[trigger] table.contains_key(id) implies {
            &&& table_after(table, checked, now)[id].hash == table[id].hash
            &&& table_after(table, checked, now)[id].timestamp == table[id].timestamp
            &&& table_after(table, checked, now)[id].path == table[id].path
        } by {
            assert(before.contains_key(id));
        }
    }
}

/// Checks keep chunks and hashes in step.
pub proof fn lemma_checks_keep_coherence(
    chunks: Chunks,
    hashes: Table,
    checked: Seq<ScoredChunk>,
    now: Seq<char>,
)
    requires
        coherent(chunks, hashes),
    ensures
        coherent(chunks, table_after(hashes, checked, now)),
{
    lemma_checks_keep_hashes(hashes, checked, now);
    let after = table_after(hashes, checked, now);
    assert forall|id: Seq<char>| #[trigger] after.contains_key(id) implies after[id].path
        == chunks[id].path && verifies(after, id, chunks[id].path, chunks[id].content) by {
        assert(hashes.contains_key(id));
    }
}

/// What is stored verifies: when chunks and hashes are in step and every
/// candidate of a search is a stored chunk with its stored path and
/// content, every result of the search is verified.
pub proof fn lemma_stored_chunks_verify(
    chunks: Chunks,
    hashes: Table,
    ranked: Seq<ScoredChunk>,
    results: Seq<VerifiedChunk>,
    now: Seq<char>,
)
    requires
        coherent(chunks, hashes),
        answers(results, hashes, ranked, now),
        forall|i: int|
            0 <= i < ranked.len() ==> chunks.contains_key((#[trigger] ranked[i]).chunk_id@)
                && chunks[ranked[i].chunk_id@].path == ranked[i].path@
                && chunks[ranked[i].chunk_id@].content == ranked[i].content@,
    ensures
        forall|i: int| 0 <= i < results.len() ==> (#[trigger] results[i]).verified,
{
    assert forall|i: int| 0 <= i < results.len() implies (#[trigger] results[i]).verified by {
        let before = table_after(hashes, ranked.take(i), now);
        lemma_checks_keep_coherence(chunks, hashes, ranked.take(i), now);
        let id = ranked[i].chunk_id@;
        assert(chunks.contains_key(id));
        assert(before.contains_key(id));
        assert(verifies(before, id, ranked[i].path@, ranked[i].content@));
        assert(results[i]@.verified);
    }
}

/// The chunks after each of `items` was stored in turn.
pub open spec fn chunks_after(chunks: Chunks, items: Seq<Chunk>) -> Chunks
    decreases items.len(),
{
    if items.len() == 0 {
        chunks
    } else {
        chunks_after(chunks, items.drop_last()).insert(items.last()@.chunk_id, items.last()@)
    }
}

/// The hashes after the hash of each of `items` was recorded in turn at the
/// instant `now`.
pub open spec fn hashes_after(
    hashes: Table,
    items: Seq<Chunk>,
    provenance: ProvenanceView,
    now: Seq<char>,
) -> Table
    decreases items.len(),
{
    if items.len() == 0 {
        hashes
    } else {
        after_record(
            hashes_after(hashes, items.drop_last(), provenance, now),
            items.last()@.chunk_id,
            items.last()@.path,
            items.last()@.content,
            provenance,
            now,
        )
    }
}

/// A memory store: the chunks and the hashes recorded for them.
pub struct MemoryCore {
    store: ChunkStore,
    verifier: ChunkVerifier,
}

impl MemoryCore {
    #[verifier::type_invariant]
    spec fn in_step(self) -> bool {
        coherent(self.store@, self.verifier@)
    }

    /// The chunks that are stored.
    pub closed spec fn chunks(&self) -> Chunks {
        self.store@
    }

    /// The hashes that are recorded.
    pub closed spec fn hashes(&self) -> Table {
        self.verifier@
    }

    /// Creates an empty store.
    pub fn new() -> (core: MemoryCore)
        ensures
            core.chunks() == Map::<Seq<char>, ChunkView>::empty(),
            core.hashes() == Map::<Seq<char>, crate::record::RecordView>::empty(),
    {
        MemoryCore { store: ChunkStore::new(), verifier: ChunkVerifier::new() }
    }

    /// Moves chunks and hashes out and leaves the store empty.
    fn take_parts(&mut self) -> (parts: (ChunkStore, ChunkVerifier))
        ensures
            parts.0@ == old(self).chunks(),
            parts.1@ == old(self).hashes(),
            coherent(parts.0@, parts.1@),
    {
        proof {
            use_type_invariant(&*self);
        }
        let mut taken = MemoryCore::new();
        core::mem::swap(self, &mut taken);
        let MemoryCore { store, verifier } = taken;
        (store, verifier)
    }

    /// Stores a chunk and records the hash of its content as of the instant
    /// `now`, in place of what was stored for its identifier.
    pub fn ingest_at(&mut self, chunk: Chunk, provenance: &Provenance, now: &str) -> (hash: String)
        ensures
            final(self).chunks() == old(self).chunks().insert(chunk@.chunk_id, chunk@),
            final(self).hashes() == after_record(
                old(self).hashes(),
                chunk@.chunk_id,
                chunk@.path,
                chunk@.content,
                provenance@,
                now@,
            ),
            hash@ == chunk_hash(chunk@.path, chunk@.content, now@),
            is_hash_text(hash@),
            coherent(final(self).chunks(), final(self).hashes()),
    {
        let (mut store, mut verifier) = self.take_parts();
        let hash = verifier.record_hash_at(
            chunk.chunk_id.as_str(),
            chunk.path.as_str(),
            chunk.content.as_str(),
            provenance,
            now,
        );
        let _ = store.insert(chunk);
        *self = MemoryCore { store, verifier };
        hash
    }

    /// Stores a chunk and records the hash of its content as of the current
    /// instant: the reading of the clock, written in UTC.
    pub fn ingest(&mut self, chunk: Chunk, provenance: &Provenance) -> (hash: String)
        ensures
            final(self).chunks() == old(self).chunks().insert(chunk@.chunk_id, chunk@),
            final(self).hashes() == after_record(
                old(self).hashes(),
                chunk@.chunk_id,
                chunk@.path,
                chunk@.content,
                provenance@,
                final(self).hashes()[chunk@.chunk_id].timestamp,
            ),
            is_rfc3339_utc(final(self).hashes()[chunk@.chunk_id].timestamp),
            hash@ == final(self).hashes()[chunk@.chunk_id].hash,
            is_hash_text(hash@),
            coherent(final(self).chunks(), final(self).hashes()),
    {
        let now = utc_now_rfc3339();
        self.ingest_at(chunk, provenance, now.as_str())
    }

    /// Removes every chunk at `path` together with its hash, and returns how
    /// many chunks there were.
    pub fn delete_path(&mut self, path: &str) -> (removed: usize)
        ensures
            final(self).chunks() == without_path::<Chunk>(old(self).chunks(), path@),
            final(self).hashes() == after_remove_path(old(self).hashes(), path@),
            removed == keys_at_path::<Chunk>(old(self).chunks(), path@).len(),
            coherent(final(self).chunks(), final(self).hashes()),
    {
        let (mut store, mut verifier) = self.take_parts();
        let _ = verifier.remove_hashes_for_path(path);
        let removed = store.delete_by_path(path);
        *self = MemoryCore { store, verifier };
        removed
    }

    /// Indexes a path again as of the instant `now`: removes every chunk at
    /// `path` together with its hash, then stores each of `items` and
    /// records its hash, in order. Returns how many chunks were removed.
    pub fn reindex_at(
        &mut self,
        path: &str,
        items: &Vec<Chunk>,
        provenance: &Provenance,
        now: &str,
    ) -> (removed: usize)
        ensures
            final(self).chunks() == chunks_after(
                without_path::<Chunk>(old(self).chunks(), path@),
                items@,
            ),
            final(self).hashes() == hashes_after(
                after_remove_path(old(self).hashes(), path@),
                items@,
                provenance@,
                now@,
            ),
            removed == keys_at_path::<Chunk>(old(self).chunks(), path@).len(),
            coherent(final(self).chunks(), final(self).hashes()),
    {
        let removed = self.delete_path(path);
        let ghost chunks = self.chunks();
        let ghost hashes = self.hashes();
        let mut i: usize = 0;
        assert(items@.take(0) =~= Seq::<Chunk>::empty());
        while i < items.len()
            invariant
                i <= items.len(),
                self.chunks() == chunks_after(chunks, items@.take(i as int)),
                self.hashes() == hashes_after(hashes, items@.take(i as int), provenance@, now@),
                coherent(self.chunks(), self.hashes()),
            decreases items.len() - i,
        {
            proof {
                assert(items@.take(i as int + 1).drop_last() =~= items@.take(i as int));
                assert(items@.take(i as int + 1).last() == items@[i as int]);
            }
            let _ = self.ingest_at(items[i].clone(), provenance, now);
            i = i + 1;
        }
        assert(items@.take(i as int) =~= items@);
        removed
    }

    /// Looks up a chunk.
    pub fn get(&self, chunk_id: &str) -> (found: Option<Chunk>)
        ensures
            found is Some <==> self.chunks().contains_key(chunk_id@),
            found matches Some(chunk) ==> chunk@ == self.chunks()[chunk_id@],
    {
        self.store.get(chunk_id)
    }

    /// Scans the candidates for a search that asks for `k` results.
    pub fn candidates(&self, k: usize) -> (scanned: Vec<Chunk>)
        ensures
            is_scan(scanned@, self.chunks(), limit_for(k)),
    {
        self.store.scan_candidates(candidate_limit(k))
    }

    /// Ranks the scored candidates, keeps the best `k`, checks each of them
    /// in turn at the instant `now` and returns their results in ranking
    /// order.
    pub fn search_at(&mut self, candidates: Vec<ScoredChunk>, k: usize, now: &str) -> (results: Vec<
        VerifiedChunk,
    >)
        ensures
            final(self).chunks() == old(self).chunks(),
            coherent(final(self).chunks(), final(self).hashes()),
            exists|ranked: Seq<ScoredChunk>|
                {
                    &&& #[trigger] is_top_k(ranked, candidates@, k as nat)
                    &&& answers(results@, old(self).hashes(), ranked, now@)
                    &&& final(self).hashes() == table_after(old(self).hashes(), ranked, now@)
                },
    {
        let (store, mut verifier) = self.take_parts();
        let ghost before = verifier@;
        let results = search_at(&mut verifier, candidates, k, now);
        proof {
            let ranked = choose|ranked: Seq<ScoredChunk>|
                {
                    &&& #[trigger] is_top_k(ranked, candidates@, k as nat)
                    &&& answers(results@, before, ranked, now@)
                    &&& verifier@ == table_after(before, ranked, now@)
                };
            lemma_checks_keep_coherence(store@, before, ranked, now@);
        }
        *self = MemoryCore { store, verifier };
        results
    }

    /// Counts the hashes, in all and by provenance.
    pub fn stats(&self) -> (stats: VerificationStats)
        ensures
            stats.describes(self.hashes()),
    {
        self.verifier.stats()
    }
}

} // verus!
