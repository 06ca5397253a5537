//! Retrieval: ranking scored candidates, verifying the best of them and
//! attaching provenance and confidence to each result.

use crate::clock::{is_rfc3339_utc, utc_now_rfc3339};
use crate::confidence::{confidence_of, Confidence};
use crate::provenance::{Provenance, ProvenanceView};
use crate::verification::{after_verify, verifies, ChunkVerifier, Table};
use crate::ranking::{
    bytes_le, lemma_lex_total, lemma_lex_transitive, lex_le, score_key, score_rank,
};
use vstd::multiset::Multiset;
use vstd::prelude::*;
use vstd::seq_lib::{to_multiset_build, to_multiset_remove};
use vstd::utf8::encode_utf8;

verus! {

/// How many candidates are scanned for each result that is asked for.
pub const OVERFETCH: usize = 4;

/// The number of candidates to scan for `k` results: `k` times the
/// overfetch factor, or as many as can be counted.
pub open spec fn limit_for(k: usize) -> nat {
    if k * OVERFETCH <= usize::MAX {
        (k * OVERFETCH) as nat
    } else {
        usize::MAX as nat
    }
}

/// Computes the number of candidates to scan for `k` results.
pub fn candidate_limit(k: usize) -> (limit: usize)
    ensures
        limit == limit_for(k),
{
    if k > usize::MAX / OVERFETCH {
        usize::MAX
    } else {
        k * OVERFETCH
    }
}

/// A stored chunk with the similarity of its embedding to the query. The
/// similarity is carried as the bit pattern of a single-precision number.
#[derive(Debug)]
pub struct ScoredChunk {
    pub chunk_id: String,
    pub path: String,
    pub line_start: i32,
    pub line_end: i32,
    pub content: String,
    pub score_bits: u32,
}

/// Whether `a` is returned no later than `b`: it has the higher score, or
/// the same score and a chunk identifier that comes no later.
pub open spec fn ranks_before(a: ScoredChunk, b: ScoredChunk) -> bool {
    ||| score_rank(a.score_bits) > score_rank(b.score_bits)
    ||| (score_rank(a.score_bits) == score_rank(b.score_bits) && lex_le(
        encode_utf8(a.chunk_id@),
        encode_utf8(b.chunk_id@),
    ))
}

/// Whether the chunks stand in the order in which they are returned.
pub open spec fn is_ranked(chunks: Seq<ScoredChunk>) -> bool {
    forall|i: int, j: int| 0 <= i < j < chunks.len() ==> ranks_before(chunks[i], chunks[j])
}

/// Whether `best` holds the first `k` of the candidates in ranking order, or
/// all of them where they are fewer.
pub open spec fn is_top_k(best: Seq<ScoredChunk>, candidates: Seq<ScoredChunk>, k: nat) -> bool {
    exists|order: Seq<ScoredChunk>|
        {
            &&& #[trigger] order.to_multiset() == candidates.to_multiset()
            &&& is_ranked(order)
            &&& best == order.take(if k <= order.len() { k as int } else { order.len() as int })
        }
}

/// Of two chunks, one is returned no later than the other.
pub proof fn lemma_ranks_total(a: ScoredChunk, b: ScoredChunk)
    ensures
        ranks_before(a, b) || ranks_before(b, a),
{
    lemma_lex_total(encode_utf8(a.chunk_id@), encode_utf8(b.chunk_id@));
}

/// The ranking order is transitive.
pub proof fn lemma_ranks_transitive(a: ScoredChunk, b: ScoredChunk, c: ScoredChunk)
    requires
        ranks_before(a, b),
        ranks_before(b, c),
    ensures
        ranks_before(a, c),
{
    if score_rank(a.score_bits) == score_rank(b.score_bits) && score_rank(b.score_bits)
        == score_rank(c.score_bits) {
        lemma_lex_transitive(
            encode_utf8(a.chunk_id@),
            encode_utf8(b.chunk_id@),
            encode_utf8(c.chunk_id@),
        );
    }
}

/// Decides whether `a` is returned no later than `b`.
pub fn precedes(a: &ScoredChunk, b: &ScoredChunk) -> (first: bool)
    ensures
        first == ranks_before(*a, *b),
{
    let ka: i64 = score_key(a.score_bits);
    let kb: i64 = score_key(b.score_bits);
    if ka != kb {
        ka > kb
    } else {
        bytes_le(a.chunk_id.as_str().as_bytes(), b.chunk_id.as_str().as_bytes())
    }
}

/// Puts `chunk` into a ranked list at the place that keeps the list ranked.
fn insert_ranked(order: &mut Vec<ScoredChunk>, chunk: ScoredChunk)
    requires
        is_ranked(old(order)@),
    ensures
        is_ranked(final(order)@),
        final(order)@.to_multiset() == old(order)@.to_multiset().insert(chunk),
{
    let mut p: usize = 0;
    while p < order.len() && precedes(&order[p], &chunk)
        invariant
            p <= order.len(),
            forall|j: int| 0 <= j < p ==> ranks_before(order[j], chunk),
        decreases order.len() - p,
    {
        p = p + 1;
    }
    let ghost before = order@;
    order.insert(p, chunk);
    proof {
        let after = order@;
        assert forall|i: int, j: int| 0 <= i < j < after.len() implies ranks_before(
            after[i],
            after[j],
        ) by {
            if j < p {
                assert(ranks_before(before[i], before[j]));
            } else if j == p {
                assert(ranks_before(before[i], chunk));
            } else if i == p {
                lemma_ranks_total(before[p as int], chunk);
                if j - 1 > p {
                    assert(ranks_before(before[p as int], before[j - 1]));
                    lemma_ranks_transitive(chunk, before[p as int], before[j - 1]);
                }
            } else if i < p {
                assert(ranks_before(before[i], before[j - 1]));
            } else {
                assert(ranks_before(before[i - 1], before[j - 1]));
            }
        }
        assert(after.remove(p as int) =~= before);
        to_multiset_remove(after, p as int);
        after.to_multiset_ensures();
        assert(after[p as int] == chunk);
        assert(after.contains(chunk));
        assert(after.to_multiset().count(chunk) > 0);
        assert(after.to_multiset() =~= after.to_multiset().remove(chunk).insert(chunk));
    }
}

/// Ranks the candidates and keeps the first `k` of them.
pub fn rank_top_k(candidates: Vec<ScoredChunk>, k: usize) -> (best: Vec<ScoredChunk>)
    ensures
        is_top_k(best@, candidates@, k as nat),
{
    let mut rest = candidates;
    let mut order: Vec<ScoredChunk> = Vec::new();
    assert(order@.to_multiset().add(rest@.to_multiset()) =~= candidates@.to_multiset()) by {
        assert(order@.to_multiset() =~= Multiset::<ScoredChunk>::empty()) by {
            order@.to_multiset_ensures();
        }
    }
    while rest.len() > 0
        invariant
            is_ranked(order@),
            order@.to_multiset().add(rest@.to_multiset()) == candidates@.to_multiset(),
        decreases rest.len(),
    {
        let ghost remaining = rest@;
        let ghost placed = order@;
        let chunk = rest.pop().unwrap();
        proof {
            assert(remaining =~= rest@.push(chunk));
            to_multiset_build(rest@, chunk);
        }
        insert_ranked(&mut order, chunk);
        assert(order@.to_multiset().add(rest@.to_multiset()) =~= placed.to_multiset().add(
            remaining.to_multiset(),
        ));
    }
    proof {
        rest@.to_multiset_ensures();
        assert(rest@.to_multiset() =~= Multiset::<ScoredChunk>::empty());
        assert(order@.to_multiset() =~= candidates@.to_multiset());
    }
    let ghost full = order@;
    if k < order.len() {
        order.truncate(k);
        assert(order@ =~= full.take(k as int));
    } else {
        assert(order@ =~= full.take(full.len() as int));
    }
    order
}

/// The number of characters of a hash that a citation shows.
pub const PREFIX_LEN: usize = 8;

/// The first characters of a hash, as a citation shows them: eight, or all
/// of them where the text is shorter.
pub open spec fn prefix_of(hash: Seq<char>) -> Seq<char> {
    if hash.len() <= PREFIX_LEN {
        hash
    } else {
        hash.take(PREFIX_LEN as int)
    }
}

/// Takes the first characters of a hash.
pub fn hash_prefix(hash: &str) -> (prefix: String)
    ensures
        prefix@ == prefix_of(hash@),
{
    let n: usize = hash.unicode_len();
    let m: usize = if n <= PREFIX_LEN {
        n
    } else {
        PREFIX_LEN
    };
    let prefix = hash.substring_char(0, m).to_owned();
    assert(prefix@ =~= prefix_of(hash@));
    prefix
}

/// A search result with the outcome of its verification.
#[derive(Debug)]
pub struct VerifiedChunk {
    /// The path of the chunk.
    pub file: String,
    pub line_start: i32,
    pub line_end: i32,
    pub content: String,
    /// The similarity to the query, as the bit pattern of a single-precision
    /// number.
    pub score_bits: u32,
    /// Whether the content is what was recorded.
    pub verified: bool,
    /// The first eight characters of `hash`.
    pub hash_prefix: String,
    /// The recorded hash; empty where none is recorded.
    pub hash: String,
    pub provenance: Provenance,
    pub confidence: Confidence,
}

/// A search result with its texts taken as sequences of characters.
pub struct VerifiedView {
    pub file: Seq<char>,
    pub line_start: i32,
    pub line_end: i32,
    pub content: Seq<char>,
    pub score_bits: u32,
    pub verified: bool,
    pub hash_prefix: Seq<char>,
    pub hash: Seq<char>,
    pub provenance: ProvenanceView,
    pub confidence: Confidence,
}

impl View for VerifiedChunk {
    type V = VerifiedView;

    open spec fn view(&self) -> VerifiedView {
        VerifiedView {
            file: self.file@,
            line_start: self.line_start,
            line_end: self.line_end,
            content: self.content@,
            score_bits: self.score_bits,
            verified: self.verified,
            hash_prefix: self.hash_prefix@,
            hash: self.hash@,
            provenance: self.provenance@,
            confidence: self.confidence,
        }
    }
}

/// The reference by which a result is quoted: the hash prefix and the path
/// where the content verified, and the path marked as unverified where it
/// did not.
pub open spec fn citation_text(chunk: VerifiedView) -> Seq<char> {
    if chunk.verified {
        "[VERIFIED:"@ + chunk.hash_prefix + "] "@ + chunk.file
    } else {
        "[UNVERIFIED] "@ + chunk.file
    }
}

impl VerifiedChunk {
    /// Formats the result as a citable reference.
    pub fn to_citation(&self) -> (citation: String)
        ensures
            citation@ == citation_text(self@),
    {
        if self.verified {
            let mut citation = "[VERIFIED:".to_owned();
            citation.append(self.hash_prefix.as_str());
            citation.append("] ");
            citation.append(self.file.as_str());
            citation
        } else {
            let mut citation = "[UNVERIFIED] ".to_owned();
            citation.append(self.file.as_str());
            citation
        }
    }
}

/// The result for `chunk` when it is checked at the instant `now` against
/// the table `before`. What is reported of the row is read after the check,
/// so a successful check is counted in the confidence. A chunk without a
/// row is unverified, of unknown provenance and without a hash.
pub open spec fn result_of(before: Table, chunk: ScoredChunk, now: Seq<char>) -> VerifiedView {
    let verified = verifies(before, chunk.chunk_id@, chunk.path@, chunk.content@);
    let after = after_verify(before, chunk.chunk_id@, chunk.path@, chunk.content@, now);
    if after.contains_key(chunk.chunk_id@) {
        let row = after[chunk.chunk_id@];
        VerifiedView {
            file: chunk.path@,
            line_start: chunk.line_start,
            line_end: chunk.line_end,
            content: chunk.content@,
            score_bits: chunk.score_bits,
            verified,
            hash_prefix: prefix_of(row.hash),
            hash: row.hash,
            provenance: row.provenance,
            confidence: confidence_of(verified, row.provenance, row.access_count),
        }
    } else {
        VerifiedView {
            file: chunk.path@,
            line_start: chunk.line_start,
            line_end: chunk.line_end,
            content: chunk.content@,
            score_bits: chunk.score_bits,
            verified: false,
            hash_prefix: Seq::empty(),
            hash: Seq::empty(),
            provenance: ProvenanceView::Unknown,
            confidence: Confidence::Unverified,
        }
    }
}

/// Checks one chunk at the instant `now` and assembles its result.
pub fn verify_one(verifier: &mut ChunkVerifier, chunk: &ScoredChunk, now: &str) -> (result:
    VerifiedChunk)
    ensures
        result@ == result_of(old(verifier)@, *chunk, now@),
        final(verifier)@ == after_verify(
            old(verifier)@,
            chunk.chunk_id@,
            chunk.path@,
            chunk.content@,
            now@,
        ),
{
    let verified = verifier.verify_chunk_at(
        chunk.chunk_id.as_str(),
        chunk.path.as_str(),
        chunk.content.as_str(),
        now,
    );
    match verifier.get_chunk_info(chunk.chunk_id.as_str()) {
        Some((hash, provenance, access_count, last_accessed)) => {
            let confidence = verifier.calculate_confidence(
                verified,
                &provenance,
                access_count,
                &last_accessed,
            );
            VerifiedChunk {
                file: chunk.path.clone(),
                line_start: chunk.line_start,
                line_end: chunk.line_end,
                content: chunk.content.clone(),
                score_bits: chunk.score_bits,
                verified,
                hash_prefix: hash_prefix(hash.as_str()),
                hash,
                provenance,
                confidence,
            }
        },
        None => VerifiedChunk {
            file: chunk.path.clone(),
            line_start: chunk.line_start,
            line_end: chunk.line_end,
            content: chunk.content.clone(),
            score_bits: chunk.score_bits,
            verified: false,
            hash_prefix: String::new(),
            hash: String::new(),
            provenance: Provenance::Unknown,
            confidence: Confidence::Unverified,
        },
    }
}

/// The table after each of `chunks` was checked in turn at the instant
/// `now`.
pub open spec fn table_after(table: Table, chunks: Seq<ScoredChunk>, now: Seq<char>) -> Table
    decreases chunks.len(),
{
    if chunks.len() == 0 {
        table
    } else {
        let chunk = chunks.last();
        after_verify(
            table_after(table, chunks.drop_last(), now),
            chunk.chunk_id@,
            chunk.path@,
            chunk.content@,
            now,
        )
    }
}

/// Whether `results` are the results for `ranked`, checked in turn at the
/// instant `now` starting from the table `before`: one result for each
/// chunk, in the same order, each against the table as the checks before it
/// left it.
pub open spec fn answers(
    results: Seq<VerifiedChunk>,
    before: Table,
    ranked: Seq<ScoredChunk>,
    now: Seq<char>,
) -> bool {
    &&& results.len() == ranked.len()
    &&& forall|i: int|
        0 <= i < ranked.len() ==> (#[trigger] results[i])@ == result_of(
            table_after(before, ranked.take(i), now),
            ranked[i],
            now,
        )
}

/// Checks each of the ranked chunks in turn at the instant `now`.
pub fn verify_ranked(
    verifier: &mut ChunkVerifier,
    ranked: &Vec<ScoredChunk>,
    now: &str,
) -> (results: Vec<VerifiedChunk>)
    ensures
        answers(results@, old(verifier)@, ranked@, now@),
        final(verifier)@ == table_after(old(verifier)@, ranked@, now@),
{
    let mut results: Vec<VerifiedChunk> = Vec::new();
    let mut i: usize = 0;
    assert(ranked@.take(0) =~= Seq::<ScoredChunk>::empty());
    while i < ranked.len()
        invariant
            i <= ranked.len(),
            results.len() == i,
            verifier@ == table_after(old(verifier)@, ranked@.take(i as int), now@),
            forall|j: int|
                0 <= j < i ==> (#[trigger] results[j])@ == result_of(
                    table_after(old(verifier)@, ranked@.take(j), now@),
                    ranked[j],
                    now@,
                ),
        decreases ranked.len() - i,
    {
        proof {
            assert(ranked@.take(i as int + 1).drop_last() =~= ranked@.take(i as int));
            assert(ranked@.take(i as int + 1).last() == ranked[i as int]);
        }
        let result = verify_one(verifier, &ranked[i], now);
        results.push(result);
        i = i + 1;
    }
    assert(ranked@.take(i as int) =~= ranked@);
    results
}

/// Ranks the scored candidates, keeps the best `k`, checks each of them in
/// turn at the instant `now` and returns their results in ranking order.
pub fn search_at(
    verifier: &mut ChunkVerifier,
    candidates: Vec<ScoredChunk>,
    k: usize,
    now: &str,
) -> (results: Vec<VerifiedChunk>)
    ensures
        exists|ranked: Seq<ScoredChunk>|
            {
                &&& #[trigger] is_top_k(ranked, candidates@, k as nat)
                &&& answers(results@, old(verifier)@, ranked, now@)
                &&& final(verifier)@ == table_after(old(verifier)@, ranked, now@)
            },
{
    let ranked = rank_top_k(candidates, k);
    let results = verify_ranked(verifier, &ranked, now);
    assert(is_top_k(ranked@, candidates@, k as nat));
    results
}

/// Ranks the scored candidates, keeps the best `k`, checks each of them in
/// turn and returns their results in ranking order. All checks of one search
/// bear the same instant: the reading of the clock, written in UTC.
pub fn search(
    verifier: &mut ChunkVerifier,
    candidates: Vec<ScoredChunk>,
    k: usize,
) -> (results: Vec<VerifiedChunk>)
    ensures
        exists|ranked: Seq<ScoredChunk>, now: Seq<char>|
            {
                &&& #[trigger] answers(results@, old(verifier)@, ranked, now)
                &&& is_rfc3339_utc(now)
                &&& is_top_k(ranked, candidates@, k as nat)
                &&& final(verifier)@ == table_after(old(verifier)@, ranked, now)
            },
{
    let now = utc_now_rfc3339();
    let ghost before = verifier@;
    let results = search_at(verifier, candidates, k, now.as_str());
    proof {
        let ranked = choose|ranked: Seq<ScoredChunk>|
            {
                &&& #[trigger] is_top_k(ranked, candidates@, k as nat)
                &&& answers(results@, before, ranked, now@)
                &&& verifier@ == table_after(before, ranked, now@)
            };
        assert(answers(results@, before, ranked, now@));
    }
    results
}

} // verus!
