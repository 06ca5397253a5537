use memory_core::confidence::Confidence;
use memory_core::provenance::Provenance;
use memory_core::ranking::{bytes_le, score_key};
use memory_core::retrieval::{
    candidate_limit, hash_prefix, precedes, rank_top_k, search, search_at, verify_one,
    ScoredChunk, VerifiedChunk,
};
use memory_core::verification::ChunkVerifier;

fn dot(a: &[f32], b: &[f32]) -> f32 {
    a.iter().zip(b.iter()).map(|(x, y)| x * y).sum()
}

fn scored(chunk_id: &str, path: &str, content: &str, score: f32) -> ScoredChunk {
    ScoredChunk {
        chunk_id: chunk_id.into(),
        path: path.into(),
        line_start: 1,
        line_end: 3,
        content: content.into(),
        score_bits: score.to_bits(),
    }
}

fn ids(chunks: &[ScoredChunk]) -> Vec<&str> {
    chunks.iter().map(|c| c.chunk_id.as_str()).collect()
}

fn files(results: &[VerifiedChunk]) -> Vec<&str> {
    results.iter().map(|r| r.file.as_str()).collect()
}

#[test]
fn search_returns_chunks_by_descending_score() {
    let query = [1.0f32, 0.0];
    let stored = [
        ("c3", "three.md", "gamma", [0.0f32, 1.0]),
        ("c1", "one.md", "alpha", [1.0f32, 0.0]),
        ("c2", "two.md", "beta", [0.7071f32, 0.7071]),
    ];
    let mut verifier = ChunkVerifier::new();
    let mut candidates = Vec::new();
    for (id, path, content, embedding) in stored.iter() {
        verifier.record_hash(id, path, content, &Provenance::UserStated);
        candidates.push(scored(id, path, content, dot(&query, embedding)));
    }

    let results = search(&mut verifier, candidates, 3);

    assert_eq!(files(&results), vec!["one.md", "two.md", "three.md"]);
    let expected = [1.0f32, 0.7071, 0.0];
    for (result, want) in results.iter().zip(expected.iter()) {
        assert!((f32::from_bits(result.score_bits) - want).abs() < 1e-4);
        assert!(result.verified);
        assert_eq!(result.confidence, Confidence::High);
        assert_eq!(result.provenance, Provenance::UserStated);
        assert_eq!(result.line_start, 1);
        assert_eq!(result.line_end, 3);
    }
    let stored_hash = verifier.get_chunk_info("c1").unwrap().0;
    assert_eq!(results[0].hash, stored_hash);
    assert_eq!(results[0].hash_prefix, &stored_hash[..8]);
    assert_eq!(
        results[0].to_citation(),
        format!("[VERIFIED:{}] one.md", &stored_hash[..8])
    );
    for id in ["c1", "c2", "c3"] {
        assert_eq!(verifier.get_chunk_info(id).unwrap().2, 1);
    }
}

#[test]
fn equal_scores_are_ordered_by_chunk_id() {
    let candidates = vec![
        scored("b", "p", "x", 0.5),
        scored("ab", "p", "x", 0.5),
        scored("c", "p", "x", 0.75),
        scored("a", "p", "x", 0.5),
        scored("", "p", "x", 0.5),
        scored("B", "p", "x", 0.5),
    ];
    let ranked = rank_top_k(candidates, 10);
    assert_eq!(ids(&ranked), vec!["c", "", "B", "a", "ab", "b"]);
}

#[test]
fn only_the_best_k_are_kept() {
    let make = || {
        vec![
            scored("low", "p", "x", -0.25),
            scored("high", "p", "x", 0.9),
            scored("zero", "p", "x", 0.0),
            scored("mid", "p", "x", 0.4),
            scored("lowest", "p", "x", -1.0),
        ]
    };
    assert_eq!(ids(&rank_top_k(make(), 2)), vec!["high", "mid"]);
    assert_eq!(ids(&rank_top_k(make(), 5)), vec!["high", "mid", "zero", "low", "lowest"]);
    assert_eq!(ids(&rank_top_k(make(), 6)), vec!["high", "mid", "zero", "low", "lowest"]);
    assert!(rank_top_k(make(), 0).is_empty());
    assert!(rank_top_k(Vec::new(), 3).is_empty());
}

#[test]
fn both_zeros_rank_alike() {
    let ranked = rank_top_k(vec![scored("b", "p", "x", 0.0), scored("a", "p", "x", -0.0)], 2);
    assert_eq!(ids(&ranked), vec!["a", "b"]);
    assert_eq!(score_key((0.0f32).to_bits()), score_key((-0.0f32).to_bits()));
}

#[test]
fn score_keys_order_as_the_numbers_do() {
    let values = [
        f32::NEG_INFINITY,
        -1.0e30,
        -1.0,
        -0.7071,
        -1.0e-30,
        0.0,
        1.0e-30,
        1.0e-4,
        0.5,
        0.7071,
        1.0,
        1.0000001,
        2.0,
        f32::MAX,
        f32::INFINITY,
    ];
    for pair in values.windows(2) {
        assert!(score_key(pair[0].to_bits()) < score_key(pair[1].to_bits()));
    }
    assert_eq!(score_key(0), 0);
    assert_eq!(score_key(1.0f32.to_bits()), 0x3f80_0000);
    assert_eq!(score_key((-1.0f32).to_bits()), -0x3f80_0000);
    assert_eq!(score_key(u32::MAX), -0x7fff_ffff);
}

#[test]
fn byte_strings_are_ordered_lexicographically() {
    assert!(bytes_le(b"", b""));
    assert!(bytes_le(b"", b"a"));
    assert!(!bytes_le(b"a", b""));
    assert!(bytes_le(b"a", b"a"));
    assert!(bytes_le(b"a", b"ab"));
    assert!(!bytes_le(b"ab", b"a"));
    assert!(bytes_le(b"ab", b"b"));
    assert!(!bytes_le(b"b", b"ab"));
    assert!(bytes_le(b"Z", b"a"));
    assert!(bytes_le("z".as_bytes(), "é".as_bytes()));
    assert!(precedes(&scored("a", "p", "x", 0.5), &scored("b", "p", "x", 0.5)));
    assert!(!precedes(&scored("b", "p", "x", 0.5), &scored("a", "p", "x", 0.5)));
    assert!(precedes(&scored("b", "p", "x", 0.6), &scored("a", "p", "x", 0.5)));
    assert!(precedes(&scored("a", "p", "x", 0.5), &scored("a", "q", "y", 0.5)));
}

#[test]
fn tampered_content_is_reported_in_band() {
    let mut verifier = ChunkVerifier::new();
    verifier.record_hash("c1", "notes.md", "alpha", &Provenance::UserStated);
    verifier.record_hash("c2", "notes.md", "beta", &Provenance::FileContent { path: "notes.md".into() });
    let stored = verifier.get_chunk_info("c1").unwrap().0;

    let candidates = vec![
        scored("c1", "notes.md", "ALPHA", 0.9),
        scored("c2", "notes.md", "beta", 0.8),
        scored("c9", "gone.md", "zeta", 0.7),
    ];
    let results = search_at(&mut verifier, candidates, 3, "2026-02-02T00:00:00Z");
    assert_eq!(results.len(), 3);

    assert!(!results[0].verified);
    assert_eq!(results[0].confidence, Confidence::Unverified);
    assert_eq!(results[0].hash, stored);
    assert_eq!(results[0].provenance, Provenance::UserStated);
    assert_eq!(results[0].to_citation(), "[UNVERIFIED] notes.md");
    assert_eq!(verifier.get_chunk_info("c1").unwrap().2, 0);

    assert!(results[1].verified);
    assert_eq!(results[1].confidence, Confidence::Medium);
    assert_eq!(verifier.get_chunk_info("c2").unwrap().2, 1);
    assert_eq!(
        verifier.get_chunk_info("c2").unwrap().3.as_deref(),
        Some("2026-02-02T00:00:00Z")
    );

    assert!(!results[2].verified);
    assert_eq!(results[2].confidence, Confidence::Unverified);
    assert_eq!(results[2].hash, "");
    assert_eq!(results[2].hash_prefix, "");
    assert_eq!(results[2].provenance, Provenance::Unknown);
    assert_eq!(results[2].to_citation(), "[UNVERIFIED] gone.md");
    assert_eq!(verifier.len(), 2);
}

#[test]
fn the_check_is_counted_before_confidence_is_derived() {
    let mut verifier = ChunkVerifier::new();
    let file = Provenance::FileContent { path: "notes.md".into() };
    verifier.record_hash("c1", "notes.md", "alpha", &file);
    let chunk = scored("c1", "notes.md", "alpha", 1.0);
    for round in 1..=7 {
        let result = verify_one(&mut verifier, &chunk, "2026-02-02T00:00:00Z");
        assert!(result.verified);
        let want = if round > 5 { Confidence::High } else { Confidence::Medium };
        assert_eq!(result.confidence, want);
    }
}

#[test]
fn a_chunk_that_occurs_twice_is_checked_twice() {
    let mut verifier = ChunkVerifier::new();
    verifier.record_hash("c1", "notes.md", "alpha", &Provenance::Unknown);
    let candidates = vec![
        scored("c1", "notes.md", "alpha", 0.5),
        scored("c1", "notes.md", "alpha", 0.5),
    ];
    let results = search(&mut verifier, candidates, 2);
    assert_eq!(results.len(), 2);
    assert_eq!(verifier.get_chunk_info("c1").unwrap().2, 2);
}

#[test]
fn hash_prefixes() {
    assert_eq!(hash_prefix("0123456789abcdef"), "01234567");
    assert_eq!(hash_prefix("01234567"), "01234567");
    assert_eq!(hash_prefix("0123"), "0123");
    assert_eq!(hash_prefix(""), "");
    assert_eq!(hash_prefix("ééééééééé"), "éééééééé");
}

#[test]
fn citations() {
    let mut chunk = VerifiedChunk {
        file: "notes.md".into(),
        line_start: 0,
        line_end: 0,
        content: "alpha".into(),
        score_bits: 0,
        verified: true,
        hash_prefix: "a69d8068".into(),
        hash: "a69d8068958664670a3805003dc2a1a067e5c51729df8fbfc0938068441a5b92".into(),
        provenance: Provenance::UserStated,
        confidence: Confidence::High,
    };
    assert_eq!(chunk.to_citation(), "[VERIFIED:a69d8068] notes.md");
    chunk.verified = false;
    assert_eq!(chunk.to_citation(), "[UNVERIFIED] notes.md");
}

#[test]
fn candidates_are_overfetched_fourfold() {
    assert_eq!(candidate_limit(0), 0);
    assert_eq!(candidate_limit(1), 4);
    assert_eq!(candidate_limit(3), 12);
    assert_eq!(candidate_limit(usize::MAX / 4), usize::MAX - 3);
    assert_eq!(candidate_limit(usize::MAX / 4 + 1), usize::MAX);
    assert_eq!(candidate_limit(usize::MAX), usize::MAX);
}
