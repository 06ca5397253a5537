use memory_core::confidence::Confidence;
use memory_core::memory::MemoryCore;
use memory_core::provenance::Provenance;
use memory_core::retrieval::ScoredChunk;
use memory_core::store::{Chunk, ChunkStore};

fn chunk(chunk_id: &str, path: &str, line_start: i32, line_end: i32, content: &str) -> Chunk {
    Chunk {
        chunk_id: chunk_id.into(),
        path: path.into(),
        line_start,
        line_end,
        content: content.into(),
        embedding: vec![1.0f32.to_bits(), 0.0f32.to_bits()],
        created_at: "2026-01-01T00:00:00Z".into(),
    }
}

fn ids(chunks: &[Chunk]) -> Vec<&str> {
    chunks.iter().map(|c| c.chunk_id.as_str()).collect()
}

fn scored(c: &Chunk, score: f32) -> ScoredChunk {
    ScoredChunk {
        chunk_id: c.chunk_id.clone(),
        path: c.path.clone(),
        line_start: c.line_start,
        line_end: c.line_end,
        content: c.content.clone(),
        score_bits: score.to_bits(),
    }
}

#[test]
fn chunks_are_stored_and_found_by_identifier() {
    let mut store = ChunkStore::new();
    assert_eq!(store.len(), 0);
    assert!(store.get("a").is_none());
    assert_eq!(store.insert(chunk("a", "x.md", 1, 4, "alpha")), "a");
    assert_eq!(store.insert(chunk("b", "x.md", 5, 9, "beta")), "b");
    assert_eq!(store.len(), 2);
    let found = store.get("b").unwrap();
    assert_eq!(found.chunk_id, "b");
    assert_eq!(found.path, "x.md");
    assert_eq!((found.line_start, found.line_end), (5, 9));
    assert_eq!(found.content, "beta");
    assert_eq!(found.embedding, vec![1.0f32.to_bits(), 0]);
    assert_eq!(found.created_at, "2026-01-01T00:00:00Z");
    assert!(store.get("c").is_none());
}

#[test]
fn inserting_an_identifier_again_replaces_the_chunk() {
    let mut store = ChunkStore::new();
    store.insert(chunk("a", "x.md", 1, 4, "alpha"));
    store.insert(chunk("a", "y.md", 2, 3, "changed"));
    assert_eq!(store.len(), 1);
    let found = store.get("a").unwrap();
    assert_eq!(found.path, "y.md");
    assert_eq!(found.content, "changed");
    assert!(store.list_by_path("x.md").is_empty());
}

#[test]
fn a_path_is_listed_in_line_order() {
    let mut store = ChunkStore::new();
    store.insert(chunk("d", "x.md", 10, 20, "d"));
    store.insert(chunk("a", "x.md", 1, 9, "a"));
    store.insert(chunk("other", "y.md", 1, 2, "o"));
    store.insert(chunk("c", "x.md", 10, 12, "c"));
    store.insert(chunk("b", "x.md", 1, 3, "b"));
    store.insert(chunk("z", "x.md", 0, 0, "z"));
    assert_eq!(ids(&store.list_by_path("x.md")), vec!["z", "b", "a", "c", "d"]);
    assert_eq!(ids(&store.list_by_path("y.md")), vec!["other"]);
    assert!(store.list_by_path("none.md").is_empty());
}

#[test]
fn deleting_a_path_removes_its_chunks_only() {
    let mut store = ChunkStore::new();
    store.insert(chunk("a", "x.md", 1, 2, "a"));
    store.insert(chunk("b", "y.md", 1, 2, "b"));
    store.insert(chunk("c", "x.md", 3, 4, "c"));
    assert_eq!(store.delete_by_path("x.md"), 2);
    assert_eq!(store.len(), 1);
    assert!(store.get("a").is_none());
    assert!(store.get("c").is_none());
    assert!(store.get("b").is_some());
    assert_eq!(store.delete_by_path("x.md"), 0);
}

#[test]
fn a_scan_returns_as_many_chunks_as_the_limit_allows() {
    let mut store = ChunkStore::new();
    for (i, id) in ["a", "b", "c", "d", "e"].iter().enumerate() {
        let mut c = chunk(id, "x.md", i as i32, i as i32, id);
        c.embedding = vec![(i as f32).to_bits(), (-1.0f32).to_bits()];
        store.insert(c);
    }
    assert!(store.scan_candidates(0).is_empty());
    let three = store.scan_candidates(3);
    assert_eq!(three.len(), 3);
    let mut seen = ids(&three);
    seen.sort();
    seen.dedup();
    assert_eq!(seen.len(), 3);
    let mut all = ids(&store.scan_candidates(5)).into_iter().map(String::from).collect::<Vec<_>>();
    all.sort();
    assert_eq!(all, vec!["a", "b", "c", "d", "e"]);
    assert_eq!(store.scan_candidates(usize::MAX).len(), 5);
}

#[test]
fn ingested_chunks_verify() {
    let mut core = MemoryCore::new();
    let hash = core.ingest(chunk("c1", "notes.md", 1, 2, "alpha"), &Provenance::UserStated);
    assert_eq!(hash.len(), 64);
    core.ingest(chunk("c2", "notes.md", 3, 4, "beta"), &Provenance::Unknown);
    core.ingest(chunk("c3", "other.md", 1, 1, "gamma"), &Provenance::Unknown);

    let candidates = core.candidates(2);
    assert_eq!(candidates.len(), 3);
    let scores = [0.25f32, 0.75, 0.5];
    let mut by_id: Vec<&Chunk> = candidates.iter().collect();
    by_id.sort_by(|a, b| a.chunk_id.cmp(&b.chunk_id));
    let scored_candidates: Vec<ScoredChunk> =
        by_id.iter().zip(scores.iter()).map(|(c, s)| scored(c, *s)).collect();

    let results = core.search_at(scored_candidates, 2, "2026-02-02T00:00:00Z");
    assert_eq!(results.len(), 2);
    assert_eq!(results[0].content, "beta");
    assert_eq!(results[1].content, "gamma");
    assert!(results.iter().all(|r| r.verified));
    assert_eq!(results[0].confidence, Confidence::Low);
    assert_eq!(core.stats().total_hashes, 3);
}

#[test]
fn ingest_binds_the_instant_and_replaces() {
    let mut core = MemoryCore::new();
    let first = core.ingest_at(chunk("c1", "notes.md", 1, 2, "alpha"), &Provenance::UserStated, "t0");
    assert_eq!(first, memory_core::hashing::compute_chunk_hash("notes.md", "alpha", "t0"));
    let second = core.ingest_at(chunk("c1", "notes.md", 1, 2, "beta"), &Provenance::UserStated, "t1");
    assert_ne!(first, second);
    assert_eq!(core.get("c1").unwrap().content, "beta");
    let stats = core.stats();
    assert_eq!(stats.total_hashes, 1);
    assert_eq!(stats.by_provenance, vec![("\"UserStated\"".to_string(), 1)]);
}

#[test]
fn deleting_a_path_removes_chunks_and_hashes_together() {
    let mut core = MemoryCore::new();
    core.ingest(chunk("c1", "notes.md", 1, 2, "alpha"), &Provenance::UserStated);
    core.ingest(chunk("c2", "notes.md", 3, 4, "beta"), &Provenance::Unknown);
    core.ingest(chunk("c3", "other.md", 1, 1, "gamma"), &Provenance::Unknown);
    assert_eq!(core.delete_path("notes.md"), 2);
    assert!(core.get("c1").is_none());
    assert!(core.get("c2").is_none());
    assert!(core.get("c3").is_some());
    assert_eq!(core.stats().total_hashes, 1);
    assert_eq!(core.candidates(1).len(), 1);
    assert_eq!(core.delete_path("notes.md"), 0);

    // Indexing the path again starts from nothing.
    core.ingest(chunk("c1", "notes.md", 1, 2, "alpha again"), &Provenance::UserStated);
    let results = core.search_at(
        vec![scored(&core.get("c1").unwrap(), 1.0)],
        1,
        "2026-02-02T00:00:00Z",
    );
    assert!(results[0].verified);
    assert_eq!(results[0].confidence, Confidence::High);
}

#[test]
fn indexing_a_path_again_replaces_what_it_held() {
    let mut core = MemoryCore::new();
    core.ingest_at(chunk("old1", "notes.md", 1, 2, "alpha"), &Provenance::UserStated, "t0");
    core.ingest_at(chunk("old2", "notes.md", 3, 4, "beta"), &Provenance::UserStated, "t0");
    core.ingest_at(chunk("keep", "other.md", 1, 1, "gamma"), &Provenance::Unknown, "t0");

    let file = Provenance::FileContent { path: "notes.md".into() };
    let fresh = vec![
        chunk("new1", "notes.md", 1, 3, "alpha beta"),
        chunk("old2", "notes.md", 4, 4, "delta"),
    ];
    assert_eq!(core.reindex_at("notes.md", &fresh, &file, "t1"), 2);

    assert!(core.get("old1").is_none());
    assert_eq!(core.get("new1").unwrap().content, "alpha beta");
    assert_eq!(core.get("old2").unwrap().content, "delta");
    assert_eq!(core.get("keep").unwrap().content, "gamma");
    let stats = core.stats();
    assert_eq!(stats.total_hashes, 3);
    let mut groups = stats.by_provenance;
    groups.sort();
    assert_eq!(
        groups,
        vec![
            ("\"Unknown\"".to_string(), 1),
            ("{\"FileContent\":{\"path\":\"notes.md\"}}".to_string(), 2),
        ]
    );
    let results = core.search_at(
        vec![
            scored(&core.get("old2").unwrap(), 0.5),
            scored(&chunk("old1", "notes.md", 1, 2, "alpha"), 0.9),
        ],
        5,
        "t2",
    );
    assert_eq!(results.len(), 2);
    assert!(!results[0].verified);
    assert_eq!(results[0].hash, "");
    assert!(results[1].verified);
    assert_eq!(
        results[1].hash,
        memory_core::hashing::compute_chunk_hash("notes.md", "delta", "t1")
    );
    assert_eq!(core.reindex_at("empty.md", &Vec::new(), &file, "t3"), 0);
}
