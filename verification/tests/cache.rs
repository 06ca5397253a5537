use memory_core::cache::{missing_texts, splice, EmbeddingCache, DEFAULT_CAPACITY};
use memory_core::hashing::hash_text;

fn v(x: f32) -> Vec<u32> {
    vec![x.to_bits(), (x + 1.0).to_bits()]
}

fn texts(list: &[&str]) -> Vec<String> {
    list.iter().map(|t| t.to_string()).collect()
}

#[test]
fn a_miss_then_a_hit() {
    let mut cache = EmbeddingCache::new(DEFAULT_CAPACITY);
    assert_eq!(cache.capacity(), 10_000);
    assert_eq!(cache.len(), 0);
    assert_eq!(cache.get("hello"), None);
    cache.insert("hello", v(1.0));
    assert_eq!(cache.len(), 1);
    assert_eq!(cache.get("hello"), Some(v(1.0)));
    assert_eq!(cache.get("hello "), None);
    assert_eq!(cache.get("Hello"), None);
}

#[test]
fn entries_are_keyed_by_the_hash_of_the_text() {
    let mut cache = EmbeddingCache::new(4);
    cache.insert("hello", v(1.0));
    assert_eq!(cache.get_key(&hash_text("hello")), Some(v(1.0)));
    assert_eq!(cache.get_key("hello"), None);
    cache.insert_key(hash_text("world"), v(2.0));
    assert_eq!(cache.get("world"), Some(v(2.0)));
}

#[test]
fn caching_a_text_again_replaces_its_vector() {
    let mut cache = EmbeddingCache::new(2);
    cache.insert("a", v(1.0));
    cache.insert("b", v(2.0));
    cache.insert("a", v(3.0));
    assert_eq!(cache.len(), 2);
    assert_eq!(cache.get("a"), Some(v(3.0)));
    assert_eq!(cache.get("b"), Some(v(2.0)));
}

#[test]
fn the_least_recently_used_entry_makes_room() {
    let mut cache = EmbeddingCache::new(3);
    cache.insert("a", v(1.0));
    cache.insert("b", v(2.0));
    cache.insert("c", v(3.0));
    // Use "a": "b" is now the oldest.
    assert_eq!(cache.get("a"), Some(v(1.0)));
    cache.insert("d", v(4.0));
    assert_eq!(cache.len(), 3);
    assert_eq!(cache.get("b"), None);
    assert_eq!(cache.get("c"), Some(v(3.0)));
    assert_eq!(cache.get("a"), Some(v(1.0)));
    assert_eq!(cache.get("d"), Some(v(4.0)));
    // Now "c" is the oldest.
    cache.insert("e", v(5.0));
    assert_eq!(cache.get("c"), None);
    assert_eq!(cache.get("a"), Some(v(1.0)));
}

#[test]
fn replacing_an_entry_evicts_nothing() {
    let mut cache = EmbeddingCache::new(2);
    cache.insert("a", v(1.0));
    cache.insert("b", v(2.0));
    cache.insert("a", v(9.0));
    assert_eq!(cache.get("b"), Some(v(2.0)));
    // "a" was written after "b" and read before it: "a" is the oldest.
    cache.insert("c", v(3.0));
    assert_eq!(cache.get("a"), None);
    assert_eq!(cache.get("b"), Some(v(2.0)));
}

#[test]
fn a_cache_without_capacity_stays_empty() {
    let mut cache = EmbeddingCache::new(0);
    cache.insert("a", v(1.0));
    assert_eq!(cache.len(), 0);
    assert_eq!(cache.get("a"), None);
}

#[test]
fn a_cache_of_one() {
    let mut cache = EmbeddingCache::new(1);
    cache.insert("a", v(1.0));
    cache.insert("b", v(2.0));
    assert_eq!(cache.len(), 1);
    assert_eq!(cache.get("a"), None);
    assert_eq!(cache.get("b"), Some(v(2.0)));
}

#[test]
fn a_batch_is_split_into_hits_and_misses_and_put_together_again() {
    let mut cache = EmbeddingCache::new(8);
    cache.insert("a", v(1.0));
    cache.insert("c", v(3.0));
    let batch = texts(&["x", "a", "y", "c", "x"]);

    let hits = cache.lookup_batch(&batch);
    assert_eq!(hits, vec![None, Some(v(1.0)), None, Some(v(3.0)), None]);
    let misses = missing_texts(&batch, &hits);
    assert_eq!(misses, texts(&["x", "y", "x"]));

    let computed = vec![v(10.0), v(20.0), v(10.0)];
    cache.store_batch(&misses, &computed);
    assert_eq!(
        splice(&hits, &computed),
        Some(vec![v(10.0), v(1.0), v(20.0), v(3.0), v(10.0)])
    );
    assert_eq!(cache.len(), 4);
    assert_eq!(cache.get("x"), Some(v(10.0)));
    assert_eq!(cache.get("y"), Some(v(20.0)));
    assert!(cache.lookup_batch(&batch).iter().all(|h| h.is_some()));
}

#[test]
fn splicing_needs_one_vector_for_each_miss() {
    let hits = vec![None, Some(v(1.0)), None];
    assert_eq!(splice(&hits, &vec![v(5.0)]), None);
    assert_eq!(splice(&hits, &vec![v(5.0), v(6.0), v(7.0)]), None);
    assert_eq!(splice(&hits, &vec![v(5.0), v(6.0)]), Some(vec![v(5.0), v(1.0), v(6.0)]));
    assert_eq!(splice(&vec![], &vec![]), Some(vec![]));
    assert_eq!(splice(&vec![], &vec![v(1.0)]), None);
    assert_eq!(splice(&vec![Some(v(1.0))], &vec![]), Some(vec![v(1.0)]));
}

#[test]
fn texts_beyond_the_hits_count_as_missed() {
    let batch = texts(&["a", "b", "c"]);
    assert_eq!(missing_texts(&batch, &vec![Some(v(1.0))]), texts(&["b", "c"]));
    assert_eq!(missing_texts(&batch, &vec![]), batch);
    assert!(missing_texts(&[], &vec![None]).is_empty());
}

#[test]
fn a_batch_lookup_counts_as_use() {
    let mut cache = EmbeddingCache::new(2);
    cache.insert("a", v(1.0));
    cache.insert("b", v(2.0));
    let hits = cache.lookup_batch(&texts(&["a"]));
    assert_eq!(hits, vec![Some(v(1.0))]);
    cache.insert("c", v(3.0));
    assert_eq!(cache.get("b"), None);
    assert_eq!(cache.get("a"), Some(v(1.0)));
}

#[test]
fn storing_a_batch_pairs_texts_with_vectors() {
    let mut cache = EmbeddingCache::new(8);
    cache.store_batch(&texts(&["a", "b", "c"]), &vec![v(1.0), v(2.0)]);
    assert_eq!(cache.len(), 2);
    assert_eq!(cache.get("a"), Some(v(1.0)));
    assert_eq!(cache.get("b"), Some(v(2.0)));
    assert_eq!(cache.get("c"), None);
    cache.store_batch(&texts(&["d"]), &vec![v(4.0), v(5.0)]);
    assert_eq!(cache.get("d"), Some(v(4.0)));
    assert_eq!(cache.len(), 3);
}
