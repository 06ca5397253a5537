//! A cache of embeddings, keyed by the hash of the text that was embedded
//! and bounded in size: when it is full, the entry that was used least
//! recently makes room.

use crate::hashing::{hash_text, text_hash};
use crate::text::str_eq;
use crate::vector::copy_bits;
use vstd::prelude::*;

verus! {

/// The recommended number of entries.
pub const DEFAULT_CAPACITY: usize = 10_000;

/// The entries of a cache, from the one used least recently to the one used
/// most recently: the key of each and its vector, as the bit patterns of
/// its single-precision components.
pub type Entries = Seq<(Seq<char>, Seq<u32>)>;

/// No two entries have the same key.
pub open spec fn distinct(entries: Entries) -> bool {
    forall|i: int, j: int| 0 <= i < j < entries.len() ==> entries[i].0 != entries[j].0
}

/// The vector that is cached under `key`, if there is one.
pub open spec fn find(entries: Entries, key: Seq<char>) -> Option<Seq<u32>>
    decreases entries.len(),
{
    if entries.len() == 0 {
        None
    } else if entries.last().0 == key {
        Some(entries.last().1)
    } else {
        find(entries.drop_last(), key)
    }
}

/// The entries other than that of `key`, in their order.
pub open spec fn without(entries: Entries, key: Seq<char>) -> Entries
    decreases entries.len(),
{
    if entries.len() == 0 {
        entries
    } else if entries.last().0 == key {
        without(entries.drop_last(), key)
    } else {
        without(entries.drop_last(), key).push(entries.last())
    }
}

/// The entries after `key` was used: its entry, if it has one, has become
/// the most recent.
pub open spec fn used(entries: Entries, key: Seq<char>) -> Entries {
    match find(entries, key) {
        Some(vector) => without(entries, key).push((key, vector)),
        None => entries,
    }
}

/// The entries after `vector` was cached under `key` in a cache that holds
/// at most `capacity` entries: an entry that the key had is replaced, the
/// oldest entries leave as far as room is needed, and the new entry is the
/// most recent. A cache without capacity stays empty.
pub open spec fn cached(
    entries: Entries,
    capacity: nat,
    key: Seq<char>,
    vector: Seq<u32>,
) -> Entries {
    if capacity == 0 {
        entries
    } else {
        let rest = without(entries, key);
        let room = if rest.len() >= capacity {
            rest.skip(rest.len() - capacity + 1)
        } else {
            rest
        };
        room.push((key, vector))
    }
}

/// A key without an entry is not found, and taking it out changes nothing.
proof fn lemma_absent_key(entries: Entries, key: Seq<char>)
    requires
        forall|i: int| 0 <= i < entries.len() ==> (#[trigger] entries[i]).0 != key,
    ensures
        find(entries, key) is None,
        without(entries, key) == entries,
    decreases entries.len(),
{
    if entries.len() > 0 {
        lemma_absent_key(entries.drop_last(), key);
        assert(entries.drop_last().push(entries.last()) =~= entries);
    }
}

/// Among distinct keys, the key of the entry at a place finds the vector of
/// that entry, and taking it out removes that entry alone.
proof fn lemma_key_at(entries: Entries, key: Seq<char>, i: int)
    requires
        distinct(entries),
        0 <= i < entries.len(),
        entries[i].0 == key,
    ensures
        find(entries, key) == Some(entries[i].1),
        without(entries, key) == entries.remove(i),
    decreases entries.len(),
{
    let front = entries.drop_last();
    if i == entries.len() - 1 {
        assert forall|j: int| 0 <= j < front.len() implies (#[trigger] front[j]).0 != key by {
            assert(entries[j].0 != entries[i].0);
        }
        lemma_absent_key(front, key);
        assert(entries.remove(i) =~= front);
    } else {
        assert(entries[i].0 != entries[entries.len() - 1].0);
        assert(distinct(front)) by {
            assert forall|a: int, b: int| 0 <= a < b < front.len() implies front[a].0
                != front[b].0 by {
                assert(entries[a].0 != entries[b].0);
            }
        }
        lemma_key_at(front, key, i);
        assert(front.remove(i).push(entries.last()) =~= entries.remove(i));
    }
}

/// Whether a key is found does not depend on which other key was used.
pub proof fn lemma_use_keeps_vectors(entries: Entries, key: Seq<char>, other: Seq<char>)
    requires
        distinct(entries),
    ensures
        distinct(used(entries, key)),
        used(entries, key).len() == entries.len(),
        find(used(entries, key), other) == find(entries, other),
{
    if exists|i: int| 0 <= i < entries.len() && (#[trigger] entries[i]).0 == key {
        let i = choose|i: int| 0 <= i < entries.len() && (#[trigger] entries[i]).0 == key;
        lemma_key_at(entries, key, i);
        let moved = entries.remove(i).push(entries[i]);
        assert(used(entries, key) =~= moved);
        assert(distinct(moved)) by {
            assert forall|a: int, b: int| 0 <= a < b < moved.len() implies moved[a].0
                != moved[b].0 by {
                let a0 = if a < i { a } else { a + 1 };
                if b == moved.len() - 1 {
                    if a0 < i {
                        assert(entries[a0].0 != entries[i].0);
                    } else {
                        assert(entries[i].0 != entries[a0].0);
                    }
                } else {
                    let b0 = if b < i { b } else { b + 1 };
                    assert(entries[a0].0 != entries[b0].0);
                }
            }
        }
        if exists|j: int| 0 <= j < entries.len() && (#[trigger] entries[j]).0 == other {
            let j = choose|j: int| 0 <= j < entries.len() && (#[trigger] entries[j]).0 == other;
            lemma_key_at(entries, other, j);
            let j1 = if j == i {
                moved.len() - 1
            } else if j < i {
                j
            } else {
                j - 1
            };
            assert(moved[j1] == entries[j]);
            lemma_key_at(moved, other, j1);
        } else {
            lemma_absent_key(entries, other);
            assert forall|j: int| 0 <= j < moved.len() implies (#[trigger] moved[j]).0
                != other by {
                let j0 = if j == moved.len() - 1 {
                    i
                } else if j < i {
                    j
                } else {
                    j + 1
                };
                assert(moved[j] == entries[j0]);
            }
            lemma_absent_key(moved, other);
        }
    } else {
        lemma_absent_key(entries, key);
    }
}

/// What an embedding cache holds.
pub struct CacheView {
    /// The largest number of entries.
    pub capacity: nat,
    /// The entries, from the one used least recently to the most recent.
    pub entries: Entries,
}

/// A bounded cache from the hash of a text to the embedding of the text.
pub struct EmbeddingCache {
    capacity: usize,
    entries: Vec<(String, Vec<u32>)>,
}

/// The entries of a cache with their keys and vectors taken as sequences.
pub open spec fn entries_view(entries: Seq<(String, Vec<u32>)>) -> Entries {
    entries.map_values(|e: (String, Vec<u32>)| (e.0@, e.1@))
}

/// A vector that may be absent, taken as a sequence.
pub open spec fn vector_view(vector: Option<Vec<u32>>) -> Option<Seq<u32>> {
    match vector {
        Some(v) => Some(v@),
        None => None,
    }
}

impl View for EmbeddingCache {
    type V = CacheView;

    closed spec fn view(&self) -> CacheView {
        CacheView { capacity: self.capacity as nat, entries: entries_view(self.entries@) }
    }
}

/// Finds the place of the entry of `key`.
fn position(entries: &Vec<(String, Vec<u32>)>, key: &str) -> (found: Option<usize>)
    ensures
        match found {
            Some(i) => i < entries.len() && entries[i as int].0@ == key@,
            None => forall|i: int| 0 <= i < entries.len() ==> (#[trigger] entries[i]).0@ != key@,
        },
{
    let mut i: usize = 0;
    while i < entries.len()
        invariant
            i <= entries.len(),
            forall|j: int| 0 <= j < i ==> (#[trigger] entries[j]).0@ != key@,
        decreases entries.len() - i,
    {
        if str_eq(entries[i].0.as_str(), key) {
            return Some(i);
        }
        i = i + 1;
    }
    None
}

impl EmbeddingCache {
    #[verifier::type_invariant]
    spec fn bounded(self) -> bool {
        &&& distinct(entries_view(self.entries@))
        &&& self.entries@.len() <= self.capacity
    }

    /// Creates an empty cache that holds at most `capacity` entries.
    pub fn new(capacity: usize) -> (cache: EmbeddingCache)
        ensures
            cache@.capacity == capacity,
            cache@.entries.len() == 0,
    {
        EmbeddingCache { capacity, entries: Vec::new() }
    }

    /// The largest number of entries.
    pub fn capacity(&self) -> (capacity: usize)
        ensures
            capacity == self@.capacity,
    {
        self.capacity
    }

    /// The number of entries. It never exceeds the capacity, and no key has
    /// two entries.
    pub fn len(&self) -> (n: usize)
        ensures
            n == self@.entries.len(),
            n <= self@.capacity,
            distinct(self@.entries),
    {
        proof {
            use_type_invariant(self);
        }
        self.entries.len()
    }

    /// Moves the entries out and leaves the cache empty.
    fn take_entries(&mut self) -> (entries: Vec<(String, Vec<u32>)>)
        ensures
            entries_view(entries@) == old(self)@.entries,
            distinct(entries_view(entries@)),
            entries@.len() <= old(self)@.capacity,
            final(self)@.capacity == old(self)@.capacity,
            final(self).capacity == old(self).capacity,
            final(self).entries@.len() == 0,
    {
        proof {
            use_type_invariant(&*self);
        }
        let mut entries: Vec<(String, Vec<u32>)> = Vec::new();
        core::mem::swap(&mut self.entries, &mut entries);
        entries
    }

    /// Looks up the vector cached under `key` and marks the entry as the
    /// most recently used.
    pub fn get_key(&mut self, key: &str) -> (vector: Option<Vec<u32>>)
        ensures
            vector_view(vector) == find(old(self)@.entries, key@),
            final(self)@.entries == used(old(self)@.entries, key@),
            final(self)@.capacity == old(self)@.capacity,
    {
        let mut entries = self.take_entries();
        let ghost before = entries_view(entries@);
        let found = position(&entries, key);
        let vector = match found {
            Some(i) => {
                proof {
                    lemma_key_at(before, key@, i as int);
                    lemma_use_keeps_vectors(before, key@, key@);
                }
                let entry = entries.remove(i);
                let vector = copy_bits(&entry.1);
                entries.push(entry);
                assert(entries_view(entries@) =~= before.remove(i as int).push(before[i as int]));
                Some(vector)
            },
            None => {
                proof {
                    lemma_absent_key(before, key@);
                }
                None
            },
        };
        self.entries = entries;
        vector
    }

    /// Looks up the embedding cached for `text` and marks the entry as the
    /// most recently used.
    pub fn get(&mut self, text: &str) -> (vector: Option<Vec<u32>>)
        ensures
            vector_view(vector) == find(old(self)@.entries, text_hash(text@)),
            final(self)@.entries == used(old(self)@.entries, text_hash(text@)),
            final(self)@.capacity == old(self)@.capacity,
    {
        let key = hash_text(text);
        self.get_key(key.as_str())
    }

    /// Caches `vector` under `key` as the most recently used entry. Where
    /// the cache is full, the entry used least recently leaves.
    pub fn insert_key(&mut self, key: String, vector: Vec<u32>)
        ensures
            final(self)@.entries == cached(
                old(self)@.entries,
                old(self)@.capacity,
                key@,
                vector@,
            ),
            final(self)@.capacity == old(self)@.capacity,
    {
        if self.capacity == 0 {
            return ;
        }
        let capacity = self.capacity;
        let mut entries = self.take_entries();
        let ghost before = entries_view(entries@);
        match position(&entries, key.as_str()) {
            Some(i) => {
                proof {
                    lemma_key_at(before, key@, i as int);
                    lemma_use_keeps_vectors(before, key@, key@);
                }
                let _ = entries.remove(i);
                assert(entries_view(entries@) =~= before.remove(i as int));
            },
            None => {
                proof {
                    lemma_absent_key(before, key@);
                }
                if entries.len() >= capacity {
                    let _ = entries.remove(0);
                    assert(entries_view(entries@) =~= before.skip(1));
                }
            },
        }
        let ghost room = entries_view(entries@);
        entries.push((key, vector));
        proof {
            assert(entries_view(entries@) =~= room.push((key@, vector@)));
            assert(distinct(entries_view(entries@))) by {
                assert forall|a: int, b: int|
                    0 <= a < b < entries_view(entries@).len() implies entries_view(entries@)[a].0
                    != entries_view(entries@)[b].0 by {
                    if b == room.len() {
                        assert(room[a].0 != key@);
                    } else {
                        assert(room[a].0 != room[b].0);
                    }
                }
            }
        }
        self.entries = entries;
    }

    /// Caches the embedding of `text`.
    pub fn insert(&mut self, text: &str, vector: Vec<u32>)
        ensures
            final(self)@.entries == cached(
                old(self)@.entries,
                old(self)@.capacity,
                text_hash(text@),
                vector@,
            ),
            final(self)@.capacity == old(self)@.capacity,
    {
        self.insert_key(hash_text(text), vector);
    }
}

/// The keys under which the embeddings of `texts` are cached.
pub open spec fn keys_of(texts: Seq<String>) -> Seq<Seq<char>> {
    texts.map_values(|t: String| text_hash(t@))
}

/// Vectors taken as sequences.
pub open spec fn vectors_view(vectors: Seq<Vec<u32>>) -> Seq<Seq<u32>> {
    vectors.map_values(|v: Vec<u32>| v@)
}

/// The entries after each of `keys` was used in turn.
pub open spec fn used_all(entries: Entries, keys: Seq<Seq<char>>) -> Entries
    decreases keys.len(),
{
    if keys.len() == 0 {
        entries
    } else {
        used(used_all(entries, keys.drop_last()), keys.last())
    }
}

/// The entries after each of `vectors` was cached under the key at its
/// place, in turn. Keys and vectors beyond the shorter of the two lists are
/// left aside.
pub open spec fn cached_all(
    entries: Entries,
    capacity: nat,
    keys: Seq<Seq<char>>,
    vectors: Seq<Seq<u32>>,
) -> Entries
    decreases keys.len(),
{
    if keys.len() == 0 {
        entries
    } else if keys.len() > vectors.len() {
        cached_all(entries, capacity, keys.drop_last(), vectors)
    } else {
        cached(
            cached_all(entries, capacity, keys.drop_last(), vectors),
            capacity,
            keys.last(),
            vectors[keys.len() - 1],
        )
    }
}

/// Whether the text at place `i` was missed: no hit stands at its place.
pub open spec fn missed_at(hits: Seq<Option<Vec<u32>>>, i: int) -> bool {
    i >= hits.len() || hits[i] is None
}

/// The texts that were missed, in their order.
pub open spec fn missing(texts: Seq<String>, hits: Seq<Option<Vec<u32>>>) -> Seq<String>
    decreases texts.len(),
{
    if texts.len() == 0 {
        texts
    } else if missed_at(hits, texts.len() - 1) {
        missing(texts.drop_last(), hits).push(texts.last())
    } else {
        missing(texts.drop_last(), hits)
    }
}

/// The number of places without a hit.
pub open spec fn count_missed(hits: Seq<Option<Vec<u32>>>) -> nat
    decreases hits.len(),
{
    if hits.len() == 0 {
        0
    } else if hits.last() is None {
        count_missed(hits.drop_last()) + 1
    } else {
        count_missed(hits.drop_last())
    }
}

/// The vectors of a batch in the order of its texts: at each place the hit
/// that stands there, or else the next of the computed vectors.
pub open spec fn spliced(hits: Seq<Option<Vec<u32>>>, computed: Seq<Vec<u32>>) -> Seq<Seq<u32>>
    decreases hits.len(),
{
    if hits.len() == 0 {
        Seq::empty()
    } else {
        match hits.last() {
            Some(v) => spliced(hits.drop_last(), computed).push(v@),
            None => spliced(hits.drop_last(), computed.drop_last()).push(computed.last()@),
        }
    }
}

/// Uses of keys keep the entries distinct, and what is found under any key.
pub proof fn lemma_uses_keep_vectors(entries: Entries, keys: Seq<Seq<char>>, other: Seq<char>)
    requires
        distinct(entries),
    ensures
        distinct(used_all(entries, keys)),
        find(used_all(entries, keys), other) == find(entries, other),
    decreases keys.len(),
{
    if keys.len() > 0 {
        lemma_uses_keep_vectors(entries, keys.drop_last(), other);
        lemma_use_keeps_vectors(used_all(entries, keys.drop_last()), keys.last(), other);
    }
}

/// A prefix of the hits has no more misses than the whole.
proof fn lemma_count_prefix(hits: Seq<Option<Vec<u32>>>, i: int)
    requires
        0 <= i <= hits.len(),
    ensures
        count_missed(hits.take(i)) <= count_missed(hits),
    decreases hits.len() - i,
{
    if i < hits.len() {
        lemma_count_prefix(hits, i + 1);
        assert(hits.take(i + 1).drop_last() =~= hits.take(i));
    } else {
        assert(hits.take(i) =~= hits);
    }
}

/// Puts the vectors of a batch in the order of its texts. There must be one
/// computed vector for each miss.
pub fn splice(hits: &Vec<Option<Vec<u32>>>, computed: &Vec<Vec<u32>>) -> (vectors: Option<
    Vec<Vec<u32>>,
>)
    ensures
        vectors is Some <==> count_missed(hits@) == computed@.len(),
        vectors matches Some(v) ==> vectors_view(v@) == spliced(hits@, computed@),
{
    let mut out: Vec<Vec<u32>> = Vec::new();
    let mut c: usize = 0;
    let mut i: usize = 0;
    assert(vectors_view(out@) =~= spliced(hits@.take(0), computed@.take(0)));
    while i < hits.len()
        invariant
            i <= hits.len(),
            c <= computed.len(),
            c == count_missed(hits@.take(i as int)),
            vectors_view(out@) == spliced(hits@.take(i as int), computed@.take(c as int)),
        decreases hits.len() - i,
    {
        proof {
            assert(hits@.take(i as int + 1).drop_last() =~= hits@.take(i as int));
            assert(hits@.take(i as int + 1).last() == hits@[i as int]);
            lemma_count_prefix(hits@, i as int + 1);
        }
        let ghost before = vectors_view(out@);
        match &hits[i] {
            Some(v) => {
                out.push(copy_bits(v));
                assert(vectors_view(out@) =~= before.push(v@));
            },
            None => {
                if c >= computed.len() {
                    return None;
                }
                proof {
                    assert(computed@.take(c as int + 1).drop_last() =~= computed@.take(c as int));
                    assert(computed@.take(c as int + 1).last() == computed@[c as int]);
                }
                out.push(copy_bits(&computed[c]));
                assert(vectors_view(out@) =~= before.push(computed@[c as int]@));
                c = c + 1;
            },
        }
        i = i + 1;
    }
    assert(hits@.take(i as int) =~= hits@);
    if c == computed.len() {
        assert(computed@.take(c as int) =~= computed@);
        Some(out)
    } else {
        None
    }
}

/// Collects the texts that were missed, in their order.
pub fn missing_texts(texts: &[String], hits: &Vec<Option<Vec<u32>>>) -> (misses: Vec<String>)
    ensures
        misses@ == missing(texts@, hits@),
{
    let mut misses: Vec<String> = Vec::new();
    let mut i: usize = 0;
    assert(texts@.take(0) =~= Seq::<String>::empty());
    while i < texts.len()
        invariant
            i <= texts.len(),
            misses@ == missing(texts@.take(i as int), hits@),
        decreases texts.len() - i,
    {
        proof {
            assert(texts@.take(i as int + 1).drop_last() =~= texts@.take(i as int));
            assert(texts@.take(i as int + 1).last() == texts@[i as int]);
        }
        let missed = if i >= hits.len() {
            true
        } else {
            hits[i].is_none()
        };
        if missed {
            misses.push(texts[i].clone());
        }
        i = i + 1;
    }
    assert(texts@.take(i as int) =~= texts@);
    misses
}

impl EmbeddingCache {
    /// Looks up the embedding of each text of a batch, in order, and marks
    /// the entries that were hit as recently used.
    pub fn lookup_batch(&mut self, texts: &[String]) -> (hits: Vec<Option<Vec<u32>>>)
        ensures
            hits@.len() == texts@.len(),
            forall|i: int|
                0 <= i < texts@.len() ==> vector_view(#[trigger] hits@[i]) == find(
                    old(self)@.entries,
                    text_hash(texts@[i]@),
                ),
            final(self)@.entries == used_all(old(self)@.entries, keys_of(texts@)),
            final(self)@.capacity == old(self)@.capacity,
    {
        proof {
            use_type_invariant(&*self);
        }
        let ghost start = self@.entries;
        let ghost keys = keys_of(texts@);
        let mut hits: Vec<Option<Vec<u32>>> = Vec::new();
        let mut i: usize = 0;
        assert(keys.take(0) =~= Seq::<Seq<char>>::empty());
        while i < texts.len()
            invariant
                i <= texts.len(),
                keys == keys_of(texts@),
                distinct(start),
                hits@.len() == i,
                self@.capacity == old(self)@.capacity,
                self@.entries == used_all(start, keys.take(i as int)),
                forall|j: int|
                    0 <= j < i ==> vector_view(#[trigger] hits@[j]) == find(
                        start,
                        text_hash(texts@[j]@),
                    ),
            decreases texts.len() - i,
        {
            proof {
                assert(keys.take(i as int + 1).drop_last() =~= keys.take(i as int));
                assert(keys.take(i as int + 1).last() == text_hash(texts@[i as int]@));
                lemma_uses_keep_vectors(start, keys.take(i as int), text_hash(texts@[i as int]@));
            }
            let hit = self.get(texts[i].as_str());
            hits.push(hit);
            i = i + 1;
        }
        assert(keys.take(i as int) =~= keys);
        hits
    }

    /// Caches each computed vector under the key of the text at its place.
    pub fn store_batch(&mut self, texts: &[String], computed: &Vec<Vec<u32>>)
        ensures
            final(self)@.entries == cached_all(
                old(self)@.entries,
                old(self)@.capacity,
                keys_of(texts@),
                vectors_view(computed@),
            ),
            final(self)@.capacity == old(self)@.capacity,
    {
        let ghost start = self@.entries;
        let ghost keys = keys_of(texts@);
        let ghost vectors = vectors_view(computed@);
        let mut i: usize = 0;
        assert(keys.take(0) =~= Seq::<Seq<char>>::empty());
        while i < texts.len()
            invariant
                i <= texts.len(),
                keys == keys_of(texts@),
                vectors == vectors_view(computed@),
                self@.capacity == old(self)@.capacity,
                self@.entries == cached_all(start, self@.capacity, keys.take(i as int), vectors),
            decreases texts.len() - i,
        {
            proof {
                assert(keys.take(i as int + 1).drop_last() =~= keys.take(i as int));
                assert(keys.take(i as int + 1).last() == text_hash(texts@[i as int]@));
            }
            if i < computed.len() {
                self.insert(texts[i].as_str(), copy_bits(&computed[i]));
            }
            i = i + 1;
        }
        assert(keys.take(i as int) =~= keys);
    }
}

} // verus!
