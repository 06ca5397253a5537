//! The chunks of a memory store: text with its location and its embedding,
//! one row for each chunk.

use crate::table::{
    distinct_keys, id_of, is_place, keys_at_path, lemma_row_in_table, without_path, Row, Rows,
};
use crate::text::str_eq;
use crate::vector::copy_bits;
use vstd::prelude::*;

verus! {

/// A stored unit of text.
#[derive(Debug)]
pub struct Chunk {
    /// The stable identifier of the chunk.
    pub chunk_id: String,
    /// The logical source location. Several chunks may share one.
    pub path: String,
    /// The first line of the chunk within its path, counted from one; zero
    /// where lines do not apply.
    pub line_start: i32,
    /// The last line of the chunk within its path, counted from one; zero
    /// where lines do not apply.
    pub line_end: i32,
    /// The text.
    pub content: String,
    /// The embedding of the text: the bit pattern of each single-precision
    /// component, in order.
    pub embedding: Vec<u32>,
    /// The instant at which the chunk was stored.
    pub created_at: String,
}

/// A chunk with its texts taken as sequences of characters.
pub struct ChunkView {
    pub chunk_id: Seq<char>,
    pub path: Seq<char>,
    pub line_start: i32,
    pub line_end: i32,
    pub content: Seq<char>,
    pub embedding: Seq<u32>,
    pub created_at: Seq<char>,
}

impl View for Chunk {
    type V = ChunkView;

    open spec fn view(&self) -> ChunkView {
        ChunkView {
            chunk_id: self.chunk_id@,
            path: self.path@,
            line_start: self.line_start,
            line_end: self.line_end,
            content: self.content@,
            embedding: self.embedding@,
            created_at: self.created_at@,
        }
    }
}

impl Row for Chunk {
    open spec fn key_of(row: ChunkView) -> Seq<char> {
        row.chunk_id
    }

    open spec fn path_of(row: ChunkView) -> Seq<char> {
        row.path
    }

    fn key_text(&self) -> (key: &str) {
        self.chunk_id.as_str()
    }

    fn path_text(&self) -> (path: &str) {
        self.path.as_str()
    }
}

impl Clone for Chunk {
    fn clone(&self) -> (copy: Self)
        ensures
            copy@ == self@,
    {
        Chunk {
            chunk_id: self.chunk_id.clone(),
            path: self.path.clone(),
            line_start: self.line_start,
            line_end: self.line_end,
            content: self.content.clone(),
            embedding: copy_bits(&self.embedding),
            created_at: self.created_at.clone(),
        }
    }
}

/// The chunks as a map from chunk identifier to chunk.
pub type Chunks = Map<Seq<char>, ChunkView>;

/// Whether `a` is listed no later than `b`: it starts on an earlier line, or
/// on the same line and ends no later.
pub open spec fn lines_before(a: ChunkView, b: ChunkView) -> bool {
    a.line_start < b.line_start || (a.line_start == b.line_start && a.line_end <= b.line_end)
}

/// Whether `listed` are chunks of `chunks`, each under its own identifier
/// and none twice.
pub open spec fn drawn_from(listed: Seq<Chunk>, chunks: Chunks) -> bool {
    &&& forall|i: int|
        0 <= i < listed.len() ==> chunks.contains_key((#[trigger] listed[i])@.chunk_id)
            && chunks[listed[i]@.chunk_id] == listed[i]@
    &&& forall|i: int, j: int|
        0 <= i < j < listed.len() ==> (#[trigger] listed[i])@.chunk_id != (
        #[trigger] listed[j])@.chunk_id
}

/// Whether the chunk of `key` is among `listed`.
pub open spec fn lists(listed: Seq<Chunk>, key: Seq<char>) -> bool {
    exists|i: int| 0 <= i < listed.len() && (#[trigger] listed[i])@.chunk_id == key
}

/// Whether `listed` is the listing of the chunks at `path`: all of them,
/// each once, ordered by their lines.
pub open spec fn is_listing(listed: Seq<Chunk>, chunks: Chunks, path: Seq<char>) -> bool {
    &&& drawn_from(listed, chunks)
    &&& forall|i: int| 0 <= i < listed.len() ==> (#[trigger] listed[i])@.path == path
    &&& forall|key: Seq<char>| #[trigger]
        chunks.contains_key(key) && chunks[key].path == path ==> lists(listed, key)
    &&& forall|i: int, j: int|
        0 <= i < j < listed.len() ==> lines_before((#[trigger] listed[i])@, (
        #[trigger] listed[j])@)
}

/// Whether `scanned` is a scan of at most `limit` chunks: chunks of the
/// store, none twice, as many as the limit allows, and therefore all of
/// them where the limit is no smaller than the store. No chunk is left out
/// for what its embedding is.
pub open spec fn is_scan(scanned: Seq<Chunk>, chunks: Chunks, limit: nat) -> bool {
    &&& drawn_from(scanned, chunks)
    &&& scanned.len() == if limit <= chunks.dom().len() {
        limit
    } else {
        chunks.dom().len()
    }
    &&& limit >= chunks.dom().len() ==> forall|key: Seq<char>| #[trigger]
        chunks.contains_key(key) ==> lists(scanned, key)
}

/// Decides whether `a` is listed no later than `b`.
fn comes_before(a: &Chunk, b: &Chunk) -> (first: bool)
    ensures
        first == lines_before(a@, b@),
{
    a.line_start < b.line_start || (a.line_start == b.line_start && a.line_end <= b.line_end)
}

/// Whether the chunks stand in the order of their lines.
pub open spec fn in_line_order(listed: Seq<Chunk>) -> bool {
    forall|i: int, j: int|
        0 <= i < j < listed.len() ==> lines_before((#[trigger] listed[i])@, (
        #[trigger] listed[j])@)
}

/// Puts `chunk` into a list that is in line order, at a place that keeps
/// it so, and returns the place.
fn insert_by_lines(listed: &mut Vec<Chunk>, chunk: Chunk) -> (place: usize)
    requires
        in_line_order(old(listed)@),
    ensures
        in_line_order(final(listed)@),
        place <= old(listed)@.len(),
        final(listed)@ == old(listed)@.insert(place as int, chunk),
{
    let mut p: usize = 0;
    while p < listed.len() && comes_before(&listed[p], &chunk)
        invariant
            p <= listed.len(),
            forall|j: int| 0 <= j < p ==> lines_before((#[trigger] listed[j])@, chunk@),
        decreases listed.len() - p,
    {
        p = p + 1;
    }
    let ghost before = listed@;
    listed.insert(p, chunk);
    proof {
        let after = listed@;
        assert forall|i: int, j: int| 0 <= i < j < after.len() implies lines_before(
            (#[trigger] after[i])@,
            (#[trigger] after[j])@,
        ) by {
            if j < p {
                assert(lines_before(before[i]@, before[j]@));
            } else if j == p {
                assert(lines_before(before[i]@, chunk@));
            } else if i == p {
                assert(!lines_before(before[p as int]@, chunk@));
                if j - 1 > p {
                    assert(lines_before(before[p as int]@, before[j - 1]@));
                }
            } else if i < p {
                assert(lines_before(before[i]@, before[j - 1]@));
            } else {
                assert(lines_before(before[i - 1]@, before[j - 1]@));
            }
        }
    }
    p
}

/// The chunks of a memory store.
pub struct ChunkStore {
    table: Rows<Chunk>,
}

impl View for ChunkStore {
    type V = Chunks;

    closed spec fn view(&self) -> Chunks {
        self.table@
    }
}

impl ChunkStore {
    /// Creates an empty store.
    pub fn new() -> (store: ChunkStore)
        ensures
            store@ == Map::<Seq<char>, ChunkView>::empty(),
    {
        ChunkStore { table: Rows::new() }
    }

    /// The number of chunks.
    pub fn len(&self) -> (n: usize)
        ensures
            self@.dom().finite(),
            n == self@.dom().len(),
    {
        self.table.len()
    }

    /// Writes a chunk, in place of the chunk that had its identifier, and
    /// returns the identifier.
    pub fn insert(&mut self, chunk: Chunk) -> (chunk_id: String)
        ensures
            final(self)@ == old(self)@.insert(chunk@.chunk_id, chunk@),
            chunk_id@ == chunk@.chunk_id,
    {
        let chunk_id = chunk.chunk_id.clone();
        self.table.put(chunk);
        chunk_id
    }

    /// Looks up a chunk.
    pub fn get(&self, chunk_id: &str) -> (found: Option<Chunk>)
        ensures
            found is Some <==> self@.contains_key(chunk_id@),
            found matches Some(chunk) ==> chunk@ == self@[chunk_id@],
    {
        match self.table.get(chunk_id) {
            Some(chunk) => Some(chunk.clone()),
            None => None,
        }
    }

    /// Removes every chunk at `path` and returns how many there were.
    pub fn delete_by_path(&mut self, path: &str) -> (removed: usize)
        ensures
            final(self)@ == without_path::<Chunk>(old(self)@, path@),
            removed == keys_at_path::<Chunk>(old(self)@, path@).len(),
    {
        self.table.remove_path(path)
    }

    /// Scans up to `limit` chunks for scoring, in the order in which they
    /// are kept.
    pub fn scan_candidates(&self, limit: usize) -> (scanned: Vec<Chunk>)
        ensures
            is_scan(scanned@, self@, limit as nat),
    {
        let total = self.table.len();
        let rows = self.table.rows();
        let n: usize = if limit <= total {
            limit
        } else {
            total
        };
        let mut scanned: Vec<Chunk> = Vec::new();
        let mut i: usize = 0;
        while i < n
            invariant
                i <= n <= rows.len(),
                scanned.len() == i,
                forall|j: int| 0 <= j < i ==> (#[trigger] scanned[j])@ == rows[j]@,
            decreases n - i,
        {
            scanned.push(rows[i].clone());
            i = i + 1;
        }
        proof {
            assert forall|j: int| 0 <= j < scanned.len() implies self@.contains_key(
                (#[trigger] scanned[j])@.chunk_id,
            ) && self@[scanned[j]@.chunk_id] == scanned[j]@ by {
                lemma_row_in_table(rows@, j);
            }
            assert forall|a: int, b: int| 0 <= a < b < scanned.len() implies (
            #[trigger] scanned[a])@.chunk_id != (#[trigger] scanned[b])@.chunk_id by {
                assert(id_of(rows@[a]) != id_of(rows@[b]));
            }
            if limit >= total {
                assert forall|key: Seq<char>| #[trigger] self@.contains_key(key) implies lists(
                    scanned@,
                    key,
                ) by {
                    let j = choose|j: int| is_place(rows@, key, j);
                    assert(scanned[j]@.chunk_id == key);
                }
            }
        }
        scanned
    }

    /// Lists the chunks at `path`, ordered by the line on which they start
    /// and then by the line on which they end.
    pub fn list_by_path(&self, path: &str) -> (listed: Vec<Chunk>)
        ensures
            is_listing(listed@, self@, path@),
    {
        let rows = self.table.rows();
        let mut listed: Vec<Chunk> = Vec::new();
        let mut i: usize = 0;
        while i < rows.len()
            invariant
                i <= rows.len(),
                distinct_keys(rows@),
                in_line_order(listed@),
                forall|j: int|
                    0 <= j < listed.len() ==> from_rows(rows@, i as int, path@, (
                    #[trigger] listed[j])@),
                forall|a: int, b: int|
                    0 <= a < b < listed.len() ==> (#[trigger] listed[a])@.chunk_id != (
                    #[trigger] listed[b])@.chunk_id,
                forall|r: int|
                    0 <= r < i && (#[trigger] rows[r])@.path == path@ ==> lists(
                        listed@,
                        rows[r]@.chunk_id,
                    ),
            decreases rows.len() - i,
        {
            let ghost before = listed@;
            if str_eq(rows[i].path.as_str(), path) {
                let chunk = rows[i].clone();
                let p = insert_by_lines(&mut listed, chunk);
                proof {
                    assert forall|j: int| 0 <= j < listed.len() implies from_rows(
                        rows@,
                        i + 1,
                        path@,
                        (#[trigger] listed[j])@,
                    ) by {
                        if j < p {
                            lemma_from_more_rows(rows@, i as int, path@, before[j]@);
                        } else if j == p {
                            assert(listed[j]@ == rows[i as int]@);
                        } else {
                            lemma_from_more_rows(rows@, i as int, path@, before[j - 1]@);
                        }
                    }
                    assert forall|a: int, b: int| 0 <= a < b < listed.len() implies (
                    #[trigger] listed[a])@.chunk_id != (#[trigger] listed[b])@.chunk_id by {
                        let a0 = if a < p { a } else { a - 1 };
                        let b0 = if b < p { b } else { b - 1 };
                        if a == p {
                            lemma_earlier_row(rows@, i as int, path@, before[b0]@);
                        } else if b == p {
                            lemma_earlier_row(rows@, i as int, path@, before[a0]@);
                        } else {
                            assert(before[a0]@.chunk_id != before[b0]@.chunk_id);
                        }
                    }
                    assert forall|r: int|
                        0 <= r < i + 1 && (#[trigger] rows[r])@.path == path@ implies lists(
                        listed@,
                        rows[r]@.chunk_id,
                    ) by {
                        if r < i {
                            let j = choose|j: int|
                                0 <= j < before.len() && (#[trigger] before[j])@.chunk_id
                                    == rows[r]@.chunk_id;
                            let j1 = if j < p { j } else { j + 1 };
                            assert(listed[j1]@.chunk_id == rows[r]@.chunk_id);
                        } else {
                            assert(listed[p as int]@.chunk_id == rows[r]@.chunk_id);
                        }
                    }
                }
            } else {
                proof {
                    assert forall|j: int| 0 <= j < listed.len() implies from_rows(
                        rows@,
                        i + 1,
                        path@,
                        (#[trigger] listed[j])@,
                    ) by {
                        lemma_from_more_rows(rows@, i as int, path@, listed[j]@);
                    }
                }
            }
            i = i + 1;
        }
        proof {
            assert forall|j: int| 0 <= j < listed.len() implies self@.contains_key(
                (#[trigger] listed[j])@.chunk_id,
            ) && self@[listed[j]@.chunk_id] == listed[j]@ && listed[j]@.path == path@ by {
                let r = choose|r: int|
                    0 <= r < rows@.len() && (#[trigger] rows@[r])@ == listed[j]@ && rows@[r]@.path
                        == path@;
                lemma_row_in_table(rows@, r);
            }
            assert forall|key: Seq<char>| #[trigger]
                self@.contains_key(key) && self@[key].path == path@ implies lists(listed@, key) by {
                let r = choose|r: int| is_place(rows@, key, r);
                lemma_row_in_table(rows@, r);
                assert(rows[r]@.path == path@);
            }
        }
        listed
    }
}

/// Whether `chunk` is one of the first `upto` rows and stands at `path`.
spec fn from_rows(rows: Seq<Chunk>, upto: int, path: Seq<char>, chunk: ChunkView) -> bool {
    exists|r: int|
        0 <= r < upto && r < rows.len() && (#[trigger] rows[r])@ == chunk && rows[r]@.path
            == path
}

/// What is among the first rows is among the first rows and one more.
proof fn lemma_from_more_rows(rows: Seq<Chunk>, upto: int, path: Seq<char>, chunk: ChunkView)
    requires
        from_rows(rows, upto, path, chunk),
    ensures
        from_rows(rows, upto + 1, path, chunk),
{
    let r = choose|r: int|
        0 <= r < upto && r < rows.len() && (#[trigger] rows[r])@ == chunk && rows[r]@.path == path;
    assert(0 <= r < upto + 1 && r < rows.len() && rows[r]@ == chunk && rows[r]@.path == path);
}

/// A chunk from the rows before a place is not the chunk at that place.
proof fn lemma_earlier_row(rows: Seq<Chunk>, at: int, path: Seq<char>, chunk: ChunkView)
    requires
        distinct_keys(rows),
        0 <= at < rows.len(),
        from_rows(rows, at, path, chunk),
    ensures
        chunk.chunk_id != rows[at]@.chunk_id,
{
    let r = choose|r: int|
        0 <= r < at && r < rows.len() && (#[trigger] rows[r])@ == chunk && rows[r]@.path == path;
    assert(id_of(rows[r]) != id_of(rows[at]));
}

} // verus!
