//! Rows that are kept under the identifier of their chunk, one row for each
//! chunk, and are looked up by it.

use crate::text::str_eq;
use vstd::prelude::*;

verus! {

/// A row that belongs to a chunk at a path.
pub trait Row: View + Sized {
    /// The identifier of the chunk that a row belongs to.
    spec fn key_of(row: Self::V) -> Seq<char>;

    /// The path of the chunk that a row belongs to.
    spec fn path_of(row: Self::V) -> Seq<char>;

    /// The identifier of the chunk.
    fn key_text(&self) -> (key: &str)
        ensures
            key@ == Self::key_of(self@),
    ;

    /// The path of the chunk.
    fn path_text(&self) -> (path: &str)
        ensures
            path@ == Self::path_of(self@),
    ;
}

/// The identifier of the chunk that `row` belongs to.
pub open spec fn id_of<R: Row>(row: R) -> Seq<char> {
    R::key_of(row@)
}

/// No two rows belong to the same chunk.
pub open spec fn distinct_keys<R: Row>(rows: Seq<R>) -> bool {
    forall|i: int, j: int| 0 <= i < j < rows.len() ==> id_of(rows[i]) != id_of(rows[j])
}

/// Whether `i` is the place of the row of `key`.
pub open spec fn is_place<R: Row>(rows: Seq<R>, key: Seq<char>, i: int) -> bool {
    0 <= i < rows.len() && id_of(rows[i]) == key
}

/// The place of the row of `key`, where it has one.
pub open spec fn place_of<R: Row>(rows: Seq<R>, key: Seq<char>) -> int {
    choose|i: int| is_place(rows, key, i)
}

/// The map that a sequence of rows stands for: from the identifier of each
/// chunk to the view of its row.
pub open spec fn table_of<R: Row>(rows: Seq<R>) -> Map<Seq<char>, R::V> {
    Map::new(
        |key: Seq<char>| exists|i: int| is_place(rows, key, i),
        |key: Seq<char>| rows[place_of(rows, key)]@,
    )
}

/// A row is found in the table under the identifier of its chunk.
pub proof fn lemma_row_in_table<R: Row>(rows: Seq<R>, i: int)
    requires
        distinct_keys(rows),
        0 <= i < rows.len(),
    ensures
        table_of(rows).contains_key(id_of(rows[i])),
        table_of(rows)[id_of(rows[i])] == rows[i]@,
{
    let key = id_of(rows[i]);
    assert(is_place(rows, key, i));
    let j = place_of(rows, key);
    assert(is_place(rows, key, j));
    if i < j {
        assert(id_of(rows[i]) != id_of(rows[j]));
    } else if j < i {
        assert(id_of(rows[j]) != id_of(rows[i]));
    }
}

/// Adding a row for a chunk that has none inserts it into the map.
pub proof fn lemma_push_row<R: Row>(rows: Seq<R>, row: R)
    requires
        distinct_keys(rows),
        forall|i: int| !is_place(rows, id_of(row), i),
    ensures
        distinct_keys(rows.push(row)),
        table_of(rows.push(row)) == table_of(rows).insert(id_of(row), row@),
{
    let next = rows.push(row);
    assert forall|a: int, b: int| 0 <= a < b < next.len() implies id_of(next[a])
        != id_of(next[b]) by {
        if b == rows.len() {
            assert(!is_place(rows, id_of(row), a));
        } else {
            assert(id_of(rows[a]) != id_of(rows[b]));
        }
    }
    assert forall|key: Seq<char>| table_of(next).contains_key(key) <==> table_of(rows).insert(
        id_of(row),
        row@,
    ).contains_key(key) by {
        if table_of(next).contains_key(key) {
            let i = choose|i: int| is_place(next, key, i);
            if i < rows.len() {
                assert(is_place(rows, key, i));
            }
        }
        if table_of(rows).contains_key(key) {
            let i = choose|i: int| is_place(rows, key, i);
            assert(is_place(next, key, i));
        }
        if key == id_of(row) {
            assert(is_place(next, key, rows.len() as int));
        }
    }
    assert forall|key: Seq<char>| table_of(next).contains_key(key) implies table_of(next)[key]
        == table_of(rows).insert(id_of(row), row@)[key] by {
        let i = choose|i: int| is_place(next, key, i);
        lemma_row_in_table(next, i);
        if i < rows.len() {
            lemma_row_in_table(rows, i);
        }
    }
    assert(table_of(next) =~= table_of(rows).insert(id_of(row), row@));
}

/// Taking a row out removes its chunk from the map.
pub proof fn lemma_remove_row<R: Row>(rows: Seq<R>, i: int)
    requires
        distinct_keys(rows),
        0 <= i < rows.len(),
    ensures
        distinct_keys(rows.remove(i)),
        table_of(rows.remove(i)) == table_of(rows).remove(id_of(rows[i])),
{
    let next = rows.remove(i);
    let gone = id_of(rows[i]);
    assert forall|a: int, b: int| 0 <= a < b < next.len() implies id_of(next[a])
        != id_of(next[b]) by {
        let a0 = if a < i { a } else { a + 1 };
        let b0 = if b < i { b } else { b + 1 };
        assert(id_of(rows[a0]) != id_of(rows[b0]));
    }
    assert forall|key: Seq<char>| table_of(next).contains_key(key) <==> table_of(rows).remove(
        gone,
    ).contains_key(key) by {
        if table_of(next).contains_key(key) {
            let j = choose|j: int| is_place(next, key, j);
            let j0 = if j < i { j } else { j + 1 };
            assert(is_place(rows, key, j0));
            if j0 < i {
                assert(id_of(rows[j0]) != id_of(rows[i]));
            } else {
                assert(id_of(rows[i]) != id_of(rows[j0]));
            }
        }
        if table_of(rows).contains_key(key) && key != gone {
            let j = choose|j: int| is_place(rows, key, j);
            let j1 = if j < i { j } else { j - 1 };
            assert(is_place(next, key, j1));
        }
    }
    assert forall|key: Seq<char>| table_of(next).contains_key(key) implies table_of(next)[key]
        == table_of(rows).remove(gone)[key] by {
        let j = choose|j: int| is_place(next, key, j);
        let j0 = if j < i { j } else { j + 1 };
        lemma_row_in_table(next, j);
        lemma_row_in_table(rows, j0);
    }
    assert(table_of(next) =~= table_of(rows).remove(gone));
}

/// The last of distinct rows is absent from the table of the rows before
/// it, and the whole table is theirs with the last row inserted.
pub proof fn lemma_split_last<R: Row>(rows: Seq<R>)
    requires
        distinct_keys(rows),
        rows.len() > 0,
    ensures
        distinct_keys(rows.drop_last()),
        !table_of(rows.drop_last()).contains_key(id_of(rows.last())),
        table_of(rows) == table_of(rows.drop_last()).insert(id_of(rows.last()), rows.last()@),
{
    let front = rows.drop_last();
    let last = rows.last();
    assert forall|i: int, j: int| 0 <= i < j < front.len() implies id_of(front[i])
        != id_of(front[j]) by {
        assert(id_of(rows[i]) != id_of(rows[j]));
    }
    assert forall|i: int| !is_place(front, id_of(last), i) by {
        if 0 <= i < front.len() {
            assert(id_of(rows[i]) != id_of(rows[rows.len() - 1]));
        }
    }
    lemma_push_row(front, last);
    assert(front.push(last) =~= rows);
}

/// A table has as many chunks as it has rows.
pub proof fn lemma_table_size<R: Row>(rows: Seq<R>)
    requires
        distinct_keys(rows),
    ensures
        table_of(rows).dom().finite(),
        table_of(rows).dom().len() == rows.len(),
    decreases rows.len(),
{
    if rows.len() == 0 {
        assert(table_of(rows).dom() =~= Set::<Seq<char>>::empty());
    } else {
        lemma_split_last(rows);
        lemma_table_size(rows.drop_last());
        assert(table_of(rows).dom() =~= table_of(rows.drop_last()).dom().insert(
            id_of(rows.last()),
        ));
    }
}


/// The rows of the chunks of a store, one row for each chunk.
pub struct Rows<R: Row> {
    rows: Vec<R>,
}

impl<R: Row> View for Rows<R> {
    type V = Map<Seq<char>, R::V>;

    closed spec fn view(&self) -> Map<Seq<char>, R::V> {
        table_of(self.rows@)
    }
}

/// The table without the rows whose path is `path`.
pub open spec fn without_path<R: Row>(table: Map<Seq<char>, R::V>, path: Seq<char>) -> Map<
    Seq<char>,
    R::V,
> {
    table.restrict(Set::new(|key: Seq<char>| R::path_of(table[key]) != path))
}

/// The chunks whose row has the path `path`.
pub open spec fn keys_at_path<R: Row>(table: Map<Seq<char>, R::V>, path: Seq<char>) -> Set<
    Seq<char>,
> {
    table.dom().filter(|key: Seq<char>| R::path_of(table[key]) == path)
}

impl<R: Row> Rows<R> {
    #[verifier::type_invariant]
    spec fn one_row_per_chunk(self) -> bool {
        distinct_keys(self.rows@)
    }

    /// The rows in the order in which they are kept.
    pub closed spec fn seq(&self) -> Seq<R> {
        self.rows@
    }

    /// Creates an empty table.
    pub fn new() -> (table: Rows<R>)
        ensures
            table@ == Map::<Seq<char>, R::V>::empty(),
            table.seq().len() == 0,
    {
        let table = Rows { rows: Vec::new() };
        assert(table@ =~= Map::<Seq<char>, R::V>::empty());
        table
    }

    /// The rows, in the order in which they are kept. They are distinct by
    /// chunk, and they are what the table holds.
    pub fn rows(&self) -> (rows: &Vec<R>)
        ensures
            rows@ == self.seq(),
            distinct_keys(rows@),
            self@ == table_of(rows@),
    {
        proof {
            use_type_invariant(self);
        }
        &self.rows
    }

    /// The number of chunks that have a row.
    pub fn len(&self) -> (n: usize)
        ensures
            self@.dom().finite(),
            n == self@.dom().len(),
            n == self.seq().len(),
    {
        proof {
            use_type_invariant(self);
            lemma_table_size(self.rows@);
        }
        self.rows.len()
    }

    /// Finds the place of the row of `key`.
    fn place(&self, key: &str) -> (found: Option<usize>)
        ensures
            match found {
                Some(i) => is_place(self.rows@, key@, i as int),
                None => forall|i: int| !is_place(self.rows@, key@, i),
            },
    {
        let mut i: usize = 0;
        while i < self.rows.len()
            invariant
                i <= self.rows.len(),
                forall|j: int| 0 <= j < i ==> !is_place(self.rows@, key@, j),
            decreases self.rows.len() - i,
        {
            if str_eq(self.rows[i].key_text(), key) {
                return Some(i);
            }
            i = i + 1;
        }
        None
    }

    /// Looks up the row of a chunk.
    pub fn get(&self, key: &str) -> (found: Option<&R>)
        ensures
            found is Some <==> self@.contains_key(key@),
            found matches Some(row) ==> row@ == self@[key@] && R::key_of(row@) == key@,
    {
        proof {
            use_type_invariant(self);
        }
        match self.place(key) {
            Some(i) => {
                proof {
                    lemma_row_in_table(self.rows@, i as int);
                }
                Some(&self.rows[i])
            },
            None => None,
        }
    }

    /// Moves the rows out and leaves the table empty.
    fn take_rows(&mut self) -> (rows: Vec<R>)
        ensures
            rows@ == old(self).rows@,
            distinct_keys(rows@),
            final(self).rows@.len() == 0,
    {
        proof {
            use_type_invariant(&*self);
        }
        let mut rows: Vec<R> = Vec::new();
        core::mem::swap(&mut self.rows, &mut rows);
        rows
    }

    /// Writes `row` into the table, in place of the row that its chunk had.
    pub fn put(&mut self, row: R)
        ensures
            final(self)@ == old(self)@.insert(R::key_of(row@), row@),
    {
        let found = self.place(row.key_text());
        let mut rows = self.take_rows();
        match found {
            Some(i) => {
                let ghost before = rows@;
                let _ = rows.remove(i);
                proof {
                    lemma_remove_row(before, i as int);
                    assert forall|j: int| !is_place(rows@, id_of(row), j) by {
                        if is_place(rows@, id_of(row), j) {
                            lemma_row_in_table(rows@, j);
                        }
                    }
                    lemma_push_row(rows@, row);
                    assert(table_of(before).remove(id_of(row)).insert(id_of(row), row@)
                        =~= table_of(before).insert(id_of(row), row@));
                }
                rows.push(row);
            },
            None => {
                proof {
                    lemma_push_row(rows@, row);
                }
                rows.push(row);
            },
        }
        self.rows = rows;
    }

    /// Takes the row of a chunk out of the table.
    pub fn take(&mut self, key: &str) -> (taken: Option<R>)
        ensures
            final(self)@ == old(self)@.remove(key@),
            taken is Some <==> old(self)@.contains_key(key@),
            taken matches Some(row) ==> row@ == old(self)@[key@] && R::key_of(row@) == key@,
    {
        let found = self.place(key);
        match found {
            Some(i) => {
                let mut rows = self.take_rows();
                proof {
                    lemma_row_in_table(rows@, i as int);
                    lemma_remove_row(rows@, i as int);
                }
                let row = rows.remove(i);
                self.rows = rows;
                Some(row)
            },
            None => {
                proof {
                    assert(self@.remove(key@) =~= self@);
                }
                None
            },
        }
    }

    /// Removes the rows of every chunk at `path` and returns how many there
    /// were.
    pub fn remove_path(&mut self, path: &str) -> (removed: usize)
        ensures
            final(self)@ == without_path::<R>(old(self)@, path@),
            removed == keys_at_path::<R>(old(self)@, path@).len(),
    {
        let mut rows = self.take_rows();
        let ghost orig = rows@;
        assert(orig.len() == rows.len());
        let mut removed: usize = 0;
        let mut i: usize = 0;
        while i < rows.len()
            invariant
                distinct_keys(orig),
                distinct_keys(rows@),
                i <= rows.len(),
                removed + rows.len() == orig.len(),
                orig.len() <= usize::MAX,
                forall|j: int| 0 <= j < i ==> R::path_of(rows[j]@) != path@,
                forall|key: Seq<char>| #[trigger]
                    table_of(rows@).contains_key(key) ==> table_of(orig).contains_key(key)
                        && table_of(rows@)[key] == table_of(orig)[key],
                forall|key: Seq<char>| #[trigger]
                    table_of(orig).contains_key(key) && R::path_of(table_of(orig)[key]) != path@
                        ==> table_of(rows@).contains_key(key),
            decreases rows.len() - i,
        {
            if str_eq(rows[i].path_text(), path) {
                proof {
                    lemma_row_in_table(rows@, i as int);
                    lemma_remove_row(rows@, i as int);
                }
                let _ = rows.remove(i);
                removed = removed + 1;
            } else {
                i = i + 1;
            }
        }
        proof {
            let before = table_of(orig);
            let after = table_of(rows@);
            assert forall|key: Seq<char>| after.contains_key(key) implies R::path_of(before[key])
                != path@ by {
                let j = choose|j: int| is_place(rows@, key, j);
                lemma_row_in_table(rows@, j);
            }
            assert(after =~= without_path::<R>(before, path@));
            lemma_table_size(orig);
            lemma_table_size(rows@);
            let gone = keys_at_path::<R>(before, path@);
            before.dom().lemma_len_filter(|key: Seq<char>| R::path_of(before[key]) == path@);
            assert(after.dom().disjoint(gone));
            assert(after.dom() + gone =~= before.dom());
            vstd::set_lib::lemma_set_disjoint_lens(after.dom(), gone);
        }
        self.rows = rows;
        removed
    }
}

} // verus!
