//! Counts of the hash table: how many rows there are, and how many of each
//! provenance.

use crate::json::{provenance_json, provenance_to_json};
use crate::record::{HashRecord, RecordView};
use crate::table::{distinct_keys, id_of, is_place, lemma_row_in_table, lemma_split_last, table_of};
use crate::text::str_eq;
use vstd::prelude::*;

verus! {

/// The chunks whose provenance is persisted as the text `label`.
pub open spec fn chunks_with_label(table: Map<Seq<char>, RecordView>, label: Seq<char>) -> Set<
    Seq<char>,
> {
    table.dom().filter(|id: Seq<char>| provenance_json(table[id].provenance) == label)
}

/// A count as it is reported: the largest reportable value stands for
/// everything above it.
pub open spec fn reported_count(n: nat) -> int {
    if n <= i64::MAX {
        n as int
    } else {
        i64::MAX as int
    }
}

/// Counts of the rows of a table: how many there are, and how many there
/// are of each provenance.
#[derive(Debug)]
pub struct VerificationStats {
    /// The number of rows.
    pub total_hashes: usize,
    /// For each provenance that occurs, its persisted text and the number of
    /// rows that carry it.
    pub by_provenance: Vec<(String, i64)>,
}

impl VerificationStats {
    /// Whether these are the counts of `table`: the total is the number of
    /// chunks; every group names a provenance that occurs, with the number
    /// of its chunks; no provenance is named twice, and none that occurs is
    /// left out.
    pub open spec fn describes(&self, table: Map<Seq<char>, RecordView>) -> bool {
        &&& self.total_hashes == table.dom().len()
        &&& forall|g: int|
            0 <= g < self.by_provenance.len() ==> {
                &&& chunks_with_label(table, (#[trigger] self.by_provenance[g]).0@).len() > 0
                &&& self.by_provenance[g].1 == reported_count(
                    chunks_with_label(table, self.by_provenance[g].0@).len(),
                )
            }
        &&& forall|g: int, h: int|
            0 <= g < h < self.by_provenance.len() ==> self.by_provenance[g].0@
                != self.by_provenance[h].0@
        &&& forall|id: Seq<char>| #[trigger]
            table.contains_key(id) ==> exists|g: int|
                0 <= g < self.by_provenance.len() && (#[trigger] self.by_provenance[g]).0@
                    == provenance_json(table[id].provenance)
    }
}

/// The sum of the counts of the groups.
pub open spec fn count_sum(groups: Seq<(String, i64)>) -> int
    decreases groups.len(),
{
    if groups.len() == 0 {
        0
    } else {
        count_sum(groups.drop_last()) + groups.last().1
    }
}

/// The number of chunks whose provenance one of the groups names, each
/// group counted by itself.
pub open spec fn size_sum(table: Map<Seq<char>, RecordView>, groups: Seq<(String, i64)>) -> nat
    decreases groups.len(),
{
    if groups.len() == 0 {
        0
    } else {
        size_sum(table, groups.drop_last()) + chunks_with_label(table, groups.last().0@).len()
    }
}

/// The chunks whose provenance one of the groups names.
spec fn named_keys(table: Map<Seq<char>, RecordView>, groups: Seq<(String, i64)>) -> Set<
    Seq<char>,
> {
    table.dom().filter(|id: Seq<char>| is_named(groups, provenance_json(table[id].provenance)))
}

/// Groups with different names share no chunk, so the chunks that they name
/// are as many as the groups hold together.
proof fn lemma_named_size(table: Map<Seq<char>, RecordView>, groups: Seq<(String, i64)>)
    requires
        table.dom().finite(),
        forall|g: int, h: int| 0 <= g < h < groups.len() ==> groups[g].0@ != groups[h].0@,
    ensures
        named_keys(table, groups).finite(),
        named_keys(table, groups).len() == size_sum(table, groups),
    decreases groups.len(),
{
    if groups.len() == 0 {
        assert(named_keys(table, groups) =~= Set::<Seq<char>>::empty());
    } else {
        let front = groups.drop_last();
        let label = groups.last().0@;
        lemma_named_size(table, front);
        let before = named_keys(table, front);
        let group = chunks_with_label(table, label);
        table.dom().lemma_len_filter(
            |id: Seq<char>| provenance_json(table[id].provenance) == label,
        );
        assert(before.disjoint(group)) by {
            assert forall|id: Seq<char>| before.contains(id) implies !group.contains(id) by {
                let g = choose|g: int|
                    0 <= g < front.len() && (#[trigger] front[g]).0@ == provenance_json(
                        table[id].provenance,
                    );
                assert(groups[g].0@ != groups[groups.len() - 1].0@);
            }
        }
        assert(named_keys(table, groups) =~= before + group) by {
            assert forall|id: Seq<char>| named_keys(table, groups).contains(id) implies (before
                + group).contains(id) by {
                let g = choose|g: int|
                    0 <= g < groups.len() && (#[trigger] groups[g]).0@ == provenance_json(
                        table[id].provenance,
                    );
                if g < front.len() {
                    assert(front[g].0@ == provenance_json(table[id].provenance));
                }
            }
            assert forall|id: Seq<char>| (before + group).contains(id) implies named_keys(
                table,
                groups,
            ).contains(id) by {
                if before.contains(id) {
                    let g = choose|g: int|
                        0 <= g < front.len() && (#[trigger] front[g]).0@ == provenance_json(
                            table[id].provenance,
                        );
                    assert(groups[g].0@ == provenance_json(table[id].provenance));
                } else {
                    assert(groups[groups.len() - 1].0@ == provenance_json(table[id].provenance));
                }
            }
        }
        vstd::set_lib::lemma_set_disjoint_lens(before, group);
    }
}

/// Counts that are reported without loss add up as the sizes do.
proof fn lemma_count_sum(table: Map<Seq<char>, RecordView>, groups: Seq<(String, i64)>)
    requires
        forall|g: int|
            0 <= g < groups.len() ==> (#[trigger] groups[g]).1 == chunks_with_label(
                table,
                groups[g].0@,
            ).len(),
    ensures
        count_sum(groups) == size_sum(table, groups),
    decreases groups.len(),
{
    if groups.len() > 0 {
        let front = groups.drop_last();
        assert forall|g: int| 0 <= g < front.len() implies (#[trigger] front[g]).1
            == chunks_with_label(table, front[g].0@).len() by {
            assert(front[g] == groups[g]);
        }
        lemma_count_sum(table, front);
        assert(groups.last() == groups[groups.len() - 1]);
    }
}

/// The groups divide the table: every chunk falls under exactly one group,
/// so the sizes of the groups add up to the number of chunks, and so do the
/// counts that are reported, unless the table holds more chunks than a
/// count can report.
pub proof fn lemma_counts_add_up(stats: VerificationStats, table: Map<Seq<char>, RecordView>)
    requires
        stats.describes(table),
        table.dom().finite(),
    ensures
        size_sum(table, stats.by_provenance@) == table.dom().len(),
        table.dom().len() <= i64::MAX ==> count_sum(stats.by_provenance@) == stats.total_hashes,
{
    let groups = stats.by_provenance@;
    lemma_named_size(table, groups);
    assert(named_keys(table, groups) =~= table.dom()) by {
        assert forall|id: Seq<char>| table.dom().contains(id) implies named_keys(
            table,
            groups,
        ).contains(id) by {
            assert(table.contains_key(id));
            let g = choose|g: int|
                0 <= g < groups.len() && (#[trigger] groups[g]).0@ == provenance_json(
                    table[id].provenance,
                );
            assert(is_named(groups, provenance_json(table[id].provenance)));
        }
    }
    if table.dom().len() <= i64::MAX {
        assert forall|g: int| 0 <= g < groups.len() implies (#[trigger] groups[g]).1
            == chunks_with_label(table, groups[g].0@).len() by {
            let label = groups[g].0@;
            table.dom().lemma_len_filter(
                |id: Seq<char>| provenance_json(table[id].provenance) == label,
            );
        }
        lemma_count_sum(table, groups);
    }
}

/// The number of rows whose provenance is persisted as `label`.
spec fn count_label(rows: Seq<HashRecord>, label: Seq<char>) -> nat
    decreases rows.len(),
{
    if rows.len() == 0 {
        0
    } else {
        count_label(rows.drop_last(), label) + if provenance_json(rows.last().provenance@)
            == label {
            1nat
        } else {
            0nat
        }
    }
}

/// The chunks of a provenance are as many as the rows that carry it.
proof fn lemma_count_label(rows: Seq<HashRecord>, label: Seq<char>)
    requires
        distinct_keys(rows),
    ensures
        chunks_with_label(table_of(rows), label).finite(),
        chunks_with_label(table_of(rows), label).len() == count_label(rows, label),
    decreases rows.len(),
{
    if rows.len() == 0 {
        assert(chunks_with_label(table_of(rows), label) =~= Set::<Seq<char>>::empty());
    } else {
        let front = rows.drop_last();
        let last = rows.last();
        lemma_split_last(rows);
        lemma_count_label(front, label);
        let before = chunks_with_label(table_of(front), label);
        let after = chunks_with_label(table_of(rows), label);
        if provenance_json(last.provenance@) == label {
            assert(after =~= before.insert(id_of(last)));
        } else {
            assert(after =~= before);
        }
    }
}

/// A label that some row carries is counted at least once.
proof fn lemma_count_positive(rows: Seq<HashRecord>, label: Seq<char>, i: int)
    requires
        0 <= i < rows.len(),
        provenance_json(rows[i].provenance@) == label,
    ensures
        count_label(rows, label) > 0,
    decreases rows.len(),
{
    if i < rows.len() - 1 {
        lemma_count_positive(rows.drop_last(), label, i);
    }
}

/// Whether `labels` holds the persisted provenance of each row, in order.
spec fn labels_of(labels: Seq<String>, rows: Seq<HashRecord>) -> bool {
    &&& labels.len() == rows.len()
    &&& forall|i: int|
        0 <= i < rows.len() ==> (#[trigger] labels[i])@ == provenance_json(rows[i].provenance@)
}

/// Whether `label` stands at a place before `upto`.
spec fn occurs_before(labels: Seq<String>, upto: int, label: Seq<char>) -> bool {
    exists|f: int| 0 <= f < upto && (#[trigger] labels[f])@ == label
}

/// Whether a group is named `label`.
spec fn is_named(groups: Seq<(String, i64)>, label: Seq<char>) -> bool {
    exists|g: int| 0 <= g < groups.len() && (#[trigger] groups[g]).0@ == label
}

/// What stands before a place stands before every later place.
proof fn lemma_occurs_longer(labels: Seq<String>, upto: int, label: Seq<char>)
    requires
        occurs_before(labels, upto, label),
    ensures
        occurs_before(labels, upto + 1, label),
{
    let f = choose|f: int| 0 <= f < upto && (#[trigger] labels[f])@ == label;
    assert(0 <= f < upto + 1 && labels[f]@ == label);
}

/// Renders the provenance of each row.
fn render_labels(rows: &Vec<HashRecord>) -> (labels: Vec<String>)
    ensures
        labels_of(labels@, rows@),
{
    let mut labels: Vec<String> = Vec::new();
    let mut i: usize = 0;
    while i < rows.len()
        invariant
            i <= rows.len(),
            labels.len() == i,
            forall|j: int|
                0 <= j < i ==> (#[trigger] labels[j])@ == provenance_json(rows[j].provenance@),
        decreases rows.len() - i,
    {
        labels.push(provenance_to_json(&rows[i].provenance));
        i = i + 1;
    }
    labels
}

/// Counts the rows that carry `label`.
fn count_rows(labels: &Vec<String>, label: &str, Ghost(rows): Ghost<Seq<HashRecord>>) -> (n: usize)
    requires
        labels_of(labels@, rows),
    ensures
        n == count_label(rows, label@),
{
    let mut n: usize = 0;
    let mut j: usize = 0;
    while j < labels.len()
        invariant
            labels_of(labels@, rows),
            j <= labels.len(),
            n <= j,
            n == count_label(rows.take(j as int), label@),
        decreases labels.len() - j,
    {
        proof {
            assert(rows.take(j as int + 1).drop_last() =~= rows.take(j as int));
            assert(rows.take(j as int + 1).last() == rows[j as int]);
        }
        if str_eq(labels[j].as_str(), label) {
            n = n + 1;
        }
        j = j + 1;
    }
    assert(rows.take(j as int) =~= rows);
    n
}

/// Whether the label at `i` occurs at an earlier place.
fn seen_before(labels: &Vec<String>, i: usize) -> (seen: bool)
    requires
        i < labels.len(),
    ensures
        seen == occurs_before(labels@, i as int, labels[i as int]@),
{
    let mut j: usize = 0;
    while j < i
        invariant
            j <= i < labels.len(),
            forall|k: int| 0 <= k < j ==> (#[trigger] labels[k])@ != labels[i as int]@,
        decreases i - j,
    {
        if str_eq(labels[j].as_str(), labels[i].as_str()) {
            return true;
        }
        j = j + 1;
    }
    false
}

/// A count as it is reported.
fn report(n: usize) -> (count: i64)
    ensures
        count == reported_count(n as nat),
{
    let wide: u64 = n as u64;
    if wide > 0x7fff_ffff_ffff_ffff {
        i64::MAX
    } else {
        wide as i64
    }
}

/// Counts the rows of a table, in all and by provenance.
pub(crate) fn tally(kept: &Vec<HashRecord>, total: usize) -> (stats: VerificationStats)
    requires
        distinct_keys(kept@),
        total == table_of(kept@).dom().len(),
    ensures
        stats.describes(table_of(kept@)),
{
    let ghost rows = kept@;
    let labels = render_labels(kept);
    let mut groups: Vec<(String, i64)> = Vec::new();
    let mut i: usize = 0;
    while i < labels.len()
        invariant
            labels_of(labels@, rows),
            i <= labels.len(),
            forall|g: int|
                0 <= g < groups.len() ==> count_label(rows, (#[trigger] groups[g]).0@) > 0
                    && groups[g].1 == reported_count(count_label(rows, groups[g].0@)),
            forall|g: int|
                0 <= g < groups.len() ==> occurs_before(labels@, i as int, (#[trigger] groups[g]).0@),
            forall|g: int, h: int|
                0 <= g < h < groups.len() ==> (#[trigger] groups[g]).0@ != (
                #[trigger] groups[h]).0@,
            forall|j: int| 0 <= j < i ==> is_named(groups@, (#[trigger] labels[j])@),
        decreases labels.len() - i,
    {
        let ghost before = groups@;
        let seen = seen_before(&labels, i);
        assert(seen == occurs_before(labels@, i as int, labels[i as int]@));
        if !seen {
            let n = count_rows(&labels, labels[i].as_str(), Ghost(rows));
            proof {
                lemma_count_positive(rows, labels[i as int]@, i as int);
            }
            groups.push((labels[i].clone(), report(n)));
            proof {
                let last = groups.len() - 1;
                assert(groups[last].0@ == labels[i as int]@);
                assert forall|g: int| 0 <= g < groups.len() implies occurs_before(
                    labels@,
                    i + 1,
                    (#[trigger] groups[g]).0@,
                ) by {
                    if g < last {
                        assert(groups[g] == before[g]);
                        lemma_occurs_longer(labels@, i as int, before[g].0@);
                    } else {
                        assert(labels@[i as int]@ == groups[g].0@);
                    }
                }
                assert forall|g: int, h: int| 0 <= g < h < groups.len() implies (
                #[trigger] groups[g]).0@ != (#[trigger] groups[h]).0@ by {
                    assert(groups[g] == before[g]);
                    if h == last {
                        assert(occurs_before(labels@, i as int, before[g].0@));
                    } else {
                        assert(groups[h] == before[h]);
                    }
                }
                assert forall|j: int| 0 <= j < i + 1 implies is_named(
                    groups@,
                    (#[trigger] labels[j])@,
                ) by {
                    if j < i {
                        let g = choose|g: int|
                            0 <= g < before.len() && (#[trigger] before[g]).0@ == labels[j]@;
                        assert(groups[g] == before[g]);
                    } else {
                        assert(groups[last].0@ == labels[j]@);
                    }
                }
            }
        } else {
            proof {
                let f = choose|f: int|
                    0 <= f < i && (#[trigger] labels@[f])@ == labels[i as int]@;
                assert(is_named(groups@, labels[f]@));
                assert forall|g: int| 0 <= g < groups.len() implies occurs_before(
                    labels@,
                    i + 1,
                    (#[trigger] groups[g]).0@,
                ) by {
                    lemma_occurs_longer(labels@, i as int, groups[g].0@);
                }
            }
        }
        i = i + 1;
    }
    let stats = VerificationStats { total_hashes: total, by_provenance: groups };
    proof {
        assert forall|g: int| 0 <= g < stats.by_provenance.len() implies {
            &&& chunks_with_label(table_of(rows), (#[trigger] stats.by_provenance[g]).0@).len() > 0
            &&& stats.by_provenance[g].1 == reported_count(
                chunks_with_label(table_of(rows), stats.by_provenance[g].0@).len(),
            )
        } by {
            lemma_count_label(rows, stats.by_provenance[g].0@);
        }
        assert forall|id: Seq<char>| #[trigger] table_of(rows).contains_key(id) implies exists|g: int|
            0 <= g < stats.by_provenance.len() && (#[trigger] stats.by_provenance[g]).0@
                == provenance_json(table_of(rows)[id].provenance) by {
            let j = choose|j: int| is_place(rows, id, j);
            lemma_row_in_table(rows, j);
            assert(is_named(groups@, labels[j]@));
            let g = choose|g: int|
                0 <= g < groups.len() && (#[trigger] groups@[g]).0@ == labels[j]@;
            assert(stats.by_provenance[g].0@ == provenance_json(table_of(rows)[id].provenance));
        }
    }
    stats
}

} // verus!
