//! Rows with unique keys, read as a finite map.
//!
//! Each table of the character state keeps its rows in a vector and is
//! specified by the map from a key to the row that has it. This module
//! holds the definition of that map and the facts that tie vector updates to
//! map updates.

use vstd::prelude::*;

verus! {

/// The map that a sequence of key-value entries stands for. Where a key
/// occurs more than once the last occurrence wins; tables rule that out with
/// [`keys_distinct`].
pub open spec fn entries_to_map<K, V>(entries: Seq<(K, V)>) -> Map<K, V>
    decreases entries.len(),
{
    if entries.len() == 0 {
        Map::empty()
    } else {
        entries_to_map(entries.drop_last()).insert(entries.last().0, entries.last().1)
    }
}

/// No key occurs twice.
pub open spec fn keys_distinct<K, V>(entries: Seq<(K, V)>) -> bool {
    forall|i: int, j: int| 0 <= i < j < entries.len() ==> entries[i].0 != entries[j].0
}

/// Some entry has the key `k`.
pub open spec fn has_key<K, V>(entries: Seq<(K, V)>, k: K) -> bool {
    exists|i: int| 0 <= i < entries.len() && #[trigger] entries[i].0 == k
}

/// The domain of the map is the set of keys that occur, and it is finite.
pub proof fn lemma_map_domain<K, V>(entries: Seq<(K, V)>)
    ensures
        entries_to_map(entries).dom().finite(),
        forall|k: K| #[trigger] entries_to_map(entries).dom().contains(k) <==> has_key(entries, k),
    decreases entries.len(),
{
    if entries.len() > 0 {
        let init = entries.drop_last();
        lemma_map_domain(init);
        assert forall|k: K| #[trigger]
            entries_to_map(entries).dom().contains(k) <==> has_key(entries, k) by {
            if has_key(init, k) {
                let i = choose|i: int| 0 <= i < init.len() && #[trigger] init[i].0 == k;
                assert(entries[i].0 == k);
            }
            if has_key(entries, k) {
                let i = choose|i: int| 0 <= i < entries.len() && #[trigger] entries[i].0 == k;
                if i < init.len() {
                    assert(init[i].0 == k);
                }
            }
        }
    }
}

/// With distinct keys, every entry is found under its key.
pub proof fn lemma_map_lookup<K, V>(entries: Seq<(K, V)>, i: int)
    requires
        keys_distinct(entries),
        0 <= i < entries.len(),
    ensures
        entries_to_map(entries).dom().contains(entries[i].0),
        entries_to_map(entries)[entries[i].0] == entries[i].1,
    decreases entries.len(),
{
    let init = entries.drop_last();
    if i < entries.len() - 1 {
        assert(keys_distinct(init)) by {
            assert forall|a: int, b: int| 0 <= a < b < init.len() implies init[a].0 != init[b].0 by {
                assert(entries[a].0 != entries[b].0);
            }
        }
        lemma_map_lookup(init, i);
        assert(init[i] == entries[i]);
        assert(entries[i].0 != entries.last().0);
    }
}

/// With distinct keys, the map has one binding for each entry.
pub proof fn lemma_map_len<K, V>(entries: Seq<(K, V)>)
    requires
        keys_distinct(entries),
    ensures
        entries_to_map(entries).dom().finite(),
        entries_to_map(entries).len() == entries.len(),
    decreases entries.len(),
{
    lemma_map_domain(entries);
    if entries.len() > 0 {
        let init = entries.drop_last();
        assert(keys_distinct(init)) by {
            assert forall|a: int, b: int| 0 <= a < b < init.len() implies init[a].0 != init[b].0 by {
                assert(entries[a].0 != entries[b].0);
            }
        }
        lemma_map_len(init);
        lemma_map_domain(init);
        if has_key(init, entries.last().0) {
            let i = choose|i: int| 0 <= i < init.len() && #[trigger] init[i].0 == entries.last().0;
            assert(entries[i].0 == entries[entries.len() - 1].0);
        }
        assert(!entries_to_map(init).dom().contains(entries.last().0));
    }
}

/// Appending an entry under a key that does not occur adds the binding.
pub proof fn lemma_push_entry<K, V>(entries: Seq<(K, V)>, k: K, v: V)
    requires
        keys_distinct(entries),
        !has_key(entries, k),
    ensures
        keys_distinct(entries.push((k, v))),
        entries_to_map(entries.push((k, v))) == entries_to_map(entries).insert(k, v),
{
    let next = entries.push((k, v));
    assert(next.drop_last() =~= entries);
    assert forall|a: int, b: int| 0 <= a < b < next.len() implies next[a].0 != next[b].0 by {
        if b < entries.len() {
            assert(entries[a].0 != entries[b].0);
        } else {
            assert(entries[a].0 == next[a].0);
        }
    }
}

/// Replacing the value of the entry at `i` rebinds its key.
pub proof fn lemma_update_entry<K, V>(entries: Seq<(K, V)>, i: int, v: V)
    requires
        keys_distinct(entries),
        0 <= i < entries.len(),
    ensures
        keys_distinct(entries.update(i, (entries[i].0, v))),
        entries_to_map(entries.update(i, (entries[i].0, v))) == entries_to_map(entries).insert(
            entries[i].0,
            v,
        ),
{
    let k = entries[i].0;
    let next = entries.update(i, (k, v));
    assert forall|a: int, b: int| 0 <= a < b < next.len() implies next[a].0 != next[b].0 by {
        assert(entries[a].0 != entries[b].0);
    }
    lemma_map_domain(entries);
    lemma_map_domain(next);
    let lhs = entries_to_map(next);
    let rhs = entries_to_map(entries).insert(k, v);
    assert forall|q: K| lhs.dom().contains(q) <==> rhs.dom().contains(q) by {
        if has_key(next, q) {
            let a = choose|a: int| 0 <= a < next.len() && #[trigger] next[a].0 == q;
            assert(entries[a].0 == q);
        }
        if has_key(entries, q) {
            let a = choose|a: int| 0 <= a < entries.len() && #[trigger] entries[a].0 == q;
            assert(next[a].0 == q);
        }
        assert(next[i].0 == k);
    }
    assert forall|q: K| lhs.dom().contains(q) implies lhs[q] == rhs[q] by {
        let a = choose|a: int| 0 <= a < next.len() && #[trigger] next[a].0 == q;
        lemma_map_lookup(next, a);
        if a != i {
            lemma_map_lookup(entries, a);
        }
    }
    assert(lhs =~= rhs);
}

/// Taking out the entry at `i` unbinds its key.
pub proof fn lemma_remove_entry<K, V>(entries: Seq<(K, V)>, i: int)
    requires
        keys_distinct(entries),
        0 <= i < entries.len(),
    ensures
        keys_distinct(entries.remove(i)),
        entries_to_map(entries.remove(i)) == entries_to_map(entries).remove(entries[i].0),
{
    let k = entries[i].0;
    let next = entries.remove(i);
    assert forall|a: int, b: int| 0 <= a < b < next.len() implies next[a].0 != next[b].0 by {
        let a0 = if a < i { a } else { a + 1 };
        let b0 = if b < i { b } else { b + 1 };
        assert(next[a] == entries[a0]);
        assert(next[b] == entries[b0]);
        assert(entries[a0].0 != entries[b0].0);
    }
    lemma_map_domain(entries);
    lemma_map_domain(next);
    let lhs = entries_to_map(next);
    let rhs = entries_to_map(entries).remove(k);
    assert forall|q: K| lhs.dom().contains(q) <==> rhs.dom().contains(q) by {
        if has_key(next, q) {
            let a = choose|a: int| 0 <= a < next.len() && #[trigger] next[a].0 == q;
            let a0 = if a < i { a } else { a + 1 };
            assert(next[a] == entries[a0]);
            assert(entries[a0].0 == q);
            if a0 < i {
                assert(entries[a0].0 != entries[i].0);
            } else {
                assert(entries[i].0 != entries[a0].0);
            }
        }
        if has_key(entries, q) && q != k {
            let a = choose|a: int| 0 <= a < entries.len() && #[trigger] entries[a].0 == q;
            let a1 = if a < i { a } else { a - 1 };
            assert(next[a1] == entries[a]);
            assert(next[a1].0 == q);
        }
    }
    assert forall|q: K| lhs.dom().contains(q) implies lhs[q] == rhs[q] by {
        let a = choose|a: int| 0 <= a < next.len() && #[trigger] next[a].0 == q;
        let a0 = if a < i { a } else { a + 1 };
        assert(next[a] == entries[a0]);
        lemma_map_lookup(next, a);
        lemma_map_lookup(entries, a0);
    }
    assert(lhs =~= rhs);
}

/// A key that no entry has is not bound.
pub proof fn lemma_absent_key<K, V>(entries: Seq<(K, V)>, k: K)
    requires
        forall|i: int| 0 <= i < entries.len() ==> (#[trigger] entries[i]).0 != k,
    ensures
        !entries_to_map(entries).dom().contains(k),
{
    lemma_map_domain(entries);
    if has_key(entries, k) {
        let i = choose|i: int| 0 <= i < entries.len() && #[trigger] entries[i].0 == k;
        assert(entries[i].0 != k);
    }
}

/// A row of a table: it has a key, and two rows can be tested for having the
/// same one.
pub trait Keyed: Sized {
    /// The type of the key.
    type Key;

    /// The key of the row.
    spec fn key(&self) -> Self::Key;

    /// Whether two rows have the same key.
    fn same_key(&self, other: &Self) -> (same: bool)
        ensures
            same == (self.key() == other.key()),
    ;
}

/// The rows of a table as entries: each row under its key.
pub open spec fn row_entries<R: Keyed>(rows: Seq<R>) -> Seq<(R::Key, R)> {
    rows.map_values(|r: R| (r.key(), r))
}

/// The map from key to row that the rows of a table stand for.
pub open spec fn rows_to_map<R: Keyed>(rows: Seq<R>) -> Map<R::Key, R> {
    entries_to_map(row_entries(rows))
}

/// No two rows have the same key.
pub open spec fn rows_distinct<R: Keyed>(rows: Seq<R>) -> bool {
    forall|i: int, j: int| 0 <= i < j < rows.len() ==> rows[i].key() != rows[j].key()
}

/// Distinct rows give distinct entries, and the other way round.
pub proof fn lemma_rows_distinct<R: Keyed>(rows: Seq<R>)
    ensures
        rows_distinct(rows) <==> keys_distinct(row_entries(rows)),
{
    let entries = row_entries(rows);
    if rows_distinct(rows) {
        assert forall|i: int, j: int| 0 <= i < j < entries.len() implies entries[i].0
            != entries[j].0 by {
            assert(rows[i].key() != rows[j].key());
        }
    }
    if keys_distinct(entries) {
        assert forall|i: int, j: int| 0 <= i < j < rows.len() implies rows[i].key()
            != rows[j].key() by {
            assert(entries[i].0 != entries[j].0);
        }
    }
}

/// With distinct keys, the row at `i` is the one bound to its key.
pub proof fn lemma_row_lookup<R: Keyed>(rows: Seq<R>, i: int)
    requires
        rows_distinct(rows),
        0 <= i < rows.len(),
    ensures
        rows_to_map(rows).dom().contains(rows[i].key()),
        rows_to_map(rows)[rows[i].key()] == rows[i],
{
    lemma_rows_distinct(rows);
    lemma_map_lookup(row_entries(rows), i);
}

/// A key that no row has is not bound.
pub proof fn lemma_row_absent<R: Keyed>(rows: Seq<R>, k: R::Key)
    requires
        forall|i: int| 0 <= i < rows.len() ==> (#[trigger] rows[i]).key() != k,
    ensures
        !rows_to_map(rows).dom().contains(k),
{
    let entries = row_entries(rows);
    assert forall|i: int| 0 <= i < entries.len() implies (#[trigger] entries[i]).0 != k by {
        assert(rows[i].key() != k);
    }
    lemma_absent_key(entries, k);
}

/// Every bound key is the key of some row, and the row bound to it has it.
pub proof fn lemma_row_bound<R: Keyed>(rows: Seq<R>, k: R::Key)
    requires
        rows_distinct(rows),
        rows_to_map(rows).dom().contains(k),
    ensures
        exists|i: int| 0 <= i < rows.len() && (#[trigger] rows[i]).key() == k,
        rows_to_map(rows)[k].key() == k,
{
    let entries = row_entries(rows);
    lemma_map_domain(entries);
    let i = choose|i: int| 0 <= i < entries.len() && #[trigger] entries[i].0 == k;
    assert(rows[i].key() == k);
    lemma_row_lookup(rows, i);
}

/// Appending a row whose key is new binds the key to the row.
pub proof fn lemma_row_push<R: Keyed>(rows: Seq<R>, r: R)
    requires
        rows_distinct(rows),
        forall|i: int| 0 <= i < rows.len() ==> (#[trigger] rows[i]).key() != r.key(),
    ensures
        rows_distinct(rows.push(r)),
        rows_to_map(rows.push(r)) == rows_to_map(rows).insert(r.key(), r),
{
    let entries = row_entries(rows);
    lemma_rows_distinct(rows);
    if has_key(entries, r.key()) {
        let i = choose|i: int| 0 <= i < entries.len() && #[trigger] entries[i].0 == r.key();
        assert(rows[i].key() != r.key());
    }
    lemma_push_entry(entries, r.key(), r);
    assert(row_entries(rows.push(r)) =~= entries.push((r.key(), r)));
    lemma_rows_distinct(rows.push(r));
}

/// Replacing the row at `i` by one with the same key rebinds the key.
pub proof fn lemma_row_update<R: Keyed>(rows: Seq<R>, i: int, r: R)
    requires
        rows_distinct(rows),
        0 <= i < rows.len(),
        r.key() == rows[i].key(),
    ensures
        rows_distinct(rows.update(i, r)),
        rows_to_map(rows.update(i, r)) == rows_to_map(rows).insert(r.key(), r),
{
    let entries = row_entries(rows);
    lemma_rows_distinct(rows);
    lemma_update_entry(entries, i, r);
    assert(row_entries(rows.update(i, r)) =~= entries.update(i, (entries[i].0, r)));
    lemma_rows_distinct(rows.update(i, r));
}

/// Taking out the row at `i` unbinds its key.
pub proof fn lemma_row_remove<R: Keyed>(rows: Seq<R>, i: int)
    requires
        rows_distinct(rows),
        0 <= i < rows.len(),
    ensures
        rows_distinct(rows.remove(i)),
        rows_to_map(rows.remove(i)) == rows_to_map(rows).remove(rows[i].key()),
{
    let entries = row_entries(rows);
    lemma_rows_distinct(rows);
    lemma_remove_entry(entries, i);
    assert(row_entries(rows.remove(i)) =~= entries.remove(i));
    lemma_rows_distinct(rows.remove(i));
}

/// With distinct keys, the map has one binding for each row.
pub proof fn lemma_row_count<R: Keyed>(rows: Seq<R>)
    requires
        rows_distinct(rows),
    ensures
        rows_to_map(rows).dom().finite(),
        rows_to_map(rows).len() == rows.len(),
{
    lemma_rows_distinct(rows);
    lemma_map_len(row_entries(rows));
}

/// Tests whether no two rows have the same key.
pub fn all_keys_distinct<R: Keyed>(rows: &Vec<R>) -> (distinct: bool)
    ensures
        distinct == rows_distinct(rows@),
{
    let mut i: usize = 0;
    while i < rows.len()
        invariant
            i <= rows@.len(),
            forall|a: int, b: int| 0 <= a < b < i ==> rows@[a].key() != rows@[b].key(),
        decreases rows@.len() - i,
    {
        let mut j: usize = 0;
        while j < i
            invariant
                j <= i < rows@.len(),
                forall|a: int| 0 <= a < j ==> rows@[a].key() != rows@[i as int].key(),
            decreases i - j,
        {
            if rows[j].same_key(&rows[i]) {
                return false;
            }
            j = j + 1;
        }
        i = i + 1;
    }
    true
}

} // verus!
