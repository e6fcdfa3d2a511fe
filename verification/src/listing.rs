//! The order in which rows are listed: ascending by sort order, and by name
//! among rows of the same sort order.
//!
//! Names are put in order character by character, by the codes of the
//! characters; a name comes before every longer name that begins with it.
//! Rows that agree in sort order and name keep the order in which they were
//! given.

use vstd::prelude::*;
use vstd::seq_lib::to_multiset_build;

verus! {

/// Whether the text `a` does not come after the text `b`.
pub open spec fn text_le(a: Seq<char>, b: Seq<char>) -> bool
    decreases a.len(),
{
    if a.len() == 0 {
        true
    } else if b.len() == 0 {
        false
    } else if a[0] as u32 != b[0] as u32 {
        (a[0] as u32) < (b[0] as u32)
    } else {
        text_le(a.drop_first(), b.drop_first())
    }
}

/// What rows are listed by: the sort order, then the name.
pub type SortKey = (int, Seq<char>);

/// Whether a row with the key `a` does not come after a row with the key
/// `b`.
pub open spec fn key_le(a: SortKey, b: SortKey) -> bool {
    a.0 < b.0 || (a.0 == b.0 && text_le(a.1, b.1))
}

/// Of two texts, one does not come after the other.
pub proof fn lemma_text_le_total(a: Seq<char>, b: Seq<char>)
    ensures
        text_le(a, b) || text_le(b, a),
    decreases a.len(),
{
    if a.len() > 0 && b.len() > 0 && a[0] as u32 == b[0] as u32 {
        lemma_text_le_total(a.drop_first(), b.drop_first());
    }
}

/// A text that does not come after a second, which does not come after a
/// third, does not come after the third.
pub proof fn lemma_text_le_transitive(a: Seq<char>, b: Seq<char>, c: Seq<char>)
    requires
        text_le(a, b),
        text_le(b, c),
    ensures
        text_le(a, c),
    decreases a.len(),
{
    if a.len() > 0 && b.len() > 0 && c.len() > 0 && a[0] as u32 == b[0] as u32 && b[0] as u32
        == c[0] as u32 {
        lemma_text_le_transitive(a.drop_first(), b.drop_first(), c.drop_first());
    }
}

/// Of two keys, one does not come after the other.
pub proof fn lemma_key_le_total(a: SortKey, b: SortKey)
    ensures
        key_le(a, b) || key_le(b, a),
{
    lemma_text_le_total(a.1, b.1);
}

/// The order of keys is transitive.
pub proof fn lemma_key_le_transitive(a: SortKey, b: SortKey, c: SortKey)
    requires
        key_le(a, b),
        key_le(b, c),
    ensures
        key_le(a, c),
{
    if a.0 == b.0 && b.0 == c.0 {
        lemma_text_le_transitive(a.1, b.1, c.1);
    }
}

/// Tests whether the text `a` does not come after the text `b`.
pub fn text_not_after(a: &str, b: &str) -> (le: bool)
    ensures
        le == text_le(a@, b@),
{
    let a_length = a.unicode_len();
    let b_length = b.unicode_len();
    let mut i: usize = 0;
    assert(a@.skip(0) =~= a@ && b@.skip(0) =~= b@);
    while i < a_length && i < b_length
        invariant
            a_length == a@.len(),
            b_length == b@.len(),
            i <= a_length,
            i <= b_length,
            text_le(a@, b@) == text_le(a@.skip(i as int), b@.skip(i as int)),
        decreases a_length - i,
    {
        let a_code = a.get_char(i) as u32;
        let b_code = b.get_char(i) as u32;
        proof {
            assert(a@.skip(i as int)[0] == a@[i as int]);
            assert(b@.skip(i as int)[0] == b@[i as int]);
            assert(a@.skip(i as int).drop_first() =~= a@.skip(i + 1));
            assert(b@.skip(i as int).drop_first() =~= b@.skip(i + 1));
        }
        if a_code != b_code {
            return a_code < b_code;
        }
        i = i + 1;
    }
    i == a_length
}

/// A row that is listed by sort order and name.
pub trait Listed: Sized {
    /// The key by which the row is listed.
    spec fn sort_key(&self) -> SortKey;

    /// Whether this row does not come after the other.
    fn not_after(&self, other: &Self) -> (le: bool)
        ensures
            le == key_le(self.sort_key(), other.sort_key()),
    ;
}

/// The rows that a sequence of references points to.
pub open spec fn pointees<T>(rows: Seq<&T>) -> Seq<T> {
    rows.map_values(|row: &T| *row)
}

/// Whether the rows are in order: no row comes after a later one.
pub open spec fn in_order<T: Listed>(rows: Seq<T>) -> bool {
    forall|i: int, j: int|
        0 <= i < j < rows.len() ==> key_le(
            (#[trigger] rows[i]).sort_key(),
            (#[trigger] rows[j]).sort_key(),
        )
}

/// The rows with one more row put in its place: behind the last row that it
/// does not come before.
pub open spec fn placed<T: Listed>(rows: Seq<T>, row: T) -> Seq<T>
    decreases rows.len(),
{
    if rows.len() == 0 {
        seq![row]
    } else if key_le(rows.last().sort_key(), row.sort_key()) {
        rows.push(row)
    } else {
        placed(rows.drop_last(), row).push(rows.last())
    }
}

/// The rows put in order, one after the other.
pub open spec fn arranged<T: Listed>(rows: Seq<T>) -> Seq<T>
    decreases rows.len(),
{
    if rows.len() == 0 {
        Seq::empty()
    } else {
        placed(arranged(rows.drop_last()), rows.last())
    }
}

/// Putting a row in its place adds that row and no other, and takes none
/// away.
pub proof fn lemma_placed_members<T: Listed>(rows: Seq<T>, row: T)
    ensures
        placed(rows, row).len() == rows.len() + 1,
        placed(rows, row).to_multiset() == rows.to_multiset().insert(row),
        forall|i: int|
            0 <= i < placed(rows, row).len() ==> (#[trigger] placed(rows, row)[i]) == row
                || rows.contains(placed(rows, row)[i]),
    decreases rows.len(),
{
    if rows.len() == 0 {
        to_multiset_build(rows, row);
        assert(seq![row] =~= rows.push(row));
    } else if key_le(rows.last().sort_key(), row.sort_key()) {
        to_multiset_build(rows, row);
        assert forall|i: int| 0 <= i < rows.push(row).len() implies (#[trigger] rows.push(row)[i])
            == row || rows.contains(rows.push(row)[i]) by {
            if i < rows.len() {
                assert(rows[i] == rows.push(row)[i]);
            }
        }
    } else {
        let init = rows.drop_last();
        let last = rows.last();
        lemma_placed_members(init, row);
        to_multiset_build(placed(init, row), last);
        to_multiset_build(init, last);
        assert(init.push(last) =~= rows);
        assert(init.to_multiset().insert(row).insert(last) =~= init.to_multiset().insert(
            last,
        ).insert(row));
        let all = placed(rows, row);
        assert forall|i: int| 0 <= i < all.len() implies (#[trigger] all[i]) == row
            || rows.contains(all[i]) by {
            if i < all.len() - 1 {
                let inner = placed(init, row)[i];
                assert(all[i] == inner);
                if inner != row {
                    let j = choose|j: int| 0 <= j < init.len() && init[j] == inner;
                    assert(rows[j] == inner);
                }
            } else {
                assert(rows[rows.len() - 1] == all[i]);
            }
        }
    }
}

/// Putting a row in its place keeps rows in order.
pub proof fn lemma_placed_in_order<T: Listed>(rows: Seq<T>, row: T)
    requires
        in_order(rows),
    ensures
        in_order(placed(rows, row)),
    decreases rows.len(),
{
    let all = placed(rows, row);
    if rows.len() == 0 {
    } else if key_le(rows.last().sort_key(), row.sort_key()) {
        assert forall|i: int, j: int| 0 <= i < j < all.len() implies key_le(
            (#[trigger] all[i]).sort_key(),
            (#[trigger] all[j]).sort_key(),
        ) by {
            if j < rows.len() {
                assert(key_le(rows[i].sort_key(), rows[j].sort_key()));
            } else if i < rows.len() - 1 {
                assert(key_le(rows[i].sort_key(), rows[rows.len() - 1].sort_key()));
                lemma_key_le_transitive(
                    rows[i].sort_key(),
                    rows.last().sort_key(),
                    row.sort_key(),
                );
            }
        }
    } else {
        let init = rows.drop_last();
        let last = rows.last();
        assert(in_order(init)) by {
            assert forall|i: int, j: int| 0 <= i < j < init.len() implies key_le(
                (#[trigger] init[i]).sort_key(),
                (#[trigger] init[j]).sort_key(),
            ) by {
                assert(key_le(rows[i].sort_key(), rows[j].sort_key()));
            }
        }
        lemma_placed_in_order(init, row);
        lemma_placed_members(init, row);
        lemma_key_le_total(last.sort_key(), row.sort_key());
        let inner = placed(init, row);
        assert forall|i: int, j: int| 0 <= i < j < all.len() implies key_le(
            (#[trigger] all[i]).sort_key(),
            (#[trigger] all[j]).sort_key(),
        ) by {
            if j < inner.len() {
                assert(key_le(inner[i].sort_key(), inner[j].sort_key()));
            } else {
                assert(all[j] == last);
                assert(all[i] == inner[i]);
                if inner[i] != row {
                    let k = choose|k: int| 0 <= k < init.len() && init[k] == inner[i];
                    assert(key_le(rows[k].sort_key(), rows[rows.len() - 1].sort_key()));
                }
            }
        }
    }
}

/// The rows put in order are in order, and they are the same rows, each as
/// often as before.
pub proof fn lemma_arranged<T: Listed>(rows: Seq<T>)
    ensures
        in_order(arranged(rows)),
        arranged(rows).len() == rows.len(),
        arranged(rows).to_multiset() == rows.to_multiset(),
    decreases rows.len(),
{
    if rows.len() > 0 {
        let init = rows.drop_last();
        lemma_arranged(init);
        lemma_placed_in_order(arranged(init), rows.last());
        lemma_placed_members(arranged(init), rows.last());
        to_multiset_build(init, rows.last());
        assert(init.push(rows.last()) =~= rows);
    } else {
        assert(rows =~= arranged(rows));
    }
}

/// Where no row from the place `p` on comes at or before the new row, the
/// new row is put in its place among the rows before `p`.
pub proof fn lemma_placed_before<T: Listed>(rows: Seq<T>, row: T, p: int)
    requires
        0 <= p <= rows.len(),
        forall|j: int|
            p <= j < rows.len() ==> !key_le((#[trigger] rows[j]).sort_key(), row.sort_key()),
    ensures
        placed(rows, row) == placed(rows.take(p), row) + rows.skip(p),
    decreases rows.len(),
{
    if p == rows.len() {
        assert(rows.take(p) =~= rows);
        assert(placed(rows, row) + rows.skip(p) =~= placed(rows, row));
    } else {
        let init = rows.drop_last();
        assert(!key_le(rows[rows.len() - 1].sort_key(), row.sort_key()));
        assert forall|j: int| p <= j < init.len() implies !key_le(
            (#[trigger] init[j]).sort_key(),
            row.sort_key(),
        ) by {
            assert(init[j] == rows[j]);
        }
        lemma_placed_before(init, row, p);
        assert(init.take(p) =~= rows.take(p));
        assert((placed(init.take(p), row) + init.skip(p)).push(rows.last()) =~= placed(
            rows.take(p),
            row,
        ) + rows.skip(p));
    }
}

/// Puts a row in its place among rows that are listed.
pub fn place<'a, T: Listed>(list: &mut Vec<&'a T>, row: &'a T)
    ensures
        pointees(final(list)@) == placed(pointees(old(list)@), *row),
{
    let ghost before = pointees(list@);
    let mut p: usize = list.len();
    while p > 0 && !list[p - 1].not_after(row)
        invariant
            list@ == old(list)@,
            before == pointees(list@),
            p <= list@.len(),
            forall|j: int|
                p <= j < before.len() ==> !key_le((#[trigger] before[j]).sort_key(), row.sort_key()),
        decreases p,
    {
        p = p - 1;
    }
    proof {
        lemma_placed_before(before, *row, p as int);
        if p > 0 {
            assert(before.take(p as int).last() == before[p - 1]);
        }
    }
    list.insert(p, row);
    assert(pointees(list@) =~= before.take(p as int).push(*row) + before.skip(p as int));
}

} // verus!
