//! The bounded store of rows, kept in least-recently-used order by the `lru`
//! crate.
//!
//! Nothing inside the store is visible to the proofs. What it holds is named
//! by [`store_entries`], most recently used first, and the functions here
//! state how each operation of the store changes that sequence. Their
//! contracts are taken on trust from the `lru` crate; the lemmas below them
//! are proved.

use crate::cell::{CellContent, CellView};
use lru::LruCache;
use std::num::NonZeroUsize;
use vstd::prelude::*;

verus! {

/// The store of the `lru` crate, `lru::LruCache`. Nothing inside it is
/// visible here.
#[verifier::external_type_specification]
#[verifier::external_body]
#[verifier::reject_recursive_types(K)]
#[verifier::reject_recursive_types(V)]
#[verifier::reject_recursive_types(S)]
pub struct ExLruCache<K, V, S>(LruCache<K, V, S>);

/// The hasher that an `lru::LruCache` uses unless it is given another,
/// `lru::DefaultHasher`. Nothing is claimed of it.
#[verifier::external_type_specification]
#[verifier::external_body]
pub struct ExDefaultHasher(lru::DefaultHasher);

/// The rows of a store with their indices, most recently used first.
pub type Entries = Seq<(u64, Seq<CellView>)>;

/// The rows that a store holds, most recently used first.
pub uninterp spec fn store_entries(store: LruCache<u64, Vec<CellContent>>) -> Seq<
    (u64, Seq<CellView>),
>;

/// The number of rows that a store was made to hold at most.
pub uninterp spec fn store_limit(store: LruCache<u64, Vec<CellContent>>) -> nat;

/// The cells of a row as the contracts see them.
pub open spec fn row_view(cells: Seq<CellContent>) -> Seq<CellView> {
    Seq::new(cells.len(), |i: int| cells[i]@)
}

/// Whether `row` is among the entries.
pub open spec fn has_row(entries: Entries, row: u64) -> bool {
    exists|i: int| 0 <= i < entries.len() && (#[trigger] entries[i]).0 == row
}

/// The place of `row` among the entries, where it is among them.
pub open spec fn position_of(entries: Entries, row: u64) -> int {
    choose|i: int| 0 <= i < entries.len() && (#[trigger] entries[i]).0 == row
}

/// No row index occurs twice.
pub open spec fn distinct_rows(entries: Entries) -> bool {
    forall|i: int, j: int|
        0 <= i < j < entries.len() ==> (#[trigger] entries[i]).0 != (#[trigger] entries[j]).0
}

/// The row indices of the entries, in their order.
pub open spec fn row_indices(entries: Entries) -> Seq<u64> {
    Seq::new(entries.len(), |i: int| entries[i].0)
}

/// Every row has exactly `size` cells.
pub open spec fn rows_sized(entries: Entries, size: nat) -> bool {
    forall|i: int| 0 <= i < entries.len() ==> (#[trigger] entries[i]).1.len() == size
}

/// Every entry is `good`.
pub open spec fn every_entry(entries: Entries, good: spec_fn((u64, Seq<CellView>)) -> bool) -> bool {
    forall|i: int| 0 <= i < entries.len() ==> good(#[trigger] entries[i])
}

/// The cells stored for `row`, where it is among the entries.
pub open spec fn cells_of(entries: Entries, row: u64) -> Seq<CellView> {
    entries[position_of(entries, row)].1
}

/// The entries after `row`, which is among them, was used: it has moved to
/// the front and the others keep their order.
pub open spec fn touched(entries: Entries, row: u64) -> Entries {
    let at = position_of(entries, row);
    seq![entries[at]] + entries.remove(at)
}

/// The entries after `cells` were stored for `row` in a store of at most
/// `limit` rows. The new entry stands at the front. It takes the place of an
/// earlier entry for `row`; where there is none and the store is full, the
/// least recently used entry leaves.
pub open spec fn pushed(entries: Entries, limit: nat, row: u64, cells: Seq<CellView>) -> Entries {
    if has_row(entries, row) {
        seq![(row, cells)] + entries.remove(position_of(entries, row))
    } else if entries.len() == limit {
        seq![(row, cells)] + entries.drop_last()
    } else {
        seq![(row, cells)] + entries
    }
}

/// The index of the row that leaves when `row` is stored: `row` itself where
/// it had an entry, else the least recently used row of a full store, else
/// none.
pub open spec fn displaced(entries: Entries, limit: nat, row: u64) -> Option<u64> {
    if has_row(entries, row) {
        Some(row)
    } else if entries.len() == limit {
        Some(entries.last().0)
    } else {
        None
    }
}

/// Makes an empty store with `LruCache::new`. The contract claims that the
/// new store holds no row and keeps `limit` as its limit.
#[verifier::external_body]
pub(crate) fn store_new(limit: usize) -> (store: LruCache<u64, Vec<CellContent>>)
    requires
        limit > 0,
    ensures
        store_entries(store) == Seq::<(u64, Seq<CellView>)>::empty(),
        store_limit(store) == limit,
{
    LruCache::new(NonZeroUsize::new(limit).unwrap())
}

/// Looks `row` up with `LruCache::get` and hands out a copy of its cells.
/// The contract claims that the result is `Some` exactly where `row` has an
/// entry, that it then holds that entry's cells, and that the entry has moved
/// to the front; a store without the row stays as it is.
#[verifier::external_body]
pub(crate) fn store_get(store: &mut LruCache<u64, Vec<CellContent>>, row: u64) -> (cells: Option<
    Vec<CellContent>,
>)
    ensures
        store_limit(*final(store)) == store_limit(*old(store)),
        cells.is_some() == has_row(store_entries(*old(store)), row),
        cells matches Some(c) ==> row_view(c@) == cells_of(store_entries(*old(store)), row),
        store_entries(*final(store)) == if has_row(store_entries(*old(store)), row) {
            touched(store_entries(*old(store)), row)
        } else {
            store_entries(*old(store))
        },
{
    store.get(&row).cloned()
}

/// Stores `cells` for `row` with `LruCache::push` and hands out the index of
/// the row that left. The contract claims that the new entry stands at the
/// front, that it replaces an earlier entry for `row`, and that otherwise a
/// full store drops its least recently used entry.
#[verifier::external_body]
pub(crate) fn store_push(
    store: &mut LruCache<u64, Vec<CellContent>>,
    row: u64,
    cells: Vec<CellContent>,
) -> (out: Option<u64>)
    ensures
        store_limit(*final(store)) == store_limit(*old(store)),
        store_entries(*final(store)) == pushed(
            store_entries(*old(store)),
            store_limit(*old(store)),
            row,
            row_view(cells@),
        ),
        out == displaced(store_entries(*old(store)), store_limit(*old(store)), row),
{
    store.push(row, cells).map(|(k, _)| k)
}

/// Counts the rows with `LruCache::len`. The contract claims that the
/// result is the number of entries.
#[verifier::external_body]
pub(crate) fn store_len(store: &LruCache<u64, Vec<CellContent>>) -> (count: usize)
    ensures
        count == store_entries(*store).len(),
{
    store.len()
}

/// Using a row keeps the entries the same but for their order: the used row
/// stands first with its cells, and no row index occurs twice.
pub proof fn lemma_touched(entries: Entries, row: u64)
    requires
        distinct_rows(entries),
        has_row(entries, row),
    ensures
        touched(entries, row).len() == entries.len(),
        touched(entries, row)[0] == (row, cells_of(entries, row)),
        distinct_rows(touched(entries, row)),
        forall|size: nat| rows_sized(entries, size) ==> rows_sized(touched(entries, row), size),
        forall|other: u64| has_row(touched(entries, row), other) == has_row(entries, other),
        forall|other: u64|
            has_row(entries, other) ==> cells_of(touched(entries, row), other) == cells_of(
                entries,
                other,
            ),
{
    let at = position_of(entries, row);
    let after = touched(entries, row);
    let rest = entries.remove(at);
    assert(forall|j: int| 0 <= j < rest.len() ==> rest[j] == entries[if j < at { j } else { j + 1 }]);
    assert(forall|j: int| 1 <= j < after.len() ==> after[j] == rest[j - 1]);
    assert(after[0] == entries[at]);
    assert forall|size: nat| rows_sized(entries, size) implies rows_sized(after, size) by {
        assert forall|i: int| 0 <= i < after.len() implies (#[trigger] after[i]).1.len()
            == size by {
            let p = if i == 0 { at } else if i - 1 < at { i - 1 } else { i };
            assert(after[i] == entries[p]);
        }
    }
    assert forall|other: u64| has_row(after, other) == has_row(entries, other) by {
        if has_row(entries, other) {
            let p = position_of(entries, other);
            let q = if p == at { 0 } else if p < at { p + 1 } else { p };
            assert(after[q] == entries[p]);
        }
        if has_row(after, other) {
            let q = position_of(after, other);
            let p = if q == 0 { at } else if q - 1 < at { q - 1 } else { q };
            assert(entries[p] == after[q]);
        }
    }
    assert forall|other: u64| has_row(entries, other) implies cells_of(after, other) == cells_of(
        entries,
        other,
    ) by {
        let p = position_of(entries, other);
        let q = position_of(after, other);
        let back = if q == 0 { at } else if q - 1 < at { q - 1 } else { q };
        assert(entries[back] == after[q]);
        assert(back == p);
    }
}

/// Lists the row indices with `LruCache::iter`. The contract claims that
/// they come most recently used first, one for each entry.
#[verifier::external_body]
pub(crate) fn store_rows(store: &LruCache<u64, Vec<CellContent>>) -> (rows: Vec<u64>)
    ensures
        rows@ == row_indices(store_entries(*store)),
{
    store.iter().map(|(row, _)| *row).collect()
}

/// Storing cells for a row that was just used gives the same entries as
/// storing them without that use.
pub proof fn lemma_push_after_touch(entries: Entries, limit: nat, row: u64, cells: Seq<CellView>)
    requires
        distinct_rows(entries),
        has_row(entries, row),
    ensures
        pushed(touched(entries, row), limit, row, cells) == pushed(entries, limit, row, cells),
{
    lemma_touched(entries, row);
    let moved = touched(entries, row);
    assert(moved[0].0 == row);
    assert(has_row(moved, row));
    let at = position_of(moved, row);
    if at != 0 {
        assert(moved[0].0 != moved[at].0);
    }
    assert(moved.remove(0) =~= entries.remove(position_of(entries, row)));
}

/// What holds of every entry still holds of every entry after a row was
/// used.
pub proof fn lemma_touched_every(
    entries: Entries,
    row: u64,
    good: spec_fn((u64, Seq<CellView>)) -> bool,
)
    requires
        has_row(entries, row),
        every_entry(entries, good),
    ensures
        every_entry(touched(entries, row), good),
        good((row, cells_of(entries, row))),
{
    let at = position_of(entries, row);
    let after = touched(entries, row);
    assert(good(entries[at]));
    assert(entries[at] == (row, cells_of(entries, row)));
    assert forall|i: int| 0 <= i < after.len() implies good(#[trigger] after[i]) by {
        let p = if i == 0 { at } else if i - 1 < at { i - 1 } else { i };
        assert(after[i] == entries[p]);
    }
}

/// What holds of every entry and of a new one holds of every entry after the
/// new one was stored.
pub proof fn lemma_pushed_every(
    entries: Entries,
    limit: nat,
    row: u64,
    cells: Seq<CellView>,
    good: spec_fn((u64, Seq<CellView>)) -> bool,
)
    requires
        every_entry(entries, good),
        good((row, cells)),
        limit > 0,
    ensures
        every_entry(pushed(entries, limit, row, cells), good),
{
    let after = pushed(entries, limit, row, cells);
    assert forall|i: int| 0 <= i < after.len() implies good(#[trigger] after[i]) by {
        if i == 0 {
            assert(after[0] == (row, cells));
        } else if has_row(entries, row) {
            let at = position_of(entries, row);
            let p = if i - 1 < at { i - 1 } else { i };
            assert(after[i] == entries[p]);
        } else {
            assert(after[i] == entries[i - 1]);
        }
    }
}

/// A store that is full and lacks the row drops its least recently used
/// entry for the new one, and keeps all the others.
pub proof fn lemma_pushed_full(entries: Entries, limit: nat, row: u64, cells: Seq<CellView>)
    requires
        distinct_rows(entries),
        entries.len() == limit,
        limit > 0,
        !has_row(entries, row),
    ensures
        pushed(entries, limit, row, cells) == seq![(row, cells)] + entries.drop_last(),
        pushed(entries, limit, row, cells).len() == limit,
        displaced(entries, limit, row) == Some(entries.last().0),
        !has_row(pushed(entries, limit, row, cells), entries.last().0),
        forall|i: int|
            0 <= i < limit - 1 ==> has_row(
                pushed(entries, limit, row, cells),
                (#[trigger] entries[i]).0,
            ),
{
    let after = pushed(entries, limit, row, cells);
    let oldest = entries.last().0;
    assert(forall|j: int| 1 <= j < after.len() ==> after[j] == entries[j - 1]);
    if has_row(after, oldest) {
        let at = position_of(after, oldest);
        if at == 0 {
            assert(entries[limit - 1].0 == row);
        } else {
            assert(entries[at - 1].0 != entries[limit - 1].0);
        }
    }
    assert forall|i: int| 0 <= i < limit - 1 implies has_row(after, (#[trigger] entries[i]).0) by {
        assert(after[i + 1] == entries[i]);
    }
}

/// Storing a row in a store that is within its limit keeps it within its
/// limit, with the new entry first and no row index twice.
pub proof fn lemma_pushed(entries: Entries, limit: nat, row: u64, cells: Seq<CellView>)
    requires
        distinct_rows(entries),
        entries.len() <= limit,
        limit > 0,
    ensures
        pushed(entries, limit, row, cells).len() <= limit,
        pushed(entries, limit, row, cells).len() >= 1,
        pushed(entries, limit, row, cells)[0] == (row, cells),
        has_row(pushed(entries, limit, row, cells), row),
        cells_of(pushed(entries, limit, row, cells), row) == cells,
        distinct_rows(pushed(entries, limit, row, cells)),
        forall|size: nat|
            rows_sized(entries, size) && cells.len() == size ==> rows_sized(
                pushed(entries, limit, row, cells),
                size,
            ),
{
    let after = pushed(entries, limit, row, cells);
    if has_row(entries, row) {
        let at = position_of(entries, row);
        let rest = entries.remove(at);
        assert(forall|j: int|
            0 <= j < rest.len() ==> rest[j] == entries[if j < at { j } else { j + 1 }]);
        assert(forall|j: int| 1 <= j < after.len() ==> after[j] == rest[j - 1]);
    } else if entries.len() == limit {
        let rest = entries.drop_last();
        assert(forall|j: int| 0 <= j < rest.len() ==> rest[j] == entries[j]);
        assert(forall|j: int| 1 <= j < after.len() ==> after[j] == rest[j - 1]);
    } else {
        assert(forall|j: int| 1 <= j < after.len() ==> after[j] == entries[j - 1]);
    }
    assert(after[0] == (row, cells));
    assert(has_row(after, row));
    let q = position_of(after, row);
    assert(distinct_rows(after)) by {
        assert forall|i: int, j: int| 0 <= i < j < after.len() implies after[i].0 != after[j].0 by {
            if has_row(entries, row) {
                let at = position_of(entries, row);
                let jj = if j - 1 < at { j - 1 } else { j };
                assert(after[j] == entries[jj]);
                if i > 0 {
                    let ii = if i - 1 < at { i - 1 } else { i };
                    assert(after[i] == entries[ii]);
                }
            } else {
                assert(after[j] == entries[j - 1]);
                if i > 0 {
                    assert(after[i] == entries[i - 1]);
                }
            }
        }
    }
    assert(q == 0) by {
        if q != 0 {
            assert(after[0].0 != after[q].0);
        }
    }
    assert forall|size: nat| rows_sized(entries, size) && cells.len() == size implies rows_sized(
        after,
        size,
    ) by {
        assert forall|i: int| 0 <= i < after.len() implies (#[trigger] after[i]).1.len()
            == size by {
            if i == 0 {
            } else if has_row(entries, row) {
                let at = position_of(entries, row);
                let jj = if i - 1 < at { i - 1 } else { i };
                assert(after[i] == entries[jj]);
            } else {
                assert(after[i] == entries[i - 1]);
            }
        }
    }
}

} // verus!
