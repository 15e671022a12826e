//! A table that hands out integer handles for the values stored in it.
//!
//! Each table is a namespace of its own: a handle means something only in the
//! table that gave it out. Handles are given out in counting order, so a
//! caller can learn the handle of the next insertion before making it.

use std::collections::hash_map::Entry;
use std::collections::HashMap;
use vstd::prelude::*;

verus! {

broadcast use vstd::std_specs::hash::group_hash_axioms;

/// The integer type of a handle.
pub type Cell = isize;

/// The handle that a fresh table hands out first.
pub const FIRST_ID: Cell = 1;

/// The handle that follows `id`: one more, wrapping round at the largest value.
pub open spec fn id_after(id: Cell) -> Cell {
    if id == isize::MAX {
        isize::MIN
    } else {
        (id + 1) as isize
    }
}

/// What a table is, mathematically: its live entries and its counter.
pub struct TableModel<T> {
    pub entries: Map<Cell, T>,
    pub next: Cell,
}

impl<T> TableModel<T> {
    /// The table as created: no entry, the counter at its start.
    pub open spec fn empty() -> Self {
        TableModel { entries: Map::empty(), next: FIRST_ID }
    }

    /// The handle that the next insertion will use.
    pub open spec fn peek(self) -> Cell {
        self.next
    }

    /// The table after storing `item`, and the handle it was stored under.
    pub open spec fn insert(self, item: T) -> (Self, Cell) {
        (
            TableModel { entries: self.entries.insert(self.next, item), next: id_after(self.next) },
            self.next,
        )
    }

    /// The value stored under `id`, if there is one.
    pub open spec fn get(self, id: Cell) -> Option<T> {
        if self.entries.contains_key(id) {
            Some(self.entries[id])
        } else {
            None
        }
    }

    /// The table with the value under `id` replaced by `item`.
    pub open spec fn replace(self, id: Cell, item: T) -> Self {
        TableModel { entries: self.entries.insert(id, item), next: self.next }
    }

    /// The table after detaching `id`, and the value that was stored there.
    pub open spec fn remove(self, id: Cell) -> (Self, Option<T>) {
        (TableModel { entries: self.entries.remove(id), next: self.next }, self.get(id))
    }

    /// The table after dropping every entry. The counter keeps its place, so
    /// handles given out earlier stay dead.
    pub open spec fn clear(self) -> Self {
        TableModel { entries: Map::empty(), next: self.next }
    }

    /// Whether `id` denotes a live entry.
    pub open spec fn is_live(self, id: Cell) -> bool {
        self.entries.contains_key(id)
    }

    /// Every live handle lies below the counter. This holds from creation
    /// until the counter wraps round.
    pub open spec fn ascending(self) -> bool {
        forall|id: Cell| #[trigger] self.entries.contains_key(id) ==> id < self.next
    }
}

/// The handle announced by a peek is the handle that the insertion made right
/// after it returns.
pub proof fn lemma_peek_announces_insert<T>(table: TableModel<T>, item: T)
    ensures
        table.insert(item).1 == table.peek(),
        table.insert(item).0.get(table.peek()) == Some(item),
{
}

/// Once a handle has been removed, looking it up finds nothing, and removing
/// it again finds nothing and changes nothing.
pub proof fn lemma_removed_stays_removed<T>(table: TableModel<T>, id: Cell)
    ensures
        table.remove(id).0.get(id) is None,
        table.remove(id).0.remove(id).1 is None,
        table.remove(id).0.remove(id).0 == table.remove(id).0,
{
    assert(table.remove(id).0.entries.remove(id) =~= table.remove(id).0.entries);
}

/// While the counter has not wrapped, an insertion never lands on a live
/// handle: every earlier entry is still there, unchanged, under its own
/// handle, and the table stays in counting order.
pub proof fn lemma_insert_is_fresh<T>(table: TableModel<T>, item: T)
    requires
        table.ascending(),
    ensures
        !table.is_live(table.insert(item).1),
        forall|id: Cell| #[trigger]
            table.is_live(id) ==> table.insert(item).0.get(id) == table.get(id),
        table.next < isize::MAX ==> table.insert(item).0.ascending(),
{
    let after = table.insert(item).0;
    if table.next < isize::MAX {
        assert forall|id: Cell| #[trigger] after.entries.contains_key(id) implies id
            < after.next by {
            if id != table.next {
                assert(table.entries.contains_key(id));
            }
        }
    }
}

/// Removing and clearing keep a table in counting order, and a handle that
/// was given out before stays dead after either.
pub proof fn lemma_removal_keeps_order<T>(table: TableModel<T>, id: Cell)
    requires
        table.ascending(),
    ensures
        table.remove(id).0.ascending(),
        table.clear().ascending(),
        forall|other: Cell| !table.is_live(other) ==> !#[trigger] table.remove(id).0.is_live(other),
        forall|other: Cell| !#[trigger] table.clear().is_live(other),
{
    let after = table.remove(id).0;
    assert forall|k: Cell| #[trigger] after.entries.contains_key(k) implies k < after.next by {
        assert(table.entries.contains_key(k));
    }
}

/// Putting an entry's own value back in its place changes nothing.
pub proof fn lemma_replace_same<T>(table: TableModel<T>, id: Cell)
    requires
        table.is_live(id),
    ensures
        table.replace(id, table.entries[id]) == table,
{
    assert(table.entries.insert(id, table.entries[id]) =~= table.entries);
}

/// Handle table: every stored value is reached through the handle it was
/// given on insertion.
pub struct CellMap<T> {
    inner: HashMap<Cell, T>,
    counter: Cell,
}

impl<T> View for CellMap<T> {
    type V = TableModel<T>;

    closed spec fn view(&self) -> TableModel<T> {
        TableModel { entries: self.inner@, next: self.counter }
    }
}

impl<T> CellMap<T> {
    /// Creates an empty table.
    pub fn new() -> (table: Self)
        ensures
            table@ == TableModel::<T>::empty(),
    {
        CellMap { inner: HashMap::new(), counter: FIRST_ID }
    }

    /// Returns the handle that the next insertion will use, without taking it.
    pub fn peek_id(&self) -> (id: Cell)
        ensures
            id == self@.peek(),
    {
        self.counter
    }

    /// Stores `item` under the next handle and returns that handle.
    pub fn insert_with_unique_id(&mut self, item: T) -> (id: Cell)
        ensures
            (final(self)@, id) == old(self)@.insert(item),
    {
        let id: Cell = self.counter;
        self.inner.insert(id, item);
        self.counter = id.wrapping_add(1);
        id
    }

    /// Looks up the value stored under `id`.
    pub fn get_with_id(&self, id: Cell) -> (found: Option<&T>)
        ensures
            match found {
                Some(item) => self@.get(id) == Some(*item),
                None => self@.get(id) is None,
            },
    {
        self.inner.get(&id)
    }

    /// Looks up the value stored under `id`, for changing it in place. What
    /// the caller leaves behind the reference is what the table then holds.
    pub fn get_mut_with_id(&mut self, id: Cell) -> (found: Option<&mut T>)
        ensures
            match found {
                Some(item) => {
                    &&& old(self)@.get(id) == Some(*item)
                    &&& final(self)@ == old(self)@.replace(id, *final(item))
                },
                None => old(self)@.get(id) is None && final(self)@ == old(self)@,
            },
    {
        match self.inner.entry(id) {
            Entry::Occupied(entry) => Some(entry.into_mut()),
            Entry::Vacant(_) => {
                assert(old(self).inner@.remove(id) =~= old(self).inner@);
                None
            },
        }
    }

    /// Detaches and returns the value stored under `id`.
    pub fn remove_with_id(&mut self, id: Cell) -> (taken: Option<T>)
        ensures
            (final(self)@, taken) == old(self)@.remove(id),
    {
        self.inner.remove(&id)
    }

    /// Removes every entry.
    pub fn clear(&mut self)
        ensures
            final(self)@ == old(self)@.clear(),
    {
        self.inner.clear();
    }

    /// Whether `id` denotes a live entry.
    pub fn contains_id(&self, id: Cell) -> (live: bool)
        ensures
            live == self@.is_live(id),
    {
        self.inner.contains_key(&id)
    }

    /// The number of live entries.
    pub fn len(&self) -> (n: usize)
        ensures
            n == self@.entries.len(),
            self@.entries.dom().finite(),
    {
        self.inner.len()
    }
}

} // verus!
