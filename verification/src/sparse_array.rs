use crate::index::SparseSetIndex;
use core::marker::PhantomData;
use vstd::prelude::*;

verus! {

/// The slot registered at position `i` of `slots`; out-of-range positions
/// are absent.
pub open spec fn slot_at<V>(slots: Seq<Option<V>>, i: int) -> Option<V> {
    if 0 <= i < slots.len() {
        slots[i]
    } else {
        None
    }
}

/// A growable table from small integer keys to optional values, indexed
/// directly by each key's integer projection.
///
/// Out-of-range keys simply read as absent; inserting past the end grows the
/// table with empty slots.
#[derive(Debug)]
pub struct SparseArray<I, V> {
    values: Vec<Option<V>>,
    marker: PhantomData<I>,
}

/// A space-optimized version of [`SparseArray`] that cannot be changed
/// after construction.
#[derive(Debug)]
pub struct ImmutableSparseArray<I, V> {
    values: Vec<Option<V>>,
    marker: PhantomData<I>,
}

impl<I, V> SparseArray<I, V> {
    /// The sequence of slots this table holds.
    pub closed spec fn slots(&self) -> Seq<Option<V>> {
        self.values@
    }

    /// The value registered at integer position `i`.
    pub open spec fn spec_get(&self, i: int) -> Option<V> {
        slot_at(self.slots(), i)
    }

    /// Creates an empty table.
    pub fn new() -> (r: Self)
        ensures
            r.slots() == Seq::<Option<V>>::empty(),
    {
        SparseArray { values: Vec::new(), marker: PhantomData }
    }
}

impl<I, V> SparseArray<I, V> {
    /// Whether position `i` holds a value.
    pub(crate) fn contains_at(&self, i: usize) -> (r: bool)
        ensures
            r == (self.spec_get(i as int) is Some),
    {
        i < self.values.len() && self.values[i].is_some()
    }

    /// The value at position `i`, absent when the slot is empty or out of
    /// range.
    pub(crate) fn get_at(&self, i: usize) -> (r: Option<&V>)
        ensures
            match r {
                Some(v) => self.spec_get(i as int) == Some(*v),
                None => self.spec_get(i as int) is None,
            },
    {
        if i < self.values.len() {
            match &self.values[i] {
                Some(v) => Some(v),
                None => None,
            }
        } else {
            None
        }
    }

    /// A mutable reference to the value at position `i`, absent when the
    /// slot is empty or out of range.
    pub(crate) fn get_mut_at(&mut self, i: usize) -> (r: Option<&mut V>)
        ensures
            r is Some <==> old(self).spec_get(i as int) is Some,
            r matches Some(v) ==> old(self).spec_get(i as int) == Some(*v),
            final(self).slots().len() == old(self).slots().len(),
            forall|j: int|
                j != i as int ==> final(self).spec_get(j) == old(self).spec_get(j),
            final(self).spec_get(i as int) == (match r {
                Some(v) => Some(*final(v)),
                None => None::<V>,
            }),
    {
        if i < self.values.len() {
            self.values[i].as_mut()
        } else {
            None
        }
    }

    /// Occupies position `i` with `value`, growing the table with empty
    /// slots when `i` lies past its end.
    pub(crate) fn insert_at(&mut self, i: usize, value: V)
        requires
            i < usize::MAX,
        ensures
            final(self).slots().len() == if (i as int) < old(self).slots().len() as int {
                old(self).slots().len() as int
            } else {
                i + 1
            },
            final(self).spec_get(i as int) == Some(value),
            forall|j: int|
                j != i as int ==> final(self).spec_get(j) == old(self).spec_get(j),
    {
        if self.values.len() <= i {
            let target = i + 1;
            while self.values.len() < target
                invariant
                    self.values@.len() <= target,
                    old(self).values@.len() <= self.values@.len(),
                    forall|j: int|
                        0 <= j < old(self).values@.len() ==> self.values@[j] == old(
                            self,
                        ).values@[j],
                    forall|j: int|
                        old(self).values@.len() <= j < self.values@.len() ==> self.values@[j]
                            is None,
                decreases target - self.values@.len(),
            {
                self.values.push(None);
            }
        }
        self.values[i] = Some(value);
    }

    /// Takes and returns the value at position `i`, leaving the slot empty;
    /// returns absent when the slot was already empty or out of range.
    pub(crate) fn remove_at(&mut self, i: usize) -> (r: Option<V>)
        ensures
            r == old(self).spec_get(i as int),
            final(self).slots().len() == old(self).slots().len(),
            final(self).spec_get(i as int) is None,
            forall|j: int|
                j != i as int ==> final(self).spec_get(j) == old(self).spec_get(j),
    {
        if i < self.values.len() {
            let mut taken: Option<V> = None;
            core::mem::swap(&mut taken, &mut self.values[i]);
            taken
        } else {
            None
        }
    }
}

impl<I: SparseSetIndex, V> SparseArray<I, V> {
    /// Returns `true` if the collection contains a value for the specified
    /// `index`.
    pub fn contains(&self, index: I) -> (r: bool)
        ensures
            r == (self.spec_get(index.index_spec()) is Some),
    {
        let i = index.sparse_set_index();
        self.contains_at(i)
    }

    /// Returns a reference to the value at `index`.
    ///
    /// Returns `None` if `index` does not have a value or is out of bounds.
    pub fn get(&self, index: I) -> (r: Option<&V>)
        ensures
            match r {
                Some(v) => self.spec_get(index.index_spec()) == Some(*v),
                None => self.spec_get(index.index_spec()) is None,
            },
    {
        let i = index.sparse_set_index();
        self.get_at(i)
    }

    /// Returns a mutable reference to the value at `index`.
    ///
    /// Returns `None` if `index` does not have a value or is out of bounds.
    pub fn get_mut(&mut self, index: I) -> (r: Option<&mut V>)
        ensures
            r is Some <==> old(self).spec_get(index.index_spec()) is Some,
            r matches Some(v) ==> old(self).spec_get(index.index_spec()) == Some(*v),
            final(self).slots().len() == old(self).slots().len(),
            forall|j: int|
                j != index.index_spec() ==> final(self).spec_get(j) == old(self).spec_get(j),
            final(self).spec_get(index.index_spec()) == (match r {
                Some(v) => Some(*final(v)),
                None => None::<V>,
            }),
    {
        let i = index.sparse_set_index();
        self.get_mut_at(i)
    }

    /// Inserts `value` at `index` in the array, growing the backing storage
    /// when `index` is out of bounds.
    ///
    /// Overwrites any previous value at that key without signaling its prior
    /// presence.
    pub fn insert(&mut self, index: I, value: V)
        requires
            index.index_spec() < usize::MAX as int,
        ensures
            final(self).slots().len() == if index.index_spec() < old(self).slots().len() as int {
                old(self).slots().len() as int
            } else {
                index.index_spec() + 1
            },
            final(self).spec_get(index.index_spec()) == Some(value),
            forall|j: int|
                j != index.index_spec() ==> final(self).spec_get(j) == old(self).spec_get(j),
    {
        let i = index.sparse_set_index();
        self.insert_at(i, value);
    }

    /// Removes and returns the value stored at `index`.
    ///
    /// Returns `None` if `index` did not have a value or is out of bounds.
    pub fn remove(&mut self, index: I) -> (r: Option<V>)
        ensures
            r == old(self).spec_get(index.index_spec()),
            final(self).slots().len() == old(self).slots().len(),
            final(self).spec_get(index.index_spec()) is None,
            forall|j: int|
                j != index.index_spec() ==> final(self).spec_get(j) == old(self).spec_get(j),
    {
        let i = index.sparse_set_index();
        self.remove_at(i)
    }

    /// Removes all of the values stored within, without keeping any
    /// key range.
    pub fn clear(&mut self)
        ensures
            final(self).slots() == Seq::<Option<V>>::empty(),
    {
        self.values.clear();
    }

    /// Converts the [`SparseArray`] into an immutable variant, preserving
    /// every slot.
    pub fn into_immutable(self) -> (r: ImmutableSparseArray<I, V>)
        ensures
            r.slots() == self.slots(),
    {
        ImmutableSparseArray { values: self.values, marker: PhantomData }
    }
}

impl<I: SparseSetIndex, V> Default for SparseArray<I, V> {
    /// An empty table.
    fn default() -> (r: Self)
        ensures
            r.slots() == Seq::<Option<V>>::empty(),
    {
        SparseArray::new()
    }
}

impl<I, V> ImmutableSparseArray<I, V> {
    /// The sequence of slots this table holds.
    pub closed spec fn slots(&self) -> Seq<Option<V>> {
        self.values@
    }

    /// The value registered at integer position `i`.
    pub open spec fn spec_get(&self, i: int) -> Option<V> {
        slot_at(self.slots(), i)
    }
}

impl<I: SparseSetIndex, V> ImmutableSparseArray<I, V> {
    /// Returns `true` if the collection contains a value for the specified
    /// `index`.
    pub fn contains(&self, index: I) -> (r: bool)
        ensures
            r == (self.spec_get(index.index_spec()) is Some),
    {
        let i = index.sparse_set_index();
        i < self.values.len() && self.values[i].is_some()
    }

    /// Returns a reference to the value at `index`.
    ///
    /// Returns `None` if `index` does not have a value or is out of bounds.
    pub fn get(&self, index: I) -> (r: Option<&V>)
        ensures
            match r {
                Some(v) => self.spec_get(index.index_spec()) == Some(*v),
                None => self.spec_get(index.index_spec()) is None,
            },
    {
        let i = index.sparse_set_index();
        if i < self.values.len() {
            match &self.values[i] {
                Some(v) => Some(v),
                None => None,
            }
        } else {
            None
        }
    }
}

} // verus!
