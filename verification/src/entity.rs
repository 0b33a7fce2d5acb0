use crate::index::SparseSetIndex;
use vstd::prelude::*;

verus! {

/// The row component of an entity identifier: the stable index used to
/// address per-entity storage. A row is never the all-ones sentinel, so
/// storage layers may reserve that value to stand for absence.
#[derive(Clone, Copy, Debug, PartialEq, Eq, Hash)]
pub struct EntityRow {
    index: u32,
}

impl EntityRow {
    /// The row index, as the specifications see it.
    pub closed spec fn spec_index(&self) -> int {
        self.index as int
    }

    /// Rows stay strictly below the sentinel; the entity allocator
    /// guarantees it never hands the sentinel out.
    #[verifier::type_invariant]
    pub open spec fn row_in_range(self) -> bool {
        self.spec_index() < u32::MAX
    }

    /// Creates a row from its index, which must not be the sentinel.
    pub fn new(index: u32) -> (r: Self)
        requires
            index < u32::MAX,
        ensures
            r.spec_index() == index as int,
    {
        EntityRow { index }
    }

    /// The raw row index.
    pub fn index(&self) -> (r: u32)
        ensures
            r as int == self.spec_index(),
    {
        self.index
    }
}

impl SparseSetIndex for EntityRow {
    open spec fn index_spec(&self) -> int {
        self.spec_index()
    }

    open spec fn valid_index(value: usize) -> bool {
        value < u32::MAX as usize
    }

    fn sparse_set_index(&self) -> (r: usize) {
        self.index as usize
    }

    fn get_sparse_set_index(value: usize) -> (r: Self) {
        EntityRow::new(value as u32)
    }
}

/// An entity identifier: a stable row used for indexing, and a generation
/// that changes when the row is recycled, used only to detect use of a
/// stale identifier, never for indexing.
#[derive(Clone, Copy, Debug, PartialEq, Eq, Hash)]
pub struct Entity {
    row: EntityRow,
    generation: u32,
}

impl Entity {
    /// The row component, as the specifications see it.
    pub closed spec fn spec_row(&self) -> EntityRow {
        self.row
    }

    /// The generation component, as the specifications see it.
    pub closed spec fn spec_generation(&self) -> u32 {
        self.generation
    }

    /// The integer projection used for storage indexing: the row alone.
    pub open spec fn spec_row_index(&self) -> int {
        self.spec_row().spec_index()
    }

    /// Creates an identifier for a fresh row, with the first generation.
    pub fn from_raw(row: EntityRow) -> (r: Self)
        ensures
            r.spec_row() == row,
            r.spec_generation() == 1,
    {
        Entity { row, generation: 1 }
    }

    /// Creates an identifier with an explicit generation, as a recycling
    /// allocator does when it reuses a row.
    pub fn from_raw_and_generation(row: EntityRow, generation: u32) -> (r: Self)
        ensures
            r.spec_row() == row,
            r.spec_generation() == generation,
    {
        Entity { row, generation }
    }

    /// The row component.
    pub fn row(&self) -> (r: EntityRow)
        ensures
            r == self.spec_row(),
    {
        self.row
    }

    /// The generation component.
    pub fn generation(&self) -> (r: u32)
        ensures
            r == self.spec_generation(),
    {
        self.generation
    }
}

impl SparseSetIndex for Entity {
    open spec fn index_spec(&self) -> int {
        self.spec_row_index()
    }

    open spec fn valid_index(value: usize) -> bool {
        value < u32::MAX as usize
    }

    fn sparse_set_index(&self) -> (r: usize) {
        self.row.index() as usize
    }

    fn get_sparse_set_index(value: usize) -> (r: Self) {
        Entity::from_raw(EntityRow::new(value as u32))
    }
}

} // verus!
