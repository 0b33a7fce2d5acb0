use crate::index::SparseSetIndex;
use vstd::prelude::*;

verus! {

/// Identifies one component kind within a registry. Identifiers are small
/// integers handed out incrementally, so they double as sparse keys.
#[derive(Clone, Copy, Debug, PartialEq, Eq, Hash, PartialOrd, Ord)]
pub struct ComponentId {
    index: usize,
}

impl ComponentId {
    /// The identifier's index, as the specifications see it.
    pub closed spec fn spec_index(&self) -> int {
        self.index as int
    }

    /// Creates a new [`ComponentId`] with the given index.
    pub fn new(index: usize) -> (r: Self)
        ensures
            r.spec_index() == index as int,
    {
        ComponentId { index }
    }

    /// The raw index.
    pub fn index(&self) -> (r: usize)
        ensures
            r as int == self.spec_index(),
    {
        self.index
    }
}

impl SparseSetIndex for ComponentId {
    open spec fn index_spec(&self) -> int {
        self.spec_index()
    }

    open spec fn valid_index(value: usize) -> bool {
        true
    }

    fn sparse_set_index(&self) -> (r: usize) {
        self.index
    }

    fn get_sparse_set_index(value: usize) -> (r: Self) {
        ComponentId { index: value }
    }
}

/// What the component-kind collaborator hands in when a store is created:
/// the kind identifier the storage is keyed by. The memory layout and
/// destructor of the kind stay with the external column collaborator.
#[derive(Clone, Copy, Debug)]
pub struct ComponentInfo {
    id: ComponentId,
}

impl ComponentInfo {
    /// The kind identifier, as the specifications see it.
    pub closed spec fn spec_id(&self) -> ComponentId {
        self.id
    }

    /// Creates a descriptor for the kind identified by `id`.
    pub fn new(id: ComponentId) -> (r: Self)
        ensures
            r.spec_id() == id,
    {
        ComponentInfo { id }
    }

    /// The kind identifier.
    pub fn id(&self) -> (r: ComponentId)
        ensures
            r == self.spec_id(),
    {
        self.id
    }
}

} // verus!
