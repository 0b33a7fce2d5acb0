//! Sparse-set storage: densely packed value sequences addressed through a
//! sparse table of back-pointers.
//!
//! Four layers, leaves first:
//!
//! * [`SparseArray`]: a growable table from small integer keys to optional
//!   slots, indexed directly by each key's integer projection.
//! * [`SparseSet`]: a dense, insertion-ordered sequence of values paired
//!   with a `SparseArray` of back-pointers, giving constant-time lookup,
//!   insert and swap-removal.
//! * [`ComponentSparseSet`]: a slot store routing entity rows to rows of a
//!   dense [`Column`] that co-locates each value's change ticks and write
//!   provenance.
//! * [`SparseSets`]: a registry of slot stores, one per component kind,
//!   created lazily on first use.
//!
//! Every structure carries a well-formedness predicate tying its dense
//! sequences to its back-pointer table; every operation is specified to
//! preserve it, and the observable effect of each operation on every key
//! is pinned by its contract. The laws stated alongside (`lemma_*`) spell
//! out the headline guarantees: overwrites reorder nothing, swap-removal
//! keeps the displaced tail entry reachable, removing the tail touches no
//! other key, a round trip returns what was inserted, and freezing
//! preserves every lookup.

mod column;
mod component;
mod component_sparse_set;
mod entity;
mod index;
mod sparse_array;
mod sparse_set;
mod sparse_sets;
mod tick;

pub use column::{Column, RawHandle};
pub use component::{ComponentId, ComponentInfo};
pub use component_sparse_set::ComponentSparseSet;
pub use entity::{Entity, EntityRow};
pub use index::SparseSetIndex;
pub use sparse_array::{ImmutableSparseArray, SparseArray};
pub use sparse_set::{ImmutableSparseSet, SparseSet};
pub use sparse_set::{lemma_insert_existing_keeps_order, lemma_remove_last_touches_no_other};
pub use sparse_set::{lemma_remove_preserves_displaced, lemma_round_trip};
pub use sparse_sets::{SparseSets, DEFAULT_STORE_CAPACITY};
pub use tick::{CheckChangeTicks, ComponentTicks, Tick};
pub use tick::{lemma_check_tick_is_clamp, lemma_is_newer_exact};
pub use tick::{CHECK_TICK_THRESHOLD, MAX_CHANGE_AGE};
