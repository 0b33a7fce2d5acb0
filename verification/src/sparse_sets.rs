use crate::component::{ComponentId, ComponentInfo};
use crate::component_sparse_set::ComponentSparseSet;
use crate::index::SparseSetIndex;
use crate::sparse_set::SparseSet;
use crate::tick::CheckChangeTicks;
use vstd::prelude::*;

verus! {

/// The fixed initial row capacity a lazily created store starts with.
pub const DEFAULT_STORE_CAPACITY: usize = 64;

/// A collection of [`ComponentSparseSet`] storages, one per component
/// kind, keyed by [`ComponentId`] and created lazily on first use.
#[derive(Debug)]
pub struct SparseSets {
    sets: SparseSet<ComponentId, ComponentSparseSet>,
}

impl SparseSets {
    /// The registered kinds, in arbitrary order.
    pub closed spec fn kinds_seq(&self) -> Seq<ComponentId> {
        self.sets.keys_seq()
    }

    /// The stores, parallel to [`Self::kinds_seq`].
    pub closed spec fn stores_seq(&self) -> Seq<ComponentSparseSet> {
        self.sets.values_seq()
    }

    /// The dense position registered for kind projection `k`, or absent.
    pub closed spec fn back(&self, k: int) -> Option<usize> {
        self.sets.back(k)
    }

    /// Whether a store exists for kind projection `k`.
    #[verifier::inline]
    pub open spec fn spec_contains(&self, k: int) -> bool {
        self.back(k) is Some
    }

    /// The store registered for kind projection `k`, or absent.
    #[verifier::inline]
    pub open spec fn spec_get(&self, k: int) -> Option<ComponentSparseSet> {
        match self.back(k) {
            Some(j) => Some(self.stores_seq()[j as int]),
            None => None,
        }
    }

    /// Structural well-formedness: the keyed collection is well-formed and
    /// so is every contained store.
    pub closed spec fn wf(&self) -> bool {
        &&& self.sets.wf()
        &&& forall|j: int|
            0 <= j < self.sets.values_seq().len() ==> (#[trigger] self.sets.values_seq()[j]).wf()
    }

    /// Law: a registered store is always well-formed in a well-formed
    /// registry.
    pub proof fn lemma_stores_wf(&self)
        requires
            self.wf(),
        ensures
            self.kinds_seq().len() == self.stores_seq().len(),
            forall|j: int|
                0 <= j < self.stores_seq().len() ==> (#[trigger] self.stores_seq()[j]).wf(),
            forall|k: int|
                (#[trigger] self.back(k)) is Some ==> 0 <= (self.back(k)->0 as int)
                    < self.stores_seq().len(),
    {
        self.sets.lemma_wf_shape();
    }

    /// Creates an empty registry.
    pub fn new() -> (r: Self)
        ensures
            r.wf(),
            r.kinds_seq() == Seq::<ComponentId>::empty(),
            r.stores_seq() == Seq::<ComponentSparseSet>::empty(),
            forall|k: int| !r.spec_contains(k),
    {
        let r = SparseSets { sets: SparseSet::new() };
        proof {
            assert forall|k: int| !r.spec_contains(k) by {
                assert(!r.sets.spec_contains(k));
            }
        }
        r
    }

    /// Returns the number of stores this collection contains.
    pub fn len(&self) -> (r: usize)
        ensures
            r == self.stores_seq().len(),
    {
        self.sets.len()
    }

    /// Returns `true` if this collection contains no stores.
    pub fn is_empty(&self) -> (r: bool)
        ensures
            r == (self.stores_seq().len() == 0),
    {
        self.sets.is_empty()
    }

    /// Returns the `(kind, store)` pairs, in arbitrary order: the order
    /// changes across removals and is no guarantee to callers.
    pub fn iter(&self) -> (r: Vec<(ComponentId, &ComponentSparseSet)>)
        requires
            self.wf(),
        ensures
            r@.len() == self.stores_seq().len(),
            forall|j: int|
                0 <= j < r@.len() ==> (#[trigger] r@[j]).0 == self.kinds_seq()[j]
                    && *r@[j].1 == self.stores_seq()[j],
    {
        proof {
            self.sets.lemma_wf_shape();
        }
        let n = self.sets.len();
        let mut out: Vec<(ComponentId, &ComponentSparseSet)> = Vec::new();
        let mut i: usize = 0;
        while i < n
            invariant
                i <= n,
                n == self.stores_seq().len(),
                self.wf(),
                self.kinds_seq().len() == self.stores_seq().len(),
                out@.len() == i,
                forall|j: int|
                    0 <= j < i ==> (#[trigger] out@[j]).0 == self.kinds_seq()[j]
                        && *out@[j].1 == self.stores_seq()[j],
            decreases n - i,
        {
            let id = *self.sets.key_at(i);
            let store = self.sets.value_at(i);
            out.push((id, store));
            i += 1;
        }
        out
    }

    /// Gets a reference to the store of a kind. This may be `None` if the
    /// kind has never been used here.
    pub fn get(&self, component_id: ComponentId) -> (r: Option<&ComponentSparseSet>)
        requires
            self.wf(),
        ensures
            match r {
                Some(s) => Some(*s) == self.spec_get(component_id.spec_index()) && s.wf(),
                None => !self.spec_contains(component_id.spec_index()),
            },
    {
        proof {
            self.sets.lemma_wf_shape();
        }
        self.sets.get(component_id)
    }

    /// Gets a mutable reference to the store of a kind. This may be `None`
    /// if the kind has never been used here.
    pub fn get_mut(&mut self, component_id: ComponentId) -> (r: Option<&mut ComponentSparseSet>)
        requires
            old(self).wf(),
        ensures
            r is Some <==> old(self).spec_contains(component_id.spec_index()),
            r matches Some(s) ==> ({
                let j = old(self).back(component_id.spec_index())->0 as int;
                &&& Some(*s) == old(self).spec_get(component_id.spec_index())
                &&& (*s).wf()
                &&& final(self).stores_seq() == old(self).stores_seq().update(j, *final(s))
                &&& (final(s).wf() ==> final(self).wf())
            }),
            r is None ==> final(self).stores_seq() == old(self).stores_seq() && final(self).wf(),
            final(self).kinds_seq() == old(self).kinds_seq(),
            forall|k2: int| final(self).back(k2) == old(self).back(k2),
    {
        proof {
            self.sets.lemma_wf_shape();
        }
        self.sets.get_mut(component_id)
    }

    /// Gets a mutable reference to the store of the kind that
    /// `component_info` describes, creating the store (empty, with a fixed
    /// initial capacity and identity validation enabled) if the kind has
    /// never been used here.
    pub fn get_or_insert(&mut self, component_info: &ComponentInfo) -> (r: &mut ComponentSparseSet)
        requires
            old(self).wf(),
            component_info.spec_id().spec_index() < usize::MAX as int,
            old(self).stores_seq().len() < usize::MAX as int,
        ensures
            final(self).kinds_seq() == if old(self).spec_contains(
                component_info.spec_id().spec_index(),
            ) {
                old(self).kinds_seq()
            } else {
                old(self).kinds_seq().push(component_info.spec_id())
            },
            final(self).back(component_info.spec_id().spec_index()) is Some,
            forall|k2: int|
                k2 != component_info.spec_id().spec_index() ==> final(self).back(k2) == old(
                    self,
                ).back(k2),
            (*r).wf(),
            old(self).spec_contains(component_info.spec_id().spec_index()) ==> Some(*r) == old(
                self,
            ).spec_get(component_info.spec_id().spec_index()),
            !old(self).spec_contains(component_info.spec_id().spec_index()) ==> ({
                &&& (*r).entities_seq() == Seq::<crate::entity::Entity>::empty()
                &&& (*r).validates_identity()
                &&& forall|row: int| !(*r).spec_contains_row(row)
            }),
            ({
                let j = final(self).back(component_info.spec_id().spec_index())->0 as int;
                &&& final(self).stores_seq() == if old(self).spec_contains(
                    component_info.spec_id().spec_index(),
                ) {
                    old(self).stores_seq().update(j, *final(r))
                } else {
                    old(self).stores_seq().push(*final(r))
                }
                &&& (final(r).wf() ==> final(self).wf())
            }),
    {
        proof {
            self.sets.lemma_wf_shape();
        }
        let id = component_info.id();
        if !self.sets.contains(id) {
            let store = ComponentSparseSet::new(component_info, DEFAULT_STORE_CAPACITY);
            self.sets.insert(id, store);
        }
        let r = self.sets.get_mut(component_info.id());
        r.unwrap()
    }

    /// Clears every contained store's entity-indexed state, without
    /// discarding the kind-to-store mapping.
    pub fn clear_entities(&mut self)
        requires
            old(self).wf(),
        ensures
            final(self).wf(),
            final(self).kinds_seq() == old(self).kinds_seq(),
            forall|k2: int| final(self).back(k2) == old(self).back(k2),
            final(self).stores_seq().len() == old(self).stores_seq().len(),
            forall|j: int|
                0 <= j < old(self).stores_seq().len() ==> ({
                    let post = #[trigger] final(self).stores_seq()[j];
                    &&& post.entities_seq() == Seq::<crate::entity::Entity>::empty()
                    &&& forall|row: int| !post.spec_contains_row(row)
                    &&& post.validates_identity() == old(
                        self,
                    ).stores_seq()[j].validates_identity()
                }),
    {
        proof {
            self.sets.lemma_wf_shape();
        }
        let n = self.sets.len();
        let mut i: usize = 0;
        while i < n
            invariant
                i <= n,
                old(self).wf(),
                n == old(self).stores_seq().len(),
                self.sets.wf(),
                self.sets.keys_seq() == old(self).kinds_seq(),
                self.sets.values_seq().len() == n,
                forall|k2: int| self.sets.back(k2) == old(self).back(k2),
                forall|j: int|
                    0 <= j < i ==> ({
                        let post = #[trigger] self.sets.values_seq()[j];
                        &&& post.wf()
                        &&& post.entities_seq() == Seq::<crate::entity::Entity>::empty()
                        &&& forall|row: int| !post.spec_contains_row(row)
                        &&& post.validates_identity() == old(
                            self,
                        ).stores_seq()[j].validates_identity()
                    }),
                forall|j: int|
                    i <= j < n ==> (#[trigger] self.sets.values_seq()[j]) == old(
                        self,
                    ).stores_seq()[j],
            decreases n - i,
        {
            proof {
                assert(old(self).stores_seq()[i as int].wf());
            }
            let store = self.sets.value_mut_at(i);
            store.clear();
            i += 1;
        }
    }

    /// Forwards a tick maintenance check to every contained store: every
    /// stored tick is clamped against the rollover horizon, and nothing
    /// else changes.
    pub fn check_change_ticks(&mut self, check: CheckChangeTicks)
        requires
            old(self).wf(),
        ensures
            final(self).wf(),
            final(self).kinds_seq() == old(self).kinds_seq(),
            forall|k2: int| final(self).back(k2) == old(self).back(k2),
            final(self).stores_seq().len() == old(self).stores_seq().len(),
            forall|j: int|
                0 <= j < old(self).stores_seq().len() ==> ({
                    let pre = old(self).stores_seq()[j];
                    let post = #[trigger] final(self).stores_seq()[j];
                    &&& post.entities_seq() == pre.entities_seq()
                    &&& post.handles_seq() == pre.handles_seq()
                    &&& post.callers_seq() == pre.callers_seq()
                    &&& forall|row: int| post.back(row) == pre.back(row)
                    &&& post.added_seq().len() == pre.added_seq().len()
                    &&& post.changed_seq().len() == pre.changed_seq().len()
                    &&& forall|t: int|
                        0 <= t < pre.added_seq().len() ==> (#[trigger] post.added_seq()[t])
                            == pre.added_seq()[t].spec_checked(check)
                    &&& forall|t: int|
                        0 <= t < pre.changed_seq().len() ==> (#[trigger] post.changed_seq()[t])
                            == pre.changed_seq()[t].spec_checked(check)
                    &&& post.validates_identity() == pre.validates_identity()
                }),
    {
        proof {
            self.sets.lemma_wf_shape();
        }
        let n = self.sets.len();
        let mut i: usize = 0;
        while i < n
            invariant
                i <= n,
                old(self).wf(),
                n == old(self).stores_seq().len(),
                self.sets.wf(),
                self.sets.keys_seq() == old(self).kinds_seq(),
                self.sets.values_seq().len() == n,
                forall|k2: int| self.sets.back(k2) == old(self).back(k2),
                forall|j: int|
                    0 <= j < i ==> ({
                        let pre = old(self).stores_seq()[j];
                        let post = #[trigger] self.sets.values_seq()[j];
                        &&& post.wf()
                        &&& post.entities_seq() == pre.entities_seq()
                        &&& post.handles_seq() == pre.handles_seq()
                        &&& post.callers_seq() == pre.callers_seq()
                        &&& forall|row: int| post.back(row) == pre.back(row)
                        &&& post.added_seq().len() == pre.added_seq().len()
                        &&& post.changed_seq().len() == pre.changed_seq().len()
                        &&& forall|t: int|
                            0 <= t < pre.added_seq().len() ==> (#[trigger] post.added_seq()[t])
                                == pre.added_seq()[t].spec_checked(check)
                        &&& forall|t: int|
                            0 <= t < pre.changed_seq().len() ==> (#[trigger] post.changed_seq()[t])
                                == pre.changed_seq()[t].spec_checked(check)
                        &&& post.validates_identity() == pre.validates_identity()
                    }),
                forall|j: int|
                    i <= j < n ==> (#[trigger] self.sets.values_seq()[j]) == old(
                        self,
                    ).stores_seq()[j],
            decreases n - i,
        {
            proof {
                assert(old(self).stores_seq()[i as int].wf());
            }
            let store = self.sets.value_mut_at(i);
            store.check_change_ticks(check);
            i += 1;
        }
    }
}

impl Default for SparseSets {
    /// An empty registry.
    fn default() -> (r: Self)
        ensures
            r.wf(),
            r.kinds_seq() == Seq::<ComponentId>::empty(),
            r.stores_seq() == Seq::<ComponentSparseSet>::empty(),
            forall|k: int| !r.spec_contains(k),
    {
        SparseSets::new()
    }
}

} // verus!
