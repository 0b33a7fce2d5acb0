use crate::column::{Column, RawHandle};
use crate::component::ComponentInfo;
use crate::entity::{Entity, EntityRow};
use crate::index::SparseSetIndex;
use crate::sparse_array::SparseArray;
use crate::tick::{CheckChangeTicks, ComponentTicks, Tick};
use vstd::prelude::*;

verus! {

/// A sparse storage of one component kind: entity rows are routed through
/// a back-pointer table to rows of a dense [`Column`] holding the values'
/// handles, change ticks and write provenance.
///
/// The store records the full identity of each dense row's owner. When
/// identity validation is enabled (chosen at construction), every access
/// under an occupied row carries the caller contract that the identifier's
/// generation matches the recorded owner, turning stale-identifier reuse
/// into a contract violation instead of silent aliasing; without it, only
/// the row index identifies the owner, trading that protection for the
/// cheaper contract.
#[derive(Debug)]
pub struct ComponentSparseSet {
    dense: Column,
    entities: Vec<Entity>,
    sparse: SparseArray<EntityRow, u32>,
    validate_identity: bool,
}

impl ComponentSparseSet {
    /// The identities owning each dense row.
    pub closed spec fn entities_seq(&self) -> Seq<Entity> {
        self.entities@
    }

    /// The dense row registered for entity row `row`, or absent.
    pub closed spec fn back(&self, row: int) -> Option<u32> {
        self.sparse.spec_get(row)
    }

    /// The handles stored per dense row.
    pub closed spec fn handles_seq(&self) -> Seq<RawHandle> {
        self.dense.data_seq()
    }

    /// The per-row "added" ticks.
    pub closed spec fn added_seq(&self) -> Seq<Tick> {
        self.dense.added_seq()
    }

    /// The per-row "changed" ticks.
    pub closed spec fn changed_seq(&self) -> Seq<Tick> {
        self.dense.changed_seq()
    }

    /// The per-row provenance of the last write.
    pub closed spec fn callers_seq(&self) -> Seq<u64> {
        self.dense.callers_seq()
    }

    /// Whether this store validates the full identity (including
    /// generation) of identifiers used against occupied rows.
    pub closed spec fn validates_identity(&self) -> bool {
        self.validate_identity
    }

    /// Structural well-formedness: the column's rows, the owner list and
    /// the back-pointer table stay in lockstep, and the back-pointer table
    /// is exactly the inverse of the owners' row indices.
    pub closed spec fn wf(&self) -> bool {
        &&& self.dense.wf()
        &&& self.dense.data_seq().len() == self.entities@.len()
        &&& self.entities@.len() <= u32::MAX
        &&& forall|j: int|
            #![trigger self.entities@[j]]
            0 <= j < self.entities@.len() ==> self.sparse.spec_get(
                self.entities@[j].spec_row_index(),
            ) == Some(j as u32)
        &&& forall|row: int|
            (#[trigger] self.sparse.spec_get(row)) is Some ==> {
                &&& 0 <= (self.sparse.spec_get(row)->0 as int) < self.entities@.len()
                &&& self.entities@[self.sparse.spec_get(row)->0 as int].spec_row_index() == row
            }
    }

    /// Whether entity row `row` currently holds a value of this kind.
    #[verifier::inline]
    pub open spec fn spec_contains_row(&self, row: int) -> bool {
        self.back(row) is Some
    }

    /// The identity recorded as owner of `row`'s value.
    pub open spec fn spec_owner(&self, row: int) -> Entity
        recommends
            self.spec_contains_row(row),
    {
        self.entities_seq()[self.back(row)->0 as int]
    }

    /// The caller contract identity validation imposes: when enabled and
    /// the identifier's row is occupied, the full identifier (generation
    /// included) must match the recorded owner.
    pub open spec fn identity_ok(&self, entity: Entity) -> bool {
        self.validates_identity() && self.spec_contains_row(entity.spec_row_index())
            ==> self.spec_owner(entity.spec_row_index()) == entity
    }

    /// The handle observable at entity row `row`, or absent.
    #[verifier::inline]
    pub open spec fn spec_get_handle(&self, row: int) -> Option<RawHandle> {
        match self.back(row) {
            Some(j) => Some(self.handles_seq()[j as int]),
            None => None,
        }
    }

    /// The ticks observable at entity row `row`, or absent.
    #[verifier::inline]
    pub open spec fn spec_get_ticks(&self, row: int) -> Option<ComponentTicks> {
        match self.back(row) {
            Some(j) => Some(
                ComponentTicks {
                    added: self.added_seq()[j as int],
                    changed: self.changed_seq()[j as int],
                },
            ),
            None => None,
        }
    }

    /// The write provenance observable at entity row `row`, or absent.
    #[verifier::inline]
    pub open spec fn spec_get_caller(&self, row: int) -> Option<u64> {
        match self.back(row) {
            Some(j) => Some(self.callers_seq()[j as int]),
            None => None,
        }
    }

    /// Law: well-formedness ties the store together. The column rows and
    /// the owner list have equal length, every owner's back-pointer names
    /// the dense row holding its value, and every occupied back-pointer
    /// names a row owned by an identity with that entity row.
    pub proof fn lemma_wf_shape(&self)
        requires
            self.wf(),
        ensures
            self.handles_seq().len() == self.entities_seq().len(),
            self.added_seq().len() == self.entities_seq().len(),
            self.changed_seq().len() == self.entities_seq().len(),
            self.callers_seq().len() == self.entities_seq().len(),
            self.entities_seq().len() <= u32::MAX,
            forall|j: int|
                #![trigger self.entities_seq()[j]]
                0 <= j < self.entities_seq().len() ==> self.back(
                    self.entities_seq()[j].spec_row_index(),
                ) == Some(j as u32),
            forall|row: int|
                (#[trigger] self.back(row)) is Some ==> {
                    &&& 0 <= (self.back(row)->0 as int) < self.entities_seq().len()
                    &&& self.entities_seq()[self.back(row)->0 as int].spec_row_index() == row
                },
    {
    }

    /// Two dense rows owned by identities of equal entity row are the same
    /// dense row.
    proof fn lemma_distinct_rows(&self, a: int, b: int)
        requires
            self.wf(),
            0 <= a < self.entities_seq().len(),
            0 <= b < self.entities_seq().len(),
            self.entities_seq()[a].spec_row_index() == self.entities_seq()[b].spec_row_index(),
        ensures
            a == b,
    {
        assert(self.back(self.entities_seq()[a].spec_row_index()) == Some(a as u32));
        assert(self.back(self.entities_seq()[b].spec_row_index()) == Some(b as u32));
    }

    /// Creates a new store for the kind `component_info` describes, with
    /// identity validation enabled and room for `capacity` rows.
    pub fn new(component_info: &ComponentInfo, capacity: usize) -> (r: Self)
        ensures
            r.wf(),
            r.validates_identity(),
            r.entities_seq() == Seq::<Entity>::empty(),
            r.handles_seq() == Seq::<RawHandle>::empty(),
            forall|row: int| !r.spec_contains_row(row),
    {
        Self::new_with_validation(component_info, capacity, true)
    }

    /// Creates a new store, choosing at construction whether accesses
    /// validate the full identity of the identifiers used against it.
    pub fn new_with_validation(
        component_info: &ComponentInfo,
        capacity: usize,
        validate_identity: bool,
    ) -> (r: Self)
        ensures
            r.wf(),
            r.validates_identity() == validate_identity,
            r.entities_seq() == Seq::<Entity>::empty(),
            r.handles_seq() == Seq::<RawHandle>::empty(),
            forall|row: int| !r.spec_contains_row(row),
    {
        // the kind's memory layout and destructor stay with the external
        // column collaborator; the descriptor routes only identity
        let _ = component_info;
        ComponentSparseSet {
            dense: Column::with_capacity(capacity),
            entities: Vec::with_capacity(capacity),
            sparse: SparseArray::new(),
            validate_identity,
        }
    }

    /// Returns the number of component values in the sparse set.
    pub fn len(&self) -> (r: usize)
        requires
            self.wf(),
        ensures
            r == self.entities_seq().len(),
    {
        self.dense.len()
    }

    /// Returns `true` if the sparse set contains no component values.
    pub fn is_empty(&self) -> (r: bool)
        requires
            self.wf(),
        ensures
            r == (self.entities_seq().len() == 0),
    {
        self.dense.is_empty()
    }

    /// Returns `true` if the sparse set has a component value for the
    /// provided `entity`.
    pub fn contains(&self, entity: Entity) -> (r: bool)
        requires
            self.wf(),
            self.identity_ok(entity),
        ensures
            r == self.spec_contains_row(entity.spec_row_index()),
    {
        let row_index = entity.row().sparse_set_index();
        self.sparse.contains_at(row_index)
    }

    /// Returns the handle of the entity's component value.
    ///
    /// Returns `None` if `entity` does not have a component in the sparse
    /// set.
    pub fn get(&self, entity: Entity) -> (r: Option<RawHandle>)
        requires
            self.wf(),
            self.identity_ok(entity),
        ensures
            r == self.spec_get_handle(entity.spec_row_index()),
    {
        let row_index = entity.row().sparse_set_index();
        match self.sparse.get_at(row_index) {
            Some(dense_index) => {
                let j = *dense_index as usize;
                Some(self.dense.get_data(j))
            },
            None => None,
        }
    }

    /// Returns the entity's component handle together with its ticks and
    /// write provenance, in a single lookup.
    ///
    /// Returns `None` if `entity` does not have a component in the sparse
    /// set.
    pub fn get_with_ticks(&self, entity: Entity) -> (r: Option<(RawHandle, ComponentTicks, u64)>)
        requires
            self.wf(),
            self.identity_ok(entity),
        ensures
            match r {
                Some(t) => {
                    &&& Some(t.0) == self.spec_get_handle(entity.spec_row_index())
                    &&& Some(t.1) == self.spec_get_ticks(entity.spec_row_index())
                    &&& Some(t.2) == self.spec_get_caller(entity.spec_row_index())
                },
                None => !self.spec_contains_row(entity.spec_row_index()),
            },
    {
        let row_index = entity.row().sparse_set_index();
        match self.sparse.get_at(row_index) {
            Some(dense_index) => {
                let j = *dense_index as usize;
                Some((self.dense.get_data(j), self.dense.get_ticks(j), self.dense.get_changed_by(j)))
            },
            None => None,
        }
    }

    /// Returns the "added" tick of the entity's component value.
    ///
    /// Returns `None` if `entity` does not have a component in the sparse
    /// set.
    pub fn get_added_tick(&self, entity: Entity) -> (r: Option<Tick>)
        requires
            self.wf(),
            self.identity_ok(entity),
        ensures
            r == match self.spec_get_ticks(entity.spec_row_index()) {
                Some(t) => Some(t.added),
                None => None::<Tick>,
            },
    {
        let row_index = entity.row().sparse_set_index();
        match self.sparse.get_at(row_index) {
            Some(dense_index) => {
                let j = *dense_index as usize;
                Some(self.dense.get_added_tick(j))
            },
            None => None,
        }
    }

    /// Returns the "changed" tick of the entity's component value.
    ///
    /// Returns `None` if `entity` does not have a component in the sparse
    /// set.
    pub fn get_changed_tick(&self, entity: Entity) -> (r: Option<Tick>)
        requires
            self.wf(),
            self.identity_ok(entity),
        ensures
            r == match self.spec_get_ticks(entity.spec_row_index()) {
                Some(t) => Some(t.changed),
                None => None::<Tick>,
            },
    {
        let row_index = entity.row().sparse_set_index();
        match self.sparse.get_at(row_index) {
            Some(dense_index) => {
                let j = *dense_index as usize;
                Some(self.dense.get_changed_tick(j))
            },
            None => None,
        }
    }

    /// Returns both ticks of the entity's component value.
    ///
    /// Returns `None` if `entity` does not have a component in the sparse
    /// set.
    pub fn get_ticks(&self, entity: Entity) -> (r: Option<ComponentTicks>)
        requires
            self.wf(),
            self.identity_ok(entity),
        ensures
            r == self.spec_get_ticks(entity.spec_row_index()),
    {
        let row_index = entity.row().sparse_set_index();
        match self.sparse.get_at(row_index) {
            Some(dense_index) => {
                let j = *dense_index as usize;
                Some(self.dense.get_ticks(j))
            },
            None => None,
        }
    }

    /// Returns the caller that last changed the entity's component value.
    ///
    /// Returns `None` if `entity` does not have a component in the sparse
    /// set.
    pub fn get_changed_by(&self, entity: Entity) -> (r: Option<u64>)
        requires
            self.wf(),
            self.identity_ok(entity),
        ensures
            r == self.spec_get_caller(entity.spec_row_index()),
    {
        let row_index = entity.row().sparse_set_index();
        match self.sparse.get_at(row_index) {
            Some(dense_index) => {
                let j = *dense_index as usize;
                Some(self.dense.get_changed_by(j))
            },
            None => None,
        }
    }

    /// Inserts the `entity` key and component `value` pair into this
    /// sparse set.
    ///
    /// When the entity's row already holds a value, the dense row's value
    /// is overwritten in place and only its "changed" tick and provenance
    /// are refreshed: the "added" tick is untouched. Otherwise a new dense
    /// row is appended with both ticks set to `change_tick`, and the owner
    /// list and back-pointer table are extended to match.
    pub fn insert(&mut self, entity: Entity, value: RawHandle, change_tick: Tick, caller: u64)
        requires
            old(self).wf(),
            old(self).identity_ok(entity),
            !old(self).spec_contains_row(entity.spec_row_index()) ==> old(
                self,
            ).entities_seq().len() < u32::MAX,
        ensures
            final(self).wf(),
            final(self).validates_identity() == old(self).validates_identity(),
            final(self).spec_get_handle(entity.spec_row_index()) == Some(value),
            forall|row2: int|
                #![trigger final(self).back(row2)]
                #![trigger old(self).back(row2)]
                row2 != entity.spec_row_index() ==> final(self).spec_get_handle(row2) == old(
                    self,
                ).spec_get_handle(row2) && final(self).spec_get_ticks(row2) == old(
                    self,
                ).spec_get_ticks(row2) && final(self).spec_get_caller(row2) == old(
                    self,
                ).spec_get_caller(row2),
            old(self).spec_contains_row(entity.spec_row_index()) ==> ({
                let j = old(self).back(entity.spec_row_index())->0 as int;
                &&& final(self).handles_seq() == old(self).handles_seq().update(j, value)
                &&& final(self).added_seq() == old(self).added_seq()
                &&& final(self).changed_seq() == old(self).changed_seq().update(j, change_tick)
                &&& final(self).callers_seq() == old(self).callers_seq().update(j, caller)
                &&& final(self).entities_seq() == old(self).entities_seq()
                &&& forall|row2: int| final(self).back(row2) == old(self).back(row2)
            }),
            !old(self).spec_contains_row(entity.spec_row_index()) ==> ({
                &&& final(self).handles_seq() == old(self).handles_seq().push(value)
                &&& final(self).added_seq() == old(self).added_seq().push(change_tick)
                &&& final(self).changed_seq() == old(self).changed_seq().push(change_tick)
                &&& final(self).callers_seq() == old(self).callers_seq().push(caller)
                &&& final(self).entities_seq() == old(self).entities_seq().push(entity)
                &&& final(self).back(entity.spec_row_index()) == Some(
                    old(self).entities_seq().len() as u32,
                )
                &&& forall|row2: int|
                    row2 != entity.spec_row_index() ==> final(self).back(row2) == old(self).back(
                        row2,
                    )
            }),
    {
        let row = entity.row();
        let row_index = row.sparse_set_index();
        let existing: Option<u32> = match self.sparse.get_at(row_index) {
            Some(dense_index) => Some(*dense_index),
            None => None,
        };
        match existing {
            Some(dense_index) => {
                proof {
                    assert(old(self).back(row_index as int) == Some(dense_index));
                }
                self.dense.replace(dense_index as usize, value, change_tick, caller);
                proof {
                    let k = row_index as int;
                    let j = dense_index as int;
                    assert forall|row2: int|
                        #![trigger final(self).back(row2)]
                        #![trigger old(self).back(row2)]
                        row2 != k implies final(self).spec_get_handle(row2) == old(
                        self,
                    ).spec_get_handle(row2) && final(self).spec_get_ticks(row2) == old(
                        self,
                    ).spec_get_ticks(row2) && final(self).spec_get_caller(row2) == old(
                        self,
                    ).spec_get_caller(row2) by {
                        if old(self).back(row2) is Some {
                            let j2 = old(self).back(row2)->0 as int;
                            assert(old(self).entities_seq()[j2].spec_row_index() == row2);
                            assert(old(self).entities_seq()[j].spec_row_index() == k);
                        }
                    }
                    assert(self.wf());
                }
            },
            None => {
                let dense_index = self.dense.len();
                self.dense.push(value, ComponentTicks::new(change_tick), caller);
                proof {
                    use_type_invariant(row);
                }
                self.sparse.insert_at(row_index, dense_index as u32);
                self.entities.push(entity);
                proof {
                    let k = row_index as int;
                    assert forall|j2: int|
                        #![trigger self.entities@[j2]]
                        0 <= j2 < self.entities@.len() implies self.sparse.spec_get(
                        self.entities@[j2].spec_row_index(),
                    ) == Some(j2 as u32) by {
                        if j2 < old(self).entities@.len() {
                            assert(self.entities@[j2] == old(self).entities@[j2]);
                            assert(old(self).back(old(self).entities@[j2].spec_row_index())
                                == Some(j2 as u32));
                        }
                    }
                    assert forall|row2: int| (#[trigger] self.sparse.spec_get(row2))
                        is Some implies {
                        &&& 0 <= (self.sparse.spec_get(row2)->0 as int) < self.entities@.len()
                        &&& self.entities@[self.sparse.spec_get(row2)->0 as int].spec_row_index()
                            == row2
                    } by {
                        if row2 == k {
                            assert(self.sparse.spec_get(row2) == Some(dense_index as u32));
                            assert(self.entities@[dense_index as int] == entity);
                        } else {
                            assert(self.sparse.spec_get(row2) == old(self).back(row2));
                            let j2 = self.sparse.spec_get(row2)->0 as int;
                            assert(0 <= j2 < old(self).entities@.len());
                            assert(self.entities@[j2] == old(self).entities@[j2]);
                        }
                    }
                    assert(self.wf());
                    assert forall|row2: int|
                        #![trigger self.back(row2)]
                        #![trigger old(self).back(row2)]
                        row2 != k implies self.spec_get_handle(row2) == old(
                        self,
                    ).spec_get_handle(row2) && self.spec_get_ticks(row2) == old(
                        self,
                    ).spec_get_ticks(row2) && self.spec_get_caller(row2) == old(
                        self,
                    ).spec_get_caller(row2) by {
                        if old(self).back(row2) is Some {
                            let j2 = old(self).back(row2)->0 as int;
                            assert(0 <= j2 < old(self).entities@.len());
                        }
                    }
                }
            },
        }
    }

    /// Removes the `entity` from this sparse set and returns the handle of
    /// the associated value, if it exists. The caller becomes responsible
    /// for disposing of the value exactly once: discarding the handle
    /// leaks it, and disposing twice is a double free.
    ///
    /// A removed non-tail dense row is refilled by swapping the tail row
    /// into its place and fixing up that owner's back-pointer.
    #[must_use]
    pub fn remove_and_forget(&mut self, entity: Entity) -> (r: Option<RawHandle>)
        requires
            old(self).wf(),
            old(self).identity_ok(entity),
        ensures
            final(self).wf(),
            final(self).validates_identity() == old(self).validates_identity(),
            r == old(self).spec_get_handle(entity.spec_row_index()),
            !final(self).spec_contains_row(entity.spec_row_index()),
            forall|row2: int|
                #![trigger final(self).back(row2)]
                #![trigger old(self).back(row2)]
                row2 != entity.spec_row_index() ==> final(self).spec_get_handle(row2) == old(
                    self,
                ).spec_get_handle(row2) && final(self).spec_get_ticks(row2) == old(
                    self,
                ).spec_get_ticks(row2) && final(self).spec_get_caller(row2) == old(
                    self,
                ).spec_get_caller(row2),
            !old(self).spec_contains_row(entity.spec_row_index()) ==> ({
                &&& final(self).entities_seq() == old(self).entities_seq()
                &&& final(self).handles_seq() == old(self).handles_seq()
                &&& final(self).added_seq() == old(self).added_seq()
                &&& final(self).changed_seq() == old(self).changed_seq()
                &&& final(self).callers_seq() == old(self).callers_seq()
                &&& forall|row2: int| final(self).back(row2) == old(self).back(row2)
            }),
            old(self).spec_contains_row(entity.spec_row_index()) ==> ({
                let j = old(self).back(entity.spec_row_index())->0 as int;
                let last = old(self).entities_seq().len() - 1;
                &&& final(self).entities_seq() == old(self).entities_seq().update(
                    j,
                    old(self).entities_seq()[last],
                ).drop_last()
                &&& final(self).handles_seq() == old(self).handles_seq().update(
                    j,
                    old(self).handles_seq()[last],
                ).drop_last()
                &&& final(self).added_seq() == old(self).added_seq().update(
                    j,
                    old(self).added_seq()[last],
                ).drop_last()
                &&& final(self).changed_seq() == old(self).changed_seq().update(
                    j,
                    old(self).changed_seq()[last],
                ).drop_last()
                &&& final(self).callers_seq() == old(self).callers_seq().update(
                    j,
                    old(self).callers_seq()[last],
                ).drop_last()
                &&& (j != last ==> final(self).back(
                    old(self).entities_seq()[last].spec_row_index(),
                ) == Some(j as u32))
                &&& forall|row2: int|
                    row2 != entity.spec_row_index() && row2 != old(
                        self,
                    ).entities_seq()[last].spec_row_index() ==> final(self).back(row2) == old(
                        self,
                    ).back(row2)
            }),
    {
        let row_index = entity.row().sparse_set_index();
        match self.sparse.remove_at(row_index) {
            Some(dense_index) => {
                proof {
                    assert(old(self).back(row_index as int) == Some(dense_index));
                }
                let j = dense_index as usize;
                let last = self.entities.len() - 1;
                self.entities.swap_remove(j);
                let (value, _ticks, _caller) = self.dense.swap_remove_and_forget(j);
                if j != last {
                    let moved = self.entities[j].row().sparse_set_index();
                    proof {
                        assert(old(self).entities_seq()[last as int].spec_row_index()
                            == moved as int);
                        old(self).lemma_distinct_rows_helper(
                            j as int,
                            last as int,
                            row_index as int,
                        );
                    }
                    match self.sparse.get_mut_at(moved) {
                        Some(p) => {
                            *p = dense_index;
                        },
                        None => {
                            // the swapped owner's back-pointer is present
                            // by well-formedness
                            proof {
                                assert(false);
                            }
                        },
                    }
                }
                proof {
                    self.lemma_remove_wf_restore(*old(self), row_index as int, j as int);
                }
                Some(value)
            },
            None => {
                proof {
                    self.lemma_unchanged_wf(*old(self));
                }
                None
            },
        }
    }

    /// Removes (and asks the external owner to drop) the entity's
    /// component value from the sparse set.
    ///
    /// Returns `true` if `entity` had a component value in the sparse set.
    pub fn remove(&mut self, entity: Entity) -> (r: bool)
        requires
            old(self).wf(),
            old(self).identity_ok(entity),
        ensures
            final(self).wf(),
            final(self).validates_identity() == old(self).validates_identity(),
            r == old(self).spec_contains_row(entity.spec_row_index()),
            !final(self).spec_contains_row(entity.spec_row_index()),
            forall|row2: int|
                #![trigger final(self).back(row2)]
                #![trigger old(self).back(row2)]
                row2 != entity.spec_row_index() ==> final(self).spec_get_handle(row2) == old(
                    self,
                ).spec_get_handle(row2) && final(self).spec_get_ticks(row2) == old(
                    self,
                ).spec_get_ticks(row2) && final(self).spec_get_caller(row2) == old(
                    self,
                ).spec_get_caller(row2),
            !old(self).spec_contains_row(entity.spec_row_index()) ==> ({
                &&& final(self).entities_seq() == old(self).entities_seq()
                &&& final(self).handles_seq() == old(self).handles_seq()
                &&& final(self).added_seq() == old(self).added_seq()
                &&& final(self).changed_seq() == old(self).changed_seq()
                &&& final(self).callers_seq() == old(self).callers_seq()
                &&& forall|row2: int| final(self).back(row2) == old(self).back(row2)
            }),
            old(self).spec_contains_row(entity.spec_row_index()) ==> ({
                let j = old(self).back(entity.spec_row_index())->0 as int;
                let last = old(self).entities_seq().len() - 1;
                &&& final(self).entities_seq() == old(self).entities_seq().update(
                    j,
                    old(self).entities_seq()[last],
                ).drop_last()
                &&& final(self).handles_seq() == old(self).handles_seq().update(
                    j,
                    old(self).handles_seq()[last],
                ).drop_last()
                &&& (j != last ==> final(self).back(
                    old(self).entities_seq()[last].spec_row_index(),
                ) == Some(j as u32))
                &&& forall|row2: int|
                    row2 != entity.spec_row_index() && row2 != old(
                        self,
                    ).entities_seq()[last].spec_row_index() ==> final(self).back(row2) == old(
                        self,
                    ).back(row2)
            }),
    {
        let row_index = entity.row().sparse_set_index();
        match self.sparse.remove_at(row_index) {
            Some(dense_index) => {
                proof {
                    assert(old(self).back(row_index as int) == Some(dense_index));
                }
                let j = dense_index as usize;
                let last = self.entities.len() - 1;
                self.entities.swap_remove(j);
                self.dense.swap_remove(j);
                if j != last {
                    let moved = self.entities[j].row().sparse_set_index();
                    proof {
                        assert(old(self).entities_seq()[last as int].spec_row_index()
                            == moved as int);
                        old(self).lemma_distinct_rows_helper(
                            j as int,
                            last as int,
                            row_index as int,
                        );
                    }
                    match self.sparse.get_mut_at(moved) {
                        Some(p) => {
                            *p = dense_index;
                        },
                        None => {
                            // the swapped owner's back-pointer is present
                            // by well-formedness
                            proof {
                                assert(false);
                            }
                        },
                    }
                }
                proof {
                    self.lemma_remove_wf_restore(*old(self), row_index as int, j as int);
                }
                true
            },
            None => {
                proof {
                    self.lemma_unchanged_wf(*old(self));
                }
                false
            },
        }
    }

    /// Removes all of the values stored within, keeping the store itself
    /// (and its validation configuration) alive.
    pub fn clear(&mut self)
        ensures
            final(self).wf(),
            final(self).validates_identity() == old(self).validates_identity(),
            final(self).entities_seq() == Seq::<Entity>::empty(),
            final(self).handles_seq() == Seq::<RawHandle>::empty(),
            forall|row: int| !final(self).spec_contains_row(row),
    {
        self.dense.clear();
        self.entities.clear();
        self.sparse.clear();
    }

    /// Clamps every stored tick against the rollover horizon, leaving
    /// values, owners and back-pointers untouched.
    pub fn check_change_ticks(&mut self, check: CheckChangeTicks)
        requires
            old(self).wf(),
        ensures
            final(self).wf(),
            final(self).validates_identity() == old(self).validates_identity(),
            final(self).entities_seq() == old(self).entities_seq(),
            final(self).handles_seq() == old(self).handles_seq(),
            final(self).callers_seq() == old(self).callers_seq(),
            forall|row2: int| final(self).back(row2) == old(self).back(row2),
            final(self).added_seq().len() == old(self).added_seq().len(),
            final(self).changed_seq().len() == old(self).changed_seq().len(),
            forall|j: int|
                0 <= j < old(self).added_seq().len() ==> (#[trigger] final(self).added_seq()[j])
                    == old(self).added_seq()[j].spec_checked(check),
            forall|j: int|
                0 <= j < old(self).changed_seq().len() ==> (#[trigger] final(self).changed_seq()[j])
                    == old(self).changed_seq()[j].spec_checked(check),
    {
        self.dense.check_change_ticks(check);
    }

    /// The swap partner of a removal is owned by a different entity row
    /// than the removed one.
    proof fn lemma_distinct_rows_helper(&self, a: int, b: int, row: int)
        requires
            self.wf(),
            0 <= a < self.entities_seq().len(),
            0 <= b < self.entities_seq().len(),
            a != b,
            self.entities_seq()[a].spec_row_index() == row,
        ensures
            self.entities_seq()[b].spec_row_index() != row,
    {
        if self.entities_seq()[b].spec_row_index() == row {
            self.lemma_distinct_rows(a, b);
        }
    }

    /// Transfers well-formedness across an operation that left the owner
    /// list, the column and every back-pointer as they were.
    proof fn lemma_unchanged_wf(&self, pre: Self)
        requires
            pre.wf(),
            self.entities_seq() == pre.entities_seq(),
            self.handles_seq() == pre.handles_seq(),
            self.added_seq() == pre.added_seq(),
            self.changed_seq() == pre.changed_seq(),
            self.callers_seq() == pre.callers_seq(),
            forall|row: int| self.back(row) == pre.back(row),
            self.dense.wf(),
        ensures
            self.wf(),
            forall|row2: int|
                #![trigger self.back(row2)]
                #![trigger pre.back(row2)]
                self.spec_get_handle(row2) == pre.spec_get_handle(row2) && self.spec_get_ticks(
                    row2,
                ) == pre.spec_get_ticks(row2) && self.spec_get_caller(row2) == pre.spec_get_caller(
                    row2,
                ),
    {
        assert forall|j2: int|
            #![trigger self.entities@[j2]]
            0 <= j2 < self.entities@.len() implies self.sparse.spec_get(
            self.entities@[j2].spec_row_index(),
        ) == Some(j2 as u32) by {
            assert(pre.back(pre.entities_seq()[j2].spec_row_index()) == Some(j2 as u32));
        }
        assert forall|row2: int| (#[trigger] self.sparse.spec_get(row2)) is Some implies {
            &&& 0 <= (self.sparse.spec_get(row2)->0 as int) < self.entities@.len()
            &&& self.entities@[self.sparse.spec_get(row2)->0 as int].spec_row_index() == row2
        } by {
            assert(self.back(row2) == pre.back(row2));
        }
        assert forall|row2: int|
            #![trigger self.back(row2)]
            #![trigger pre.back(row2)]
            self.spec_get_handle(row2) == pre.spec_get_handle(row2) && self.spec_get_ticks(row2)
            == pre.spec_get_ticks(row2) && self.spec_get_caller(row2) == pre.spec_get_caller(
            row2,
        ) by {
            assert(self.back(row2) == pre.back(row2));
        }
    }

    /// Re-establishes well-formedness after the swap-remove of the entry
    /// for entity row `row` at dense position `j`, and shows every other
    /// entity row's observable state is preserved.
    proof fn lemma_remove_wf_restore(&self, pre: Self, row: int, j: int)
        requires
            pre.wf(),
            pre.back(row) == Some(j as u32),
            0 <= j < pre.entities_seq().len(),
            self.entities_seq() == pre.entities_seq().update(
                j,
                pre.entities_seq()[pre.entities_seq().len() - 1],
            ).drop_last(),
            self.handles_seq() == pre.handles_seq().update(
                j,
                pre.handles_seq()[pre.handles_seq().len() - 1],
            ).drop_last(),
            self.added_seq() == pre.added_seq().update(
                j,
                pre.added_seq()[pre.added_seq().len() - 1],
            ).drop_last(),
            self.changed_seq() == pre.changed_seq().update(
                j,
                pre.changed_seq()[pre.changed_seq().len() - 1],
            ).drop_last(),
            self.callers_seq() == pre.callers_seq().update(
                j,
                pre.callers_seq()[pre.callers_seq().len() - 1],
            ).drop_last(),
            self.dense.wf(),
            ({
                let last = pre.entities_seq().len() - 1;
                if j != last {
                    &&& self.back(pre.entities_seq()[last].spec_row_index()) == Some(j as u32)
                    &&& self.back(row) is None
                    &&& forall|row2: int|
                        row2 != row && row2 != pre.entities_seq()[last].spec_row_index()
                            ==> self.back(row2) == pre.back(row2)
                } else {
                    &&& self.back(row) is None
                    &&& forall|row2: int| row2 != row ==> self.back(row2) == pre.back(row2)
                }
            }),
        ensures
            self.wf(),
            !self.spec_contains_row(row),
            forall|row2: int|
                #![trigger self.back(row2)]
                #![trigger pre.back(row2)]
                row2 != row ==> self.spec_get_handle(row2) == pre.spec_get_handle(row2)
                    && self.spec_get_ticks(row2) == pre.spec_get_ticks(row2)
                    && self.spec_get_caller(row2) == pre.spec_get_caller(row2),
    {
        assert forall|row2: int| #![trigger self.sparse.spec_get(row2)] self.back(row2)
            == self.sparse.spec_get(row2) by {}
        let last = pre.entities_seq().len() - 1;
        let moved = pre.entities_seq()[last].spec_row_index();
        assert(pre.entities_seq()[j].spec_row_index() == row);
        if j != last {
            pre.lemma_distinct_rows_helper(j, last, row);
        }
        assert forall|j2: int|
            #![trigger self.entities_seq()[j2]]
            0 <= j2 < self.entities_seq().len() implies self.back(
            self.entities_seq()[j2].spec_row_index(),
        ) == Some(j2 as u32) by {
            if j2 == j {
                assert(self.entities_seq()[j2] == pre.entities_seq()[last]);
            } else {
                assert(self.entities_seq()[j2] == pre.entities_seq()[j2]);
                assert(pre.back(pre.entities_seq()[j2].spec_row_index()) == Some(j2 as u32));
                pre.lemma_distinct_rows_helper(j, j2, row);
                if j2 != last {
                    pre.lemma_distinct_rows_helper(last, j2, moved);
                }
            }
        }
        assert forall|row2: int| (#[trigger] self.back(row2)) is Some implies {
            &&& 0 <= (self.back(row2)->0 as int) < self.entities_seq().len()
            &&& self.entities_seq()[self.back(row2)->0 as int].spec_row_index() == row2
        } by {
            if j != last && row2 == moved {
                assert(self.back(row2) == Some(j as u32));
                assert(self.entities_seq()[j] == pre.entities_seq()[last]);
            } else {
                assert(row2 != row);
                assert(self.back(row2) == pre.back(row2));
                let j2 = pre.back(row2)->0 as int;
                assert(0 <= j2 < pre.entities_seq().len());
                assert(pre.entities_seq()[j2].spec_row_index() == row2);
                if j2 == j {
                    assert(row2 == row);
                } else if j2 == last {
                    assert(j != last);
                    assert(row2 == moved);
                } else {
                    assert(self.entities_seq()[j2] == pre.entities_seq()[j2]);
                }
            }
        }
        assert forall|row2: int|
            #![trigger self.back(row2)]
            #![trigger pre.back(row2)]
            row2 != row implies self.spec_get_handle(row2) == pre.spec_get_handle(row2)
            && self.spec_get_ticks(row2) == pre.spec_get_ticks(row2) && self.spec_get_caller(
            row2,
        ) == pre.spec_get_caller(row2) by {
            if self.back(row2) is Some || pre.back(row2) is Some {
                if j != last && row2 == moved {
                    assert(self.back(row2) == Some(j as u32));
                    assert(pre.back(row2) == Some(last as u32));
                } else {
                    assert(self.back(row2) == pre.back(row2));
                    let j2 = pre.back(row2)->0 as int;
                    assert(pre.entities_seq()[j2].spec_row_index() == row2);
                    if j2 == j {
                        assert(row2 == row);
                    } else if j2 == last {
                        assert(row2 == moved);
                        assert(j != last);
                    } else {
                        assert(self.handles_seq()[j2] == pre.handles_seq()[j2]);
                        assert(self.added_seq()[j2] == pre.added_seq()[j2]);
                        assert(self.changed_seq()[j2] == pre.changed_seq()[j2]);
                        assert(self.callers_seq()[j2] == pre.callers_seq()[j2]);
                    }
                }
            }
        }
    }
}

} // verus!
