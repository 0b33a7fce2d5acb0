use crate::index::SparseSetIndex;
use crate::sparse_array::{ImmutableSparseArray, SparseArray};
use vstd::prelude::*;

verus! {

/// A data structure that blends dense and sparse storage.
///
/// `I` is the type of the keys, while `V` is the type of data stored in the
/// dense storage. Three parallel structures are kept: `dense` holds the
/// values in insertion order, `indices` holds the key owning each dense
/// position, and `sparse` maps each key's integer projection back to the
/// dense position holding its value. Removal swaps the vacated position
/// with the tail, so no order is guaranteed to callers once a removal has
/// happened.
#[derive(Debug)]
pub struct SparseSet<I, V> {
    dense: Vec<V>,
    indices: Vec<I>,
    sparse: SparseArray<I, usize>,
}

/// A space-optimized version of [`SparseSet`] that cannot be changed after
/// construction.
#[derive(Debug)]
pub struct ImmutableSparseSet<I, V> {
    dense: Vec<V>,
    indices: Vec<I>,
    sparse: ImmutableSparseArray<I, usize>,
}

/// Relies on std's `Vec::capacity`: a vector can hold at least its current
/// length without reallocating.
#[verifier::external_body]
fn vec_capacity<T>(v: &Vec<T>) -> (r: usize)
    ensures
        v@.len() <= r as int,
{
    v.capacity()
}

impl<I: SparseSetIndex, V> SparseSet<I, V> {
    /// The dense sequence of stored values.
    pub closed spec fn values_seq(&self) -> Seq<V> {
        self.dense@
    }

    /// The sequence of keys, parallel to the values: `keys_seq()[j]` owns
    /// the value at dense position `j`.
    pub closed spec fn keys_seq(&self) -> Seq<I> {
        self.indices@
    }

    /// The back-pointer registered for projection `k`: the dense position
    /// holding that key's value, or absent.
    pub closed spec fn back(&self, k: int) -> Option<usize> {
        self.sparse.spec_get(k)
    }

    /// Structural well-formedness: the dense sequences stay in lockstep and
    /// the back-pointer table is exactly their inverse. See
    /// [`lemma_wf_shape`] for the shape this guarantees.
    pub closed spec fn wf(&self) -> bool {
        &&& self.dense@.len() <= usize::MAX
        &&& self.dense@.len() == self.indices@.len()
        &&& forall|j: int|
            #![trigger self.indices@[j]]
            0 <= j < self.indices@.len() ==> self.sparse.spec_get(self.indices@[j].index_spec())
                == Some(j as usize)
        &&& forall|k: int|
            (#[trigger] self.sparse.spec_get(k)) is Some ==> {
                &&& 0 <= (self.sparse.spec_get(k)->0 as int) < self.indices@.len()
                &&& self.indices@[self.sparse.spec_get(k)->0 as int].index_spec() == k
            }
    }

    /// Whether some key with projection `k` currently owns a value.
    #[verifier::inline]
    pub open spec fn spec_contains(&self, k: int) -> bool {
        self.back(k) is Some
    }

    /// The value observable at projection `k`, or absent.
    #[verifier::inline]
    pub open spec fn spec_get(&self, k: int) -> Option<V> {
        match self.back(k) {
            Some(j) => Some(self.values_seq()[j as int]),
            None => None,
        }
    }

    /// Law: well-formedness ties the three structures together. The dense
    /// value and key sequences always have equal length, every stored key's
    /// back-pointer names the position holding it, and every occupied
    /// back-pointer names a position owned by a key of that projection.
    pub proof fn lemma_wf_shape(&self)
        requires
            self.wf(),
        ensures
            self.values_seq().len() == self.keys_seq().len(),
            self.values_seq().len() <= usize::MAX,
            forall|j: int|
                #![trigger self.keys_seq()[j]]
                0 <= j < self.keys_seq().len() ==> self.back(self.keys_seq()[j].index_spec())
                    == Some(j as usize),
            forall|k: int|
                (#[trigger] self.back(k)) is Some ==> {
                    &&& 0 <= (self.back(k)->0 as int) < self.keys_seq().len()
                    &&& self.keys_seq()[self.back(k)->0 as int].index_spec() == k
                },
    {
    }

    /// Two dense positions holding keys of equal projection are the same
    /// position.
    proof fn lemma_distinct_positions(&self, a: int, b: int)
        requires
            self.wf(),
            0 <= a < self.keys_seq().len(),
            0 <= b < self.keys_seq().len(),
            self.keys_seq()[a].index_spec() == self.keys_seq()[b].index_spec(),
        ensures
            a == b,
    {
        assert(self.back(self.keys_seq()[a].index_spec()) == Some(a as usize));
        assert(self.back(self.keys_seq()[b].index_spec()) == Some(b as usize));
    }

    /// Creates a new, empty [`SparseSet`].
    pub fn new() -> (r: Self)
        ensures
            r.wf(),
            r.values_seq() == Seq::<V>::empty(),
            r.keys_seq() == Seq::<I>::empty(),
            forall|k: int| !r.spec_contains(k),
    {
        SparseSet { dense: Vec::new(), indices: Vec::new(), sparse: SparseArray::new() }
    }

    /// Creates a new [`SparseSet`] with a specified initial capacity.
    pub fn with_capacity(capacity: usize) -> (r: Self)
        ensures
            r.wf(),
            r.values_seq() == Seq::<V>::empty(),
            r.keys_seq() == Seq::<I>::empty(),
            forall|k: int| !r.spec_contains(k),
    {
        SparseSet {
            dense: Vec::with_capacity(capacity),
            indices: Vec::with_capacity(capacity),
            sparse: SparseArray::new(),
        }
    }

    /// Returns the total number of elements the set can hold without
    /// reallocating its dense storage.
    pub fn capacity(&self) -> (r: usize)
        ensures
            self.values_seq().len() <= r as int,
    {
        vec_capacity(&self.dense)
    }

    /// Returns the number of elements in the sparse set.
    pub fn len(&self) -> (r: usize)
        ensures
            r == self.values_seq().len(),
    {
        self.dense.len()
    }

    /// Returns `true` if the sparse set contains no elements.
    pub fn is_empty(&self) -> (r: bool)
        ensures
            r == (self.values_seq().len() == 0),
    {
        self.dense.len() == 0
    }

    /// Returns `true` if the sparse set contains a value for `index`.
    pub fn contains(&self, index: I) -> (r: bool)
        ensures
            r == self.spec_contains(index.index_spec()),
    {
        self.sparse.contains(index)
    }

    /// Returns a reference to the value for `index`.
    ///
    /// Returns `None` if `index` does not have a value in the sparse set.
    pub fn get(&self, index: I) -> (r: Option<&V>)
        requires
            self.wf(),
        ensures
            match r {
                Some(v) => self.spec_get(index.index_spec()) == Some(*v),
                None => !self.spec_contains(index.index_spec()),
            },
    {
        let k = index.sparse_set_index();
        match self.sparse.get_at(k) {
            Some(j) => {
                let j = *j;
                Some(&self.dense[j])
            },
            None => None,
        }
    }

    /// Returns a mutable reference to the value for `index`.
    ///
    /// Returns `None` if `index` does not have a value in the sparse set.
    pub fn get_mut(&mut self, index: I) -> (r: Option<&mut V>)
        requires
            old(self).wf(),
        ensures
            r is Some <==> old(self).spec_contains(index.index_spec()),
            r matches Some(v) ==> ({
                let j = old(self).back(index.index_spec())->0 as int;
                &&& old(self).spec_get(index.index_spec()) == Some(*v)
                &&& final(self).values_seq() == old(self).values_seq().update(j, *final(v))
            }),
            r is None ==> final(self).values_seq() == old(self).values_seq(),
            final(self).keys_seq() == old(self).keys_seq(),
            forall|k2: int| final(self).back(k2) == old(self).back(k2),
            final(self).wf(),
    {
        let k = index.sparse_set_index();
        let existing: Option<usize> = match self.sparse.get_at(k) {
            Some(j) => Some(*j),
            None => None,
        };
        match existing {
            Some(j) => Some(&mut self.dense[j]),
            None => None,
        }
    }

    /// Inserts `value` at `index`.
    ///
    /// If a value was already present at `index`, it is overwritten in its
    /// dense slot, without reordering anything; otherwise the value is
    /// appended at the tail and the key's back-pointer records that new
    /// position.
    pub fn insert(&mut self, index: I, value: V)
        requires
            old(self).wf(),
            index.index_spec() < usize::MAX as int,
            !old(self).spec_contains(index.index_spec()) ==> old(self).values_seq().len()
                < usize::MAX as int,
        ensures
            final(self).wf(),
            final(self).spec_get(index.index_spec()) == Some(value),
            forall|k2: int|
                #![trigger final(self).back(k2)]
                #![trigger old(self).back(k2)]
                k2 != index.index_spec() ==> final(self).spec_get(k2) == old(self).spec_get(k2),
            old(self).spec_contains(index.index_spec()) ==> ({
                let j = old(self).back(index.index_spec())->0 as int;
                &&& final(self).values_seq() == old(self).values_seq().update(j, value)
                &&& final(self).keys_seq() == old(self).keys_seq()
                &&& forall|k2: int| final(self).back(k2) == old(self).back(k2)
            }),
            !old(self).spec_contains(index.index_spec()) ==> ({
                &&& final(self).values_seq() == old(self).values_seq().push(value)
                &&& final(self).keys_seq() == old(self).keys_seq().push(index)
                &&& final(self).back(index.index_spec()) == Some(
                    old(self).values_seq().len() as usize,
                )
                &&& forall|k2: int|
                    k2 != index.index_spec() ==> final(self).back(k2) == old(self).back(k2)
            }),
    {
        let k = index.sparse_set_index();
        let existing: Option<usize> = match self.sparse.get_at(k) {
            Some(j) => Some(*j),
            None => None,
        };
        match existing {
            Some(j) => {
                proof {
                    assert(old(self).back(k as int) == Some(j));
                }
                self.dense[j] = value;
                proof {
                    assert forall|k2: int|
                        #![trigger self.back(k2)]
                        #![trigger old(self).back(k2)]
                        k2 != index.index_spec() implies self.spec_get(k2) == old(self).spec_get(
                        k2,
                    ) by {
                        if old(self).back(k2) is Some {
                            let j2 = old(self).back(k2)->0 as int;
                            assert(old(self).keys_seq()[j2].index_spec() == k2);
                            assert(old(self).keys_seq()[j as int].index_spec() == k as int);
                        }
                    }
                    assert forall|j2: int|
                        #![trigger self.keys_seq()[j2]]
                        0 <= j2 < self.keys_seq().len() implies self.back(
                        self.keys_seq()[j2].index_spec(),
                    ) == Some(j2 as usize) by {
                        assert(old(self).back(old(self).keys_seq()[j2].index_spec()) == Some(
                            j2 as usize,
                        ));
                    }
                    assert forall|k2: int| (#[trigger] self.back(k2)) is Some implies {
                        &&& 0 <= (self.back(k2)->0 as int) < self.keys_seq().len()
                        &&& self.keys_seq()[self.back(k2)->0 as int].index_spec() == k2
                    } by {
                        assert(self.back(k2) == old(self).back(k2));
                    }
                    assert(self.wf());
                }
            },
            None => {
                let j = self.dense.len();
                self.sparse.insert_at(k, j);
                self.indices.push(index);
                self.dense.push(value);
                proof {
                    assert forall|j2: int|
                        #![trigger self.keys_seq()[j2]]
                        0 <= j2 < self.keys_seq().len() implies self.back(
                        self.keys_seq()[j2].index_spec(),
                    ) == Some(j2 as usize) by {
                        if j2 < old(self).keys_seq().len() {
                            assert(self.keys_seq()[j2] == old(self).keys_seq()[j2]);
                            assert(old(self).back(old(self).keys_seq()[j2].index_spec()) == Some(
                                j2 as usize,
                            ));
                        }
                    }
                    assert forall|k2: int|
                        #![trigger self.back(k2)]
                        #![trigger old(self).back(k2)]
                        k2 != index.index_spec() implies self.spec_get(k2) == old(self).spec_get(
                        k2,
                    ) by {
                        if old(self).back(k2) is Some {
                            let j2 = old(self).back(k2)->0 as int;
                            assert(0 <= j2 < old(self).keys_seq().len());
                        }
                    }
                    assert forall|k2: int| (#[trigger] self.back(k2)) is Some implies {
                        &&& 0 <= (self.back(k2)->0 as int) < self.keys_seq().len()
                        &&& self.keys_seq()[self.back(k2)->0 as int].index_spec() == k2
                    } by {
                        if k2 == index.index_spec() {
                            assert(self.back(k2) == Some(j));
                            assert(self.keys_seq()[j as int] == index);
                        } else {
                            assert(self.back(k2) == old(self).back(k2));
                            let j2 = self.back(k2)->0 as int;
                            assert(0 <= j2 < old(self).keys_seq().len());
                            assert(self.keys_seq()[j2] == old(self).keys_seq()[j2]);
                        }
                    }
                    assert(self.wf());
                }
            },
        }
    }

    /// Returns a mutable reference to the value for `index`, inserting one
    /// computed from `func` if not already present.
    pub fn get_or_insert_with<F: FnOnce() -> V>(&mut self, index: I, func: F) -> (r: &mut V)
        requires
            old(self).wf(),
            !old(self).spec_contains(index.index_spec()) ==> ({
                &&& index.index_spec() < usize::MAX as int
                &&& old(self).values_seq().len() < usize::MAX as int
                &&& func.requires(())
            }),
        ensures
            final(self).wf(),
            final(self).keys_seq() == if old(self).spec_contains(index.index_spec()) {
                old(self).keys_seq()
            } else {
                old(self).keys_seq().push(index)
            },
            old(self).spec_contains(index.index_spec()) ==> ({
                let j = old(self).back(index.index_spec())->0 as int;
                &&& *r == old(self).values_seq()[j]
                &&& final(self).values_seq() == old(self).values_seq().update(j, *final(r))
                &&& forall|k2: int| final(self).back(k2) == old(self).back(k2)
            }),
            !old(self).spec_contains(index.index_spec()) ==> ({
                &&& func.ensures((), *r)
                &&& final(self).values_seq() == old(self).values_seq().push(*final(r))
                &&& final(self).back(index.index_spec()) == Some(
                    old(self).values_seq().len() as usize,
                )
                &&& forall|k2: int|
                    k2 != index.index_spec() ==> final(self).back(k2) == old(self).back(k2)
            }),
    {
        let k = index.sparse_set_index();
        let existing: Option<usize> = match self.sparse.get_at(k) {
            Some(j) => Some(*j),
            None => None,
        };
        match existing {
            Some(j) => &mut self.dense[j],
            None => {
                let value = func();
                let j = self.dense.len();
                self.sparse.insert_at(k, j);
                self.indices.push(index);
                self.dense.push(value);
                proof {
                    assert forall|j2: int|
                        #![trigger self.keys_seq()[j2]]
                        0 <= j2 < self.keys_seq().len() implies self.back(
                        self.keys_seq()[j2].index_spec(),
                    ) == Some(j2 as usize) by {
                        if j2 < old(self).keys_seq().len() {
                            assert(self.keys_seq()[j2] == old(self).keys_seq()[j2]);
                            assert(old(self).back(old(self).keys_seq()[j2].index_spec()) == Some(
                                j2 as usize,
                            ));
                        }
                    }
                    assert forall|x: V| self.dense@.update(j as int, x) =~= old(
                        self,
                    ).dense@.push(x) by {}
                }
                &mut self.dense[j]
            },
        }
    }

    /// Removes and returns the value for `index`.
    ///
    /// Returns `None` if `index` does not have a value in the sparse set.
    /// When a value is removed from a non-tail position, the tail entry is
    /// swapped into the vacated position and its back-pointer is fixed up
    /// to match.
    pub fn remove(&mut self, index: I) -> (r: Option<V>)
        requires
            old(self).wf(),
        ensures
            final(self).wf(),
            r == old(self).spec_get(index.index_spec()),
            !final(self).spec_contains(index.index_spec()),
            forall|k2: int|
                #![trigger final(self).back(k2)]
                #![trigger old(self).back(k2)]
                k2 != index.index_spec() ==> final(self).spec_get(k2) == old(self).spec_get(k2),
            !old(self).spec_contains(index.index_spec()) ==> ({
                &&& final(self).values_seq() == old(self).values_seq()
                &&& final(self).keys_seq() == old(self).keys_seq()
                &&& forall|k2: int| final(self).back(k2) == old(self).back(k2)
            }),
            old(self).spec_contains(index.index_spec()) ==> ({
                let j = old(self).back(index.index_spec())->0 as int;
                let last = old(self).values_seq().len() - 1;
                &&& final(self).values_seq() == old(self).values_seq().update(
                    j,
                    old(self).values_seq()[last],
                ).drop_last()
                &&& final(self).keys_seq() == old(self).keys_seq().update(
                    j,
                    old(self).keys_seq()[last],
                ).drop_last()
                &&& (j != last ==> final(self).back(old(self).keys_seq()[last].index_spec())
                    == Some(j as usize))
                &&& forall|k2: int|
                    k2 != index.index_spec() && k2 != old(self).keys_seq()[last].index_spec()
                        ==> final(self).back(k2) == old(self).back(k2)
            }),
    {
        let k = index.sparse_set_index();
        match self.sparse.remove_at(k) {
            Some(j) => {
                proof {
                    assert(old(self).back(k as int) == Some(j));
                }
                let last = self.dense.len() - 1;
                let value = self.dense.swap_remove(j);
                self.indices.swap_remove(j);
                if j != last {
                    let moved = self.indices[j].sparse_set_index();
                    proof {
                        assert(old(self).keys_seq()[last as int].index_spec() == moved as int);
                        old(self).lemma_distinct_positions_helper(j as int, last as int, k as int);
                    }
                    match self.sparse.get_mut_at(moved) {
                        Some(p) => {
                            *p = j;
                        },
                        None => {
                            // the swapped owner's back-pointer is present
                            // by well-formedness
                            proof {
                                assert(false);
                            }
                        },
                    }
                }
                proof {
                    self.lemma_remove_wf_restore(*old(self), k as int, j as int);
                }
                Some(value)
            },
            None => {
                proof {
                    assert forall|j2: int|
                        #![trigger self.keys_seq()[j2]]
                        0 <= j2 < self.keys_seq().len() implies self.back(
                        self.keys_seq()[j2].index_spec(),
                    ) == Some(j2 as usize) by {
                        assert(old(self).back(old(self).keys_seq()[j2].index_spec()) == Some(
                            j2 as usize,
                        ));
                    }
                    assert forall|k2: int| (#[trigger] self.back(k2)) is Some implies {
                        &&& 0 <= (self.back(k2)->0 as int) < self.keys_seq().len()
                        &&& self.keys_seq()[self.back(k2)->0 as int].index_spec() == k2
                    } by {
                        assert(self.back(k2) == old(self).back(k2));
                    }
                    assert(self.wf());
                }
                None
            },
        }
    }

    /// Clears all of the elements from the sparse set.
    pub fn clear(&mut self)
        ensures
            final(self).wf(),
            final(self).values_seq() == Seq::<V>::empty(),
            final(self).keys_seq() == Seq::<I>::empty(),
            forall|k: int| !final(self).spec_contains(k),
    {
        self.dense.clear();
        self.indices.clear();
        self.sparse.clear();
    }

    /// Returns a reference to the dense values, in arbitrary order: the
    /// order changes across removals and is no guarantee to callers.
    pub fn values(&self) -> (r: &Vec<V>)
        ensures
            r@ == self.values_seq(),
    {
        &self.dense
    }

    /// Returns a reference to the stored keys, in arbitrary order, parallel
    /// to [`Self::values`].
    pub fn indices(&self) -> (r: &Vec<I>)
        ensures
            r@ == self.keys_seq(),
    {
        &self.indices
    }

    /// A reference to the key at dense position `j`.
    pub fn key_at(&self, j: usize) -> (r: &I)
        requires
            j < self.keys_seq().len(),
        ensures
            *r == self.keys_seq()[j as int],
    {
        &self.indices[j]
    }

    /// A reference to the value at dense position `j`.
    pub fn value_at(&self, j: usize) -> (r: &V)
        requires
            j < self.values_seq().len(),
        ensures
            *r == self.values_seq()[j as int],
    {
        &self.dense[j]
    }

    /// A mutable reference to the value at dense position `j`; keys and
    /// back-pointers are untouched.
    pub fn value_mut_at(&mut self, j: usize) -> (r: &mut V)
        requires
            old(self).wf(),
            j < old(self).values_seq().len(),
        ensures
            *r == old(self).values_seq()[j as int],
            final(self).values_seq() == old(self).values_seq().update(j as int, *final(r)),
            final(self).keys_seq() == old(self).keys_seq(),
            forall|k2: int| final(self).back(k2) == old(self).back(k2),
            final(self).wf(),
    {
        &mut self.dense[j]
    }

    /// Converts the sparse set into its immutable variant, preserving every
    /// key, value and back-pointer.
    pub fn into_immutable(self) -> (r: ImmutableSparseSet<I, V>)
        ensures
            r.values_seq() == self.values_seq(),
            r.keys_seq() == self.keys_seq(),
            forall|k: int| #![trigger r.back(k)] r.back(k) == self.back(k),
            forall|k: int| #![trigger r.back(k)] r.spec_get(k) == self.spec_get(k),
            self.wf() ==> r.wf(),
    {
        let ghost pre = self;
        let r = ImmutableSparseSet {
            dense: self.dense,
            indices: self.indices,
            sparse: self.sparse.into_immutable(),
        };
        proof {
            assert forall|k2: int| #![trigger r.sparse.spec_get(k2)] r.back(k2)
                == r.sparse.spec_get(k2) by {}
            if pre.wf() {
                assert forall|j2: int|
                    #![trigger r.keys_seq()[j2]]
                    0 <= j2 < r.keys_seq().len() implies r.back(r.keys_seq()[j2].index_spec())
                    == Some(j2 as usize) by {
                    assert(pre.back(pre.keys_seq()[j2].index_spec()) == Some(j2 as usize));
                }
                assert forall|k2: int| (#[trigger] r.back(k2)) is Some implies {
                    &&& 0 <= (r.back(k2)->0 as int) < r.keys_seq().len()
                    &&& r.keys_seq()[r.back(k2)->0 as int].index_spec() == k2
                } by {
                    assert(r.back(k2) == pre.back(k2));
                }
                assert(r.wf());
            }
        }
        r
    }

    /// The swap partner of a removal holds a key distinct in projection
    /// from the removed one.
    proof fn lemma_distinct_positions_helper(&self, a: int, b: int, k: int)
        requires
            self.wf(),
            0 <= a < self.keys_seq().len(),
            0 <= b < self.keys_seq().len(),
            a != b,
            self.keys_seq()[a].index_spec() == k,
        ensures
            self.keys_seq()[b].index_spec() != k,
    {
        if self.keys_seq()[b].index_spec() == k {
            self.lemma_distinct_positions(a, b);
        }
    }

    /// Re-establishes well-formedness after the swap-remove of the entry
    /// for projection `k` at dense position `j`.
    proof fn lemma_remove_wf_restore(&self, pre: Self, k: int, j: int)
        requires
            pre.wf(),
            pre.back(k) == Some(j as usize),
            0 <= j < pre.keys_seq().len(),
            self.values_seq() == pre.values_seq().update(
                j,
                pre.values_seq()[pre.values_seq().len() - 1],
            ).drop_last(),
            self.keys_seq() == pre.keys_seq().update(
                j,
                pre.keys_seq()[pre.keys_seq().len() - 1],
            ).drop_last(),
            ({
                let last = pre.keys_seq().len() - 1;
                if j != last {
                    &&& self.back(pre.keys_seq()[last].index_spec()) == Some(j as usize)
                    &&& self.back(k) is None
                    &&& forall|k2: int|
                        k2 != k && k2 != pre.keys_seq()[last].index_spec() ==> self.back(k2)
                            == pre.back(k2)
                } else {
                    &&& self.back(k) is None
                    &&& forall|k2: int| k2 != k ==> self.back(k2) == pre.back(k2)
                }
            }),
        ensures
            self.wf(),
            !self.spec_contains(k),
            forall|k2: int|
                #![trigger self.back(k2)]
                #![trigger pre.back(k2)]
                k2 != k ==> self.spec_get(k2) == pre.spec_get(k2),
    {
        assert forall|k2: int| #![trigger self.sparse.spec_get(k2)] self.back(k2)
            == self.sparse.spec_get(k2) by {}
        let last = pre.keys_seq().len() - 1;
        let moved = pre.keys_seq()[last].index_spec();
        assert(pre.keys_seq()[j].index_spec() == k);
        if j != last {
            pre.lemma_distinct_positions_helper(j, last, k);
        }
        assert forall|j2: int|
            #![trigger self.keys_seq()[j2]]
            0 <= j2 < self.keys_seq().len() implies self.back(self.keys_seq()[j2].index_spec())
            == Some(j2 as usize) by {
            if j2 == j {
                // position j now holds the moved tail key (or is gone when
                // j was the tail itself, in which case j2 < len rules it out)
                assert(self.keys_seq()[j2] == pre.keys_seq()[last]);
            } else {
                assert(self.keys_seq()[j2] == pre.keys_seq()[j2]);
                assert(pre.back(pre.keys_seq()[j2].index_spec()) == Some(j2 as usize));
                pre.lemma_distinct_positions_helper(j, j2, k);
                if j2 != last {
                    pre.lemma_distinct_positions_helper(last, j2, moved);
                }
            }
        }
        assert forall|k2: int| (#[trigger] self.back(k2)) is Some implies {
            &&& 0 <= (self.back(k2)->0 as int) < self.keys_seq().len()
            &&& self.keys_seq()[self.back(k2)->0 as int].index_spec() == k2
        } by {
            if j != last && k2 == moved {
                assert(self.back(k2) == Some(j as usize));
                assert(self.keys_seq()[j] == pre.keys_seq()[last]);
            } else {
                assert(k2 != k);
                assert(self.back(k2) == pre.back(k2));
                let j2 = pre.back(k2)->0 as int;
                assert(0 <= j2 < pre.keys_seq().len());
                assert(pre.keys_seq()[j2].index_spec() == k2);
                if j2 == j {
                    assert(k2 == k);
                } else if j2 == last {
                    assert(j != last);
                    assert(k2 == moved);
                } else {
                    assert(self.keys_seq()[j2] == pre.keys_seq()[j2]);
                }
            }
        }
        assert forall|k2: int|
            #![trigger self.back(k2)]
            #![trigger pre.back(k2)]
            k2 != k implies self.spec_get(k2) == pre.spec_get(k2) by {
            if self.back(k2) is Some || pre.back(k2) is Some {
                if j != last && k2 == moved {
                    assert(self.back(k2) == Some(j as usize));
                    assert(pre.back(k2) == Some(last as usize));
                    assert(self.values_seq()[j] == pre.values_seq()[last]);
                } else {
                    assert(self.back(k2) == pre.back(k2));
                    let j2 = pre.back(k2)->0 as int;
                    assert(pre.keys_seq()[j2].index_spec() == k2);
                    if j2 == j {
                        assert(k2 == k);
                    } else if j2 == last {
                        assert(k2 == moved);
                        assert(j != last);
                    } else {
                        assert(self.values_seq()[j2] == pre.values_seq()[j2]);
                    }
                }
            }
        }
    }
}

impl<I: SparseSetIndex, V> ImmutableSparseSet<I, V> {
    /// The dense sequence of stored values.
    pub closed spec fn values_seq(&self) -> Seq<V> {
        self.dense@
    }

    /// The sequence of keys, parallel to the values.
    pub closed spec fn keys_seq(&self) -> Seq<I> {
        self.indices@
    }

    /// The back-pointer registered for projection `k`.
    pub closed spec fn back(&self, k: int) -> Option<usize> {
        self.sparse.spec_get(k)
    }

    /// Structural well-formedness, as for [`SparseSet`].
    pub closed spec fn wf(&self) -> bool {
        &&& self.dense@.len() <= usize::MAX
        &&& self.dense@.len() == self.indices@.len()
        &&& forall|j: int|
            #![trigger self.indices@[j]]
            0 <= j < self.indices@.len() ==> self.sparse.spec_get(self.indices@[j].index_spec())
                == Some(j as usize)
        &&& forall|k: int|
            (#[trigger] self.sparse.spec_get(k)) is Some ==> {
                &&& 0 <= (self.sparse.spec_get(k)->0 as int) < self.indices@.len()
                &&& self.indices@[self.sparse.spec_get(k)->0 as int].index_spec() == k
            }
    }

    /// Whether some key with projection `k` currently owns a value.
    #[verifier::inline]
    pub open spec fn spec_contains(&self, k: int) -> bool {
        self.back(k) is Some
    }

    /// The value observable at projection `k`, or absent.
    #[verifier::inline]
    pub open spec fn spec_get(&self, k: int) -> Option<V> {
        match self.back(k) {
            Some(j) => Some(self.values_seq()[j as int]),
            None => None,
        }
    }

    /// Returns the number of elements in the sparse set.
    pub fn len(&self) -> (r: usize)
        ensures
            r == self.values_seq().len(),
    {
        self.dense.len()
    }

    /// Returns `true` if the sparse set contains a value for `index`.
    pub fn contains(&self, index: I) -> (r: bool)
        ensures
            r == self.spec_contains(index.index_spec()),
    {
        self.sparse.contains(index)
    }

    /// Returns a reference to the value for `index`.
    ///
    /// Returns `None` if `index` does not have a value in the sparse set.
    pub fn get(&self, index: I) -> (r: Option<&V>)
        requires
            self.wf(),
        ensures
            match r {
                Some(v) => self.spec_get(index.index_spec()) == Some(*v),
                None => !self.spec_contains(index.index_spec()),
            },
    {
        match self.sparse.get(index) {
            Some(j) => {
                let j = *j;
                Some(&self.dense[j])
            },
            None => None,
        }
    }

    /// Returns a mutable reference to the value for `index`; the set's
    /// keys and back-pointers cannot change, only the value in place.
    ///
    /// Returns `None` if `index` does not have a value in the sparse set.
    pub fn get_mut(&mut self, index: I) -> (r: Option<&mut V>)
        requires
            old(self).wf(),
        ensures
            r is Some <==> old(self).spec_contains(index.index_spec()),
            r matches Some(v) ==> ({
                let j = old(self).back(index.index_spec())->0 as int;
                &&& old(self).spec_get(index.index_spec()) == Some(*v)
                &&& final(self).values_seq() == old(self).values_seq().update(j, *final(v))
            }),
            r is None ==> final(self).values_seq() == old(self).values_seq(),
            final(self).keys_seq() == old(self).keys_seq(),
            forall|k2: int| final(self).back(k2) == old(self).back(k2),
            final(self).wf(),
    {
        let existing: Option<usize> = match self.sparse.get(index) {
            Some(j) => Some(*j),
            None => None,
        };
        match existing {
            Some(j) => Some(&mut self.dense[j]),
            None => None,
        }
    }

    /// Returns a reference to the dense values, in arbitrary order.
    pub fn values(&self) -> (r: &Vec<V>)
        ensures
            r@ == self.values_seq(),
    {
        &self.dense
    }

    /// Returns a reference to the stored keys, in arbitrary order, parallel
    /// to [`Self::values`].
    pub fn indices(&self) -> (r: &Vec<I>)
        ensures
            r@ == self.keys_seq(),
    {
        &self.indices
    }
}

impl<I: SparseSetIndex, V> Default for SparseSet<I, V> {
    /// An empty set.
    fn default() -> (r: Self)
        ensures
            r.wf(),
            r.values_seq() == Seq::<V>::empty(),
            r.keys_seq() == Seq::<I>::empty(),
            forall|k: int| !r.spec_contains(k),
    {
        SparseSet::new()
    }
}

/// Law: inserting at a key already present overwrites its value in place.
/// The dense length is unchanged, the key order is untouched, and every
/// other key still observes its previous value.
pub proof fn lemma_insert_existing_keeps_order<I: SparseSetIndex, V>(
    pre: SparseSet<I, V>,
    post: SparseSet<I, V>,
    key: I,
    value: V,
)
    requires
        pre.wf(),
        pre.spec_contains(key.index_spec()),
        // the final state `insert` promises for a present key
        post.values_seq() == pre.values_seq().update(pre.back(key.index_spec())->0 as int, value),
        post.keys_seq() == pre.keys_seq(),
        forall|k2: int| post.back(k2) == pre.back(k2),
    ensures
        post.values_seq().len() == pre.values_seq().len(),
        post.keys_seq() == pre.keys_seq(),
        post.spec_get(key.index_spec()) == Some(value),
        forall|k2: int|
            #![trigger post.back(k2)]
            #![trigger pre.back(k2)]
            k2 != key.index_spec() ==> post.spec_get(k2) == pre.spec_get(k2),
{
    pre.lemma_wf_shape();
    let k = key.index_spec();
    let j = pre.back(k)->0 as int;
    assert forall|k2: int|
        #![trigger post.back(k2)]
        #![trigger pre.back(k2)]
        k2 != k implies post.spec_get(k2) == pre.spec_get(k2) by {
        if pre.back(k2) is Some {
            let j2 = pre.back(k2)->0 as int;
            assert(pre.keys_seq()[j2].index_spec() == k2);
            assert(pre.keys_seq()[j].index_spec() == k);
        }
    }
}

/// Law: removing a non-tail entry keeps the displaced tail entry
/// reachable. After the swap, the key that owned the tail value observes
/// that same value at its new dense position.
pub proof fn lemma_remove_preserves_displaced<I: SparseSetIndex, V>(
    pre: SparseSet<I, V>,
    post: SparseSet<I, V>,
    key: I,
)
    requires
        pre.wf(),
        pre.spec_contains(key.index_spec()),
        pre.back(key.index_spec())->0 as int != pre.values_seq().len() - 1,
        // the final state `remove` promises for a present, non-tail key
        post.values_seq() == pre.values_seq().update(
            pre.back(key.index_spec())->0 as int,
            pre.values_seq()[pre.values_seq().len() - 1],
        ).drop_last(),
        post.back(pre.keys_seq()[pre.keys_seq().len() - 1].index_spec()) == Some(
            pre.back(key.index_spec())->0,
        ),
    ensures
        post.spec_get(pre.keys_seq()[pre.keys_seq().len() - 1].index_spec()) == Some(
            pre.values_seq()[pre.values_seq().len() - 1],
        ),
{
    pre.lemma_wf_shape();
    let k = key.index_spec();
    let j = pre.back(k)->0 as int;
    assert(0 <= j < pre.keys_seq().len());
}

/// Law: removing the entry stored at the tail position needs no
/// back-pointer fixup. There is no swap partner: the tail is dropped, and
/// every other key's back-pointer and observable value are exactly as they
/// were.
pub proof fn lemma_remove_last_touches_no_other<I: SparseSetIndex, V>(
    pre: SparseSet<I, V>,
    post: SparseSet<I, V>,
    key: I,
)
    requires
        pre.wf(),
        pre.spec_contains(key.index_spec()),
        pre.back(key.index_spec())->0 as int == pre.values_seq().len() - 1,
        // the final state `remove` promises for a present key
        post.values_seq() == pre.values_seq().update(
            pre.back(key.index_spec())->0 as int,
            pre.values_seq()[pre.values_seq().len() - 1],
        ).drop_last(),
        post.keys_seq() == pre.keys_seq().update(
            pre.back(key.index_spec())->0 as int,
            pre.keys_seq()[pre.keys_seq().len() - 1],
        ).drop_last(),
        !post.spec_contains(key.index_spec()),
        forall|k2: int|
            k2 != key.index_spec() && k2 != pre.keys_seq()[pre.keys_seq().len()
                - 1].index_spec() ==> post.back(k2) == pre.back(k2),
    ensures
        post.values_seq() == pre.values_seq().drop_last(),
        post.keys_seq() == pre.keys_seq().drop_last(),
        forall|k2: int| k2 != key.index_spec() ==> post.back(k2) == pre.back(k2),
        forall|k2: int|
            #![trigger post.back(k2)]
            #![trigger pre.back(k2)]
            k2 != key.index_spec() ==> post.spec_get(k2) == pre.spec_get(k2),
{
    pre.lemma_wf_shape();
    let k = key.index_spec();
    let last = pre.values_seq().len() - 1;
    // the tail key is the removed key itself, so no other key is excepted
    assert(pre.keys_seq()[last].index_spec() == k);
    assert(pre.values_seq().update(last, pre.values_seq()[last]) =~= pre.values_seq());
    assert(pre.keys_seq().update(last, pre.keys_seq()[last]) =~= pre.keys_seq());
    assert forall|k2: int|
        #![trigger post.back(k2)]
        #![trigger pre.back(k2)]
        k2 != k implies post.spec_get(k2) == pre.spec_get(k2) by {
        if pre.back(k2) is Some {
            let j2 = pre.back(k2)->0 as int;
            assert(pre.keys_seq()[j2].index_spec() == k2);
            assert(post.values_seq()[j2] == pre.values_seq()[j2]);
        }
    }
}

/// Law: a full round trip. Inserting a value under a key makes it the one
/// observable value for that key; the matching remove returns exactly that
/// value; and afterwards the key is absent, so lookups yield nothing and
/// containment is false.
pub proof fn lemma_round_trip<I: SparseSetIndex, V>(
    s1: SparseSet<I, V>,
    s2: SparseSet<I, V>,
    key: I,
    value: V,
    removed: Option<V>,
)
    requires
        // s1 is any state just after `insert(key, value)`:
        s1.spec_get(key.index_spec()) == Some(value),
        // s2 is s1 after `remove(key)`, which returned `removed`:
        removed == s1.spec_get(key.index_spec()),
        !s2.spec_contains(key.index_spec()),
    ensures
        removed == Some(value),
        s2.spec_get(key.index_spec()) is None,
{
}

} // verus!
