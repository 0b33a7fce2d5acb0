use crate::tick::{CheckChangeTicks, ComponentTicks, Tick};
use vstd::prelude::*;

verus! {

/// A handle standing for one type-erased component value whose bytes live
/// in externally owned memory. The storage layers only route handles: they
/// never own, read or destruct the bytes, whose lifetime is governed by
/// the external column collaborator's contract.
#[derive(Clone, Copy, Debug, PartialEq, Eq, Hash, Structural)]
pub struct RawHandle {
    pub id: u64,
}

/// The dense column a slot store routes into: one row per stored value,
/// co-locating the value's handle, its added and changed ticks, and the
/// provenance of its last write (a caller identifier).
///
/// Rows are addressed by dense position and reclaimed by swap-removal.
#[derive(Debug)]
pub struct Column {
    data: Vec<RawHandle>,
    added_ticks: Vec<Tick>,
    changed_ticks: Vec<Tick>,
    changed_by: Vec<u64>,
}

impl Column {
    /// The handles stored per row.
    pub closed spec fn data_seq(&self) -> Seq<RawHandle> {
        self.data@
    }

    /// The per-row "added" ticks.
    pub closed spec fn added_seq(&self) -> Seq<Tick> {
        self.added_ticks@
    }

    /// The per-row "changed" ticks.
    pub closed spec fn changed_seq(&self) -> Seq<Tick> {
        self.changed_ticks@
    }

    /// The per-row provenance of the last write.
    pub closed spec fn callers_seq(&self) -> Seq<u64> {
        self.changed_by@
    }

    /// The four row-parallel sequences stay in lockstep.
    pub open spec fn wf(&self) -> bool {
        &&& self.data_seq().len() <= usize::MAX
        &&& self.data_seq().len() == self.added_seq().len()
        &&& self.data_seq().len() == self.changed_seq().len()
        &&& self.data_seq().len() == self.callers_seq().len()
    }

    /// Creates an empty column with room for `capacity` rows.
    pub fn with_capacity(capacity: usize) -> (r: Self)
        ensures
            r.wf(),
            r.data_seq() == Seq::<RawHandle>::empty(),
            r.added_seq() == Seq::<Tick>::empty(),
            r.changed_seq() == Seq::<Tick>::empty(),
            r.callers_seq() == Seq::<u64>::empty(),
    {
        Column {
            data: Vec::with_capacity(capacity),
            added_ticks: Vec::with_capacity(capacity),
            changed_ticks: Vec::with_capacity(capacity),
            changed_by: Vec::with_capacity(capacity),
        }
    }

    /// The number of rows.
    pub fn len(&self) -> (r: usize)
        requires
            self.wf(),
        ensures
            r == self.data_seq().len(),
    {
        self.data.len()
    }

    /// Whether the column holds no rows.
    pub fn is_empty(&self) -> (r: bool)
        requires
            self.wf(),
        ensures
            r == (self.data_seq().len() == 0),
    {
        self.data.len() == 0
    }

    /// Appends a row holding `data`, with both of its ticks taken from
    /// `ticks` and its provenance from `caller`.
    pub fn push(&mut self, data: RawHandle, ticks: ComponentTicks, caller: u64)
        requires
            old(self).wf(),
            old(self).data_seq().len() < usize::MAX,
        ensures
            final(self).wf(),
            final(self).data_seq() == old(self).data_seq().push(data),
            final(self).added_seq() == old(self).added_seq().push(ticks.added),
            final(self).changed_seq() == old(self).changed_seq().push(ticks.changed),
            final(self).callers_seq() == old(self).callers_seq().push(caller),
    {
        self.data.push(data);
        self.added_ticks.push(ticks.added);
        self.changed_ticks.push(ticks.changed);
        self.changed_by.push(caller);
    }

    /// Overwrites the value at `row` in place, refreshing only its
    /// "changed" tick and provenance: the "added" tick is untouched.
    pub fn replace(&mut self, row: usize, data: RawHandle, change_tick: Tick, caller: u64)
        requires
            old(self).wf(),
            row < old(self).data_seq().len(),
        ensures
            final(self).wf(),
            final(self).data_seq() == old(self).data_seq().update(row as int, data),
            final(self).added_seq() == old(self).added_seq(),
            final(self).changed_seq() == old(self).changed_seq().update(row as int, change_tick),
            final(self).callers_seq() == old(self).callers_seq().update(row as int, caller),
    {
        self.data[row] = data;
        self.changed_ticks[row] = change_tick;
        self.changed_by[row] = caller;
    }

    /// The handle stored at `row`.
    pub fn get_data(&self, row: usize) -> (r: RawHandle)
        requires
            self.wf(),
            row < self.data_seq().len(),
        ensures
            r == self.data_seq()[row as int],
    {
        self.data[row]
    }

    /// The "added" tick of `row`.
    pub fn get_added_tick(&self, row: usize) -> (r: Tick)
        requires
            self.wf(),
            row < self.data_seq().len(),
        ensures
            r == self.added_seq()[row as int],
    {
        self.added_ticks[row]
    }

    /// The "changed" tick of `row`.
    pub fn get_changed_tick(&self, row: usize) -> (r: Tick)
        requires
            self.wf(),
            row < self.data_seq().len(),
        ensures
            r == self.changed_seq()[row as int],
    {
        self.changed_ticks[row]
    }

    /// Both ticks of `row`.
    pub fn get_ticks(&self, row: usize) -> (r: ComponentTicks)
        requires
            self.wf(),
            row < self.data_seq().len(),
        ensures
            r.added == self.added_seq()[row as int],
            r.changed == self.changed_seq()[row as int],
    {
        ComponentTicks { added: self.added_ticks[row], changed: self.changed_ticks[row] }
    }

    /// The provenance of the last write to `row`.
    pub fn get_changed_by(&self, row: usize) -> (r: u64)
        requires
            self.wf(),
            row < self.data_seq().len(),
        ensures
            r == self.callers_seq()[row as int],
    {
        self.changed_by[row]
    }

    /// Removes `row` by swapping the tail row into its place, handing the
    /// removed value's handle (and its ticks and provenance) back to the
    /// caller, who becomes responsible for the value's disposal.
    pub fn swap_remove_and_forget(&mut self, row: usize) -> (r: (RawHandle, ComponentTicks, u64))
        requires
            old(self).wf(),
            row < old(self).data_seq().len(),
        ensures
            final(self).wf(),
            r.0 == old(self).data_seq()[row as int],
            r.1.added == old(self).added_seq()[row as int],
            r.1.changed == old(self).changed_seq()[row as int],
            r.2 == old(self).callers_seq()[row as int],
            final(self).data_seq() == old(self).data_seq().update(
                row as int,
                old(self).data_seq().last(),
            ).drop_last(),
            final(self).added_seq() == old(self).added_seq().update(
                row as int,
                old(self).added_seq().last(),
            ).drop_last(),
            final(self).changed_seq() == old(self).changed_seq().update(
                row as int,
                old(self).changed_seq().last(),
            ).drop_last(),
            final(self).callers_seq() == old(self).callers_seq().update(
                row as int,
                old(self).callers_seq().last(),
            ).drop_last(),
    {
        let data = self.data.swap_remove(row);
        let added = self.added_ticks.swap_remove(row);
        let changed = self.changed_ticks.swap_remove(row);
        let caller = self.changed_by.swap_remove(row);
        (data, ComponentTicks { added, changed }, caller)
    }

    /// Removes `row` by swapping the tail row into its place, asking the
    /// external owner of the value's bytes to destruct them.
    pub fn swap_remove(&mut self, row: usize)
        requires
            old(self).wf(),
            row < old(self).data_seq().len(),
        ensures
            final(self).wf(),
            final(self).data_seq() == old(self).data_seq().update(
                row as int,
                old(self).data_seq().last(),
            ).drop_last(),
            final(self).added_seq() == old(self).added_seq().update(
                row as int,
                old(self).added_seq().last(),
            ).drop_last(),
            final(self).changed_seq() == old(self).changed_seq().update(
                row as int,
                old(self).changed_seq().last(),
            ).drop_last(),
            final(self).callers_seq() == old(self).callers_seq().update(
                row as int,
                old(self).callers_seq().last(),
            ).drop_last(),
    {
        let _ = self.data.swap_remove(row);
        let _ = self.added_ticks.swap_remove(row);
        let _ = self.changed_ticks.swap_remove(row);
        let _ = self.changed_by.swap_remove(row);
    }

    /// Empties every row without shrinking capacity.
    pub fn clear(&mut self)
        ensures
            final(self).wf(),
            final(self).data_seq() == Seq::<RawHandle>::empty(),
            final(self).added_seq() == Seq::<Tick>::empty(),
            final(self).changed_seq() == Seq::<Tick>::empty(),
            final(self).callers_seq() == Seq::<u64>::empty(),
    {
        self.data.clear();
        self.added_ticks.clear();
        self.changed_ticks.clear();
        self.changed_by.clear();
    }

    /// Clamps every stored tick against the rollover horizon, as
    /// [`Tick::check_tick`] does: ages above the window are pinned at its
    /// edge, younger ticks are untouched. Values and provenance stay as
    /// they are.
    pub fn check_change_ticks(&mut self, check: CheckChangeTicks)
        requires
            old(self).wf(),
        ensures
            final(self).wf(),
            final(self).data_seq() == old(self).data_seq(),
            final(self).callers_seq() == old(self).callers_seq(),
            final(self).added_seq().len() == old(self).added_seq().len(),
            final(self).changed_seq().len() == old(self).changed_seq().len(),
            forall|j: int|
                0 <= j < old(self).added_seq().len() ==> (#[trigger] final(self).added_seq()[j])
                    == old(self).added_seq()[j].spec_checked(check),
            forall|j: int|
                0 <= j < old(self).changed_seq().len() ==> (#[trigger] final(self).changed_seq()[j])
                    == old(self).changed_seq()[j].spec_checked(check),
    {
        let n = self.added_ticks.len();
        let mut i: usize = 0;
        while i < n
            invariant
                i <= n,
                n == old(self).added_seq().len(),
                old(self).wf(),
                self.data@ == old(self).data@,
                self.changed_by@ == old(self).changed_by@,
                self.added_ticks@.len() == n,
                self.changed_ticks@.len() == old(self).changed_seq().len(),
                forall|j: int|
                    0 <= j < i ==> (#[trigger] self.added_ticks@[j]) == old(
                        self,
                    ).added_seq()[j].spec_checked(check),
                forall|j: int|
                    0 <= j < i ==> (#[trigger] self.changed_ticks@[j]) == old(
                        self,
                    ).changed_seq()[j].spec_checked(check),
                forall|j: int| i <= j < n ==> self.added_ticks@[j] == old(self).added_seq()[j],
                forall|j: int|
                    i <= j < old(self).changed_seq().len() ==> self.changed_ticks@[j] == old(
                        self,
                    ).changed_seq()[j],
            decreases n - i,
        {
            let mut added = self.added_ticks[i];
            added.check_tick(check);
            self.added_ticks[i] = added;
            let mut changed = self.changed_ticks[i];
            changed.check_tick(check);
            self.changed_ticks[i] = changed;
            i += 1;
        }
    }
}

} // verus!
