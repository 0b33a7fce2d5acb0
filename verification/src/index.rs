use core::hash::Hash;
use vstd::prelude::*;

verus! {

/// A key that can address a slot of a sparse-indexed collection by a small
/// non-negative integer.
///
/// The collections in this crate index their backing storage directly by the
/// key's integer projection, so projections should be small and reasonably
/// dense (ideally handed out incrementally from zero).
pub trait SparseSetIndex: Sized + Clone + PartialEq + Eq + Hash {
    /// The integer projection of this key, as the specifications see it.
    spec fn index_spec(&self) -> int;

    /// Whether `value` is the projection of some key of this type.
    spec fn valid_index(value: usize) -> bool;

    /// Gets the sparse set index corresponding to this instance.
    fn sparse_set_index(&self) -> (r: usize)
        ensures
            r as int == self.index_spec(),
    ;

    /// Creates a new instance of this type with the specified index.
    fn get_sparse_set_index(value: usize) -> (r: Self)
        requires
            Self::valid_index(value),
        ensures
            r.index_spec() == value as int,
    ;
}

impl SparseSetIndex for u8 {
    open spec fn index_spec(&self) -> int {
        *self as usize as int
    }

    open spec fn valid_index(value: usize) -> bool {
        value <= u8::MAX
    }

    fn sparse_set_index(&self) -> (r: usize) {
        *self as usize
    }

    fn get_sparse_set_index(value: usize) -> (r: Self) {
        value as u8
    }
}

impl SparseSetIndex for u16 {
    open spec fn index_spec(&self) -> int {
        *self as usize as int
    }

    open spec fn valid_index(value: usize) -> bool {
        value <= u16::MAX
    }

    fn sparse_set_index(&self) -> (r: usize) {
        *self as usize
    }

    fn get_sparse_set_index(value: usize) -> (r: Self) {
        value as u16
    }
}

impl SparseSetIndex for u32 {
    open spec fn index_spec(&self) -> int {
        *self as usize as int
    }

    open spec fn valid_index(value: usize) -> bool {
        value <= u32::MAX
    }

    fn sparse_set_index(&self) -> (r: usize) {
        *self as usize
    }

    fn get_sparse_set_index(value: usize) -> (r: Self) {
        value as u32
    }
}

impl SparseSetIndex for u64 {
    open spec fn index_spec(&self) -> int {
        *self as usize as int
    }

    open spec fn valid_index(value: usize) -> bool {
        true
    }

    fn sparse_set_index(&self) -> (r: usize) {
        *self as usize
    }

    fn get_sparse_set_index(value: usize) -> (r: Self) {
        value as u64
    }
}

impl SparseSetIndex for usize {
    open spec fn index_spec(&self) -> int {
        *self as int
    }

    open spec fn valid_index(value: usize) -> bool {
        true
    }

    fn sparse_set_index(&self) -> (r: usize) {
        *self
    }

    fn get_sparse_set_index(value: usize) -> (r: Self) {
        value
    }
}

} // verus!
