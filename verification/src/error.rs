//! The ways in which an operation on a buffer or a list can fail.

use vstd::prelude::*;

verus! {

/// Why an operation was not carried out. Whatever the reason, the value that
/// the operation was asked to change is left as it was.
#[derive(Clone, Copy, Debug, PartialEq, Eq, Structural)]
pub enum ArrayError {
    /// `index` is not among the positions that the operation may address,
    /// which `bound` limits: the number of slots of a buffer, or the number
    /// of elements of a list.
    IndexOutOfRange { index: usize, bound: usize },
    /// No element equals the value that was looked for.
    NotFound,
    /// There is no element to take out.
    EmptyContainer,
    /// The buffer would have to grow beyond what the machine can address.
    AllocationFailure,
}

/// The error for an `index` that a buffer or a list of `bound` positions
/// does not accept.
pub open spec fn out_of_range(index: usize, bound: nat) -> ArrayError {
    ArrayError::IndexOutOfRange { index, bound: bound as usize }
}

} // verus!
