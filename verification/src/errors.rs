//! The failure taxonomy shared by every fallible operation in this crate.

use vstd::prelude::*;

verus! {

/// Why an operation was refused.
///
/// Every fallible operation in this crate distinguishes success from one of
/// these named error kinds; none of them is recovered silently, so callers
/// must branch explicitly.
#[derive(Clone, Copy, Debug, PartialEq, Eq, Structural)]
pub enum ErrorKind {
    /// An owner id was used again after its value had been moved out.
    UseAfterMove,
    /// A borrow request violated the many-readers-or-one-writer rule.
    BorrowConflict,
    /// A guard was dereferenced after the storage it points into was
    /// invalidated by a reallocation.
    StaleBorrow,
    /// A direct indexed access named a position at or past the length.
    IndexOutOfBounds,
    /// A guard was still live when the storage it refers to was torn down.
    UseAfterFree,
    /// A sort met two elements the ordering cannot relate.
    IncomparableElements,
}

/// Whether `r` is exactly the error `kind`.
pub open spec fn fails_with<T>(r: Result<T, ErrorKind>, kind: ErrorKind) -> bool {
    r matches Err(k) && k == kind
}

} // verus!
