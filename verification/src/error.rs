//! The conditions under which a reduction stops.

use vstd::prelude::*;
use crate::cell::Cell;

verus! {

/// Why a reduction could not go on. None of these is recoverable: each shows
/// that the table or the tap layout is not what the reduction was written for.
#[derive(Debug, PartialEq, Eq)]
pub enum ReductionError {
    /// A cell that had to hold a measurement holds something else. `cell` is
    /// what was found in `column`; a column past the end of the row is found
    /// empty.
    TypeMismatch { column: usize, cell: Cell },
    /// A mean was asked of no readings.
    EmptyRun,
    /// An integration was given `positions` abscissae but `values` ordinates.
    MismatchedLengths { positions: usize, values: usize },
}

} // verus!
