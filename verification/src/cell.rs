//! Cells of a table row, and the parser that takes measurements out of them.

use vstd::prelude::*;
use crate::error::ReductionError;

verus! {

/// One cell of a table.
#[derive(Debug, PartialEq, Eq)]
pub enum Cell {
    /// A measurement, in millionths of the unit of its column.
    Number(i32),
    /// A whole number, such as a counter or a label. It is no measurement.
    Integer(i64),
    /// Text.
    Text(String),
    /// A truth value.
    Flag(bool),
    /// A cell whose formula failed.
    Fault,
    /// Nothing.
    Empty,
}

impl Clone for Cell {
    fn clone(&self) -> (r: Self)
        ensures
            r == *self,
    {
        match self {
            Cell::Number(v) => Cell::Number(*v),
            Cell::Integer(v) => Cell::Integer(*v),
            Cell::Text(s) => Cell::Text(s.clone()),
            Cell::Flag(b) => Cell::Flag(*b),
            Cell::Fault => Cell::Fault,
            Cell::Empty => Cell::Empty,
        }
    }
}

impl Cell {
    /// Whether the cell holds a measurement.
    pub open spec fn spec_is_number(&self) -> bool {
        self is Number
    }

    /// Whether the cell holds a measurement.
    #[verifier::when_used_as_spec(spec_is_number)]
    pub fn is_number(&self) -> (r: bool)
        ensures
            r == (self is Number),
    {
        match self {
            Cell::Number(_) => true,
            _ => false,
        }
    }
}

/// The cell in `column` of `row`; a row is followed by empty cells without end.
pub open spec fn cell_at(row: Seq<Cell>, column: int) -> Cell {
    if 0 <= column < row.len() {
        row[column]
    } else {
        Cell::Empty
    }
}

/// The measurement in `column` of `row`, where there is one.
pub open spec fn number_at(row: Seq<Cell>, column: int) -> int {
    match cell_at(row, column) {
        Cell::Number(v) => v as int,
        _ => 0,
    }
}

/// What the parser reports for `column` of `row` when no measurement is there.
pub open spec fn mismatch_at(row: Seq<Cell>, column: int) -> ReductionError {
    ReductionError::TypeMismatch { column: column as usize, cell: cell_at(row, column) }
}

/// The first of `columns`, from position `from` on, at which `row` holds no
/// measurement.
pub open spec fn first_offending(row: Seq<Cell>, columns: Seq<usize>, from: int) -> Option<int>
    decreases columns.len() - from,
{
    if from < 0 || from >= columns.len() {
        None
    } else if cell_at(row, columns[from] as int) is Number {
        first_offending(row, columns, from + 1)
    } else {
        Some(columns[from] as int)
    }
}

/// Takes the measurement out of `column` of `row`.
///
/// Fails with `TypeMismatch` exactly when that cell is not a `Number`, and then
/// hands back the column and what the cell holds.
pub fn get_val(row: &[Cell], column: usize) -> (r: Result<i32, ReductionError>)
    ensures
        cell_at(row@, column as int) is Number ==> r == Ok::<i32, ReductionError>(
            number_at(row@, column as int) as i32,
        ),
        !(cell_at(row@, column as int) is Number) ==> r == Err::<i32, ReductionError>(
            mismatch_at(row@, column as int),
        ),
{
    if column < row.len() {
        match &row[column] {
            Cell::Number(v) => Ok(*v),
            other => Err(ReductionError::TypeMismatch { column, cell: other.clone() }),
        }
    } else {
        Err(ReductionError::TypeMismatch { column, cell: Cell::Empty })
    }
}

/// Takes the measurements out of the listed columns of `row`, in the order of
/// the list.
///
/// Succeeds exactly when each listed column holds a measurement. Otherwise the
/// error is that of the first listed column that holds none.
pub fn read_columns(row: &[Cell], columns: &[usize]) -> (r: Result<Vec<i32>, ReductionError>)
    ensures
        match first_offending(row@, columns@, 0) {
            Some(column) => r == Err::<Vec<i32>, ReductionError>(mismatch_at(row@, column)),
            None => r is Ok && r->Ok_0@.len() == columns@.len() && forall|k: int|
                0 <= k < columns@.len() ==> (#[trigger] r->Ok_0@[k]) as int == number_at(
                    row@,
                    columns@[k] as int,
                ),
        },
{
    let mut values: Vec<i32> = Vec::new();
    let mut k: usize = 0;
    while k < columns.len()
        invariant
            k <= columns@.len(),
            values@.len() == k,
            first_offending(row@, columns@, 0) == first_offending(row@, columns@, k as int),
            forall|j: int|
                0 <= j < k ==> (#[trigger] values@[j]) as int == number_at(
                    row@,
                    columns@[j] as int,
                ),
        decreases columns@.len() - k,
    {
        match get_val(row, columns[k]) {
            Ok(v) => {
                values.push(v);
            },
            Err(e) => {
                return Err(e);
            },
        }
        k += 1;
    }
    Ok(values)
}

} // verus!
