//! The readings of the pressure taps, and their sums over a run.

use vstd::prelude::*;
use crate::cell::first_offending;
use crate::cell::mismatch_at;
use crate::cell::number_at;
use crate::cell::read_columns;
use crate::cell::Cell;
use crate::error::ReductionError;
use crate::fixed::floor_div;
use crate::fixed::lemma_floor_div_bounds;
use crate::schema::FIRST_TAP_COLUMN;
use crate::schema::PASCALS_PER_KILOPASCAL;
use crate::schema::TAP_COUNT;

verus! {

/// The largest magnitude of a tap pressure, in millionths of a pascal: what
/// the largest cell gives once kilopascals have become pascals.
pub const MAX_TAP_PRESSURE: i64 = 2_147_483_648_000;

/// Whether `pressure` is a tap pressure that a cell can give.
pub open spec fn tap_pressure_in_range(pressure: int) -> bool {
    -MAX_TAP_PRESSURE <= pressure <= MAX_TAP_PRESSURE
}

/// The columns of the pressure taps, in the order of the taps.
pub open spec fn tap_columns() -> Seq<usize> {
    Seq::new(TAP_COUNT as nat, |i: int| (FIRST_TAP_COLUMN + i) as usize)
}

/// The tap pressures that `row` stands for, in millionths of a pascal.
pub open spec fn tap_pressures_of(row: Seq<Cell>) -> Seq<int> {
    Seq::new(
        TAP_COUNT as nat,
        |i: int| number_at(row, FIRST_TAP_COLUMN + i) * PASCALS_PER_KILOPASCAL,
    )
}

/// The pressures at the twenty taps, in millionths of a pascal and in the
/// order of the taps, the two sides alternating. Each is within
/// `MAX_TAP_PRESSURE` of zero.
#[derive(Debug, PartialEq, Eq)]
pub struct PressureReadings([i64; 20]);

impl Clone for PressureReadings {
    fn clone(&self) -> (r: Self)
        ensures
            r == *self,
    {
        proof {
            use_type_invariant(self);
        }
        PressureReadings(self.0)
    }
}

impl View for PressureReadings {
    type V = Seq<int>;

    closed spec fn view(&self) -> Seq<int> {
        self.0@.map_values(|p: i64| p as int)
    }
}

impl PressureReadings {
    #[verifier::type_invariant]
    spec fn in_range(&self) -> bool {
        forall|i: int| 0 <= i < 20 ==> tap_pressure_in_range(#[trigger] self.0[i] as int)
    }

    /// There are as many readings as taps.
    pub proof fn lemma_len(&self)
        ensures
            self@.len() == TAP_COUNT,
    {
    }

    /// Reads the tap pressures of one row and brings them from kilopascals to
    /// pascals.
    ///
    /// Fails with `TypeMismatch` exactly when a tap column holds no
    /// measurement, with the first such column.
    pub fn read(row: &[Cell]) -> (r: Result<PressureReadings, ReductionError>)
        ensures
            match first_offending(row@, tap_columns(), 0) {
                Some(column) => r == Err::<PressureReadings, ReductionError>(
                    mismatch_at(row@, column),
                ),
                None => r is Ok && r->Ok_0@ == tap_pressures_of(row@),
            },
    {
        let mut columns: [usize; 20] = [0usize; 20];
        let mut i: usize = 0;
        while i < 20
            invariant
                i <= 20,
                forall|j: int| 0 <= j < i ==> #[trigger] columns[j] == FIRST_TAP_COLUMN + j,
            decreases 20 - i,
        {
            columns[i] = FIRST_TAP_COLUMN + i;
            i += 1;
        }
        assert(columns@ =~= tap_columns());
        let values = match read_columns(row, &columns) {
            Ok(values) => values,
            Err(e) => {
                return Err(e);
            },
        };
        let mut readings: [i64; 20] = [0i64; 20];
        let mut i: usize = 0;
        while i < 20
            invariant
                i <= 20,
                values@.len() == 20,
                forall|j: int|
                    0 <= j < 20 ==> (#[trigger] values@[j]) as int == number_at(
                        row@,
                        tap_columns()[j] as int,
                    ),
                forall|j: int|
                    0 <= j < i ==> (#[trigger] readings[j]) as int == number_at(
                        row@,
                        FIRST_TAP_COLUMN + j,
                    ) * PASCALS_PER_KILOPASCAL,
                forall|j: int| 0 <= j < 20 ==> tap_pressure_in_range(#[trigger] readings[j] as int),
            decreases 20 - i,
        {
            readings[i] = values[i] as i64 * PASCALS_PER_KILOPASCAL;
            i += 1;
        }
        let r = PressureReadings(readings);
        assert(r@ =~= tap_pressures_of(row@));
        Ok(r)
    }

    /// The pressure at one tap.
    pub fn get(&self, tap: usize) -> (r: i64)
        requires
            tap < TAP_COUNT,
        ensures
            r == self@[tap as int],
            tap_pressure_in_range(r as int),
    {
        proof {
            use_type_invariant(self);
        }
        self.0[tap]
    }
}

/// The sums, tap by tap, of the pressures of the readings taken in so far.
pub struct PressureSums {
    sums: [i128; 20],
    count: usize,
}

impl PressureSums {
    #[verifier::type_invariant]
    spec fn bounded(&self) -> bool {
        forall|i: int|
            0 <= i < 20 ==> -MAX_TAP_PRESSURE * self.count <= #[trigger] self.sums[i]
                <= MAX_TAP_PRESSURE * self.count
    }

    /// The sum at each tap.
    pub closed spec fn sums(&self) -> Seq<int> {
        self.sums@.map_values(|s: i128| s as int)
    }

    /// The number of readings taken in.
    pub closed spec fn count(&self) -> nat {
        self.count as nat
    }

    /// There are as many sums as taps.
    pub proof fn lemma_len(&self)
        ensures
            self.sums().len() == TAP_COUNT,
    {
    }

    /// The sums over no readings.
    pub fn new() -> (r: PressureSums)
        ensures
            r.count() == 0,
            r.sums() == Seq::new(TAP_COUNT as nat, |i: int| 0int),
    {
        let r = PressureSums { sums: [0i128; 20], count: 0 };
        assert(r.sums() =~= Seq::new(TAP_COUNT as nat, |i: int| 0int));
        r
    }

    /// Takes one more reading into the sums.
    pub fn take_in(&mut self, readings: &PressureReadings)
        requires
            old(self).count() < usize::MAX,
        ensures
            final(self).count() == old(self).count() + 1,
            final(self).sums() == Seq::new(
                TAP_COUNT as nat,
                |i: int| old(self).sums()[i] + readings@[i],
            ),
    {
        proof {
            use_type_invariant(&*self);
        }
        let mut sums: [i128; 20] = self.sums;
        let count: usize = self.count;
        let mut i: usize = 0;
        while i < 20
            invariant
                i <= 20,
                count < usize::MAX,
                forall|j: int|
                    0 <= j < 20 ==> -MAX_TAP_PRESSURE * count <= #[trigger] old(self).sums[j]
                        <= MAX_TAP_PRESSURE * count,
                forall|j: int|
                    0 <= j < i ==> #[trigger] sums[j] == old(self).sums[j] + readings@[j],
                forall|j: int| i <= j < 20 ==> #[trigger] sums[j] == old(self).sums[j],
                forall|j: int|
                    0 <= j < i ==> -MAX_TAP_PRESSURE * (count + 1) <= #[trigger] sums[j]
                        <= MAX_TAP_PRESSURE * (count + 1),
            decreases 20 - i,
        {
            let p: i64 = readings.get(i);
            sums[i] = sums[i] + p as i128;
            i += 1;
        }
        *self = PressureSums { sums, count: count + 1 };
        assert(self.sums() =~= Seq::new(
            TAP_COUNT as nat,
            |i: int| old(self).sums()[i] + readings@[i],
        ));
    }

    /// The mean at each tap of the readings taken in, rounded down.
    ///
    /// Fails with `EmptyRun` exactly when no reading was taken in.
    pub fn mean(&self) -> (r: Result<PressureReadings, ReductionError>)
        ensures
            self.count() == 0 ==> r == Err::<PressureReadings, ReductionError>(
                ReductionError::EmptyRun,
            ),
            self.count() > 0 ==> r is Ok && r->Ok_0@ == Seq::new(
                TAP_COUNT as nat,
                |i: int| self.sums()[i] / (self.count() as int),
            ),
    {
        if self.count == 0 {
            return Err(ReductionError::EmptyRun);
        }
        proof {
            use_type_invariant(self);
        }
        let mut means: [i64; 20] = [0i64; 20];
        let mut i: usize = 0;
        while i < 20
            invariant
                i <= 20,
                self.count > 0,
                forall|j: int|
                    0 <= j < 20 ==> -MAX_TAP_PRESSURE * self.count <= #[trigger] self.sums[j]
                        <= MAX_TAP_PRESSURE * self.count,
                forall|j: int|
                    0 <= j < i ==> (#[trigger] means[j]) as int == (self.sums[j] as int) / (
                    self.count as int),
                forall|j: int| 0 <= j < 20 ==> tap_pressure_in_range(#[trigger] means[j] as int),
            decreases 20 - i,
        {
            let m: i128 = floor_div(self.sums[i], self.count as i128);
            proof {
                lemma_floor_div_bounds(
                    self.sums[i as int] as int,
                    self.count as int,
                    -MAX_TAP_PRESSURE as int,
                    MAX_TAP_PRESSURE as int,
                );
            }
            means[i] = m as i64;
            i += 1;
        }
        let r = PressureReadings(means);
        assert(r@ =~= Seq::new(
            TAP_COUNT as nat,
            |i: int| self.sums()[i] / (self.count() as int),
        ));
        Ok(r)
    }
}

} // verus!
