//! From a table of rows to the mean reading of each run and the series of
//! coefficients over the runs.

use std::sync::Arc;
use vstd::prelude::*;
use vstd::slice::slice_subrange;
use crate::cell::first_offending;
use crate::cell::mismatch_at;
use crate::cell::Cell;
use crate::conditions::Conditions;
use crate::conditions::ConditionsView;
use crate::datum::average;
use crate::datum::share;
use crate::datum::views_of;
use crate::datum::DatumView;
use crate::datum::TimeDatum;
use crate::error::ReductionError;
use crate::ratio::Quotient;
use crate::ratio::Ratio;
use crate::runs::covered;
use crate::runs::detect_runs;
use crate::runs::flags_of;
use crate::runs::is_run;
use crate::runs::leads;
use crate::runs::partitions;
use crate::runs::runs_of;
use crate::runs::Run;
use crate::schema::CONDITIONS_ROW;

verus! {

/// Whether every column of a reading holds a measurement in `row`.
pub open spec fn readable(row: Seq<Cell>) -> bool {
    TimeDatum::first_unreadable(row) is None
}

/// The error that reading an unreadable `row` ends in.
pub open spec fn row_error(row: Seq<Cell>) -> ReductionError {
    mismatch_at(row, TimeDatum::first_unreadable(row)->Some_0)
}

/// What rows read as, each in its turn.
pub open spec fn readings_of(rows: Seq<Vec<Cell>>, conditions: ConditionsView) -> Seq<DatumView> {
    Seq::new(rows.len(), |j: int| TimeDatum::spec_read(rows[j]@, conditions))
}

/// The rows of one run.
pub open spec fn run_rows(table: Seq<Vec<Cell>>, run: Run) -> Seq<Vec<Cell>> {
    table.subrange(run.start as int, run.start + run.len)
}

/// What the rows of one run read as, in their order.
pub open spec fn run_readings(table: Seq<Vec<Cell>>, run: Run, conditions: ConditionsView) -> Seq<
    DatumView,
> {
    readings_of(run_rows(table, run), conditions)
}

/// Whether every row of the table that begins with a measurement is readable.
pub open spec fn all_readable(table: Seq<Vec<Cell>>) -> bool {
    forall|i: int| 0 <= i < table.len() && leads(#[trigger] table[i]@) ==> readable(table[i]@)
}

/// Whether row `i` is the first row of the table that begins with a
/// measurement and yet is not readable.
pub open spec fn first_unreadable_row(table: Seq<Vec<Cell>>, i: int) -> bool {
    &&& 0 <= i < table.len()
    &&& leads(table[i]@)
    &&& !readable(table[i]@)
    &&& forall|p: int| 0 <= p < i && leads(#[trigger] table[p]@) ==> readable(table[p]@)
}

/// The row that holds the reference conditions. A table too short to have it
/// has a row without cells in its place.
pub open spec fn conditions_row(table: Seq<Vec<Cell>>) -> Seq<Cell> {
    if CONDITIONS_ROW < table.len() {
        table[CONDITIONS_ROW as int]@
    } else {
        Seq::empty()
    }
}

/// Whether row `i` is the first of `rows` that is not readable.
pub open spec fn first_unreadable_among(rows: Seq<Vec<Cell>>, i: int) -> bool {
    &&& 0 <= i < rows.len()
    &&& !readable(rows[i]@)
    &&& forall|p: int| 0 <= p < i ==> readable(#[trigger] rows[p]@)
}

/// Reads rows, in their order, as readings under `conditions`.
///
/// Fails exactly when one of the rows is not readable, with the error of the
/// first such row.
pub fn read_rows(rows: &[Vec<Cell>], conditions: &Arc<Conditions>) -> (r: Result<
    Vec<TimeDatum>,
    ReductionError,
>)
    ensures
        r is Ok <==> forall|p: int| 0 <= p < rows@.len() ==> readable(#[trigger] rows@[p]@),
        match r {
            Ok(readings) => {
                &&& views_of(readings@) == readings_of(rows@, conditions@)
                &&& forall|j: int|
                    0 <= j < readings@.len() ==> (#[trigger] readings@[j]).conditions
                        == *conditions
            },
            Err(e) => exists|i: int|
                first_unreadable_among(rows@, i) && e == row_error(#[trigger] rows@[i]@),
        },
{
    let mut readings: Vec<TimeDatum> = Vec::new();
    let mut j: usize = 0;
    while j < rows.len()
        invariant
            j <= rows@.len(),
            readings@.len() == j,
            forall|p: int| 0 <= p < j ==> readable(#[trigger] rows@[p]@),
            forall|k: int|
                0 <= k < j ==> (#[trigger] readings@[k])@ == TimeDatum::spec_read(
                    rows@[k]@,
                    conditions@,
                ) && readings@[k].conditions == *conditions,
        decreases rows@.len() - j,
    {
        match TimeDatum::read(rows[j].as_slice(), share(conditions)) {
            Ok(datum) => {
                readings.push(datum);
            },
            Err(e) => {
                assert(first_unreadable_among(rows@, j as int));
                return Err(e);
            },
        }
        j += 1;
    }
    assert(views_of(readings@) =~= readings_of(rows@, conditions@));
    Ok(readings)
}

/// Reduces each run of a table to its mean reading under `conditions`, in the
/// order of the runs.
///
/// Fails exactly when a row that begins with a measurement is not readable,
/// with the error of the first such row of the table.
pub fn reduce_runs(table: &[Vec<Cell>], conditions: &Arc<Conditions>) -> (r: Result<
    Vec<TimeDatum>,
    ReductionError,
>)
    ensures
        r is Ok <==> all_readable(table@),
        match r {
            Ok(means) => {
                &&& means@.len() == runs_of(flags_of(table@)).len()
                &&& forall|k: int|
                    0 <= k < means@.len() ==> (#[trigger] means@[k])@ == average(
                        run_readings(table@, runs_of(flags_of(table@))[k], conditions@),
                    ) && means@[k].conditions == *conditions
            },
            Err(e) => exists|i: int|
                first_unreadable_row(table@, i) && e == row_error(#[trigger] table@[i]@),
        },
{
    let ghost flags = flags_of(table@);
    let runs = detect_runs(table);
    let rows_in_table: usize = table.len();
    let mut means: Vec<TimeDatum> = Vec::new();
    let mut k: usize = 0;
    while k < runs.len()
        invariant
            k <= runs@.len(),
            rows_in_table == table@.len(),
            flags == flags_of(table@),
            runs@ == runs_of(flags),
            partitions(flags, runs@, table@.len() as int),
            means@.len() == k,
            forall|l: int, p: int|
                0 <= l < k && (#[trigger] runs@[l]).covers(p) ==> readable(#[trigger] table@[p]@),
            forall|l: int|
                0 <= l < k ==> (#[trigger] means@[l])@ == average(
                    run_readings(table@, runs@[l], conditions@),
                ) && means@[l].conditions == *conditions,
        decreases runs@.len() - k,
    {
        let run = runs[k];
        assert(is_run(flags, run));
        let rows = slice_subrange(table, run.start, run.start + run.len);
        assert(forall|j: int| 0 <= j < run.len ==> rows@[j] == table@[run.start + j]);
        let readings = match read_rows(rows, conditions) {
            Ok(readings) => readings,
            Err(e) => {
                proof {
                    let j = choose|j: int|
                        first_unreadable_among(rows@, j) && e == row_error(#[trigger] rows@[j]@);
                    let i = run.start + j;
                    assert(run.covers(i));
                    assert(flags[i]);
                    assert forall|p: int| run.start <= p < i implies readable(
                        #[trigger] table@[p]@,
                    ) by {
                        assert(rows@[p - run.start] == table@[p]);
                    }
                    assert forall|p: int| 0 <= p < i && leads(#[trigger] table@[p]@) implies readable(
                        table@[p]@,
                    ) by {
                        assert(flags[p]);
                        assert(covered(runs@, p));
                        let l = choose|l: int| 0 <= l < runs@.len() && (#[trigger] runs@[l]).covers(p);
                        if l > k {
                            assert(runs@[k as int].start + runs@[k as int].len < runs@[l].start);
                        }
                    }
                    assert(first_unreadable_row(table@, i));
                }
                return Err(e);
            },
        };
        proof {
            assert(views_of(readings@).len() == readings@.len());
            assert(views_of(readings@)[0] == readings@[0]@);
            assert forall|p: int| run.covers(p) implies readable(#[trigger] table@[p]@) by {
                assert(rows@[p - run.start] == table@[p]);
            }
        }
        let mean = TimeDatum::get_average(readings).unwrap();
        means.push(mean);
        k += 1;
    }
    proof {
        assert forall|i: int| 0 <= i < table@.len() && leads(#[trigger] table@[i]@) implies readable(
            table@[i]@,
        ) by {
            assert(flags[i]);
            assert(covered(runs@, i));
        }
    }
    Ok(means)
}

/// Reduces a whole table: reads the reference conditions from their row, with
/// the tap positions given in millionths of a millimetre, then reduces each
/// run to its mean reading under these conditions.
///
/// Fails exactly when the conditions cannot be read, with the error of
/// `Conditions::read`, or else a row that begins with a measurement is not
/// readable, with the error of the first such row.
pub fn reduce_table(table: &[Vec<Cell>], tap_positions: [i32; 20]) -> (r: Result<
    Vec<TimeDatum>,
    ReductionError,
>)
    ensures
        match first_offending(conditions_row(table@), Conditions::columns(), 0) {
            Some(column) => r == Err::<Vec<TimeDatum>, ReductionError>(
                mismatch_at(conditions_row(table@), column),
            ),
            None => {
                let conditions = Conditions::spec_read(conditions_row(table@), tap_positions@);
                &&& r is Ok <==> all_readable(table@)
                &&& match r {
                    Ok(means) => {
                        &&& means@.len() == runs_of(flags_of(table@)).len()
                        &&& forall|k: int|
                            0 <= k < means@.len() ==> (#[trigger] means@[k])@ == average(
                                run_readings(table@, runs_of(flags_of(table@))[k], conditions),
                            )
                        &&& forall|k: int, l: int|
                            0 <= k < means@.len() && 0 <= l < means@.len() ==> (
                            #[trigger] means@[k]).conditions == (#[trigger] means@[l]).conditions
                    },
                    Err(e) => exists|i: int|
                        first_unreadable_row(table@, i) && e == row_error(#[trigger] table@[i]@),
                }
            },
        },
{
    let empty: Vec<Cell> = Vec::new();
    let row: &Vec<Cell> = if CONDITIONS_ROW < table.len() {
        &table[CONDITIONS_ROW]
    } else {
        &empty
    };
    assert(row@ =~= conditions_row(table@));
    let conditions = match Conditions::read(row.as_slice(), tap_positions) {
        Ok(conditions) => Arc::new(conditions),
        Err(e) => {
            return Err(e);
        },
    };
    reduce_runs(table, &conditions)
}

/// The coefficients of a sequence of readings, one series for each, all in
/// the order of the readings.
#[derive(Debug, PartialEq, Eq)]
pub struct CoefficientSeries {
    /// Angle of attack, in millionths of a degree.
    pub aoa: Vec<i32>,
    /// Lift coefficient from the balance.
    pub lift: Vec<Ratio>,
    /// Lift coefficient from the pressure taps.
    pub lift_via_pressures: Vec<Ratio>,
    /// Drag coefficient.
    pub drag: Vec<Ratio>,
    /// Moment coefficient.
    pub moment: Vec<Ratio>,
}

impl CoefficientSeries {
    /// Whether the first `n` entries of each series are the coefficients of
    /// the first `n` of `readings`.
    pub open spec fn holds(self, readings: Seq<TimeDatum>, n: int) -> bool {
        &&& self.aoa@.len() == n
        &&& self.lift@.len() == n
        &&& self.lift_via_pressures@.len() == n
        &&& self.drag@.len() == n
        &&& self.moment@.len() == n
        &&& forall|k: int|
            0 <= k < n ==> {
                &&& (#[trigger] self.aoa@[k]) == readings[k].aoa
                &&& self.lift@[k]@ == readings[k]@.lift_coefficient()
                &&& self.lift_via_pressures@[k]@ == readings[k]@.lift_coefficient_via_pressures()
                &&& self.drag@[k]@ == readings[k]@.drag_coefficient()
                &&& self.moment@[k]@ == readings[k]@.moment_coefficient()
            }
    }
}

/// Derives from each reading its angle of attack and its coefficients.
pub fn coefficient_series(readings: &[TimeDatum]) -> (r: CoefficientSeries)
    ensures
        r.holds(readings@, readings@.len() as int),
{
    let mut series = CoefficientSeries {
        aoa: Vec::new(),
        lift: Vec::new(),
        lift_via_pressures: Vec::new(),
        drag: Vec::new(),
        moment: Vec::new(),
    };
    let mut k: usize = 0;
    while k < readings.len()
        invariant
            k <= readings@.len(),
            series.holds(readings@, k as int),
        decreases readings@.len() - k,
    {
        let datum = &readings[k];
        series.aoa.push(datum.aoa);
        series.lift.push(datum.lift_coefficient());
        series.lift_via_pressures.push(datum.lift_coefficient_via_pressures());
        series.drag.push(datum.drag_coefficient());
        series.moment.push(datum.moment_coefficient());
        k += 1;
    }
    series
}

/// The points of the lift curve among the first `n` readings: for each
/// reading whose lift coefficient has a value strictly between `-bound` and
/// `bound`, its angle of attack and that coefficient, in the order of the
/// readings.
pub open spec fn lift_curve_upto(run: Seq<DatumView>, bound: int, n: int) -> Seq<(int, Quotient)>
    decreases n,
{
    if n <= 0 {
        Seq::empty()
    } else {
        let rest = lift_curve_upto(run, bound, n - 1);
        let coefficient = run[n - 1].lift_coefficient();
        if coefficient.magnitude_below(bound) {
            rest.push((run[n - 1].aoa, coefficient))
        } else {
            rest
        }
    }
}

/// The lift curve of a sequence of readings: angle of attack against lift
/// coefficient, without the readings whose lift coefficient has no value or
/// lies at or beyond `bound` on either side.
pub fn lift_curve(readings: &[TimeDatum], bound: u32) -> (r: Vec<(i32, Ratio)>)
    ensures
        r@.len() == lift_curve_upto(
            views_of(readings@),
            bound as int,
            readings@.len() as int,
        ).len(),
        forall|k: int|
            0 <= k < r@.len() ==> {
                let point = lift_curve_upto(
                    views_of(readings@),
                    bound as int,
                    readings@.len() as int,
                )[k];
                (#[trigger] r@[k]).0 == point.0 && r@[k].1@ == point.1
            },
{
    let ghost run = views_of(readings@);
    let mut curve: Vec<(i32, Ratio)> = Vec::new();
    let mut j: usize = 0;
    while j < readings.len()
        invariant
            j <= readings@.len(),
            run == views_of(readings@),
            curve@.len() == lift_curve_upto(run, bound as int, j as int).len(),
            forall|k: int|
                0 <= k < curve@.len() ==> {
                    let point = lift_curve_upto(run, bound as int, j as int)[k];
                    (#[trigger] curve@[k]).0 == point.0 && curve@[k].1@ == point.1
                },
        decreases readings@.len() - j,
    {
        let datum = &readings[j];
        assert(run[j as int] == datum@);
        let coefficient = datum.lift_coefficient();
        if coefficient.magnitude_below(bound) {
            curve.push((datum.aoa, coefficient));
        }
        j += 1;
    }
    curve
}

} // verus!
