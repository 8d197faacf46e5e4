//! Readings of the instruments at one moment, and their mean over a run.

use std::sync::Arc;
use vstd::prelude::*;
use crate::cell::first_offending;
use crate::cell::mismatch_at;
use crate::cell::number_at;
use crate::cell::read_columns;
use crate::cell::Cell;
use crate::conditions::Conditions;
use crate::conditions::ConditionsView;
use crate::error::ReductionError;
use crate::fixed::floor_div;
use crate::fixed::lemma_constant_total;
use crate::fixed::lemma_floor_div_bounds;
use crate::fixed::lemma_floor_div_exact;
use crate::fixed::mean;
use crate::fixed::prefix_total;
use crate::pressures::tap_columns;
use crate::pressures::tap_pressures_of;
use crate::pressures::PressureReadings;
use crate::pressures::PressureSums;
use crate::schema::AOA_COLUMN;
use crate::schema::DRAG_COLUMN;
use crate::schema::DYNAMIC_PRESSURE_COLUMN;
use crate::schema::LIFT_COLUMN;
use crate::schema::MOMENT_COLUMN;
use crate::schema::PASCALS_PER_KILOPASCAL;
use crate::schema::TAP_COUNT;
use crate::schema::WALL_PRESSURE_COLUMN;
use crate::schema::WIND_SPEED_COLUMN;

verus! {

/// A reading as mathematical integers, in millionths of SI units (of a degree
/// for the angle of attack).
pub struct DatumView {
    pub lift: int,
    pub drag: int,
    pub moment: int,
    pub aoa: int,
    pub dynamic_pressure: int,
    pub wind_speed: int,
    pub pressures: Seq<int>,
    pub wall_pressure: int,
    pub conditions: ConditionsView,
}

/// One of the measurements that make up a reading.
pub enum Channel {
    Lift,
    Drag,
    Moment,
    Aoa,
    DynamicPressure,
    WindSpeed,
    WallPressure,
    /// The pressure at the tap of this index.
    Tap(int),
}

impl DatumView {
    /// What the reading holds on one channel.
    pub open spec fn channel(self, channel: Channel) -> int {
        match channel {
            Channel::Lift => self.lift,
            Channel::Drag => self.drag,
            Channel::Moment => self.moment,
            Channel::Aoa => self.aoa,
            Channel::DynamicPressure => self.dynamic_pressure,
            Channel::WindSpeed => self.wind_speed,
            Channel::WallPressure => self.wall_pressure,
            Channel::Tap(tap) => self.pressures[tap],
        }
    }
}

/// What a run of readings holds on one channel, reading by reading.
pub open spec fn series(run: Seq<DatumView>, channel: Channel) -> Seq<int> {
    Seq::new(run.len(), |j: int| run[j].channel(channel))
}

/// The mean of a non-empty run of readings: on each channel, and so at each
/// tap by itself, the arithmetic mean of what the readings hold there, rounded
/// down to the next millionth. The conditions are those of the first reading.
pub open spec fn average(run: Seq<DatumView>) -> DatumView
    recommends
        run.len() > 0,
{
    DatumView {
        lift: mean(series(run, Channel::Lift)),
        drag: mean(series(run, Channel::Drag)),
        moment: mean(series(run, Channel::Moment)),
        aoa: mean(series(run, Channel::Aoa)),
        dynamic_pressure: mean(series(run, Channel::DynamicPressure)),
        wind_speed: mean(series(run, Channel::WindSpeed)),
        pressures: Seq::new(TAP_COUNT as nat, |tap: int| mean(series(run, Channel::Tap(tap)))),
        wall_pressure: mean(series(run, Channel::WallPressure)),
        conditions: run[0].conditions,
    }
}

/// The readings of a run as mathematical values.
pub open spec fn views_of(run: Seq<TimeDatum>) -> Seq<DatumView> {
    run.map_values(|datum: TimeDatum| datum@)
}

/// What the instruments showed at one moment, or the mean of that over a run.
///
/// Forces are millionths of a newton, the moment of a newton metre, the angle
/// of attack of a degree, pressures of a pascal, the wind speed of a metre
/// per second.
#[derive(Debug, PartialEq, Eq)]
pub struct TimeDatum {
    pub lift: i32,
    pub drag: i32,
    pub moment: i32,
    pub aoa: i32,
    pub dynamic_pressure: i32,
    pub wind_speed: i32,
    pub pressures: PressureReadings,
    pub wall_pressure: i64,
    /// The conditions of the test, shared by all its readings.
    pub conditions: Arc<Conditions>,
}

impl View for TimeDatum {
    type V = DatumView;

    open spec fn view(&self) -> DatumView {
        DatumView {
            lift: self.lift as int,
            drag: self.drag as int,
            moment: self.moment as int,
            aoa: self.aoa as int,
            dynamic_pressure: self.dynamic_pressure as int,
            wind_speed: self.wind_speed as int,
            pressures: self.pressures@,
            wall_pressure: self.wall_pressure as int,
            conditions: self.conditions@,
        }
    }
}

/// A second handle on shared conditions. Stands for `Arc::clone`, which gives
/// a pointer to the very allocation that its argument points to: the result
/// is the same conditions, not a copy of them.
#[verifier::external_body]
pub(crate) fn share(conditions: &Arc<Conditions>) -> (r: Arc<Conditions>)
    ensures
        r == *conditions,
{
    Arc::clone(conditions)
}

impl Clone for TimeDatum {
    fn clone(&self) -> (r: Self)
        ensures
            r == *self,
    {
        TimeDatum {
            lift: self.lift,
            drag: self.drag,
            moment: self.moment,
            aoa: self.aoa,
            dynamic_pressure: self.dynamic_pressure,
            wind_speed: self.wind_speed,
            pressures: self.pressures.clone(),
            wall_pressure: self.wall_pressure,
            conditions: share(&self.conditions),
        }
    }
}

impl TimeDatum {
    /// The columns that `read` takes before those of the taps, in the order in
    /// which it takes them.
    pub open spec fn columns() -> Seq<usize> {
        seq![
            LIFT_COLUMN,
            DRAG_COLUMN,
            MOMENT_COLUMN,
            AOA_COLUMN,
            DYNAMIC_PRESSURE_COLUMN,
            WALL_PRESSURE_COLUMN,
            WIND_SPEED_COLUMN,
        ]
    }

    /// The first column, in the order in which `read` takes them, at which
    /// `row` holds no measurement: the columns of `columns()`, then those of
    /// the taps.
    pub open spec fn first_unreadable(row: Seq<Cell>) -> Option<int> {
        match first_offending(row, TimeDatum::columns(), 0) {
            Some(column) => Some(column),
            None => first_offending(row, tap_columns(), 0),
        }
    }

    /// The reading that `row` stands for, once wall and tap pressures are
    /// brought from kilopascals to pascals.
    pub open spec fn spec_read(row: Seq<Cell>, conditions: ConditionsView) -> DatumView {
        DatumView {
            lift: number_at(row, LIFT_COLUMN as int),
            drag: number_at(row, DRAG_COLUMN as int),
            moment: number_at(row, MOMENT_COLUMN as int),
            aoa: number_at(row, AOA_COLUMN as int),
            dynamic_pressure: number_at(row, DYNAMIC_PRESSURE_COLUMN as int),
            wind_speed: number_at(row, WIND_SPEED_COLUMN as int),
            pressures: tap_pressures_of(row),
            wall_pressure: number_at(row, WALL_PRESSURE_COLUMN as int) * PASCALS_PER_KILOPASCAL,
            conditions,
        }
    }

    /// Reads one row of the table as a reading taken under `conditions`.
    ///
    /// Fails with `TypeMismatch` exactly when one of the columns of a reading
    /// holds no measurement, with the first such column in the order lift,
    /// drag, moment, angle of attack, dynamic pressure, wall pressure, wind
    /// speed, taps.
    pub fn read(row: &[Cell], conditions: Arc<Conditions>) -> (r: Result<TimeDatum, ReductionError>)
        ensures
            match TimeDatum::first_unreadable(row@) {
                Some(column) => r == Err::<TimeDatum, ReductionError>(mismatch_at(row@, column)),
                None => r is Ok && r->Ok_0@ == TimeDatum::spec_read(row@, conditions@)
                    && r->Ok_0.conditions == conditions,
            },
    {
        let columns: [usize; 7] = [
            LIFT_COLUMN,
            DRAG_COLUMN,
            MOMENT_COLUMN,
            AOA_COLUMN,
            DYNAMIC_PRESSURE_COLUMN,
            WALL_PRESSURE_COLUMN,
            WIND_SPEED_COLUMN,
        ];
        assert(columns@ =~= TimeDatum::columns());
        let values = match read_columns(row, &columns) {
            Ok(values) => values,
            Err(e) => {
                return Err(e);
            },
        };
        let pressures = match PressureReadings::read(row) {
            Ok(pressures) => pressures,
            Err(e) => {
                return Err(e);
            },
        };
        Ok(
            TimeDatum {
                lift: values[0],
                drag: values[1],
                moment: values[2],
                aoa: values[3],
                dynamic_pressure: values[4],
                wall_pressure: values[5] as i64 * PASCALS_PER_KILOPASCAL,
                wind_speed: values[6],
                pressures,
                conditions,
            },
        )
    }

    /// The mean of a run of readings.
    ///
    /// Each measurement of the result is the sum, in the order of the run, of
    /// that measurement over the readings, divided by their number and
    /// rounded down; each tap has its own mean. The conditions of the result
    /// are those of the first reading, the very same. Fails with `EmptyRun`
    /// exactly when the run holds no reading.
    pub fn get_average(readings: Vec<TimeDatum>) -> (r: Result<TimeDatum, ReductionError>)
        ensures
            readings@.len() == 0 ==> r == Err::<TimeDatum, ReductionError>(ReductionError::EmptyRun),
            readings@.len() > 0 ==> r is Ok && r->Ok_0@ == average(views_of(readings@))
                && r->Ok_0.conditions == readings@[0].conditions,
    {
        let n: usize = readings.len();
        if n == 0 {
            return Err(ReductionError::EmptyRun);
        }
        let ghost run = views_of(readings@);
        let mut lift: i128 = 0;
        let mut drag: i128 = 0;
        let mut moment: i128 = 0;
        let mut aoa: i128 = 0;
        let mut dynamic_pressure: i128 = 0;
        let mut wind_speed: i128 = 0;
        let mut wall_pressure: i128 = 0;
        let mut pressures = PressureSums::new();
        let mut j: usize = 0;
        while j < n
            invariant
                j <= n,
                n == readings@.len(),
                run == views_of(readings@),
                lift == prefix_total(series(run, Channel::Lift), j as int),
                drag == prefix_total(series(run, Channel::Drag), j as int),
                moment == prefix_total(series(run, Channel::Moment), j as int),
                aoa == prefix_total(series(run, Channel::Aoa), j as int),
                dynamic_pressure == prefix_total(series(run, Channel::DynamicPressure), j as int),
                wind_speed == prefix_total(series(run, Channel::WindSpeed), j as int),
                wall_pressure == prefix_total(series(run, Channel::WallPressure), j as int),
                i32::MIN * j <= lift <= i32::MAX * j,
                i32::MIN * j <= drag <= i32::MAX * j,
                i32::MIN * j <= moment <= i32::MAX * j,
                i32::MIN * j <= aoa <= i32::MAX * j,
                i32::MIN * j <= dynamic_pressure <= i32::MAX * j,
                i32::MIN * j <= wind_speed <= i32::MAX * j,
                i64::MIN * j <= wall_pressure <= i64::MAX * j,
                pressures.count() == j,
                pressures.sums().len() == TAP_COUNT,
                forall|tap: int|
                    0 <= tap < TAP_COUNT ==> #[trigger] pressures.sums()[tap] == prefix_total(
                        series(run, Channel::Tap(tap)),
                        j as int,
                    ),
            decreases n - j,
        {
            let datum = &readings[j];
            assert(run[j as int] == datum@);
            lift = lift + datum.lift as i128;
            drag = drag + datum.drag as i128;
            moment = moment + datum.moment as i128;
            aoa = aoa + datum.aoa as i128;
            dynamic_pressure = dynamic_pressure + datum.dynamic_pressure as i128;
            wind_speed = wind_speed + datum.wind_speed as i128;
            wall_pressure = wall_pressure + datum.wall_pressure as i128;
            pressures.take_in(&datum.pressures);
            proof {
                pressures.lemma_len();
            }
            j += 1;
        }
        let count: i128 = n as i128;
        proof {
            lemma_floor_div_bounds(lift as int, n as int, i32::MIN as int, i32::MAX as int);
            lemma_floor_div_bounds(drag as int, n as int, i32::MIN as int, i32::MAX as int);
            lemma_floor_div_bounds(moment as int, n as int, i32::MIN as int, i32::MAX as int);
            lemma_floor_div_bounds(aoa as int, n as int, i32::MIN as int, i32::MAX as int);
            lemma_floor_div_bounds(
                dynamic_pressure as int,
                n as int,
                i32::MIN as int,
                i32::MAX as int,
            );
            lemma_floor_div_bounds(wind_speed as int, n as int, i32::MIN as int, i32::MAX as int);
            lemma_floor_div_bounds(
                wall_pressure as int,
                n as int,
                i64::MIN as int,
                i64::MAX as int,
            );
        }
        let mean = TimeDatum {
            lift: floor_div(lift, count) as i32,
            drag: floor_div(drag, count) as i32,
            moment: floor_div(moment, count) as i32,
            aoa: floor_div(aoa, count) as i32,
            dynamic_pressure: floor_div(dynamic_pressure, count) as i32,
            wind_speed: floor_div(wind_speed, count) as i32,
            pressures: pressures.mean().unwrap(),
            wall_pressure: floor_div(wall_pressure, count) as i64,
            conditions: share(&readings[0].conditions),
        };
        assert(mean@.pressures =~= average(run).pressures);
        Ok(mean)
    }
}

/// The mean of a run of equal readings is that reading: no rounding takes
/// place.
pub proof fn lemma_average_of_equals(run: Seq<DatumView>, datum: DatumView)
    requires
        run.len() > 0,
        forall|j: int| 0 <= j < run.len() ==> run[j] == datum,
        datum.pressures.len() == TAP_COUNT,
    ensures
        average(run) == datum,
{
    let n = run.len() as int;
    assert forall|channel: Channel| mean(series(run, channel)) == datum.channel(channel) by {
        lemma_constant_total(series(run, channel), datum.channel(channel), n);
        lemma_floor_div_exact(datum.channel(channel), n);
    }
    assert(average(run).pressures =~= datum.pressures);
}

} // verus!
