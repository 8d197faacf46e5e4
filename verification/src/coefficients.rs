//! The non-dimensional coefficients of a reading: lift, drag and moment from
//! the balance, pressure coefficients at the taps, and lift from the taps.

use vstd::prelude::*;
use crate::conditions::tap_index;
use crate::datum::DatumView;
use crate::datum::TimeDatum;
use crate::fixed::SCALE_CUBED;
use crate::fixed::SCALE_SQUARED;
use crate::integrate::positions_of;
use crate::integrate::trap_int;
use crate::integrate::trapezoid_sum;
use crate::integrate::values_of;
use crate::integrate::MAX_TERM;
use crate::ratio::Quotient;
use crate::ratio::Ratio;
use crate::schema::TAPS_PER_SIDE;

verus! {

/// A force divided by dynamic pressure and reference area.
pub open spec fn force_coefficient(force: int, dynamic_pressure: int, area: int) -> Quotient {
    Quotient { num: force * SCALE_SQUARED, den: dynamic_pressure * area }
}

impl DatumView {
    /// Lift over dynamic pressure times reference area.
    pub open spec fn lift_coefficient(self) -> Quotient {
        force_coefficient(self.lift, self.dynamic_pressure, self.conditions.area())
    }

    /// Drag over dynamic pressure times reference area.
    pub open spec fn drag_coefficient(self) -> Quotient {
        force_coefficient(self.drag, self.dynamic_pressure, self.conditions.area())
    }

    /// Pitching moment over dynamic pressure times reference area times chord.
    pub open spec fn moment_coefficient(self) -> Quotient {
        Quotient {
            num: self.moment * SCALE_CUBED,
            den: self.dynamic_pressure * self.conditions.area() * self.conditions.chord,
        }
    }

    /// Pressure coefficient at one tap: the tap pressure over the dynamic
    /// pressure, plus one.
    pub open spec fn pressure_coefficient(self, tap: int) -> Quotient {
        Quotient { num: self.pressures[tap] + self.dynamic_pressure, den: self.dynamic_pressure }
    }

    /// The numerators of the pressure coefficients of one side. Their common
    /// denominator is the dynamic pressure.
    pub open spec fn side_numerators(self, side: bool) -> Seq<int> {
        Seq::new(
            TAPS_PER_SIDE as nat,
            |k: int| self.pressure_coefficient(tap_index(side, k)).num,
        )
    }

    /// Twice the dynamic pressure times the integral, along the chord, of the
    /// pressure coefficient over one side: the trapezoidal sum of the
    /// numerators, which is the dynamic pressure times that of the
    /// coefficients themselves.
    pub open spec fn side_sum(self, side: bool) -> int {
        trapezoid_sum(self.conditions.side_positions(side), self.side_numerators(side))
    }

    /// Lift coefficient from the pressure taps: the integral of the pressure
    /// coefficient over side `false`, less that over side `true`, over the
    /// chord.
    pub open spec fn lift_coefficient_via_pressures(self) -> Quotient {
        Quotient {
            num: self.side_sum(false) - self.side_sum(true),
            den: 2 * self.dynamic_pressure * self.conditions.chord,
        }
    }
}

impl TimeDatum {
    /// Lift coefficient: lift over dynamic pressure times reference area.
    pub fn lift_coefficient(&self) -> (r: Ratio)
        ensures
            r@ == self@.lift_coefficient(),
    {
        force_ratio(self.lift, self.dynamic_pressure, self.conditions.area())
    }

    /// Drag coefficient: drag over dynamic pressure times reference area.
    pub fn drag_coefficient(&self) -> (r: Ratio)
        ensures
            r@ == self@.drag_coefficient(),
    {
        force_ratio(self.drag, self.dynamic_pressure, self.conditions.area())
    }

    /// Moment coefficient: pitching moment over dynamic pressure times
    /// reference area times chord.
    pub fn moment_coefficient(&self) -> (r: Ratio)
        ensures
            r@ == self@.moment_coefficient(),
    {
        let area: i64 = self.conditions.area();
        let q: i32 = self.dynamic_pressure;
        let chord: i32 = self.conditions.chord;
        let span: i32 = self.conditions.span;
        assert(-0x8000_0000 * SCALE_CUBED <= self.moment * SCALE_CUBED <= 0x8000_0000
            * SCALE_CUBED);
        assert(-0x4000_0000_0000_0000 <= area <= 0x4000_0000_0000_0000) by (nonlinear_arith)
            requires
                area == span * chord,
                -0x8000_0000 <= span <= 0x8000_0000,
                -0x8000_0000 <= chord <= 0x8000_0000,
        ;
        assert(-0x2000_0000_0000_0000_0000_0000 <= q * area <= 0x2000_0000_0000_0000_0000_0000)
            by (nonlinear_arith)
            requires
                -0x4000_0000_0000_0000 <= area <= 0x4000_0000_0000_0000,
                -0x8000_0000 <= q <= 0x8000_0000,
        ;
        let qa: i128 = q as i128 * area as i128;
        assert(-0x1000_0000_0000_0000_0000_0000_0000_0000 <= qa * chord
            <= 0x1000_0000_0000_0000_0000_0000_0000_0000) by (nonlinear_arith)
            requires
                -0x2000_0000_0000_0000_0000_0000 <= qa <= 0x2000_0000_0000_0000_0000_0000,
                -0x8000_0000 <= chord <= 0x8000_0000,
        ;
        Ratio { num: self.moment as i128 * SCALE_CUBED as i128, den: qa * chord as i128 }
    }

    /// Pressure coefficients along one side of the wing: for each tap of the
    /// side, in the order of the taps, its distance from the leading edge and
    /// its pressure coefficient, the tap pressure over the dynamic pressure
    /// plus one. Side `false` has the taps of even index, side `true` those of
    /// odd index.
    pub fn pressure_coefficients(&self, side: bool) -> (r: [(i32, Ratio); 10])
        ensures
            forall|k: int|
                0 <= k < TAPS_PER_SIDE ==> (#[trigger] r[k]).0 == self@.conditions.side_positions(
                    side,
                )[k],
            forall|k: int|
                0 <= k < TAPS_PER_SIDE ==> (#[trigger] r[k]).1@ == self@.pressure_coefficient(
                    tap_index(side, k),
                ),
            forall|k: int|
                0 <= k < TAPS_PER_SIDE ==> i64::MIN <= (#[trigger] r[k]).1.num <= i64::MAX,
            self@.conditions.taps_ordered() ==> forall|j: int, k: int|
                0 <= j < k < TAPS_PER_SIDE ==> (#[trigger] r[j]).0 < (#[trigger] r[k]).0,
    {
        let mut readings: [(i32, Ratio); 10] = [(0i32, Ratio { num: 0, den: 0 }); 10];
        let side_index: usize = if side {
            1
        } else {
            0
        };
        proof {
            self.pressures.lemma_len();
        }
        let mut k: usize = 0;
        while k < 10
            invariant
                k <= 10,
                side_index == tap_index(side, 0),
                self.pressures@.len() == 20,
                forall|j: int|
                    0 <= j < k ==> (#[trigger] readings[j]).0
                        == self@.conditions.side_positions(side)[j],
                forall|j: int|
                    0 <= j < k ==> (#[trigger] readings[j]).1@ == self@.pressure_coefficient(
                        tap_index(side, j),
                    ),
                forall|j: int|
                    0 <= j < k ==> i64::MIN <= (#[trigger] readings[j]).1.num <= i64::MAX,
            decreases 10 - k,
        {
            let tap: usize = 2 * k + side_index;
            let coefficient = Ratio {
                num: self.pressures.get(tap) as i128 + self.dynamic_pressure as i128,
                den: self.dynamic_pressure as i128,
            };
            readings[k] = (self.conditions.pressure_positions[tap], coefficient);
            k += 1;
        }
        readings
    }

    /// Twice the dynamic pressure times the integral of the pressure
    /// coefficient over one side, by the trapezoidal rule.
    fn side_integral(&self, side: bool) -> (r: i128)
        ensures
            r == self@.side_sum(side),
            -(TAPS_PER_SIDE * MAX_TERM) <= r <= TAPS_PER_SIDE * MAX_TERM,
    {
        let coefficients = self.pressure_coefficients(side);
        let mut x: Vec<i32> = Vec::new();
        let mut y: Vec<i64> = Vec::new();
        let mut k: usize = 0;
        while k < 10
            invariant
                k <= 10,
                x@.len() == k,
                y@.len() == k,
                forall|j: int|
                    0 <= j < TAPS_PER_SIDE ==> (#[trigger] coefficients[j]).0
                        == self@.conditions.side_positions(side)[j],
                forall|j: int|
                    0 <= j < TAPS_PER_SIDE ==> (#[trigger] coefficients[j]).1@
                        == self@.pressure_coefficient(tap_index(side, j)),
                forall|j: int|
                    0 <= j < TAPS_PER_SIDE ==> i64::MIN <= (#[trigger] coefficients[j]).1.num
                        <= i64::MAX,
                forall|j: int|
                    0 <= j < k ==> (#[trigger] x@[j]) as int == self@.conditions.side_positions(
                        side,
                    )[j],
                forall|j: int|
                    0 <= j < k ==> (#[trigger] y@[j]) as int == self@.side_numerators(side)[j],
            decreases 10 - k,
        {
            let (position, coefficient) = coefficients[k];
            x.push(position);
            y.push(coefficient.num as i64);
            k += 1;
        }
        assert(positions_of(x@) =~= self@.conditions.side_positions(side));
        assert(values_of(y@) =~= self@.side_numerators(side));
        let integral = trap_int(x.as_slice(), y.as_slice()).unwrap();
        integral.num
    }

    /// Lift coefficient from the pressure taps, to hold against the one from
    /// the balance: the pressure coefficients of each side are integrated
    /// along the chord by the trapezoidal rule, and the integral over side
    /// `true` is taken from that over side `false` and divided by the chord.
    pub fn lift_coefficient_via_pressures(&self) -> (r: Ratio)
        ensures
            r@ == self@.lift_coefficient_via_pressures(),
    {
        let first: i128 = self.side_integral(false);
        let second: i128 = self.side_integral(true);
        let q: i32 = self.dynamic_pressure;
        let chord: i32 = self.conditions.chord;
        assert(-0x8000_0000_0000_0000 <= 2 * q * chord <= 0x8000_0000_0000_0000)
            by (nonlinear_arith)
            requires
                -0x8000_0000 <= q <= 0x8000_0000,
                -0x8000_0000 <= chord <= 0x8000_0000,
        ;
        Ratio { num: first - second, den: 2 * q as i128 * chord as i128 }
    }
}

/// The exact quotient of a force by dynamic pressure times area.
fn force_ratio(force: i32, dynamic_pressure: i32, area: i64) -> (r: Ratio)
    ensures
        r@ == force_coefficient(force as int, dynamic_pressure as int, area as int),
{
    assert(-0x8000_0000 * 0x8000_0000_0000_0000 <= dynamic_pressure * area <= 0x8000_0000
        * 0x8000_0000_0000_0000) by (nonlinear_arith)
        requires
            -0x8000_0000 <= dynamic_pressure <= 0x8000_0000,
            -0x8000_0000_0000_0000 <= area <= 0x8000_0000_0000_0000,
    ;
    assert(-0x8000_0000 * SCALE_SQUARED <= force * SCALE_SQUARED <= 0x8000_0000 * SCALE_SQUARED);
    Ratio {
        num: force as i128 * SCALE_SQUARED as i128,
        den: dynamic_pressure as i128 * area as i128,
    }
}

/// The three balance coefficients go inversely with dynamic pressure and with
/// reference area: a reading with the same forces and moment, `a` times the
/// dynamic pressure and `b` times the reference area at the same chord has
/// coefficients that, taken `a * b` times, equal those of the first. So
/// doubling the dynamic pressure alone halves each coefficient, and doubling
/// both quarters it.
pub proof fn lemma_coefficients_scale(first: DatumView, second: DatumView, a: int, b: int)
    requires
        second.lift == first.lift,
        second.drag == first.drag,
        second.moment == first.moment,
        second.dynamic_pressure == a * first.dynamic_pressure,
        second.conditions.area() == b * first.conditions.area(),
        second.conditions.chord == first.conditions.chord,
    ensures
        second.lift_coefficient().times_equals(a * b, first.lift_coefficient()),
        second.drag_coefficient().times_equals(a * b, first.drag_coefficient()),
        second.moment_coefficient().times_equals(a * b, first.moment_coefficient()),
{
    let q = first.dynamic_pressure;
    let area = first.conditions.area();
    let chord = first.conditions.chord;
    lemma_scaled_quotient(first.lift * SCALE_SQUARED, q, area, 1, a, b);
    lemma_scaled_quotient(first.drag * SCALE_SQUARED, q, area, 1, a, b);
    lemma_scaled_quotient(first.moment * SCALE_CUBED, q, area, chord, a, b);
    assert(q * area == q * area * 1 && (a * q) * (b * area) == (a * q) * (b * area) * 1)
        by (nonlinear_arith);
}

/// Doubling the dynamic pressure and the reference area at once, with forces,
/// moment and chord as they were, quarters the three balance coefficients.
pub proof fn lemma_doubling_quarters(first: DatumView, second: DatumView)
    requires
        second.lift == first.lift,
        second.drag == first.drag,
        second.moment == first.moment,
        second.dynamic_pressure == 2 * first.dynamic_pressure,
        second.conditions.area() == 2 * first.conditions.area(),
        second.conditions.chord == first.conditions.chord,
    ensures
        second.lift_coefficient().times_equals(4, first.lift_coefficient()),
        second.drag_coefficient().times_equals(4, first.drag_coefficient()),
        second.moment_coefficient().times_equals(4, first.moment_coefficient()),
{
    lemma_coefficients_scale(first, second, 2, 2);
}

/// `a * b` times the quotient of `num` by `(a * q) * (b * area) * chord` is
/// the quotient of `num` by `q * area * chord`.
proof fn lemma_scaled_quotient(num: int, q: int, area: int, chord: int, a: int, b: int)
    ensures
        (a * b) * num * (q * area * chord) == num * ((a * q) * (b * area) * chord),
{
    let den = q * area * chord;
    assert((a * q) * (b * area) * chord == (a * b) * den) by (nonlinear_arith)
        requires
            den == q * area * chord,
    ;
    assert((a * b) * num * den == num * ((a * b) * den)) by (nonlinear_arith);
}

} // verus!
