//! Integration of sampled curves by the trapezoidal rule.

use vstd::prelude::*;
use crate::error::ReductionError;
use crate::ratio::Quotient;
use crate::ratio::Ratio;

verus! {

/// The most sample points that one integration takes.
pub const MAX_POINTS: usize = 0x8000_0000;

/// A bound on the magnitude of one term of the trapezoidal sum, whatever the
/// two points are.
pub const MAX_TERM: i128 = 0x1_0000_0000_0000_0000_0000_0000;

/// The abscissae of a curve as integers.
pub open spec fn positions_of(x: Seq<i32>) -> Seq<int> {
    x.map_values(|v: i32| v as int)
}

/// The ordinates of a curve as integers.
pub open spec fn values_of(y: Seq<i64>) -> Seq<int> {
    y.map_values(|v: i64| v as int)
}

/// Twice the area under the polygon through the first `n` points
/// `(x[0], y[0])`, `(x[1], y[1])`, ...: the sum, over each pair of neighbours,
/// of the step in `x` times the sum of the two ordinates.
pub open spec fn trapezoid_upto(x: Seq<int>, y: Seq<int>, n: int) -> int
    decreases n,
{
    if n < 2 {
        0
    } else {
        trapezoid_upto(x, y, n - 1) + (x[n - 1] - x[n - 2]) * (y[n - 1] + y[n - 2])
    }
}

/// Twice the area under the polygon through all the points of a curve.
pub open spec fn trapezoid_sum(x: Seq<int>, y: Seq<int>) -> int {
    trapezoid_upto(x, y, x.len() as int)
}

/// The integral of a curve by the trapezoidal rule, as an exact quotient.
pub open spec fn trapezoid_integral(x: Seq<int>, y: Seq<int>) -> Quotient {
    Quotient { num: trapezoid_sum(x, y), den: 2 }
}

/// Integrates the curve through the points `(x[i], y[i])` by the trapezoidal
/// rule: the sum over neighbouring points of
/// `(x[i + 1] - x[i]) * (y[i + 1] + y[i]) / 2`.
///
/// The result is exact: its numerator is the sum of the products, its
/// denominator is 2. A curve of fewer than two points has integral zero.
/// Fails with `MismatchedLengths` exactly when `x` and `y` differ in length.
///
/// The sum is kept in 128 bits, which hold the terms of up to `MAX_POINTS`
/// points whatever their values are, and the result is never more than as
/// many times `MAX_TERM` away from zero as there are points.
pub fn trap_int(x: &[i32], y: &[i64]) -> (r: Result<Ratio, ReductionError>)
    requires
        x@.len() <= MAX_POINTS,
    ensures
        x@.len() != y@.len() ==> r == Err::<Ratio, ReductionError>(
            ReductionError::MismatchedLengths { positions: x@.len() as usize, values: y@.len() as usize },
        ),
        x@.len() == y@.len() ==> r is Ok && r->Ok_0@ == trapezoid_integral(
            positions_of(x@),
            values_of(y@),
        ),
        r is Ok ==> -(x@.len() * MAX_TERM) <= r->Ok_0.num <= x@.len() * MAX_TERM,
{
    if x.len() != y.len() {
        return Err(ReductionError::MismatchedLengths { positions: x.len(), values: y.len() });
    }
    let ghost xs = positions_of(x@);
    let ghost ys = values_of(y@);
    let mut sum: i128 = 0;
    let mut i: usize = 1;
    while i < x.len()
        invariant
            1 <= i,
            x@.len() == y@.len(),
            x@.len() <= MAX_POINTS,
            xs == positions_of(x@),
            ys == values_of(y@),
            x@.len() >= 1 ==> i <= x@.len() && sum == trapezoid_upto(xs, ys, i as int),
            x@.len() == 0 ==> sum == 0,
            -((i - 1) * MAX_TERM) <= sum <= (i - 1) * MAX_TERM,
        decreases x@.len() - i,
    {
        let step: i64 = x[i] as i64 - x[i - 1] as i64;
        let height: i128 = y[i] as i128 + y[i - 1] as i128;
        assert(-MAX_TERM <= step * height <= MAX_TERM) by (nonlinear_arith)
            requires
                -0x1_0000_0000 <= step <= 0x1_0000_0000,
                -0x1_0000_0000_0000_0000 <= height <= 0x1_0000_0000_0000_0000,
        ;
        let term: i128 = step as i128 * height;
        assert(xs[i as int] == x@[i as int] && xs[i - 1] == x@[i - 1]);
        assert(ys[i as int] == y@[i as int] && ys[i - 1] == y@[i - 1]);
        sum = sum + term;
        i += 1;
    }
    assert(xs.len() == x@.len());
    Ok(Ratio { num: sum, den: 2 })
}

/// Two points: the trapezoidal rule gives the area of the one trapezoid
/// between them.
pub proof fn lemma_trapezoid_two_points(x0: int, x1: int, y0: int, y1: int)
    ensures
        trapezoid_sum(seq![x0, x1], seq![y0, y1]) == (x1 - x0) * (y1 + y0),
{
    let x = seq![x0, x1];
    let y = seq![y0, y1];
    assert(trapezoid_upto(x, y, 1) == 0);
    assert(trapezoid_upto(x, y, 2) == trapezoid_upto(x, y, 1) + (x[1] - x[0]) * (y[1] + y[0]));
}

/// Adding the trapezoid between `p` and `q` to the area under a straight line
/// from `a` to `p` gives the area from `a` to `q`.
proof fn lemma_line_step(slope: int, offset: int, a: int, p: int, q: int)
    ensures
        slope * (p * p - a * a) + 2 * offset * (p - a) + (q - p) * ((slope * q + offset) + (slope
            * p + offset)) == slope * (q * q - a * a) + 2 * offset * (q - a),
{
    let aa = a * a;
    let pp = p * p;
    let qq = q * q;
    let step = q - p;
    let height = (slope * q + offset) + (slope * p + offset);
    assert(height == slope * (q + p) + 2 * offset) by (nonlinear_arith)
        requires
            height == (slope * q + offset) + (slope * p + offset),
    ;
    assert(step * (q + p) == qq - pp) by (nonlinear_arith)
        requires
            step == q - p,
            qq == q * q,
            pp == p * p,
    ;
    assert(step * height == slope * (step * (q + p)) + 2 * offset * step) by (nonlinear_arith)
        requires
            height == slope * (q + p) + 2 * offset,
    ;
    assert(slope * (pp - aa) + slope * (qq - pp) == slope * (qq - aa)) by (nonlinear_arith);
    assert(2 * offset * (p - a) + 2 * offset * (q - p) == 2 * offset * (q - a))
        by (nonlinear_arith);
}

/// A straight line `y = slope * x + offset`, sampled at any points, has under
/// its first `n` points exactly the area that calculus gives: twice the area is
/// `slope * (b * b - a * a) + 2 * offset * (b - a)` between the first abscissa
/// `a` and the last `b`.
pub proof fn lemma_trapezoid_line_upto(x: Seq<int>, y: Seq<int>, slope: int, offset: int, n: int)
    requires
        x.len() == y.len(),
        1 <= n <= x.len(),
        forall|i: int| 0 <= i < x.len() ==> #[trigger] y[i] == slope * x[i] + offset,
    ensures
        trapezoid_upto(x, y, n) == slope * (x[n - 1] * x[n - 1] - x[0] * x[0]) + 2 * offset * (x[n
            - 1] - x[0]),
    decreases n,
{
    if n == 1 {
        assert(slope * (x[0] * x[0] - x[0] * x[0]) + 2 * offset * (x[0] - x[0]) == 0)
            by (nonlinear_arith);
    } else {
        lemma_trapezoid_line_upto(x, y, slope, offset, n - 1);
        let a = x[0];
        let p = x[n - 2];
        let q = x[n - 1];
        assert(y[n - 1] == slope * q + offset);
        assert(y[n - 2] == slope * p + offset);
        lemma_line_step(slope, offset, a, p, q);
    }
}

/// The trapezoidal rule has no discretisation error on a straight line: for
/// samples of `y = slope * x + offset` between `a` and `b`, the integral is
/// `slope * (b * b - a * a) / 2 + offset * (b - a)`.
pub proof fn lemma_trapezoid_line(x: Seq<int>, y: Seq<int>, slope: int, offset: int)
    requires
        x.len() == y.len(),
        x.len() >= 1,
        forall|i: int| 0 <= i < x.len() ==> #[trigger] y[i] == slope * x[i] + offset,
    ensures
        trapezoid_integral(x, y).num == slope * (x.last() * x.last() - x.first() * x.first()) + 2
            * offset * (x.last() - x.first()),
        trapezoid_integral(x, y).den == 2,
{
    lemma_trapezoid_line_upto(x, y, slope, offset, x.len() as int);
}

/// A constant `y = level` over the points from `a` to `b` has the integral
/// `level * (b - a)`, wherever the points in between lie.
pub proof fn lemma_trapezoid_constant(x: Seq<int>, y: Seq<int>, level: int)
    requires
        x.len() == y.len(),
        x.len() >= 1,
        forall|i: int| 0 <= i < y.len() ==> #[trigger] y[i] == level,
    ensures
        trapezoid_integral(x, y).equals_int(level * (x.last() - x.first())),
{
    assert forall|i: int| 0 <= i < x.len() implies #[trigger] y[i] == 0 * x[i] + level by {}
    lemma_trapezoid_line(x, y, 0, level);
    let d = x.last() - x.first();
    let s = x.last() * x.last() - x.first() * x.first();
    assert(0 * s + 2 * level * d == (level * d) * 2) by (nonlinear_arith);
}

/// The trapezoidal sum is linear in the ordinates: ordinates that are all
/// `factor` times as large give `factor` times the sum. So ordinates that are
/// quotients with one denominator may be integrated by their numerators, and
/// the sum then divided by the denominator.
pub proof fn lemma_trapezoid_scales(x: Seq<int>, y: Seq<int>, scaled: Seq<int>, factor: int, n: int)
    requires
        0 <= n <= y.len(),
        y.len() == scaled.len(),
        forall|i: int| 0 <= i < y.len() ==> #[trigger] scaled[i] == factor * y[i],
    ensures
        trapezoid_upto(x, scaled, n) == factor * trapezoid_upto(x, y, n),
    decreases n,
{
    if n < 2 {
        assert(factor * 0 == 0);
    } else {
        lemma_trapezoid_scales(x, y, scaled, factor, n - 1);
        let step = x[n - 1] - x[n - 2];
        let rest = trapezoid_upto(x, y, n - 1);
        assert(scaled[n - 1] == factor * y[n - 1]);
        assert(scaled[n - 2] == factor * y[n - 2]);
        assert(factor * rest + step * (factor * y[n - 1] + factor * y[n - 2]) == factor * (rest
            + step * (y[n - 1] + y[n - 2]))) by (nonlinear_arith);
    }
}

} // verus!
