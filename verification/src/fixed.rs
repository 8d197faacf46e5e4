//! Fixed-point arithmetic on counts of millionths.

use vstd::prelude::*;
use vstd::arithmetic::div_mod::lemma_fundamental_div_mod;
use vstd::arithmetic::div_mod::lemma_fundamental_div_mod_converse;
use vstd::arithmetic::div_mod::lemma_mod_bound;

verus! {

/// Number of fixed-point steps in one unit.
pub const SCALE: i64 = 1_000_000;

/// `SCALE` to the second power.
pub const SCALE_SQUARED: i64 = 1_000_000_000_000;

/// `SCALE` to the third power.
pub const SCALE_CUBED: i64 = 1_000_000_000_000_000_000;

/// Sum of the first `n` of a sequence of integers.
pub open spec fn prefix_total(values: Seq<int>, n: int) -> int
    decreases n,
{
    if n <= 0 {
        0
    } else {
        prefix_total(values, n - 1) + values[n - 1]
    }
}

/// Sum of a sequence of integers.
pub open spec fn total(values: Seq<int>) -> int {
    prefix_total(values, values.len() as int)
}

/// Arithmetic mean of a non-empty sequence, rounded down.
pub open spec fn mean(values: Seq<int>) -> int
    recommends
        values.len() > 0,
{
    total(values) / (values.len() as int)
}

/// Quotient of `a` by a positive `n`, rounded towards negative infinity.
pub fn floor_div(a: i128, n: i128) -> (r: i128)
    requires
        n > 0,
    ensures
        r == a / n,
{
    if a >= 0 {
        a / n
    } else {
        let m: i128 = -(a + 1);
        let q: i128 = m / n;
        proof {
            let rem = m % n;
            lemma_fundamental_div_mod(m as int, n as int);
            lemma_mod_bound(m as int, n as int);
            assert(a == n * (-q - 1) + (n - 1 - rem)) by (nonlinear_arith)
                requires
                    m == n * q + rem,
                    a == -m - 1,
            ;
            lemma_fundamental_div_mod_converse(a as int, n as int, -q - 1, n - 1 - rem);
        }
        -q - 1
    }
}

/// A quotient rounded down lies between the bounds of what was divided:
/// if `lo * n <= a <= hi * n` then `lo <= a / n <= hi`.
pub proof fn lemma_floor_div_bounds(a: int, n: int, lo: int, hi: int)
    requires
        n > 0,
        lo * n <= a <= hi * n,
    ensures
        lo <= a / n <= hi,
{
    lemma_fundamental_div_mod(a, n);
    lemma_mod_bound(a, n);
    let q = a / n;
    let r = a % n;
    assert(lo <= q) by (nonlinear_arith)
        requires
            n > 0,
            lo * n <= a,
            a == n * q + r,
            0 <= r < n,
    ;
    assert(q <= hi) by (nonlinear_arith)
        requires
            n > 0,
            a <= hi * n,
            a == n * q + r,
            0 <= r < n,
    ;
}

/// A product divided by one of its factors gives the other, exactly.
pub proof fn lemma_floor_div_exact(v: int, n: int)
    requires
        n > 0,
    ensures
        (v * n) / n == v,
{
    lemma_fundamental_div_mod_converse(v * n, n, v, 0);
    assert(v * n == n * v + 0) by (nonlinear_arith);
}

/// The mean is the true arithmetic mean rounded down: it falls short of it by
/// less than one step.
pub proof fn lemma_mean_rounds_down(values: Seq<int>)
    requires
        values.len() > 0,
    ensures
        mean(values) * values.len() <= total(values) < (mean(values) + 1) * values.len(),
{
    let n = values.len() as int;
    let sum = total(values);
    lemma_fundamental_div_mod(sum, n);
    lemma_mod_bound(sum, n);
    let q = sum / n;
    let r = sum % n;
    assert(q * n <= sum < (q + 1) * n) by (nonlinear_arith)
        requires
            sum == n * q + r,
            0 <= r < n,
    ;
}

/// A series that holds one value throughout sums to that value times the
/// number of its terms.
pub proof fn lemma_constant_total(values: Seq<int>, value: int, n: int)
    requires
        0 <= n <= values.len(),
        forall|j: int| 0 <= j < values.len() ==> values[j] == value,
    ensures
        prefix_total(values, n) == value * n,
    decreases n,
{
    if n > 0 {
        lemma_constant_total(values, value, n - 1);
        assert(value * (n - 1) + value == value * n) by (nonlinear_arith);
    } else {
        assert(value * 0 == 0) by (nonlinear_arith);
    }
}

} // verus!
