//! Exact quotients.

use vstd::prelude::*;
use vstd::math::abs;

verus! {

/// The quotient of two integers, as mathematics has it. A quotient whose
/// denominator is zero has no value.
pub struct Quotient {
    pub num: int,
    pub den: int,
}

impl Quotient {
    /// Whether the quotient has a value.
    pub open spec fn defined(self) -> bool {
        self.den != 0
    }

    /// Whether `factor` times this quotient has the value of `other`.
    pub open spec fn times_equals(self, factor: int, other: Quotient) -> bool {
        factor * self.num * other.den == other.num * self.den
    }

    /// Whether the quotient has a value, and one that lies strictly between
    /// `-bound` and `bound`.
    pub open spec fn magnitude_below(self, bound: int) -> bool {
        self.den != 0 && abs(self.num) < bound * abs(self.den)
    }

    /// Whether the quotient has the value of the integer `value`.
    pub open spec fn equals_int(self, value: int) -> bool {
        self.num == value * self.den
    }
}

/// A quotient of two machine integers, kept as it was computed: numerator and
/// denominator are not reduced, and the denominator may be zero or negative.
/// A zero denominator marks a quotient that has no value, such as a
/// coefficient taken at zero dynamic pressure.
#[derive(Clone, Copy, Debug, PartialEq, Eq)]
pub struct Ratio {
    pub num: i128,
    pub den: i128,
}

impl View for Ratio {
    type V = Quotient;

    open spec fn view(&self) -> Quotient {
        Quotient { num: self.num as int, den: self.den as int }
    }
}

impl Ratio {
    /// Whether the ratio has a value.
    pub fn is_defined(&self) -> (r: bool)
        ensures
            r == self@.defined(),
    {
        self.den != 0
    }

    /// Whether the ratio has a value, and one that lies strictly between
    /// `-bound` and `bound`.
    pub fn magnitude_below(&self, bound: u32) -> (r: bool)
        ensures
            r == self@.magnitude_below(bound as int),
    {
        if self.den == 0 {
            return false;
        }
        let num: u128 = magnitude(self.num);
        let den: u128 = magnitude(self.den);
        match (bound as u128).checked_mul(den) {
            Some(limit) => num < limit,
            None => true,
        }
    }
}

/// The magnitude of an integer.
fn magnitude(value: i128) -> (r: u128)
    ensures
        r == abs(value as int),
{
    if value >= 0 {
        value as u128
    } else {
        (-(value + 1)) as u128 + 1
    }
}

} // verus!
