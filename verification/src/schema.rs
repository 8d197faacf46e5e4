//! The layout of a table row: which column holds which quantity, in which
//! unit the instrument reports it, and the factor that brings it to SI.
//!
//! A numeric cell holds millionths of the unit its column is reported in.

use vstd::prelude::*;

verus! {

/// Lift force, newtons.
pub const LIFT_COLUMN: usize = 1;

/// Drag force, newtons.
pub const DRAG_COLUMN: usize = 2;

/// Pitching moment, newton metres.
pub const MOMENT_COLUMN: usize = 3;

/// Angle of attack, degrees.
pub const AOA_COLUMN: usize = 4;

/// Dynamic pressure, pascals.
pub const DYNAMIC_PRESSURE_COLUMN: usize = 5;

/// Wind speed, metres per second.
pub const WIND_SPEED_COLUMN: usize = 6;

/// First of the pressure-tap columns, kilopascals.
pub const FIRST_TAP_COLUMN: usize = 7;

/// Number of pressure taps, and of consecutive tap columns.
pub const TAP_COUNT: usize = 20;

/// Number of pressure taps on one side of the wing.
pub const TAPS_PER_SIDE: usize = 10;

/// Wall static pressure, kilopascals.
pub const WALL_PRESSURE_COLUMN: usize = 38;

/// Air temperature, degrees Celsius.
pub const TEMPERATURE_COLUMN: usize = 39;

/// Static pressure, millibars.
pub const STATIC_PRESSURE_COLUMN: usize = 40;

/// Air density, kilograms per cubic metre.
pub const DENSITY_COLUMN: usize = 41;

/// Wing span, millimetres.
pub const SPAN_COLUMN: usize = 42;

/// Wing chord, millimetres.
pub const CHORD_COLUMN: usize = 43;

/// Index of the table row that holds the reference conditions.
pub const CONDITIONS_ROW: usize = 5;

/// Pascals in one kilopascal.
pub const PASCALS_PER_KILOPASCAL: i64 = 1000;

/// Pascals in one millibar.
pub const PASCALS_PER_MILLIBAR: i64 = 100;

/// Millimetres in one metre.
pub const MILLIMETRES_PER_METRE: i32 = 1000;

/// Zero degrees Celsius in millionths of a kelvin.
pub const CELSIUS_ZERO: i64 = 273_150_000;

/// The distances of the taps of the standard wing from its leading edge, in
/// millionths of a millimetre, in the order of the taps: the upper and the
/// lower surface alternate, the upper surface first.
pub open spec fn standard_tap_table() -> Seq<i32> {
    seq![
        760_000i32,
        1_520_000i32,
        3_810_000i32,
        7_620_000i32,
        11_430_000i32,
        15_240_000i32,
        19_050_000i32,
        22_860_000i32,
        38_000_000i32,
        41_150_000i32,
        62_000_000i32,
        59_440_000i32,
        80_770_000i32,
        77_730_000i32,
        101_350_000i32,
        96_020_000i32,
        121_920_000i32,
        114_300_000i32,
        137_160_000i32,
        129_540_000i32,
    ]
}

/// The tap positions of the standard wing, as `Conditions::read` takes them.
pub fn standard_tap_positions() -> (r: [i32; 20])
    ensures
        r@ == standard_tap_table(),
{
    let r: [i32; 20] = [
        760_000,
        1_520_000,
        3_810_000,
        7_620_000,
        11_430_000,
        15_240_000,
        19_050_000,
        22_860_000,
        38_000_000,
        41_150_000,
        62_000_000,
        59_440_000,
        80_770_000,
        77_730_000,
        101_350_000,
        96_020_000,
        121_920_000,
        114_300_000,
        137_160_000,
        129_540_000,
    ];
    assert(r@ =~= standard_tap_table());
    r
}

} // verus!
