//! The reference conditions of a test: atmosphere, wing geometry and the
//! places of the pressure taps.

use vstd::prelude::*;
use crate::cell::first_offending;
use crate::cell::mismatch_at;
use crate::cell::number_at;
use crate::cell::read_columns;
use crate::cell::Cell;
use crate::error::ReductionError;
use crate::fixed::floor_div;
use crate::schema::standard_tap_table;
use crate::schema::CELSIUS_ZERO;
use crate::schema::CHORD_COLUMN;
use crate::schema::DENSITY_COLUMN;
use crate::schema::MILLIMETRES_PER_METRE;
use crate::schema::PASCALS_PER_MILLIBAR;
use crate::schema::SPAN_COLUMN;
use crate::schema::STATIC_PRESSURE_COLUMN;
use crate::schema::TAPS_PER_SIDE;
use crate::schema::TAP_COUNT;
use crate::schema::TEMPERATURE_COLUMN;

verus! {

/// Index, among all taps, of tap number `k` of one side. The taps of the two
/// sides alternate: side `false` has the even indices, side `true` the odd.
pub open spec fn tap_index(side: bool, k: int) -> int {
    2 * k + if side {
        1int
    } else {
        0int
    }
}

/// A length given in millimetres, in metres, rounded down to the next
/// millionth.
pub open spec fn metres_of(millimetres: int) -> int {
    millimetres / (MILLIMETRES_PER_METRE as int)
}

/// Whether a sequence of integers rises strictly.
pub open spec fn strictly_increasing(s: Seq<int>) -> bool {
    forall|i: int, j: int| 0 <= i < j < s.len() ==> s[i] < s[j]
}

/// Reference conditions as mathematical integers, in millionths of SI units.
pub struct ConditionsView {
    pub temperature: int,
    pub pressure: int,
    pub density: int,
    pub span: int,
    pub chord: int,
    pub pressure_positions: Seq<int>,
}

impl ConditionsView {
    /// Reference area, span times chord, in millionths of millionths of a
    /// square metre.
    pub open spec fn area(self) -> int {
        self.span * self.chord
    }

    /// Distances from the leading edge of the taps of one side, in the order
    /// of the taps.
    pub open spec fn side_positions(self, side: bool) -> Seq<int> {
        Seq::new(TAPS_PER_SIDE as nat, |k: int| self.pressure_positions[tap_index(side, k)])
    }

    /// Whether on each side the taps lie at strictly rising distances from the
    /// leading edge.
    pub open spec fn taps_ordered(self) -> bool {
        strictly_increasing(self.side_positions(false)) && strictly_increasing(
            self.side_positions(true),
        )
    }
}

/// The conditions under which a whole test was run. One value serves all the
/// readings of the test.
///
/// All fields are millionths: of a kelvin, a pascal, a kilogram per cubic
/// metre, and of a metre for span, chord and tap positions.
#[derive(Debug, PartialEq, Eq)]
pub struct Conditions {
    pub temperature: i64,
    pub pressure: i64,
    pub density: i32,
    pub span: i32,
    pub chord: i32,
    pub pressure_positions: [i32; 20],
}

impl Clone for Conditions {
    fn clone(&self) -> (r: Self)
        ensures
            r == *self,
    {
        Conditions {
            temperature: self.temperature,
            pressure: self.pressure,
            density: self.density,
            span: self.span,
            chord: self.chord,
            pressure_positions: self.pressure_positions,
        }
    }
}

impl View for Conditions {
    type V = ConditionsView;

    open spec fn view(&self) -> ConditionsView {
        ConditionsView {
            temperature: self.temperature as int,
            pressure: self.pressure as int,
            density: self.density as int,
            span: self.span as int,
            chord: self.chord as int,
            pressure_positions: self.pressure_positions@.map_values(|p: i32| p as int),
        }
    }
}

impl Conditions {
    /// The columns that `read` takes, in the order in which it takes them.
    pub open spec fn columns() -> Seq<usize> {
        seq![
            TEMPERATURE_COLUMN,
            STATIC_PRESSURE_COLUMN,
            DENSITY_COLUMN,
            SPAN_COLUMN,
            CHORD_COLUMN,
        ]
    }

    /// The conditions that `row` and the tap positions stand for, once brought
    /// to SI units: degrees Celsius to kelvins, millibars to pascals,
    /// millimetres to metres.
    pub open spec fn spec_read(row: Seq<Cell>, positions_mm: Seq<i32>) -> ConditionsView {
        ConditionsView {
            temperature: number_at(row, TEMPERATURE_COLUMN as int) + CELSIUS_ZERO,
            pressure: number_at(row, STATIC_PRESSURE_COLUMN as int) * PASCALS_PER_MILLIBAR,
            density: number_at(row, DENSITY_COLUMN as int),
            span: metres_of(number_at(row, SPAN_COLUMN as int)),
            chord: metres_of(number_at(row, CHORD_COLUMN as int)),
            pressure_positions: Seq::new(
                TAP_COUNT as nat,
                |i: int| metres_of(positions_mm[i] as int),
            ),
        }
    }

    /// Reference area: span times chord.
    pub fn area(&self) -> (r: i64)
        ensures
            r == self@.area(),
    {
        assert(-0x8000_0000 * 0x8000_0000 <= self.span * self.chord <= 0x8000_0000 * 0x8000_0000)
            by (nonlinear_arith)
            requires
                -0x8000_0000 <= self.span <= 0x8000_0000,
                -0x8000_0000 <= self.chord <= 0x8000_0000,
        ;
        self.span as i64 * self.chord as i64
    }

    /// Reads the reference conditions from their row of the table.
    ///
    /// `pressure_positions` are the distances of the taps from the leading
    /// edge, in millionths of a millimetre. Lengths are brought to metres by a
    /// division that rounds down. Fails with `TypeMismatch` exactly when one of
    /// the columns holds no measurement, with the first such column in the
    /// order temperature, static pressure, density, span, chord.
    pub fn read(row: &[Cell], pressure_positions: [i32; 20]) -> (r: Result<
        Conditions,
        ReductionError,
    >)
        ensures
            match first_offending(row@, Conditions::columns(), 0) {
                Some(column) => r == Err::<Conditions, ReductionError>(mismatch_at(row@, column)),
                None => r is Ok && r->Ok_0@ == Conditions::spec_read(row@, pressure_positions@),
            },
    {
        let columns: [usize; 5] = [
            TEMPERATURE_COLUMN,
            STATIC_PRESSURE_COLUMN,
            DENSITY_COLUMN,
            SPAN_COLUMN,
            CHORD_COLUMN,
        ];
        assert(columns@ =~= Conditions::columns());
        let values = match read_columns(row, &columns) {
            Ok(values) => values,
            Err(e) => {
                return Err(e);
            },
        };
        let mut positions: [i32; 20] = [0i32; 20];
        let mut i: usize = 0;
        while i < 20
            invariant
                i <= 20,
                forall|j: int|
                    0 <= j < i ==> (#[trigger] positions[j]) as int == metres_of(
                        pressure_positions[j] as int,
                    ),
            decreases 20 - i,
        {
            positions[i] = floor_div(pressure_positions[i] as i128, MILLIMETRES_PER_METRE as i128) as i32;
            i += 1;
        }
        let conditions = Conditions {
            temperature: values[0] as i64 + CELSIUS_ZERO,
            pressure: values[1] as i64 * PASCALS_PER_MILLIBAR,
            density: values[2],
            span: floor_div(values[3] as i128, MILLIMETRES_PER_METRE as i128) as i32,
            chord: floor_div(values[4] as i128, MILLIMETRES_PER_METRE as i128) as i32,
            pressure_positions: positions,
        };
        assert(conditions@.pressure_positions =~= Conditions::spec_read(
            row@,
            pressure_positions@,
        ).pressure_positions);
        Ok(conditions)
    }
}

/// On the standard wing the taps of each side lie at strictly rising
/// distances from the leading edge, whatever row the conditions are read
/// from.
pub proof fn lemma_standard_taps_ordered(row: Seq<Cell>)
    ensures
        Conditions::spec_read(row, standard_tap_table()).taps_ordered(),
{
    let table = standard_tap_table();
    let view = Conditions::spec_read(row, table);
    let upper = view.side_positions(false);
    let lower = view.side_positions(true);
    assert(upper =~= seq![
        760int,
        3_810int,
        11_430int,
        19_050int,
        38_000int,
        62_000int,
        80_770int,
        101_350int,
        121_920int,
        137_160int,
    ]);
    assert(lower =~= seq![
        1_520int,
        7_620int,
        15_240int,
        22_860int,
        41_150int,
        59_440int,
        77_730int,
        96_020int,
        114_300int,
        129_540int,
    ]);
}

} // verus!
