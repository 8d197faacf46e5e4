use windtunnel::cell::Cell;
use windtunnel::conditions::Conditions;
use windtunnel::datum::TimeDatum;
use windtunnel::error::ReductionError;
use windtunnel::pipeline::coefficient_series;
use windtunnel::pipeline::read_rows;
use windtunnel::pipeline::reduce_runs;
use windtunnel::pipeline::reduce_table;
use windtunnel::pipeline::CoefficientSeries;
use windtunnel::ratio::Ratio;
use windtunnel::runs::detect_runs;
use windtunnel::runs::row_leads;
use windtunnel::runs::Run;
use windtunnel::schema::standard_tap_positions;

use std::sync::Arc;

fn text(s: &str) -> Cell {
    Cell::Text(String::from(s))
}

/// A row of 44 cells that begins with `first` and is empty after it.
fn row_of(first: Cell) -> Vec<Cell> {
    let mut row = vec![Cell::Empty; 44];
    row[0] = first;
    row
}

/// A readable row: lift in newtons, angle in degrees, dynamic pressure 50 Pa,
/// taps at `tap` millionths of a kilopascal.
fn reading_row(lift: i32, aoa: i32, tap: i32) -> Vec<Cell> {
    let mut row = row_of(Cell::Number(0));
    row[1] = Cell::Number(lift * 1_000_000);
    row[2] = Cell::Number(1_000_000);
    row[3] = Cell::Number(-500_000);
    row[4] = Cell::Number(aoa * 1_000_000);
    row[5] = Cell::Number(50_000_000);
    row[6] = Cell::Number(9_000_000);
    for column in 7..27 {
        row[column] = Cell::Number(tap);
    }
    row[38] = Cell::Number(100_000_000);
    row
}

/// Conditions of a wing of 1000 mm by 500 mm.
fn conditions_row() -> Vec<Cell> {
    let mut row = row_of(text("conditions"));
    row[39] = Cell::Number(20_000_000);
    row[40] = Cell::Number(1_013_250_000);
    row[41] = Cell::Number(1_204_000);
    row[42] = Cell::Number(1_000_000_000);
    row[43] = Cell::Number(500_000_000);
    row
}

/// Five rows of headings, then the conditions.
fn preamble() -> Vec<Vec<Cell>> {
    let mut table = Vec::new();
    for _ in 0..5 {
        table.push(row_of(text("heading")));
    }
    table.push(conditions_row());
    table
}

fn flagged(flags: &[bool]) -> Vec<Vec<Cell>> {
    flags.iter().map(|&flag| vec![if flag { Cell::Number(1) } else { text("-") }]).collect()
}

#[test]
fn a_row_leads_when_its_first_cell_is_a_number() {
    assert!(row_leads(&[Cell::Number(0), text("x")]));
    assert!(!row_leads(&[text("x"), Cell::Number(0)]));
    assert!(!row_leads(&[Cell::Integer(4)]));
    assert!(!row_leads(&[Cell::Empty]));
    assert!(!row_leads(&[]));
}

#[test]
fn a_row_that_does_not_lead_parts_two_runs() {
    let table = flagged(&[true, true, false, true]);
    assert_eq!(detect_runs(&table), vec![Run { start: 0, len: 2 }, Run { start: 3, len: 1 }]);
}

#[test]
fn no_run_is_empty() {
    assert_eq!(detect_runs(&[]), vec![]);
    assert_eq!(detect_runs(&flagged(&[false])), vec![]);
    assert_eq!(detect_runs(&flagged(&[false, false, false])), vec![]);
    assert_eq!(
        detect_runs(&flagged(&[false, false, true, false, false, true, true, false, false])),
        vec![Run { start: 2, len: 1 }, Run { start: 5, len: 2 }]
    );
}

#[test]
fn a_run_may_reach_either_end_of_the_table() {
    assert_eq!(detect_runs(&flagged(&[true])), vec![Run { start: 0, len: 1 }]);
    assert_eq!(detect_runs(&flagged(&[true, true, true])), vec![Run { start: 0, len: 3 }]);
    assert_eq!(
        detect_runs(&flagged(&[true, false, true])),
        vec![Run { start: 0, len: 1 }, Run { start: 2, len: 1 }]
    );
}

#[test]
fn a_row_without_cells_ends_a_run() {
    let mut table = flagged(&[true, true, true]);
    table[1] = Vec::new();
    assert_eq!(detect_runs(&table), vec![Run { start: 0, len: 1 }, Run { start: 2, len: 1 }]);
}

#[test]
fn rows_are_read_one_by_one() {
    let conditions = Arc::new(Conditions::read(&conditions_row(), standard_tap_positions()).unwrap());
    let table = vec![reading_row(1, 0, 0), reading_row(2, 0, 0), reading_row(3, 0, 0)];
    let readings = read_rows(&table[1..], &conditions).unwrap();
    assert_eq!(readings.len(), 2);
    assert_eq!(readings[0].lift, 2_000_000);
    assert_eq!(readings[1].lift, 3_000_000);
    assert!(Arc::ptr_eq(&readings[0].conditions, &conditions));
    assert!(Arc::ptr_eq(&readings[1].conditions, &conditions));
    assert_eq!(read_rows(&[], &conditions), Ok(vec![]));
}

#[test]
fn reading_fails_on_the_first_unreadable_row() {
    let conditions = Arc::new(Conditions::read(&conditions_row(), standard_tap_positions()).unwrap());
    let mut table = vec![reading_row(1, 0, 0), reading_row(2, 0, 0), reading_row(3, 0, 0)];
    table[1][3] = text("?");
    table[2][1] = Cell::Fault;
    assert_eq!(
        read_rows(&table, &conditions),
        Err(ReductionError::TypeMismatch { column: 3, cell: text("?") })
    );
    assert_eq!(
        read_rows(&table[2..], &conditions),
        Err(ReductionError::TypeMismatch { column: 1, cell: Cell::Fault })
    );
    assert!(read_rows(&table[..1], &conditions).is_ok());
}

#[test]
fn each_run_gives_one_mean_in_the_order_of_the_table() {
    let mut table = preamble();
    table.push(reading_row(10, 4, 1));
    table.push(reading_row(12, 4, 3));
    table.push(row_of(text("next angle")));
    table.push(reading_row(7, 2, 5));
    let means = reduce_table(&table, standard_tap_positions()).unwrap();
    assert_eq!(means.len(), 2);
    assert_eq!(means[0].lift, 11_000_000);
    assert_eq!(means[0].aoa, 4_000_000);
    assert_eq!(means[0].pressures.get(0), 2_000);
    assert_eq!(means[0].wall_pressure, 100_000_000_000);
    assert_eq!(means[1].lift, 7_000_000);
    assert_eq!(means[1].aoa, 2_000_000);
    assert_eq!(means[1].pressures.get(19), 5_000);
    assert_eq!(means[0].conditions.span, 1_000_000);
    assert_eq!(means[0].conditions.chord, 500_000);
    assert!(Arc::ptr_eq(&means[0].conditions, &means[1].conditions));
}

#[test]
fn runs_are_not_sorted_by_angle() {
    let mut table = preamble();
    for aoa in [6, -2, 4] {
        table.push(reading_row(1, aoa, 0));
        table.push(Vec::new());
    }
    let means = reduce_table(&table, standard_tap_positions()).unwrap();
    let angles: Vec<i32> = means.iter().map(|mean| mean.aoa).collect();
    assert_eq!(angles, vec![6_000_000, -2_000_000, 4_000_000]);
}

#[test]
fn a_table_without_runs_reduces_to_nothing() {
    let means = reduce_table(&preamble(), standard_tap_positions()).unwrap();
    assert!(means.is_empty());
}

#[test]
fn a_table_without_conditions_is_refused() {
    let mut table = preamble();
    table[5][41] = text("dense");
    table.push(reading_row(1, 0, 0));
    assert_eq!(
        reduce_table(&table, standard_tap_positions()),
        Err(ReductionError::TypeMismatch { column: 41, cell: text("dense") })
    );
    let short = vec![reading_row(1, 0, 0), reading_row(1, 0, 0)];
    assert_eq!(
        reduce_table(&short, standard_tap_positions()),
        Err(ReductionError::TypeMismatch { column: 39, cell: Cell::Empty })
    );
    assert_eq!(
        reduce_table(&[], standard_tap_positions()),
        Err(ReductionError::TypeMismatch { column: 39, cell: Cell::Empty })
    );
}

#[test]
fn the_first_unreadable_row_stops_the_reduction() {
    let mut table = preamble();
    table.push(reading_row(1, 0, 0));
    table.push(row_of(text("-")));
    table.push(reading_row(2, 0, 0));
    table.push(reading_row(3, 0, 0));
    table[8][26] = Cell::Integer(5);
    table[9][2] = Cell::Empty;
    assert_eq!(
        reduce_table(&table, standard_tap_positions()),
        Err(ReductionError::TypeMismatch { column: 26, cell: Cell::Integer(5) })
    );
    // A row that does not lead is never read.
    table[7][1] = Cell::Fault;
    table[8][26] = Cell::Number(0);
    assert_eq!(
        reduce_table(&table, standard_tap_positions()),
        Err(ReductionError::TypeMismatch { column: 2, cell: Cell::Empty })
    );
}

#[test]
fn runs_reduce_under_given_conditions() {
    let conditions = Arc::new(Conditions::read(&conditions_row(), standard_tap_positions()).unwrap());
    let table = vec![reading_row(4, 1, 0), reading_row(5, 1, 0), Vec::new(), reading_row(9, 3, 0)];
    let means = reduce_runs(&table, &conditions).unwrap();
    assert_eq!(means.len(), 2);
    assert_eq!(means[0].lift, 4_500_000);
    assert_eq!(means[1].lift, 9_000_000);
    assert!(Arc::ptr_eq(&means[0].conditions, &conditions));
    assert!(Arc::ptr_eq(&means[1].conditions, &conditions));
}

#[test]
fn three_equal_rows_give_a_lift_coefficient_of_two_fifths() {
    let mut table = preamble();
    for _ in 0..3 {
        table.push(reading_row(10, 0, 0));
    }
    let means = reduce_table(&table, standard_tap_positions()).unwrap();
    assert_eq!(means.len(), 1);
    assert_eq!(means[0].lift, 10_000_000);
    assert_eq!(means[0].dynamic_pressure, 50_000_000);
    assert_eq!(means[0].conditions.area(), 500_000_000_000);
    let coefficient = means[0].lift_coefficient();
    assert_eq!(coefficient.num as f64 / coefficient.den as f64, 0.4);
}

#[test]
fn the_series_follow_the_readings() {
    let mut table = preamble();
    table.push(reading_row(10, 4, 1));
    table.push(row_of(Cell::Empty));
    table.push(reading_row(5, -1, 2));
    let means: Vec<TimeDatum> = reduce_table(&table, standard_tap_positions()).unwrap();
    let series: CoefficientSeries = coefficient_series(&means);
    assert_eq!(series.aoa, vec![4_000_000, -1_000_000]);
    assert_eq!(series.lift, vec![means[0].lift_coefficient(), means[1].lift_coefficient()]);
    assert_eq!(series.drag, vec![means[0].drag_coefficient(), means[1].drag_coefficient()]);
    assert_eq!(series.moment, vec![means[0].moment_coefficient(), means[1].moment_coefficient()]);
    assert_eq!(
        series.lift_via_pressures,
        vec![means[0].lift_coefficient_via_pressures(), means[1].lift_coefficient_via_pressures()]
    );
    let q: i128 = 50_000_000;
    let area: i128 = 500_000_000_000;
    assert_eq!(series.lift[1], Ratio { num: 5_000_000_000_000_000_000, den: q * area });
    assert_eq!(series.moment[0], Ratio { num: -500_000_000_000_000_000_000_000, den: q * area * 500_000 });
    let empty = coefficient_series(&[]);
    assert!(empty.aoa.is_empty() && empty.lift.is_empty() && empty.moment.is_empty());
}
