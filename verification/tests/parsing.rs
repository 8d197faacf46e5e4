use std::sync::Arc;

use windtunnel::cell::get_val;
use windtunnel::cell::read_columns;
use windtunnel::cell::Cell;
use windtunnel::conditions::Conditions;
use windtunnel::datum::TimeDatum;
use windtunnel::error::ReductionError;
use windtunnel::fixed::floor_div;
use windtunnel::pressures::PressureReadings;
use windtunnel::schema::standard_tap_positions;

/// A row of 44 empty cells.
fn blank_row() -> Vec<Cell> {
    let mut row = Vec::new();
    for _ in 0..44 {
        row.push(Cell::Empty);
    }
    row
}

/// A row whose reading columns hold `1, 2, ..` newtons and so on, whose taps
/// hold `tap` kilopascals each, and whose wall pressure is 1.5 kPa.
fn reading_row(tap: i32) -> Vec<Cell> {
    let mut row = blank_row();
    row[0] = Cell::Number(12_000_000);
    for column in 1..7 {
        row[column] = Cell::Number(column as i32 * 1_000_000);
    }
    for column in 7..27 {
        row[column] = Cell::Number(tap);
    }
    row[38] = Cell::Number(1_500_000);
    row
}

fn conditions_row() -> Vec<Cell> {
    let mut row = blank_row();
    row[0] = Cell::Text(String::from("conditions"));
    row[39] = Cell::Number(20_000_000);
    row[40] = Cell::Number(1_013_250_000);
    row[41] = Cell::Number(1_204_000);
    row[42] = Cell::Number(300_000_000);
    row[43] = Cell::Number(150_000_000);
    row
}

#[test]
fn get_val_returns_the_number_in_the_column() {
    let row = vec![Cell::Empty, Cell::Number(-42), Cell::Number(7)];
    assert_eq!(get_val(&row, 1), Ok(-42));
    assert_eq!(get_val(&row, 2), Ok(7));
}

#[test]
fn get_val_rejects_text_and_hands_it_back() {
    let row = vec![Cell::Number(1), Cell::Text(String::from("n/a"))];
    assert_eq!(
        get_val(&row, 1),
        Err(ReductionError::TypeMismatch { column: 1, cell: Cell::Text(String::from("n/a")) })
    );
}

#[test]
fn get_val_rejects_every_kind_but_a_number() {
    let row = vec![Cell::Integer(3), Cell::Flag(true), Cell::Fault, Cell::Empty];
    assert_eq!(
        get_val(&row, 0),
        Err(ReductionError::TypeMismatch { column: 0, cell: Cell::Integer(3) })
    );
    assert_eq!(
        get_val(&row, 1),
        Err(ReductionError::TypeMismatch { column: 1, cell: Cell::Flag(true) })
    );
    assert_eq!(get_val(&row, 2), Err(ReductionError::TypeMismatch { column: 2, cell: Cell::Fault }));
    assert_eq!(get_val(&row, 3), Err(ReductionError::TypeMismatch { column: 3, cell: Cell::Empty }));
}

#[test]
fn get_val_finds_a_missing_cell_empty() {
    let row = vec![Cell::Number(1)];
    assert_eq!(get_val(&row, 5), Err(ReductionError::TypeMismatch { column: 5, cell: Cell::Empty }));
    let none: Vec<Cell> = Vec::new();
    assert_eq!(get_val(&none, 0), Err(ReductionError::TypeMismatch { column: 0, cell: Cell::Empty }));
}

#[test]
fn read_columns_keeps_the_order_of_the_list() {
    let row = vec![Cell::Number(10), Cell::Number(11), Cell::Number(12), Cell::Number(13)];
    assert_eq!(read_columns(&row, &[3, 0, 2]), Ok(vec![13, 10, 12]));
    assert_eq!(read_columns(&row, &[]), Ok(vec![]));
}

#[test]
fn read_columns_reports_the_first_listed_failure() {
    let row = vec![Cell::Number(10), Cell::Fault, Cell::Number(12), Cell::Flag(false)];
    assert_eq!(
        read_columns(&row, &[2, 3, 1]),
        Err(ReductionError::TypeMismatch { column: 3, cell: Cell::Flag(false) })
    );
    assert_eq!(
        read_columns(&row, &[0, 1, 3]),
        Err(ReductionError::TypeMismatch { column: 1, cell: Cell::Fault })
    );
}

#[test]
fn cell_clone_is_equal() {
    let cells = vec![
        Cell::Number(5),
        Cell::Integer(-9),
        Cell::Text(String::from("label")),
        Cell::Flag(false),
        Cell::Fault,
        Cell::Empty,
    ];
    for cell in &cells {
        assert_eq!(&cell.clone(), cell);
    }
    assert!(cells[0].is_number());
    assert!(!cells[1].is_number());
}

#[test]
fn floor_div_rounds_down() {
    assert_eq!(floor_div(7, 2), 3);
    assert_eq!(floor_div(-7, 2), -4);
    assert_eq!(floor_div(-8, 2), -4);
    assert_eq!(floor_div(0, 5), 0);
    assert_eq!(floor_div(-1, 1000), -1);
    assert_eq!(floor_div(999, 1000), 0);
    assert_eq!(floor_div(i128::MIN, 1), i128::MIN);
    assert_eq!(floor_div(i128::MAX, 1), i128::MAX);
    assert_eq!(floor_div(i128::MIN, i128::MAX), -2);
}

#[test]
fn conditions_are_brought_to_si_units() {
    let conditions = Conditions::read(&conditions_row(), standard_tap_positions()).unwrap();
    // 20 degrees Celsius are 293.15 K.
    assert_eq!(conditions.temperature, 293_150_000);
    // 1013.25 mbar are 101325 Pa.
    assert_eq!(conditions.pressure, 101_325_000_000);
    assert_eq!(conditions.density, 1_204_000);
    // 300 mm are 0.3 m, 150 mm are 0.15 m.
    assert_eq!(conditions.span, 300_000);
    assert_eq!(conditions.chord, 150_000);
    // 0.3 m times 0.15 m.
    assert_eq!(conditions.area(), 45_000_000_000);
    assert_eq!(conditions.area() as f64 / 1e12, 0.045);
}

#[test]
fn tap_positions_are_brought_to_metres() {
    let conditions = Conditions::read(&conditions_row(), standard_tap_positions()).unwrap();
    assert_eq!(
        conditions.pressure_positions,
        [
            760, 1_520, 3_810, 7_620, 11_430, 15_240, 19_050, 22_860, 38_000, 41_150, 62_000,
            59_440, 80_770, 77_730, 101_350, 96_020, 121_920, 114_300, 137_160, 129_540,
        ]
    );
}

#[test]
fn lengths_are_rounded_down_to_the_millionth() {
    let mut row = conditions_row();
    row[42] = Cell::Number(1_999);
    row[43] = Cell::Number(-1);
    let mut taps = [0i32; 20];
    taps[0] = 999;
    taps[1] = -1_001;
    taps[2] = 2_000;
    let conditions = Conditions::read(&row, taps).unwrap();
    assert_eq!(conditions.span, 1);
    assert_eq!(conditions.chord, -1);
    assert_eq!(conditions.pressure_positions[0], 0);
    assert_eq!(conditions.pressure_positions[1], -2);
    assert_eq!(conditions.pressure_positions[2], 2);
}

#[test]
fn conditions_at_the_ends_of_the_range() {
    let mut row = conditions_row();
    row[39] = Cell::Number(i32::MAX);
    row[40] = Cell::Number(i32::MIN);
    row[42] = Cell::Number(i32::MIN);
    row[43] = Cell::Number(i32::MAX);
    let conditions = Conditions::read(&row, [i32::MIN; 20]).unwrap();
    assert_eq!(conditions.temperature, 2_147_483_647 + 273_150_000);
    assert_eq!(conditions.pressure, -214_748_364_800);
    assert_eq!(conditions.span, -2_147_484);
    assert_eq!(conditions.chord, 2_147_483);
    assert_eq!(conditions.pressure_positions, [-2_147_484; 20]);
    assert_eq!(conditions.area(), -2_147_484i64 * 2_147_483);
}

#[test]
fn conditions_fail_on_the_first_bad_column() {
    let mut row = conditions_row();
    row[43] = Cell::Text(String::from("chord"));
    row[41] = Cell::Integer(1);
    assert_eq!(
        Conditions::read(&row, standard_tap_positions()),
        Err(ReductionError::TypeMismatch { column: 41, cell: Cell::Integer(1) })
    );
    let short = vec![Cell::Number(1); 42];
    assert_eq!(
        Conditions::read(&short, standard_tap_positions()),
        Err(ReductionError::TypeMismatch { column: 42, cell: Cell::Empty })
    );
    assert_eq!(
        Conditions::read(&[], standard_tap_positions()),
        Err(ReductionError::TypeMismatch { column: 39, cell: Cell::Empty })
    );
}

#[test]
fn tap_pressures_are_brought_to_pascals() {
    let mut row = reading_row(0);
    for tap in 0..20 {
        row[7 + tap] = Cell::Number(tap as i32 - 5);
    }
    let pressures = PressureReadings::read(&row).unwrap();
    for tap in 0..20 {
        assert_eq!(pressures.get(tap), (tap as i64 - 5) * 1000);
    }
}

#[test]
fn tap_pressures_at_the_ends_of_the_range() {
    let mut row = reading_row(i32::MAX);
    row[7] = Cell::Number(i32::MIN);
    let pressures = PressureReadings::read(&row).unwrap();
    assert_eq!(pressures.get(0), -2_147_483_648_000);
    assert_eq!(pressures.get(19), 2_147_483_647_000);
}

#[test]
fn tap_pressures_fail_on_the_first_bad_tap() {
    let mut row = reading_row(1);
    row[20] = Cell::Empty;
    row[12] = Cell::Fault;
    assert_eq!(
        PressureReadings::read(&row),
        Err(ReductionError::TypeMismatch { column: 12, cell: Cell::Fault })
    );
}

#[test]
fn a_reading_is_read_from_its_columns() {
    let conditions =
        Arc::new(Conditions::read(&conditions_row(), standard_tap_positions()).unwrap());
    let datum = TimeDatum::read(&reading_row(2_000), conditions.clone()).unwrap();
    assert_eq!(datum.lift, 1_000_000);
    assert_eq!(datum.drag, 2_000_000);
    assert_eq!(datum.moment, 3_000_000);
    assert_eq!(datum.aoa, 4_000_000);
    assert_eq!(datum.dynamic_pressure, 5_000_000);
    assert_eq!(datum.wind_speed, 6_000_000);
    // 1.5 kPa are 1500 Pa.
    assert_eq!(datum.wall_pressure, 1_500_000_000);
    for tap in 0..20 {
        assert_eq!(datum.pressures.get(tap), 2_000_000);
    }
    assert!(Arc::ptr_eq(&datum.conditions, &conditions));
}

#[test]
fn a_reading_fails_on_the_first_bad_column_in_reading_order() {
    let conditions =
        Arc::new(Conditions::read(&conditions_row(), standard_tap_positions()).unwrap());
    // Wall pressure is taken before wind speed, and both before the taps.
    let mut row = reading_row(1);
    row[6] = Cell::Fault;
    row[38] = Cell::Empty;
    row[9] = Cell::Flag(true);
    assert_eq!(
        TimeDatum::read(&row, conditions.clone()),
        Err(ReductionError::TypeMismatch { column: 38, cell: Cell::Empty })
    );
    row[38] = Cell::Number(0);
    assert_eq!(
        TimeDatum::read(&row, conditions.clone()),
        Err(ReductionError::TypeMismatch { column: 6, cell: Cell::Fault })
    );
    row[6] = Cell::Number(0);
    assert_eq!(
        TimeDatum::read(&row, conditions.clone()),
        Err(ReductionError::TypeMismatch { column: 9, cell: Cell::Flag(true) })
    );
    row[9] = Cell::Number(0);
    assert!(TimeDatum::read(&row, conditions).is_ok());
}

#[test]
fn a_short_row_is_not_a_reading() {
    let conditions =
        Arc::new(Conditions::read(&conditions_row(), standard_tap_positions()).unwrap());
    let row = vec![Cell::Number(1); 27];
    assert_eq!(
        TimeDatum::read(&row, conditions),
        Err(ReductionError::TypeMismatch { column: 38, cell: Cell::Empty })
    );
}
