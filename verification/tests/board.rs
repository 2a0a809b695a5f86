//! Board validator tests: acceptance cases plus rotations, reflections
//! and the documented rejection reasons.

use battleship::board::valid_setup;
use battleship::board::CellValue;

#[test]
fn test_valid_setup() {
    let setup: Vec<u8> = vec![
        0, 0, 0, 0, 0, 0, 0, 0, 0, 0, 0, 0, 0, 0, 0, 0, 0, 0, 0, 0, 0, 0, 0, 0, 0, 0, 0, 0, 0, 0,
        0, 0, 0, 0, 0, 0, 0, 0, 0, 0, 0, 0, 0, 0, 0, 0, 0, 0, 0, 0, 0, 0, 0, 0, 0, 0, 0, 0, 0, 0,
        0, 0, 0, 0, 0, 0, 0, 0, 0, 0, 0, 0, 0, 0, 0, 0, 0, 0, 0, 0, 0, 0, 0, 0, 0, 0, 0, 0, 0, 0,
        0, 0, 0, 0, 0, 0, 0, 0, 0, 0,
    ];
    assert!(!valid_setup(&setup));
    let setup: Vec<u8> = vec![
        0, 0, 0, 0, 0, 2, 2, 2, 2, 2, 0, 0, 0, 0, 0, 0, 0, 0, 0, 3, 0, 0, 0, 0, 0, 0, 0, 0, 0, 3,
        0, 0, 0, 0, 0, 0, 0, 0, 0, 3, 0, 0, 0, 0, 0, 0, 0, 0, 0, 3, 4, 4, 4, 0, 0, 0, 0, 0, 0, 0,
        0, 0, 0, 0, 0, 0, 0, 0, 0, 0, 0, 0, 5, 0, 0, 0, 0, 0, 0, 0, 0, 0, 5, 0, 0, 0, 0, 0, 0, 0,
        0, 0, 5, 0, 0, 0, 0, 0, 6, 6,
    ];
    assert!(valid_setup(&setup));
    let setup: Vec<u8> = vec![
        0, 0, 0, 0, 0, 2, 2, 2, 2, 2, 0, 0, 0, 0, 0, 0, 2, 0, 0, 3, 0, 0, 0, 0, 0, 0, 2, 0, 0, 3,
        0, 0, 0, 0, 0, 0, 2, 0, 0, 3, 0, 0, 0, 0, 0, 0, 2, 0, 0, 3, 4, 4, 4, 0, 0, 0, 2, 0, 0, 0,
        0, 0, 0, 0, 0, 0, 0, 0, 0, 0, 0, 0, 5, 0, 0, 0, 0, 0, 0, 0, 0, 0, 5, 0, 0, 0, 0, 0, 0, 0,
        0, 0, 5, 0, 0, 0, 0, 0, 6, 6,
    ];
    assert!(!valid_setup(&setup));
    let setup: Vec<u8> = vec![
        0, 0, 0, 0, 0, 2, 2, 2, 2, 2, 0, 0, 0, 0, 0, 0, 0, 0, 0, 3, 0, 0, 0, 0, 0, 0, 0, 0, 0, 3,
        0, 0, 0, 0, 0, 0, 0, 0, 0, 3, 0, 0, 0, 0, 0, 0, 0, 0, 0, 3, 4, 4, 4, 0, 0, 0, 0, 0, 0, 0,
        0, 0, 0, 0, 0, 0, 0, 0, 0, 0, 0, 0, 5, 0, 0, 0, 0, 0, 0, 0, 0, 0, 5, 0, 0, 0, 0, 0, 0, 0,
        0, 0, 5, 0, 0, 0, 0, 0, 0, 0,
    ];
    assert!(!valid_setup(&setup));
    let setup: Vec<u8> = vec![
        0, 0, 0, 0, 0, 2, 0, 0, 0, 0, 0, 0, 0, 0, 0, 2, 0, 0, 0, 3, 0, 0, 0, 0, 0, 2, 0, 0, 0, 3,
        0, 0, 0, 0, 0, 2, 0, 0, 0, 3, 0, 0, 0, 0, 0, 2, 0, 0, 0, 3, 4, 0, 0, 0, 0, 0, 0, 0, 0, 0,
        4, 0, 0, 0, 0, 0, 0, 0, 0, 0, 4, 0, 5, 6, 0, 0, 0, 0, 0, 0, 0, 0, 5, 6, 0, 0, 0, 0, 0, 0,
        0, 0, 5, 0, 0, 0, 0, 0, 0, 0,
    ];
    assert!(valid_setup(&setup));
    let setup: Vec<u8> = vec![
        0, 0, 0, 0, 0, 0, 2, 2, 2, 2, 2, 0, 0, 0, 0, 0, 0, 0, 0, 3, 0, 0, 0, 0, 0, 0, 0, 0, 0, 3,
        0, 0, 0, 0, 0, 0, 0, 0, 0, 3, 0, 0, 0, 0, 0, 0, 0, 0, 0, 3, 4, 0, 0, 0, 0, 0, 0, 0, 0, 0,
        4, 0, 0, 0, 0, 0, 0, 0, 0, 0, 4, 0, 5, 6, 0, 0, 0, 0, 0, 0, 0, 0, 5, 6, 0, 0, 0, 0, 0, 0,
        0, 0, 5, 0, 0, 0, 0, 0, 0, 0,
    ];
    assert!(!valid_setup(&setup));
    let setup: Vec<u8> = vec![
        0, 0, 0, 0, 0, 2, 2, 2, 2, 2, 3, 3, 3, 3, 4, 4, 4, 5, 5, 5, 6, 6, 0, 0, 0, 0, 0, 0, 0, 0,
        0, 0, 0, 0, 0, 0, 0, 0, 0, 0, 0, 0, 0, 0, 0, 0, 0, 0, 0, 0, 0, 0, 0, 0, 0, 0, 0, 0, 0, 0,
        0, 0, 0, 0, 0, 0, 0, 0, 0, 0, 0, 0, 0, 0, 0, 0, 0, 0, 0, 0, 0, 0, 0, 0, 0, 0, 0, 0, 0, 0,
        0, 0, 0, 0, 0, 0, 0, 0, 0, 0,
    ];
    assert!(valid_setup(&setup));
}

/// A reference layout used by several tests below.
fn fleet() -> Vec<u8> {
    vec![
        0, 0, 0, 0, 0, 2, 2, 2, 2, 2, 0, 0, 0, 0, 0, 0, 0, 0, 0, 3, 0, 0, 0, 0, 0, 0, 0, 0, 0, 3,
        0, 0, 0, 0, 0, 0, 0, 0, 0, 3, 0, 0, 0, 0, 0, 0, 0, 0, 0, 3, 4, 4, 4, 0, 0, 0, 0, 0, 0, 0,
        0, 0, 0, 0, 0, 0, 0, 0, 0, 0, 0, 0, 5, 0, 0, 0, 0, 0, 0, 0, 0, 0, 5, 0, 0, 0, 0, 0, 0, 0,
        0, 0, 5, 0, 0, 0, 0, 0, 6, 6,
    ]
}

/// Rotate a layout a quarter turn: cell (x, y) moves to (9 - y, x).
fn rotate(board: &[u8]) -> Vec<u8> {
    let mut out = vec![0u8; 100];
    for y in 0..10 {
        for x in 0..10 {
            out[(9 - y) + 10 * x] = board[x + 10 * y];
        }
    }
    out
}

/// Mirror a layout left-to-right: cell (x, y) moves to (9 - x, y).
fn mirror(board: &[u8]) -> Vec<u8> {
    let mut out = vec![0u8; 100];
    for y in 0..10 {
        for x in 0..10 {
            out[(9 - x) + 10 * y] = board[x + 10 * y];
        }
    }
    out
}

#[test]
fn rotations_and_reflections_stay_valid() {
    let mut b = fleet();
    for _ in 0..4 {
        assert!(valid_setup(&b));
        assert!(valid_setup(&mirror(&b)));
        b = rotate(&b);
    }
    assert_eq!(b, fleet());
}

#[test]
fn wrong_total_counts_rejected() {
    // an extra destroyer cell: 18 occupied cells
    let mut b = fleet();
    assert_eq!(b[97], 0);
    b[97] = 6;
    assert!(!valid_setup(&b));
    // a missing carrier cell: 16 occupied cells
    let mut b = fleet();
    b[5] = 0;
    assert!(!valid_setup(&b));
}

#[test]
fn bent_ship_rejected() {
    // bend the cruiser around a corner
    let mut b = fleet();
    b[52] = 0;
    b[61] = 4;
    assert!(!valid_setup(&b));
}

#[test]
fn split_ship_rejected() {
    // a disconnected second run of the submarine's marker
    let mut b = fleet();
    b[92] = 0;
    b[30] = 5;
    assert!(!valid_setup(&b));
}

#[test]
fn row_wrap_rejected() {
    // five carrier cells that wrap from one row to the next
    let mut b = fleet();
    b[5] = 0;
    b[6] = 0;
    b[7] = 0;
    b[8] = 0;
    b[9] = 0;
    b[8] = 2;
    b[9] = 2;
    b[10] = 2;
    b[11] = 2;
    b[12] = 2;
    assert!(!valid_setup(&b));
}

#[test]
fn unknown_cell_value_rejected() {
    let mut b = fleet();
    assert_eq!(b[0], 0);
    b[0] = 9;
    assert!(!valid_setup(&b));
    // the miss and hit markers are not legal in a submitted layout
    let mut b = fleet();
    b[0] = 1;
    assert!(!valid_setup(&b));
    let mut b = fleet();
    b[0] = 0x80;
    assert!(!valid_setup(&b));
}

#[test]
fn wrong_length_rejected() {
    let mut b = fleet();
    b.push(0);
    assert!(!valid_setup(&b));
    let b: Vec<u8> = Vec::new();
    assert!(!valid_setup(&b));
}

#[test]
fn cell_value_codec_round_trip() {
    let values = [
        (CellValue::Empty, 0u8),
        (CellValue::Miss, 1),
        (CellValue::Carrier, 2),
        (CellValue::Battleship, 3),
        (CellValue::Cruiser, 4),
        (CellValue::Submarine, 5),
        (CellValue::Destroyer, 6),
        (CellValue::Hit, 0x80),
    ];
    for (v, b) in values {
        assert_eq!(v.to_u8(), b);
        assert_eq!(CellValue::try_from(b), Ok(v));
    }
    assert!(CellValue::try_from(7).is_err());
    assert!(CellValue::try_from(0x82).is_err());
    assert!(CellValue::try_from(255).is_err());
}
