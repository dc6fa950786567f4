use neonforge::screen::{CellWrite, COLOR_INFO};
use neonforge::status::{date_text, time_text};
use neonforge::{date_status, time_status};

#[test]
fn time_text_pads_to_two_digits() {
    assert_eq!(time_text(9, 5), b"09:05".to_vec());
    assert_eq!(time_text(23, 59), b"23:59".to_vec());
    assert_eq!(time_text(0, 0), b"00:00".to_vec());
}

#[test]
fn time_text_keeps_wide_numbers() {
    assert_eq!(time_text(255, 7), b"255:07".to_vec());
}

#[test]
fn date_text_pads_day_month_and_year() {
    assert_eq!(date_text(1, 1, 2000), b"01.01.2000".to_vec());
    assert_eq!(date_text(31, 12, 999), b"31.12.0999".to_vec());
    assert_eq!(date_text(5, 7, 12345), b"05.07.12345".to_vec());
}

#[test]
fn time_status_writes_from_column_74_of_row_24() {
    let w = time_status(12, 34);
    let expected: Vec<CellWrite> = b"12:34"
        .iter()
        .enumerate()
        .map(|(i, &b)| CellWrite { row: 24, col: 74 + i, byte: b, color: COLOR_INFO })
        .collect();
    assert_eq!(w, expected);
}

#[test]
fn date_status_writes_from_column_62_of_row_24() {
    let w = date_status(1, 2, 2024);
    assert_eq!(w.len(), 10);
    assert_eq!(w[0], CellWrite { row: 24, col: 62, byte: b'0', color: COLOR_INFO });
    assert_eq!(w[2], CellWrite { row: 24, col: 64, byte: b'.', color: COLOR_INFO });
    assert_eq!(w[9], CellWrite { row: 24, col: 71, byte: b'4', color: COLOR_INFO });
    assert!(w.iter().all(|c| c.col < 74));
}
