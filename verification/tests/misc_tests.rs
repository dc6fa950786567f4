use neonforge::rtc::{bcd_to_binary, binary_to_bcd, clock_year, year_field};
use neonforge::alloc_error_handler;
use neonforge::decimal::{push_decimal, push_zero_padded};
use neonforge::fault::FaultResponse;
use neonforge::timestamp::{FatTimestamp, MyTimeSource};

#[test]
fn allocation_failure_halts() {
    assert_eq!(alloc_error_handler(4096, 8), FaultResponse::Halt);
    assert_eq!(alloc_error_handler(0, 1), FaultResponse::Halt);
}

#[test]
fn timestamp_is_new_year_2022() {
    let t = MyTimeSource.get_timestamp();
    assert_eq!(
        t,
        FatTimestamp {
            year_since_1970: 52,
            zero_indexed_month: 0,
            zero_indexed_day: 0,
            hours: 0,
            minutes: 0,
            seconds: 0
        }
    );
    assert_eq!(1970 + t.year_since_1970 as u32, 2022);
}

#[test]
fn decimal_digits() {
    let mut out = b"x".to_vec();
    push_decimal(&mut out, 0);
    push_decimal(&mut out, 4096);
    push_decimal(&mut out, u32::MAX);
    assert_eq!(out, b"x04096".iter().chain(b"4294967295").copied().collect::<Vec<u8>>());
}

#[test]
fn zero_padding() {
    let mut out = Vec::new();
    push_zero_padded(&mut out, 7, 4);
    push_zero_padded(&mut out, 12345, 4);
    push_zero_padded(&mut out, 0, 0);
    assert_eq!(out, b"0007123450".to_vec());
}

#[test]
fn clock_fields_are_binary_coded_decimal() {
    assert_eq!(bcd_to_binary(0x59), 59);
    assert_eq!(bcd_to_binary(0x00), 0);
    assert_eq!(binary_to_bcd(42), 0x42);
    for v in 0..100u8 {
        assert_eq!(bcd_to_binary(binary_to_bcd(v)), v);
    }
    assert_eq!(clock_year(0x24), 2024);
    assert_eq!(year_field(1999), 0x99);
    assert_eq!(year_field(2005), 0x05);
}
