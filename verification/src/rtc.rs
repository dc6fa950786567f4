//! The battery-backed clock (CMOS RTC) keeps its fields in binary-coded
//! decimal: one decimal digit per four bits.
use vstd::prelude::*;

verus! {

/// The value of a binary-coded-decimal byte: the high four bits are the tens
/// and the low four bits the ones.
pub open spec fn bcd_value(b: u8) -> nat {
    (b / 16) as nat * 10 + (b % 16) as nat
}

/// The binary-coded-decimal byte of a number below a hundred.
pub open spec fn bcd_byte(v: u8) -> u8 {
    ((v / 10) * 16 + v % 10) as u8
}

/// Reads a clock field.
pub fn bcd_to_binary(b: u8) -> (v: u8)
    ensures
        v == bcd_value(b),
{
    (b / 16) * 10 + b % 16
}

/// Writes a clock field; the number must be below a hundred.
pub fn binary_to_bcd(v: u8) -> (b: u8)
    requires
        v < 100,
    ensures
        b == bcd_byte(v),
{
    (v / 10) * 16 + v % 10
}

/// Writing a number below a hundred and reading it back gives the number.
pub proof fn lemma_bcd_round_trip(v: u8)
    requires
        v < 100,
    ensures
        bcd_value(bcd_byte(v)) == v,
{
    let b = bcd_byte(v);
    assert(b / 16 == v / 10 && b % 16 == v % 10);
}

/// The calendar year of the clock's two-digit year field, in this century.
pub fn clock_year(year_field: u8) -> (y: u16)
    ensures
        y == 2000 + bcd_value(year_field),
{
    2000 + bcd_to_binary(year_field) as u16
}

/// The clock's year field for a calendar year: its last two digits.
pub fn year_field(year: u16) -> (b: u8)
    ensures
        b == bcd_byte((year % 100) as u8),
{
    binary_to_bcd((year % 100) as u8)
}

} // verus!
