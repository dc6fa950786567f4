//! The status line at the bottom of the screen: the date (`DD.MM.YYYY`) and
//! the time (`HH:MM`), each written from a fixed column of the last row.
use vstd::prelude::*;
use crate::decimal::{push_zero_padded, zero_padded, lemma_zero_padded_len, lemma_two_digits, lemma_four_digits};
use crate::screen::{CellWrite, COLOR_INFO, COLS};

verus! {

/// The row of the status line.
pub const STATUS_ROW: usize = 24;

/// The column where the time starts.
pub const TIME_COL: usize = 74;

/// The column where the date starts.
pub const DATE_COL: usize = 62;

/// The time text: hours and minutes, each with at least two digits, joined
/// by a colon.
pub open spec fn time_text_spec(hour: u8, minute: u8) -> Seq<u8> {
    zero_padded(hour as nat, 2) + seq![58u8] + zero_padded(minute as nat, 2)
}

/// The date text: day and month with at least two digits and the year with
/// at least four, joined by dots.
pub open spec fn date_text_spec(day: u8, month: u8, year: u16) -> Seq<u8> {
    zero_padded(day as nat, 2) + seq![46u8] + zero_padded(month as nat, 2) + seq![46u8]
        + zero_padded(year as nat, 4)
}

/// The time of day as the five bytes `HH:MM`: tens and ones of the hours, a
/// colon, tens and ones of the minutes, each digit as its ASCII code.
pub open spec fn time_digits(hour: u8, minute: u8) -> Seq<u8> {
    seq![
        (48 + hour / 10) as u8,
        (48 + hour % 10) as u8,
        58u8,
        (48 + minute / 10) as u8,
        (48 + minute % 10) as u8,
    ]
}

/// A date as the ten bytes `DD.MM.YYYY`, each digit as its ASCII code.
pub open spec fn date_digits(day: u8, month: u8, year: u16) -> Seq<u8> {
    seq![
        (48 + day / 10) as u8,
        (48 + day % 10) as u8,
        46u8,
        (48 + month / 10) as u8,
        (48 + month % 10) as u8,
        46u8,
        (48 + year / 1000) as u8,
        (48 + year / 100 % 10) as u8,
        (48 + year / 10 % 10) as u8,
        (48 + year % 10) as u8,
    ]
}

/// For a time of day with hours and minutes below a hundred, the time text
/// is exactly `HH:MM` in decimal digits.
pub proof fn lemma_time_text_digits(hour: u8, minute: u8)
    ensures
        hour < 100 && minute < 100 ==> time_text_spec(hour, minute) == time_digits(hour, minute),
{
    if hour < 100 && minute < 100 {
        lemma_two_digits(hour as nat);
        lemma_two_digits(minute as nat);
        assert(time_text_spec(hour, minute) =~= time_digits(hour, minute));
    }
}

/// For a date with day and month below a hundred and a year below ten
/// thousand, the date text is exactly `DD.MM.YYYY` in decimal digits.
pub proof fn lemma_date_text_digits(day: u8, month: u8, year: u16)
    ensures
        day < 100 && month < 100 && year < 10000 ==> date_text_spec(day, month, year) == date_digits(
            day,
            month,
            year,
        ),
{
    if day < 100 && month < 100 && year < 10000 {
        lemma_two_digits(day as nat);
        lemma_two_digits(month as nat);
        lemma_four_digits(year as nat);
        assert(date_text_spec(day, month, year) =~= date_digits(day, month, year));
    }
}

/// The writes that put `text` on the status row from column `col` on, in the
/// status colour.
pub open spec fn status_writes(text: Seq<u8>, col: nat) -> Seq<CellWrite> {
    Seq::new(
        text.len(),
        |i: int| CellWrite { row: STATUS_ROW, col: (col + i) as usize, byte: text[i], color: COLOR_INFO },
    )
}

/// The time as text (`{:02}:{:02}`).
pub fn time_text(hour: u8, minute: u8) -> (t: Vec<u8>)
    ensures
        t@ == time_text_spec(hour, minute),
        hour < 100 && minute < 100 ==> t@ == time_digits(hour, minute),
{
    proof {
        lemma_time_text_digits(hour, minute);
    }
    let mut t: Vec<u8> = Vec::new();
    push_zero_padded(&mut t, hour as u32, 2);
    t.push(58);
    push_zero_padded(&mut t, minute as u32, 2);
    assert(t@ =~= time_text_spec(hour, minute));
    t
}

/// The date as text (`{:02}.{:02}.{:04}`).
pub fn date_text(day: u8, month: u8, year: u16) -> (t: Vec<u8>)
    ensures
        t@ == date_text_spec(day, month, year),
        day < 100 && month < 100 && year < 10000 ==> t@ == date_digits(day, month, year),
{
    proof {
        lemma_date_text_digits(day, month, year);
    }
    let mut t: Vec<u8> = Vec::new();
    push_zero_padded(&mut t, day as u32, 2);
    t.push(46);
    push_zero_padded(&mut t, month as u32, 2);
    t.push(46);
    push_zero_padded(&mut t, year as u32, 4);
    assert(t@ =~= date_text_spec(day, month, year));
    t
}

/// The writes of `text` from column `col` of the status row.
fn writes_from(text: &Vec<u8>, col: usize) -> (w: Vec<CellWrite>)
    requires
        col + text@.len() <= usize::MAX,
    ensures
        w@ == status_writes(text@, col as nat),
{
    let mut w: Vec<CellWrite> = Vec::new();
    let mut i: usize = 0;
    while i < text.len()
        invariant
            i <= text@.len(),
            col + text@.len() <= usize::MAX,
            w@ == status_writes(text@.take(i as int), col as nat),
        decreases text@.len() - i,
    {
        w.push(CellWrite { row: STATUS_ROW, col: col + i, byte: text[i], color: COLOR_INFO });
        i = i + 1;
        assert(w@ =~= status_writes(text@.take(i as int), col as nat));
    }
    assert(text@.take(text@.len() as int) =~= text@);
    w
}

/// The status-line writes that show the time read from the clock: the time
/// text, one cell per byte, from column `TIME_COL` of row `STATUS_ROW`.
pub fn time_status(hour: u8, minute: u8) -> (w: Vec<CellWrite>)
    ensures
        w@ == status_writes(time_text_spec(hour, minute), TIME_COL as nat),
        hour < 100 && minute < 100 ==> w@.len() == 5 && forall|i: int| 0 <= i < 5 ==> #[trigger] w@[i]
            == (CellWrite {
            row: 24,
            col: (74 + i) as usize,
            byte: time_digits(hour, minute)[i],
            color: COLOR_INFO,
        }),
{
    proof {
        lemma_time_text_digits(hour, minute);
    }
    let t = time_text(hour, minute);
    proof {
        crate::decimal::lemma_decimal_len(hour as nat);
        crate::decimal::lemma_decimal_len(minute as nat);
    }
    writes_from(&t, TIME_COL)
}

/// The status-line writes that show the date read from the clock: the date
/// text, one cell per byte, from column `DATE_COL` of row `STATUS_ROW`.
pub fn date_status(day: u8, month: u8, year: u16) -> (w: Vec<CellWrite>)
    ensures
        w@ == status_writes(date_text_spec(day, month, year), DATE_COL as nat),
        day < 100 && month < 100 && year < 10000 ==> w@.len() == 10 && forall|i: int|
            0 <= i < 10 ==> #[trigger] w@[i] == (CellWrite {
                row: 24,
                col: (62 + i) as usize,
                byte: date_digits(day, month, year)[i],
                color: COLOR_INFO,
            }),
{
    proof {
        lemma_date_text_digits(day, month, year);
    }
    let t = date_text(day, month, year);
    proof {
        crate::decimal::lemma_decimal_len(day as nat);
        crate::decimal::lemma_decimal_len(month as nat);
        crate::decimal::lemma_decimal_len(year as nat);
    }
    writes_from(&t, DATE_COL)
}

/// For a time of day and a calendar date with a four-digit year, the status
/// line stays on the screen and the date ends before the time begins: the
/// date takes ten cells from its column, the time five cells from its column,
/// the last of them inside the row.
pub proof fn lemma_status_fields_fit(hour: u8, minute: u8, day: u8, month: u8, year: u16)
    requires
        hour < 100,
        minute < 100,
        day < 100,
        month < 100,
        year < 10000,
    ensures
        time_text_spec(hour, minute).len() == 5,
        date_text_spec(day, month, year).len() == 10,
        TIME_COL + time_text_spec(hour, minute).len() <= COLS,
        DATE_COL + date_text_spec(day, month, year).len() < TIME_COL,
{
    lemma_zero_padded_len(hour as nat);
    lemma_zero_padded_len(minute as nat);
    lemma_zero_padded_len(day as nat);
    lemma_zero_padded_len(month as nat);
    lemma_zero_padded_len(year as nat);
}

} // verus!
