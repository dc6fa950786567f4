//! The clock that the FAT file system stamps files with.
use vstd::prelude::*;

verus! {

/// A file-system timestamp, in the fields that the FAT layer reads.
#[derive(Clone, Copy, Debug, PartialEq, Eq, Structural)]
pub struct FatTimestamp {
    /// Add 1970 to get the calendar year.
    pub year_since_1970: u8,
    /// Add one to get the calendar month.
    pub zero_indexed_month: u8,
    /// Add one to get the calendar day.
    pub zero_indexed_day: u8,
    /// Hours past midnight.
    pub hours: u8,
    /// Minutes past the hour.
    pub minutes: u8,
    /// Seconds past the minute.
    pub seconds: u8,
}

/// The time source of the kernel: it has no battery clock of its own for the
/// file system, and always gives the same instant.
#[derive(Clone, Copy, Debug)]
pub struct MyTimeSource;

impl MyTimeSource {
    /// The instant every file is stamped with: midnight at the start of the
    /// first of January 2022.
    pub fn get_timestamp(&self) -> (t: FatTimestamp)
        ensures
            t == (FatTimestamp {
                year_since_1970: 52,
                zero_indexed_month: 0,
                zero_indexed_day: 0,
                hours: 0,
                minutes: 0,
                seconds: 0,
            }),
            1970 + t.year_since_1970 == 2022,
            t.zero_indexed_month + 1 == 1 && t.zero_indexed_day + 1 == 1,
    {
        FatTimestamp {
            year_since_1970: 52,
            zero_indexed_month: 0,
            zero_indexed_day: 0,
            hours: 0,
            minutes: 0,
            seconds: 0,
        }
    }
}

} // verus!
