//! The VGA text screen: its size, and a write of one character cell.
use vstd::prelude::*;

verus! {

/// Number of character columns of the VGA text screen.
pub const COLS: usize = 80;

/// Number of character rows of the VGA text screen.
pub const ROWS: usize = 25;

/// Number of character cells of the screen.
pub const CELLS: usize = 2000;

/// Attribute byte of the splash text (yellow on black).
pub const COLOR_SPLASH: u8 = 0x0e;

/// Attribute byte of the cursor mark (grey on black).
pub const COLOR_CURSOR: u8 = 0x07;

/// Attribute byte of the status line (bright white on black).
pub const COLOR_INFO: u8 = 0x0f;

/// Attribute byte of an error message (yellow on red).
pub const COLOR_ERROR: u8 = 0x4f;

/// One character to put on the screen: at `row` and `col` (a column past the
/// row's end runs on into the next rows of video memory), the byte `byte`
/// with the attribute `color`.
#[derive(Clone, Copy, Debug, PartialEq, Eq, Structural)]
pub struct CellWrite {
    pub row: usize,
    pub col: usize,
    pub byte: u8,
    pub color: u8,
}

} // verus!
