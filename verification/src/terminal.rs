//! The command-line terminal: a screen of `ROWS` by `COLS` character cells,
//! the place where the next character goes, the cursor, the line being typed
//! and the prompt that starts each line.
use vstd::prelude::*;
use crate::screen::{COLS, ROWS, CELLS};

verus! {

/// Keycode of the Backspace key.
pub const BACKSPACE: u8 = 0x0E;

/// The last row of the screen: a prompt that reaches it makes the screen scroll.
pub const LAST_ROW: usize = 24;

/// What the terminal is, as plain values.
pub struct TerminalView {
    pub cells: Seq<u8>,
    pub row: usize,
    pub col: usize,
    pub cursor_row: usize,
    pub cursor_col: usize,
    pub input: Seq<char>,
    pub prompt: Seq<u8>,
    pub plain_map: Seq<Option<char>>,
    pub shift_map: Seq<Option<char>>,
}

/// What a key did to the terminal.
#[derive(Clone, Copy, Debug, PartialEq, Eq, Structural)]
pub enum KeyEffect {
    /// The key was taken into account (or ignored) and the screen is to be redrawn.
    Handled,
    /// Enter: the typed line is to be run as a command, after which
    /// `finish_command` completes the line.
    Submit,
}

/// The index of the cell at `row`, `col` of the screen.
pub open spec fn idx(row: int, col: int) -> int {
    row * COLS + col
}

/// `cells` with `bytes` laid over them from index `start` on.
pub open spec fn overlay(cells: Seq<u8>, start: int, bytes: Seq<u8>) -> Seq<u8> {
    Seq::new(
        cells.len(),
        |j: int|
            if start <= j < start + bytes.len() {
                bytes[j - start]
            } else {
                cells[j]
            },
    )
}

/// The screen moved up by one row: row `i` shows what row `i + 1` showed,
/// and the last row is blank.
pub open spec fn scrolled(cells: Seq<u8>) -> Seq<u8> {
    cells.subrange(COLS as int, CELLS as int) + Seq::new(COLS as nat, |i: int| 0u8)
}

/// The character that a key gives, with or without Shift.
pub open spec fn key_char(v: TerminalView, key: u8, shift: bool) -> Option<char> {
    if shift {
        v.shift_map[key as int]
    } else {
        v.plain_map[key as int]
    }
}

/// Well-formedness: a full screen of cells, the writing place on the screen
/// (the column may stand just past the last), and a prompt that fits a row.
pub open spec fn terminal_wf(v: TerminalView) -> bool {
    &&& v.cells.len() == CELLS
    &&& v.row < ROWS
    &&& v.col <= COLS
    &&& v.prompt.len() <= COLS
}

/// The keys that `print_key` takes without an index going out of bounds:
/// a Backspace that erases must stand inside a row; any other key must have an
/// entry in the key map in use, and a character that wraps to the next row
/// must find a next row.
pub open spec fn accepts_key(v: TerminalView, key: u8, shift: bool) -> bool {
    if key == BACKSPACE {
        v.col > v.prompt.len() ==> v.col < COLS
    } else {
        &&& key < (if shift { v.shift_map.len() } else { v.plain_map.len() })
        &&& match key_char(v, key, shift) {
            Some(c) => (c != '\n' && v.col < COLS && v.col > 78) ==> v.row + 1 < ROWS,
            None => true,
        }
    }
}

/// Whether the key is Enter, which submits the typed line.
pub open spec fn is_submit(v: TerminalView, key: u8, shift: bool) -> bool {
    key != BACKSPACE && key_char(v, key, shift) == Some('\n')
}

/// The terminal after a key that is not Enter: Backspace erases the character
/// before the writing place (never the prompt); a character is written at the
/// writing place (the column after the last but one wraps to the start of the
/// next row), appended to the typed line, and the place moves on; a character
/// past the end of a row, or a key without a character, changes nothing. The
/// cursor then moves to the writing place.
pub open spec fn after_key(v: TerminalView, key: u8, shift: bool) -> TerminalView {
    let edited = if key == BACKSPACE {
        if v.col > v.prompt.len() {
            TerminalView {
                cells: v.cells.update(idx(v.row as int, v.col as int), 0u8).update(
                    idx(v.row as int, v.col - 1),
                    0u8,
                ),
                col: (v.col - 1) as usize,
                input: if v.input.len() > 0 { v.input.drop_last() } else { v.input },
                ..v
            }
        } else {
            v
        }
    } else {
        match key_char(v, key, shift) {
            Some(c) => {
                if v.col < COLS {
                    let r = if v.col > 78 { (v.row + 1) as usize } else { v.row };
                    let k = if v.col > 78 { 0usize } else { v.col };
                    TerminalView {
                        cells: v.cells.update(idx(r as int, k as int), c as u8),
                        row: r,
                        col: (k + 1) as usize,
                        input: v.input.push(c),
                        ..v
                    }
                } else {
                    v
                }
            },
            None => v,
        }
    };
    TerminalView { cursor_row: edited.row, cursor_col: edited.col, ..edited }
}

/// The row that the prompt goes to after a command: two rows down when the
/// command did not report success (leaving a row for its output), one row up
/// from there when that reaches the last row, which scrolls the screen.
pub open spec fn command_row(v: TerminalView, succeeded: bool) -> int {
    let r = if succeeded { v.row as int } else { v.row + 2 };
    if r >= LAST_ROW { r - 1 } else { r }
}

/// The terminal after a command ran: the typed line is emptied, the screen
/// scrolls when the next row reaches the last one, the prompt is written at
/// the start of the next row, and writing place and cursor follow it.
pub open spec fn after_command(v: TerminalView, succeeded: bool) -> TerminalView {
    let r = if succeeded { v.row as int } else { v.row + 2 };
    let cells = if r >= LAST_ROW { scrolled(v.cells) } else { v.cells };
    let row = command_row(v, succeeded);
    TerminalView {
        cells: overlay(cells, idx(row, 0), v.prompt),
        row: row as usize,
        col: v.prompt.len() as usize,
        cursor_row: row as usize,
        cursor_col: v.prompt.len() as usize,
        input: Seq::empty(),
        ..v
    }
}

/// The terminal of the kernel.
pub struct Terminal {
    buffer: Vec<u8>,
    row: usize,
    col: usize,
    cursor_row: usize,
    cursor_col: usize,
    input: Vec<char>,
    prompt: Vec<u8>,
    plain_map: Vec<Option<char>>,
    shift_map: Vec<Option<char>>,
}

impl View for Terminal {
    type V = TerminalView;

    closed spec fn view(&self) -> TerminalView {
        TerminalView {
            cells: self.buffer@,
            row: self.row,
            col: self.col,
            cursor_row: self.cursor_row,
            cursor_col: self.cursor_col,
            input: self.input@,
            prompt: self.prompt@,
            plain_map: self.plain_map@,
            shift_map: self.shift_map@,
        }
    }
}

impl Terminal {
    /// Well-formedness (see `terminal_wf`).
    pub open spec fn wf(&self) -> bool {
        terminal_wf(self@)
    }

    /// A blank terminal at the top left corner, with nothing typed, the given
    /// prompt and the key maps that turn keycodes into characters without and
    /// with Shift.
    pub fn new(prompt: Vec<u8>, plain_map: Vec<Option<char>>, shift_map: Vec<Option<char>>) -> (t:
        Terminal)
        requires
            prompt@.len() <= COLS,
        ensures
            t.wf(),
            t@.cells == Seq::new(CELLS as nat, |i: int| 0u8),
            t@.row == 0 && t@.col == 0,
            t@.cursor_row == 0 && t@.cursor_col == 0,
            t@.input == Seq::<char>::empty(),
            t@.prompt == prompt@,
            t@.plain_map == plain_map@,
            t@.shift_map == shift_map@,
    {
        let mut buffer: Vec<u8> = Vec::new();
        let mut i: usize = 0;
        while i < CELLS
            invariant
                i <= CELLS,
                buffer@ == Seq::new(i as nat, |j: int| 0u8),
            decreases CELLS - i,
        {
            buffer.push(0);
            i = i + 1;
        }
        Terminal {
            buffer,
            row: 0,
            col: 0,
            cursor_row: 0,
            cursor_col: 0,
            input: Vec::new(),
            prompt,
            plain_map,
            shift_map,
        }
    }

    /// The screen cells, row by row.
    pub fn cells(&self) -> (r: &[u8])
        ensures
            r@ == self@.cells,
    {
        self.buffer.as_slice()
    }

    /// The byte in the cell at `row`, `col`.
    pub fn cell(&self, row: usize, col: usize) -> (b: u8)
        requires
            self.wf(),
            row < ROWS,
            col < COLS,
        ensures
            b == self@.cells[idx(row as int, col as int)],
    {
        self.buffer[row * COLS + col]
    }

    /// The row where the next character goes.
    pub fn row(&self) -> (r: usize)
        ensures
            r == self@.row,
    {
        self.row
    }

    /// The column where the next character goes.
    pub fn col(&self) -> (c: usize)
        ensures
            c == self@.col,
    {
        self.col
    }

    /// The row of the cursor mark.
    pub fn cursor_row(&self) -> (r: usize)
        ensures
            r == self@.cursor_row,
    {
        self.cursor_row
    }

    /// The column of the cursor mark.
    pub fn cursor_col(&self) -> (c: usize)
        ensures
            c == self@.cursor_col,
    {
        self.cursor_col
    }

    /// The line typed since the last prompt.
    pub fn input(&self) -> (s: &[char])
        ensures
            s@ == self@.input,
    {
        self.input.as_slice()
    }

    /// Whether `print_key` takes this key in the present state (see
    /// `accepts_key`).
    pub fn can_take_key(&self, key: u8, shift: bool) -> (b: bool)
        requires
            self.wf(),
        ensures
            b == accepts_key(self@, key, shift),
    {
        if key == BACKSPACE {
            !(self.col > self.prompt.len()) || self.col < COLS
        } else {
            let len = if shift {
                self.shift_map.len()
            } else {
                self.plain_map.len()
            };
            if (key as usize) >= len {
                return false;
            }
            let character = if shift {
                self.shift_map[key as usize]
            } else {
                self.plain_map[key as usize]
            };
            match character {
                Some(c) => !(c != '\n' && self.col < COLS && self.col > 78) || self.row + 1 < ROWS,
                None => true,
            }
        }
    }

    /// Whether `finish_command` can complete a line in the present state:
    /// the prompt's row stays on the screen.
    pub fn can_finish_command(&self, succeeded: bool) -> (b: bool)
        requires
            self.wf(),
        ensures
            b == (command_row(self@, succeeded) < ROWS),
    {
        let r = if succeeded {
            self.row
        } else {
            self.row + 2
        };
        let r = if r >= LAST_ROW {
            r - 1
        } else {
            r
        };
        r < ROWS
    }

    /// Puts `byte` in the cell at `row`, `col`; nothing else changes.
    pub fn put_cell(&mut self, row: usize, col: usize, byte: u8)
        requires
            old(self).wf(),
            row < ROWS,
            col < COLS,
        ensures
            final(self)@ == (TerminalView {
                cells: old(self)@.cells.update(idx(row as int, col as int), byte),
                ..old(self)@
            }),
    {
        self.buffer.set(row * COLS + col, byte);
    }

    /// Writes `text` into the cells of `row` from its first column on.
    /// Nothing else changes.
    pub fn write_line(&mut self, row: usize, text: &[u8])
        requires
            old(self)@.cells.len() == CELLS,
            row < ROWS,
            text@.len() <= COLS,
        ensures
            final(self)@ == (TerminalView {
                cells: overlay(old(self)@.cells, idx(row as int, 0), text@),
                ..old(self)@
            }),
    {
        let n = text.len();
        let start = row * COLS;
        let mut i: usize = 0;
        assert(overlay(old(self)@.cells, start as int, text@.take(0)) =~= old(self)@.cells);
        while i < n
            invariant
                n == text@.len(),
                n <= COLS,
                self.buffer@.len() == CELLS,
                old(self)@.cells.len() == CELLS,
                start == idx(row as int, 0),
                row < ROWS,
                i <= n,
                self@ == (TerminalView {
                    cells: overlay(old(self)@.cells, start as int, text@.take(i as int)),
                    ..old(self)@
                }),
            decreases n - i,
        {
            self.buffer.set(start + i, text[i]);
            assert(self.buffer@ =~= overlay(old(self)@.cells, start as int, text@.take(i + 1)));
            i = i + 1;
        }
        assert(text@.take(n as int) =~= text@);
    }

    /// Blanks every cell. Nothing else changes.
    pub fn clear_cells(&mut self)
        requires
            old(self)@.cells.len() == CELLS,
        ensures
            final(self)@ == (TerminalView { cells: Seq::new(CELLS as nat, |i: int| 0u8), ..old(self)@ }),
    {
        let mut i: usize = 0;
        while i < CELLS
            invariant
                i <= CELLS,
                self.buffer@.len() == CELLS,
                forall|j: int| 0 <= j < i ==> #[trigger] self.buffer@[j] == 0u8,
                self@ == (TerminalView { cells: self.buffer@, ..old(self)@ }),
            decreases CELLS - i,
        {
            self.buffer.set(i, 0);
            i = i + 1;
        }
        assert(self.buffer@ =~= Seq::new(CELLS as nat, |i: int| 0u8));
    }

    /// Writes the prompt into the cells of `row` from column `col` on, and
    /// returns the column just past it. Nothing else changes. (An empty
    /// prompt writes nothing, wherever it is asked to go.)
    pub fn print_prompt(&mut self, row: usize, col: usize) -> (next: usize)
        requires
            old(self)@.cells.len() == CELLS,
            old(self)@.prompt.len() > 0 ==> row < ROWS && col + old(self)@.prompt.len() <= COLS,
        ensures
            next == col + old(self)@.prompt.len(),
            final(self)@ == (TerminalView {
                cells: overlay(old(self)@.cells, idx(row as int, col as int), old(self)@.prompt),
                ..old(self)@
            }),
    {
        let n = self.prompt.len();
        if n == 0 {
            assert(overlay(old(self)@.cells, idx(row as int, col as int), self.prompt@) =~= old(self)@.cells);
            return col;
        }
        let start = row * COLS + col;
        let mut i: usize = 0;
        assert(overlay(old(self)@.cells, start as int, self.prompt@.take(0)) =~= old(self)@.cells);
        while i < n
            invariant
                n == self.prompt@.len(),
                self.buffer@.len() == CELLS,
                old(self)@.cells.len() == CELLS,
                start == idx(row as int, col as int),
                start + n <= CELLS,
                i <= n,
                self.prompt@ == old(self)@.prompt,
                self@ == (TerminalView {
                    cells: overlay(old(self)@.cells, start as int, self.prompt@.take(i as int)),
                    ..old(self)@
                }),
            decreases n - i,
        {
            let b = self.prompt[i];
            self.buffer.set(start + i, b);
            assert(self.buffer@ =~= overlay(old(self)@.cells, start as int, self.prompt@.take(i + 1)));
            i = i + 1;
        }
        assert(self.prompt@.take(n as int) =~= self.prompt@);
        col + n
    }

    /// Moves the screen up by one row and blanks the last row. Nothing else
    /// changes.
    pub fn scroll(&mut self)
        requires
            old(self)@.cells.len() == CELLS,
        ensures
            final(self)@ == (TerminalView { cells: scrolled(old(self)@.cells), ..old(self)@ }),
    {
        let moved: usize = CELLS - COLS;
        let mut i: usize = 0;
        while i < moved
            invariant
                moved == CELLS - COLS,
                i <= moved,
                self.buffer@.len() == CELLS,
                forall|j: int| 0 <= j < i ==> #[trigger] self.buffer@[j] == old(self)@.cells[j + COLS],
                forall|j: int| i <= j < CELLS ==> #[trigger] self.buffer@[j] == old(self)@.cells[j],
                self@ == (TerminalView { cells: self.buffer@, ..old(self)@ }),
            decreases moved - i,
        {
            let b = self.buffer[i + COLS];
            self.buffer.set(i, b);
            i = i + 1;
        }
        let mut k: usize = moved;
        while k < CELLS
            invariant
                moved == CELLS - COLS,
                moved <= k <= CELLS,
                self.buffer@.len() == CELLS,
                forall|j: int| 0 <= j < moved ==> #[trigger] self.buffer@[j] == old(self)@.cells[j + COLS],
                forall|j: int| moved <= j < k ==> #[trigger] self.buffer@[j] == 0u8,
                self@ == (TerminalView { cells: self.buffer@, ..old(self)@ }),
            decreases CELLS - k,
        {
            self.buffer.set(k, 0);
            k = k + 1;
        }
        assert(self.buffer@ =~= scrolled(old(self)@.cells));
    }

    /// When the writing place has reached the last row, scrolls the screen
    /// and writes a new prompt at the start of the row above it. The cursor
    /// mark stays where it was.
    pub fn scroll_status(&mut self)
        requires
            old(self).wf(),
        ensures
            final(self).wf(),
            old(self)@.row == LAST_ROW ==> final(self)@ == (TerminalView {
                cells: overlay(scrolled(old(self)@.cells), idx(LAST_ROW - 1, 0), old(self)@.prompt),
                row: (LAST_ROW - 1) as usize,
                col: old(self)@.prompt.len() as usize,
                ..old(self)@
            }),
            old(self)@.row != LAST_ROW ==> final(self)@ == old(self)@,
    {
        if self.row == LAST_ROW {
            self.scroll();
            self.row = self.row - 1;
            self.col = 0;
            let c = self.print_prompt(self.row, self.col);
            self.col = c;
        }
    }

    /// Writes the first prompt where the terminal starts, and puts the cursor
    /// column just past it.
    pub fn start(&mut self)
        requires
            old(self).wf(),
            old(self)@.col + old(self)@.prompt.len() <= COLS,
        ensures
            final(self).wf(),
            final(self)@ == (TerminalView {
                cells: overlay(
                    old(self)@.cells,
                    idx(old(self)@.row as int, old(self)@.col as int),
                    old(self)@.prompt,
                ),
                col: (old(self)@.col + old(self)@.prompt.len()) as usize,
                cursor_col: (old(self)@.col + old(self)@.prompt.len()) as usize,
                ..old(self)@
            }),
    {
        let c = self.print_prompt(self.row, self.col);
        self.col = c;
        self.cursor_col = c;
    }

    /// Takes one keycode, with Shift down or not. Enter is reported as
    /// `KeyEffect::Submit` and changes nothing yet; any other key changes the
    /// terminal as `after_key` says.
    pub fn print_key(&mut self, key: u8, shift: bool) -> (effect: KeyEffect)
        requires
            old(self).wf(),
            accepts_key(old(self)@, key, shift),
        ensures
            effect == (if is_submit(old(self)@, key, shift) {
                KeyEffect::Submit
            } else {
                KeyEffect::Handled
            }),
            is_submit(old(self)@, key, shift) ==> final(self)@ == old(self)@,
            !is_submit(old(self)@, key, shift) ==> final(self)@ == after_key(old(self)@, key, shift),
            !is_submit(old(self)@, key, shift) ==> final(self)@.cursor_row == final(self)@.row
                && final(self)@.cursor_col == final(self)@.col,
            final(self).wf(),
    {
        proof {
            if !is_submit(old(self)@, key, shift) {
                lemma_key_effects(old(self)@, key, shift);
            }
        }
        if key == BACKSPACE {
            if self.col > self.prompt.len() {
                let at = self.row * COLS + self.col;
                self.buffer.set(at, 0);
                self.col = self.col - 1;
                let before = self.row * COLS + self.col;
                self.buffer.set(before, 0);
                let _ = self.input.pop();
            }
        } else {
            let character = if shift {
                self.shift_map[key as usize]
            } else {
                self.plain_map[key as usize]
            };
            if let Some(c) = character {
                if c == '\n' {
                    return KeyEffect::Submit;
                } else {
                    if self.col < COLS {
                        if self.col > 78 {
                            self.col = 0;
                            self.row = self.row + 1;
                        }
                        let at = self.row * COLS + self.col;
                        self.buffer.set(at, c as u8);
                        self.input.push(c);
                        self.col = self.col + 1;
                    }
                }
            }
        }
        self.cursor_row = self.row;
        self.cursor_col = self.col;
        proof {
            assert(self.buffer@ =~= after_key(old(self)@, key, shift).cells);
            assert(self.input@ =~= after_key(old(self)@, key, shift).input);
        }
        KeyEffect::Handled
    }

    /// Completes a submitted line after its command ran, given whether the
    /// command reported success (see `after_command`).
    pub fn finish_command(&mut self, succeeded: bool)
        requires
            old(self).wf(),
            command_row(old(self)@, succeeded) < ROWS,
        ensures
            final(self).wf(),
            final(self)@ == after_command(old(self)@, succeeded),
            final(self)@.input == Seq::<char>::empty(),
            final(self)@.col == old(self)@.prompt.len(),
            final(self)@.cursor_row == final(self)@.row && final(self)@.cursor_col == final(self)@.col,
            final(self)@.row == (if succeeded { old(self)@.row as int } else { old(self)@.row + 2 })
                || final(self)@.row == (if succeeded { old(self)@.row as int } else { old(self)@.row + 2 })
                - 1,
    {
        proof {
            lemma_command_effects(old(self)@, succeeded);
        }
        if !succeeded {
            self.row = self.row + 2;
        }
        self.input.clear();
        self.col = 0;
        if self.row >= LAST_ROW {
            self.scroll();
            self.row = self.row - 1;
            self.col = 0;
        }
        let c = self.print_prompt(self.row, self.col);
        self.col = c;
        self.cursor_row = self.row;
        self.cursor_col = self.col;
        proof {
            assert(self.input@ =~= Seq::<char>::empty());
        }
    }
}

/// After a scroll, each row but the last shows what the row below it showed,
/// and the last row is blank.
pub proof fn lemma_scroll_moves_rows(cells: Seq<u8>, row: int, col: int)
    requires
        cells.len() == CELLS,
        0 <= col < COLS,
        0 <= row < ROWS,
    ensures
        scrolled(cells).len() == CELLS,
        row < LAST_ROW ==> scrolled(cells)[idx(row, col)] == cells[idx(row + 1, col)],
        row == LAST_ROW ==> scrolled(cells)[idx(row, col)] == 0u8,
{
}

/// A character typed inside a row and then erased with Backspace leaves the
/// writing place and the typed line as they were, and the cell it was written
/// in blank again.
pub proof fn lemma_backspace_undoes_typing(v: TerminalView, key: u8, shift: bool)
    requires
        terminal_wf(v),
        accepts_key(v, key, shift),
        !is_submit(v, key, shift),
        key != BACKSPACE,
        key_char(v, key, shift) is Some,
        v.prompt.len() <= v.col <= 78,
    ensures
        ({
            let typed = after_key(v, key, shift);
            let erased = after_key(typed, BACKSPACE, shift);
            &&& erased.row == v.row
            &&& erased.col == v.col
            &&& erased.input == v.input
            &&& erased.cells[idx(v.row as int, v.col as int)] == 0u8
            &&& erased.cursor_row == v.row
            &&& erased.cursor_col == v.col
        }),
{
    let typed = after_key(v, key, shift);
    assert(typed.input.drop_last() =~= v.input);
}

/// Once `scroll_status` has kept the writing place off the last row, and the
/// writing place stands inside a row or just past the prompt, every key that
/// has entries in the key maps is taken without an index going out of
/// bounds, and so is the completion of any command.
pub proof fn lemma_keys_accepted_off_last_row(v: TerminalView, key: u8, shift: bool, succeeded: bool)
    requires
        terminal_wf(v),
        v.row < LAST_ROW,
        v.col < COLS || v.col == v.prompt.len(),
        key < v.plain_map.len(),
        key < v.shift_map.len(),
    ensures
        accepts_key(v, key, shift),
        command_row(v, succeeded) < ROWS,
{
}

/// A key that is not Enter keeps the writing place inside a row or just past
/// the prompt, as completing a command does.
pub proof fn lemma_writing_place_stays(v: TerminalView, key: u8, shift: bool, succeeded: bool)
    requires
        terminal_wf(v),
        accepts_key(v, key, shift),
        v.col < COLS || v.col == v.prompt.len(),
    ensures
        ({
            let w = after_key(v, key, shift);
            w.col < COLS || w.col == w.prompt.len()
        }),
        ({
            let w = after_command(v, succeeded);
            w.col < COLS || w.col == w.prompt.len()
        }),
{
}

/// The screen after `k` scrolls in a row.
pub open spec fn scrolled_times(cells: Seq<u8>, k: nat) -> Seq<u8>
    decreases k,
{
    if k == 0 {
        cells
    } else {
        scrolled(scrolled_times(cells, (k - 1) as nat))
    }
}

/// After `k` scrolls in a row, each row shows what the row `k` below it
/// showed, and the last `k` rows are blank; so `ROWS` scrolls blank the whole
/// screen.
pub proof fn lemma_scroll_times(cells: Seq<u8>, k: nat, row: int, col: int)
    requires
        cells.len() == CELLS,
        0 <= col < COLS,
        0 <= row < ROWS,
    ensures
        scrolled_times(cells, k).len() == CELLS,
        scrolled_times(cells, k)[idx(row, col)] == (if row + k < ROWS {
            cells[idx(row + k, col)]
        } else {
            0u8
        }),
    decreases k,
{
    if k > 0 {
        let prev = scrolled_times(cells, (k - 1) as nat);
        lemma_scroll_times(cells, (k - 1) as nat, row, col);
        lemma_scroll_moves_rows(prev, row, col);
        if row < LAST_ROW {
            lemma_scroll_times(cells, (k - 1) as nat, row + 1, col);
        }
    }
}

/// What a key that is not Enter does, in plain terms. The cursor ends at the
/// writing place, and the prompt and key maps never change. A character
/// typed inside a row is written at the writing place, which moves one column
/// on (from the last column it first moves to the start of the next row); the
/// typed line grows by exactly that character, and no other cell changes.
/// Backspace after the prompt blanks the writing place and the cell before
/// it, moves back one column and drops the typed line's last character.
pub proof fn lemma_key_effects(v: TerminalView, key: u8, shift: bool)
    requires
        terminal_wf(v),
        accepts_key(v, key, shift),
        !is_submit(v, key, shift),
    ensures
        ({
            let w = after_key(v, key, shift);
            &&& w.cursor_row == w.row && w.cursor_col == w.col
            &&& w.prompt == v.prompt && w.plain_map == v.plain_map && w.shift_map == v.shift_map
            &&& w.cells.len() == v.cells.len()
            &&& (key != BACKSPACE && key_char(v, key, shift) is Some && v.col < COLS) ==> {
                let c = key_char(v, key, shift).unwrap();
                let r = if v.col <= 78 { v.row as int } else { v.row + 1 };
                let k = if v.col <= 78 { v.col as int } else { 0 };
                &&& w.row == r && w.col == k + 1
                &&& w.input.len() == v.input.len() + 1
                &&& w.input.last() == c
                &&& w.input.drop_last() == v.input
                &&& w.cells[idx(r, k)] == c as u8
                &&& forall|j: int| 0 <= j < v.cells.len() && j != idx(r, k) ==> #[trigger] w.cells[j] == v.cells[j]
            }
            &&& (key == BACKSPACE && v.col > v.prompt.len()) ==> {
                &&& w.row == v.row && w.col == v.col - 1
                &&& w.cells[idx(v.row as int, v.col as int)] == 0u8
                &&& w.cells[idx(v.row as int, v.col - 1)] == 0u8
                &&& forall|j: int|
                    0 <= j < v.cells.len() && j != idx(v.row as int, v.col as int) && j != idx(
                        v.row as int,
                        v.col - 1,
                    ) ==> #[trigger] w.cells[j] == v.cells[j]
                &&& v.input.len() > 0 ==> w.input == v.input.subrange(0, v.input.len() - 1)
            }
            &&& (key == BACKSPACE && v.col <= v.prompt.len()) ==> w.cells == v.cells && w.input == v.input
                && w.row == v.row && w.col == v.col
        }),
{
    let w = after_key(v, key, shift);
    if key != BACKSPACE {
        if let Some(c) = key_char(v, key, shift) {
            if v.col < COLS {
                assert(w.input.drop_last() =~= v.input);
            }
        }
    }
}

/// What completing a command does, in plain terms: the typed line is empty
/// whether or not the command succeeded; the writing place and the cursor
/// stand just past a prompt at the start of the next row, which is the same
/// row after a success and two rows down otherwise (one row less, with the
/// screen scrolled, when that reaches the last row); the prompt and key maps
/// do not change.
pub proof fn lemma_command_effects(v: TerminalView, succeeded: bool)
    requires
        terminal_wf(v),
        command_row(v, succeeded) < ROWS,
    ensures
        ({
            let w = after_command(v, succeeded);
            let r = if succeeded { v.row as int } else { v.row + 2 };
            &&& w.input == Seq::<char>::empty()
            &&& w.row == (if r >= LAST_ROW { r - 1 } else { r })
            &&& w.col == v.prompt.len()
            &&& w.cursor_row == w.row && w.cursor_col == w.col
            &&& w.prompt == v.prompt && w.plain_map == v.plain_map && w.shift_map == v.shift_map
            &&& w.cells.len() == CELLS
            &&& forall|i: int| 0 <= i < v.prompt.len() ==> #[trigger] w.cells[idx(w.row as int, i)] == v.prompt[i]
            &&& r < LAST_ROW ==> forall|j: int|
                0 <= j < CELLS && !(idx(r, 0) <= j < idx(r, 0) + v.prompt.len()) ==> #[trigger] w.cells[j]
                    == v.cells[j]
        }),
{
}

/// Laying bytes over the cells from `start` on puts each byte in its place,
/// keeps every other cell, and keeps the number of cells.
pub proof fn lemma_overlay_cells(cells: Seq<u8>, start: int, bytes: Seq<u8>)
    requires
        0 <= start,
        start + bytes.len() <= cells.len(),
    ensures
        overlay(cells, start, bytes).len() == cells.len(),
        forall|i: int| 0 <= i < bytes.len() ==> #[trigger] overlay(cells, start, bytes)[start + i] == bytes[i],
        forall|j: int|
            0 <= j < cells.len() && !(start <= j < start + bytes.len()) ==> #[trigger] overlay(
                cells,
                start,
                bytes,
            )[j] == cells[j],
{
}

} // verus!
