use neonforge::screen::{CELLS, COLS, ROWS};
use neonforge::terminal::{KeyEffect, Terminal};

fn maps() -> (Vec<Option<char>>, Vec<Option<char>>) {
    let mut plain = vec![None; 128];
    let mut shift = vec![None; 128];
    plain[0x1E] = Some('a');
    shift[0x1E] = Some('A');
    plain[0x30] = Some('b');
    shift[0x30] = Some('B');
    plain[0x1C] = Some('\n');
    shift[0x1C] = Some('\n');
    (plain, shift)
}

fn terminal() -> Terminal {
    let (p, s) = maps();
    Terminal::new(b"> ".to_vec(), p, s)
}

#[test]
fn new_terminal_is_blank() {
    let t = terminal();
    assert_eq!(t.cells().len(), CELLS);
    assert!(t.cells().iter().all(|&b| b == 0));
    assert_eq!((t.row(), t.col(), t.cursor_row(), t.cursor_col()), (0, 0, 0, 0));
    assert!(t.input().is_empty());
}

#[test]
fn start_writes_prompt_and_moves_cursor() {
    let mut t = terminal();
    t.start();
    assert_eq!(t.cell(0, 0), b'>');
    assert_eq!(t.cell(0, 1), b' ');
    assert_eq!(t.col(), 2);
    assert_eq!(t.cursor_col(), 2);
    assert_eq!(t.cursor_row(), 0);
}

#[test]
fn typing_writes_characters_and_input() {
    let mut t = terminal();
    t.start();
    assert_eq!(t.print_key(0x1E, false), KeyEffect::Handled);
    assert_eq!(t.print_key(0x30, true), KeyEffect::Handled);
    assert_eq!(t.cell(0, 2), b'a');
    assert_eq!(t.cell(0, 3), b'B');
    assert_eq!(t.input(), &['a', 'B']);
    assert_eq!((t.col(), t.cursor_col()), (4, 4));
}

#[test]
fn unmapped_key_only_moves_cursor_to_writing_place() {
    let mut t = terminal();
    t.start();
    assert_eq!(t.print_key(0x02, false), KeyEffect::Handled);
    assert_eq!(t.col(), 2);
    assert!(t.input().is_empty());
}

#[test]
fn backspace_erases_last_character_but_not_prompt() {
    let mut t = terminal();
    t.start();
    t.print_key(0x1E, false);
    t.print_key(0x0E, false);
    assert_eq!(t.col(), 2);
    assert_eq!(t.cell(0, 2), 0);
    assert!(t.input().is_empty());
    t.print_key(0x0E, false);
    assert_eq!(t.col(), 2);
    assert_eq!(t.cell(0, 0), b'>');
    assert_eq!(t.cell(0, 1), b' ');
}

#[test]
fn typing_past_column_78_wraps_to_next_row() {
    let mut t = terminal();
    t.start();
    for _ in 2..79 {
        t.print_key(0x1E, false);
    }
    assert_eq!(t.col(), 79);
    assert_eq!(t.row(), 0);
    t.print_key(0x30, false);
    assert_eq!(t.row(), 1);
    assert_eq!(t.col(), 1);
    assert_eq!(t.cell(1, 0), b'b');
    assert_eq!(t.cell(0, 79), 0);
    assert_eq!(t.input().len(), 78);
}

#[test]
fn enter_submits_without_changing_anything() {
    let mut t = terminal();
    t.start();
    t.print_key(0x1E, false);
    let before: Vec<u8> = t.cells().to_vec();
    assert_eq!(t.print_key(0x1C, false), KeyEffect::Submit);
    assert_eq!(t.cells(), &before[..]);
    assert_eq!(t.input(), &['a']);
    assert_eq!(t.col(), 3);
}

#[test]
fn failed_command_puts_prompt_two_rows_down() {
    let mut t = terminal();
    t.start();
    t.print_key(0x1E, false);
    t.finish_command(false);
    assert_eq!(t.row(), 2);
    assert_eq!(t.col(), 2);
    assert_eq!((t.cursor_row(), t.cursor_col()), (2, 2));
    assert!(t.input().is_empty());
    assert_eq!(t.cell(2, 0), b'>');
    assert_eq!(t.cell(0, 2), b'a');
}

#[test]
fn succeeded_command_puts_prompt_on_same_row() {
    let mut t = terminal();
    t.start();
    t.finish_command(true);
    assert_eq!(t.row(), 0);
    assert_eq!(t.col(), 2);
}

#[test]
fn command_reaching_last_row_scrolls() {
    let mut t = terminal();
    t.start();
    for _ in 0..11 {
        t.finish_command(false);
    }
    assert_eq!(t.row(), 22);
    t.put_cell(5, 0, b'x');
    t.finish_command(false);
    assert_eq!(t.row(), 23);
    assert_eq!(t.cell(4, 0), b'x');
    assert_eq!(t.cell(23, 0), b'>');
}

#[test]
fn scroll_moves_rows_up_and_blanks_last() {
    let mut t = terminal();
    for r in 0..ROWS {
        t.put_cell(r, 3, r as u8 + 1);
    }
    t.scroll();
    for r in 0..ROWS - 1 {
        assert_eq!(t.cell(r, 3), r as u8 + 2);
    }
    for c in 0..COLS {
        assert_eq!(t.cell(ROWS - 1, c), 0);
    }
}

#[test]
fn scroll_status_only_acts_on_last_row() {
    let mut t = terminal();
    t.start();
    t.scroll_status();
    assert_eq!(t.row(), 0);
    assert_eq!(t.col(), 2);
    for _ in 0..12 {
        t.finish_command(true);
        t.finish_command(false);
    }
    assert_eq!(t.row(), 23);
    t.finish_command(true);
    t.print_key(0x1E, false);
    for _ in 3..79 {
        t.print_key(0x1E, false);
    }
    t.print_key(0x1E, false);
    assert_eq!(t.row(), 24);
    let cursor = (t.cursor_row(), t.cursor_col());
    t.scroll_status();
    assert_eq!(t.row(), 23);
    assert_eq!(t.col(), 2);
    assert_eq!(t.cell(23, 0), b'>');
    assert_eq!((t.cursor_row(), t.cursor_col()), cursor);
}

#[test]
fn print_prompt_returns_column_after_prompt() {
    let mut t = terminal();
    assert_eq!(t.print_prompt(7, 10), 12);
    assert_eq!(t.cell(7, 10), b'>');
    assert_eq!(t.cell(7, 11), b' ');
    assert_eq!(t.col(), 0);
}

#[test]
fn every_key_is_taken_off_the_last_row() {
    let mut t = terminal();
    t.start();
    for _ in 0..30 {
        t.scroll_status();
        for key in 0..128u8 {
            assert!(t.can_take_key(key, false));
            assert!(t.can_take_key(key, true));
        }
        assert!(t.can_finish_command(false));
        assert!(t.can_finish_command(true));
        for _ in 0..50 {
            t.print_key(0x1E, false);
        }
        t.finish_command(false);
    }
}

#[test]
fn wrapping_on_last_row_is_refused() {
    let mut t = terminal();
    t.start();
    for _ in 0..12 {
        t.finish_command(false);
    }
    t.finish_command(true);
    for _ in 0..77 {
        t.print_key(0x1E, false);
    }
    for _ in 0..79 {
        t.print_key(0x1E, false);
    }
    assert_eq!(t.row(), 24);
    assert_eq!(t.col(), 79);
    assert!(!t.can_take_key(0x1E, false));
    assert!(t.can_take_key(0x0E, false));
    assert!(!t.can_take_key(200, false));
    assert!(!t.can_finish_command(false));
    assert!(t.can_finish_command(true));
}

#[test]
fn repeated_scrolls_shift_by_that_many_rows() {
    let mut t = terminal();
    for r in 0..ROWS {
        t.put_cell(r, 0, r as u8 + 1);
    }
    for _ in 0..3 {
        t.scroll();
    }
    for r in 0..ROWS {
        let expected = if r + 3 < ROWS { r as u8 + 4 } else { 0 };
        assert_eq!(t.cell(r, 0), expected);
    }
    for _ in 0..ROWS {
        t.scroll();
    }
    assert!(t.cells().iter().all(|&b| b == 0));
}
