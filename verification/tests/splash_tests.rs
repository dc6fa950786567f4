use neonforge::screen::{CellWrite, COLOR_SPLASH};
use neonforge::splash::{centered_rows_fit, print_centered, print_loading_animation, SplashStep, FRAME_DELAY};

fn w(row: usize, col: usize, byte: u8) -> CellWrite {
    CellWrite { row, col, byte, color: COLOR_SPLASH }
}

#[test]
fn two_lines_are_centred_around_middle_row() {
    let out = print_centered(b"ab\nc", 10, 10);
    assert_eq!(out, vec![w(4, 4, b'a'), w(4, 5, b'b'), w(5, 5, b'c')]);
}

#[test]
fn empty_lines_take_rows_but_write_nothing() {
    let out = print_centered(b"\nxy\n", 80, 25);
    assert_eq!(out, vec![w(12, 39, b'x'), w(12, 40, b'y')]);
}

#[test]
fn empty_message_writes_nothing() {
    assert!(print_centered(b"", 80, 25).is_empty());
}

#[test]
fn line_wider_than_screen_starts_at_column_zero() {
    let msg = [b'z'; 100];
    let out = print_centered(&msg, 80, 25);
    assert_eq!(out.len(), 100);
    assert_eq!(out[0], w(12, 0, b'z'));
    assert_eq!(out[99], w(12, 99, b'z'));
}

#[test]
fn at_most_twenty_five_lines_are_shown() {
    let msg: Vec<u8> = b"a\n".repeat(30);
    let out = print_centered(&msg, 80, 50);
    assert_eq!(out.len(), 25);
    assert_eq!(out[0], w(13, 40, b'a'));
    assert_eq!(out[24], w(37, 40, b'a'));
}

#[test]
fn logo_is_centred_on_the_screen() {
    let logo: &[u8] = b"\n  ___\n |   |\n |___|\n";
    let out = print_centered(logo, 80, 25);
    assert_eq!(out[0], w(11, 38, b' '));
    assert_eq!(out[5], w(12, 37, b' '));
    assert_eq!(out.len(), 5 + 6 + 6);
    assert!(out.iter().all(|c| c.row >= 10 && c.row <= 14));
}

#[test]
fn loading_animation_has_five_rounds_of_three_frames() {
    let steps = print_loading_animation(16, 39);
    assert_eq!(steps.len(), 5 * (3 + 5 + 7));
    let first = vec![
        SplashStep::Put(w(16, 39, b'.')),
        SplashStep::Pause(FRAME_DELAY),
        SplashStep::Put(w(16, 39, b' ')),
        SplashStep::Put(w(16, 39, b'.')),
        SplashStep::Put(w(16, 40, b'.')),
        SplashStep::Pause(FRAME_DELAY),
        SplashStep::Put(w(16, 39, b' ')),
        SplashStep::Put(w(16, 40, b' ')),
    ];
    assert_eq!(&steps[..8], &first[..]);
    assert_eq!(steps[15..30], steps[0..15]);
    let pauses = steps.iter().filter(|s| matches!(s, SplashStep::Pause(500000))).count();
    assert_eq!(pauses, 15);
}

#[test]
fn narrow_lines_leave_equal_margins() {
    for len in 0..=80usize {
        let line = vec![b'x'; len];
        let out = print_centered(&line, 80, 25);
        if len > 0 {
            let before = out[0].col;
            let after = 80 - before - len;
            assert!(before <= after + 1 && after <= before + 1);
        }
    }
}

#[test]
fn animation_ends_with_blank_dots() {
    let steps = print_loading_animation(3, 10);
    let n = steps.len();
    assert_eq!(
        &steps[n - 3..],
        &[
            SplashStep::Put(w(3, 10, b' ')),
            SplashStep::Put(w(3, 11, b' ')),
            SplashStep::Put(w(3, 12, b' ')),
        ]
    );
}

#[test]
fn centred_rows_fit_check() {
    assert!(centered_rows_fit(b"a\nb\nc", 25));
    assert!(centered_rows_fit(b"a\nb", 2));
    assert!(!centered_rows_fit(b"a\nb\nc\nd", 2));
}

#[test]
fn lines_after_the_twenty_fifth_change_nothing() {
    let mut short: Vec<u8> = Vec::new();
    for i in 0..25u8 {
        if i > 0 {
            short.push(b'\n');
        }
        short.extend(std::iter::repeat(b'a' + i % 26).take(i as usize + 1));
    }
    let mut long = short.clone();
    long.extend_from_slice(b"\nextra line\nand another");
    assert_eq!(print_centered(&short, 80, 50), print_centered(&long, 80, 50));
}
