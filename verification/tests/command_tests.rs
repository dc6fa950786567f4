use neonforge::commands::{parse_command, run_command, Command, CommandEffect};
use neonforge::terminal::Terminal;

fn parse(s: &str) -> Command {
    let chars: Vec<char> = s.chars().collect();
    parse_command(&chars)
}

#[test]
fn plain_commands_are_recognised() {
    assert_eq!(parse("hello"), Command::Hello);
    assert_eq!(parse("time"), Command::Time);
    assert_eq!(parse("date"), Command::Date);
    assert_eq!(parse("reboot"), Command::Reboot);
    assert_eq!(parse("shutdown"), Command::Shutdown);
    assert_eq!(parse("clear"), Command::Clear);
    assert_eq!(parse(""), Command::Empty);
}

#[test]
fn time_set_reads_hours_minutes_seconds() {
    assert_eq!(parse("time_set 12:00:00"), Command::TimeSet { hours: 12, minutes: 0, seconds: 0 });
    assert_eq!(parse("time_set 09:41:07"), Command::TimeSet { hours: 9, minutes: 41, seconds: 7 });
}

#[test]
fn date_set_reads_day_month_year() {
    assert_eq!(parse("date_set 01.01.2000"), Command::DateSet { day: 1, month: 1, year: 2000 });
    assert_eq!(parse("date_set 31.12.1999"), Command::DateSet { day: 31, month: 12, year: 1999 });
}

#[test]
fn malformed_lines_are_unknown() {
    assert_eq!(parse("helo"), Command::Unknown);
    assert_eq!(parse("hello "), Command::Unknown);
    assert_eq!(parse("HELLO"), Command::Unknown);
    assert_eq!(parse("time_set 12:00"), Command::Unknown);
    assert_eq!(parse("time_set 12-00-00"), Command::Unknown);
    assert_eq!(parse("time_set 1a:00:00"), Command::Unknown);
    assert_eq!(parse("date_set 01/01/2000"), Command::Unknown);
    assert_eq!(parse("date_set 01.01.20x0"), Command::Unknown);
    assert_eq!(parse("date_set 01.01.20000"), Command::Unknown);
}

fn terminal() -> Terminal {
    Terminal::new(b"> ".to_vec(), vec![None; 128], vec![None; 128])
}

#[test]
fn hello_prints_greeting_below_command() {
    let mut t = terminal();
    let (stat, effect) = run_command(&mut t, 3, parse("hello"), 0, 0, 1, 1, 2000);
    assert!(!stat);
    assert_eq!(effect, CommandEffect::Nothing);
    assert_eq!(&t.cells()[4 * 80..4 * 80 + 6], b"HELLO!");
    assert!(t.cells()[..4 * 80].iter().all(|&b| b == 0));
}

#[test]
fn time_and_date_print_clock_reading() {
    let mut t = terminal();
    run_command(&mut t, 0, parse("time"), 7, 5, 1, 1, 2000);
    assert_eq!(&t.cells()[80..85], b"07:05");
    run_command(&mut t, 1, parse("date"), 7, 5, 24, 12, 2023);
    assert_eq!(&t.cells()[160..170], b"24.12.2023");
}

#[test]
fn setting_commands_ask_the_clock() {
    let mut t = terminal();
    assert_eq!(
        run_command(&mut t, 0, parse("time_set 12:00:00"), 0, 0, 0, 0, 0),
        (false, CommandEffect::SetTime { hours: 12, minutes: 0, seconds: 0 })
    );
    assert_eq!(
        run_command(&mut t, 0, parse("date_set 01.01.2000"), 0, 0, 0, 0, 0),
        (false, CommandEffect::SetDate { day: 1, month: 1, year: 2000 })
    );
    assert_eq!(run_command(&mut t, 0, parse("reboot"), 0, 0, 0, 0, 0), (false, CommandEffect::Reboot));
    assert_eq!(run_command(&mut t, 0, parse("shutdown"), 0, 0, 0, 0, 0), (false, CommandEffect::Shutdown));
    assert!(t.cells().iter().all(|&b| b == 0));
}

#[test]
fn clear_blanks_screen_and_succeeds() {
    let mut t = terminal();
    t.start();
    t.put_cell(10, 10, b'q');
    assert_eq!(run_command(&mut t, 5, parse("clear"), 0, 0, 0, 0, 0), (true, CommandEffect::Nothing));
    assert!(t.cells().iter().all(|&b| b == 0));
    assert_eq!(t.col(), 2);
}

#[test]
fn output_on_last_row_is_dropped() {
    let mut t = terminal();
    assert_eq!(run_command(&mut t, 24, parse("hello"), 0, 0, 0, 0, 0), (false, CommandEffect::Nothing));
    assert!(t.cells().iter().all(|&b| b == 0));
    assert_eq!(run_command(&mut t, 2, parse("nonsense"), 0, 0, 0, 0, 0), (false, CommandEffect::Nothing));
    assert!(t.cells().iter().all(|&b| b == 0));
}
