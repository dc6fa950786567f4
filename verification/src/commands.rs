//! The commands that can be typed at the prompt: `hello`, `time`,
//! `time_set HH:MM:SS`, `date`, `date_set DD.MM.YYYY`, `reboot`, `shutdown`
//! and `clear`.
use vstd::prelude::*;
use crate::screen::{CELLS, ROWS};
use crate::status::{date_text, date_text_spec, time_text, time_text_spec};
use crate::terminal::{idx, overlay, Terminal, TerminalView};

verus! {

/// A command line, read.
#[derive(Clone, Copy, Debug, PartialEq, Eq, Structural)]
pub enum Command {
    /// `hello`: print a greeting.
    Hello,
    /// `time`: show the time.
    Time,
    /// `time_set HH:MM:SS`: set the clock's time.
    TimeSet { hours: u8, minutes: u8, seconds: u8 },
    /// `date`: show the date.
    Date,
    /// `date_set DD.MM.YYYY`: set the clock's date.
    DateSet { day: u8, month: u8, year: u16 },
    /// `reboot`: restart the machine.
    Reboot,
    /// `shutdown`: turn the machine off.
    Shutdown,
    /// `clear`: clear the screen.
    Clear,
    /// Nothing was typed.
    Empty,
    /// Anything else.
    Unknown,
}

/// The words of the commands without arguments.
pub open spec fn word_hello() -> Seq<char> { seq!['h', 'e', 'l', 'l', 'o'] }

pub open spec fn word_time() -> Seq<char> { seq!['t', 'i', 'm', 'e'] }

pub open spec fn word_date() -> Seq<char> { seq!['d', 'a', 't', 'e'] }

pub open spec fn word_reboot() -> Seq<char> { seq!['r', 'e', 'b', 'o', 'o', 't'] }

pub open spec fn word_shutdown() -> Seq<char> { seq!['s', 'h', 'u', 't', 'd', 'o', 'w', 'n'] }

pub open spec fn word_clear() -> Seq<char> { seq!['c', 'l', 'e', 'a', 'r'] }

/// The command words that take an argument, with the space after them.
pub open spec fn word_time_set() -> Seq<char> { seq!['t', 'i', 'm', 'e', '_', 's', 'e', 't', ' '] }

pub open spec fn word_date_set() -> Seq<char> { seq!['d', 'a', 't', 'e', '_', 's', 'e', 't', ' '] }

/// Whether `c` is one of the decimal digits.
pub open spec fn is_digit(c: char) -> bool {
    '0' <= c <= '9'
}

/// The value of the decimal digit `c`.
pub open spec fn digit_value(c: char) -> nat {
    (c as nat - '0' as nat) as nat
}

/// The number written by the two digits at `i` and `i + 1`.
pub open spec fn two_digits(s: Seq<char>, i: int) -> nat {
    10 * digit_value(s[i]) + digit_value(s[i + 1])
}

/// The number written by the four digits from `i` on.
pub open spec fn four_digits(s: Seq<char>, i: int) -> nat {
    100 * two_digits(s, i) + two_digits(s, i + 2)
}

/// Whether the characters at the given positions are all digits.
pub open spec fn digits_at(s: Seq<char>, i: int, n: int) -> bool {
    forall|j: int| i <= j < i + n ==> is_digit(#[trigger] s[j])
}

/// `time_set HH:MM:SS`: the word, then two digits, a colon, two digits, a
/// colon and two digits.
pub open spec fn is_time_set(s: Seq<char>) -> bool {
    &&& s.len() == 17
    &&& s.take(9) == word_time_set()
    &&& digits_at(s, 9, 2) && s[11] == ':' && digits_at(s, 12, 2) && s[14] == ':'
        && digits_at(s, 15, 2)
}

/// `date_set DD.MM.YYYY`: the word, then two digits, a dot, two digits, a dot
/// and four digits.
pub open spec fn is_date_set(s: Seq<char>) -> bool {
    &&& s.len() == 19
    &&& s.take(9) == word_date_set()
    &&& digits_at(s, 9, 2) && s[11] == '.' && digits_at(s, 12, 2) && s[14] == '.'
        && digits_at(s, 15, 4)
}

/// The command that the line `s` is.
pub open spec fn command_of(s: Seq<char>) -> Command {
    if s.len() == 0 {
        Command::Empty
    } else if s == word_hello() {
        Command::Hello
    } else if s == word_time() {
        Command::Time
    } else if s == word_date() {
        Command::Date
    } else if s == word_reboot() {
        Command::Reboot
    } else if s == word_shutdown() {
        Command::Shutdown
    } else if s == word_clear() {
        Command::Clear
    } else if is_time_set(s) {
        Command::TimeSet {
            hours: two_digits(s, 9) as u8,
            minutes: two_digits(s, 12) as u8,
            seconds: two_digits(s, 15) as u8,
        }
    } else if is_date_set(s) {
        Command::DateSet {
            day: two_digits(s, 9) as u8,
            month: two_digits(s, 12) as u8,
            year: four_digits(s, 15) as u16,
        }
    } else {
        Command::Unknown
    }
}

/// Whether `s[from..from + word.len()]` is `word`.
fn matches_at(s: &[char], from: usize, word: &[char]) -> (b: bool)
    requires
        from <= s@.len(),
    ensures
        b == (from + word@.len() <= s@.len() && s@.subrange(from as int, from + word@.len())
            == word@),
{
    if word.len() > s.len() - from {
        return false;
    }
    let mut i: usize = 0;
    while i < word.len()
        invariant
            from + word@.len() <= s@.len(),
            s@.len() <= usize::MAX,
            i <= word@.len(),
            forall|j: int| 0 <= j < i ==> s@[from + j] == word@[j],
        decreases word@.len() - i,
    {
        if s[from + i] != word[i] {
            assert(s@.subrange(from as int, from + word@.len())[i as int] != word@[i as int]);
            return false;
        }
        i = i + 1;
    }
    assert(s@.subrange(from as int, from + word@.len()) =~= word@);
    true
}

/// Whether the line is exactly `word`.
fn is_word(s: &[char], word: &[char]) -> (b: bool)
    ensures
        b == (s@ == word@),
{
    if s.len() != word.len() {
        return false;
    }
    let r = matches_at(s, 0, word);
    assert(s@.subrange(0, s@.len() as int) =~= s@);
    r
}

/// The value of the digit `c`, or `None` when it is not a digit.
fn digit(c: char) -> (d: Option<u8>)
    ensures
        is_digit(c) ==> d == Some(digit_value(c) as u8),
        !is_digit(c) ==> d is None,
{
    if '0' <= c && c <= '9' {
        Some(((c as u32) - ('0' as u32)) as u8)
    } else {
        None
    }
}

/// The number written by the two digits at `i`, `i + 1`, or `None` when one
/// of them is not a digit.
fn read_two(s: &[char], i: usize) -> (r: Option<u8>)
    requires
        i + 2 <= s@.len(),
    ensures
        digits_at(s@, i as int, 2) ==> r == Some(two_digits(s@, i as int) as u8),
        !digits_at(s@, i as int, 2) ==> r is None,
{
    match (digit(s[i]), digit(s[i + 1])) {
        (Some(a), Some(b)) => Some(10 * a + b),
        _ => None,
    }
}

/// Reads a typed line as a command (see `command_of`): one of the command
/// words alone, `time_set` or `date_set` followed by a space and a time
/// `HH:MM:SS` or a date `DD.MM.YYYY` written with exactly those digits and
/// separators; an empty line is `Empty` and anything else `Unknown`.
pub fn parse_command(s: &[char]) -> (c: Command)
    ensures
        c == command_of(s@),
        c matches Command::DateSet { day, month, year } ==> s@.len() == 19 && year == 1000 * (s@[15] as int
            - 48) + 100 * (s@[16] as int - 48) + 10 * (s@[17] as int - 48) + (s@[18] as int - 48) && day
            == 10 * (s@[9] as int - 48) + (s@[10] as int - 48) && month == 10 * (s@[12] as int - 48) + (
        s@[13] as int - 48),
        c matches Command::TimeSet { hours, minutes, seconds } ==> s@.len() == 17 && hours == 10 * (
        s@[9] as int - 48) + (s@[10] as int - 48) && minutes == 10 * (s@[12] as int - 48) + (s@[13] as int
            - 48) && seconds == 10 * (s@[15] as int - 48) + (s@[16] as int - 48),
{
    if s.len() == 0 {
        return Command::Empty;
    }
    if is_word(s, &['h', 'e', 'l', 'l', 'o']) {
        return Command::Hello;
    }
    if is_word(s, &['t', 'i', 'm', 'e']) {
        return Command::Time;
    }
    if is_word(s, &['d', 'a', 't', 'e']) {
        return Command::Date;
    }
    if is_word(s, &['r', 'e', 'b', 'o', 'o', 't']) {
        return Command::Reboot;
    }
    if is_word(s, &['s', 'h', 'u', 't', 'd', 'o', 'w', 'n']) {
        return Command::Shutdown;
    }
    if is_word(s, &['c', 'l', 'e', 'a', 'r']) {
        return Command::Clear;
    }
    assert(s@ != word_hello() && s@ != word_time() && s@ != word_date());
    if s.len() == 17 && matches_at(s, 0, &['t', 'i', 'm', 'e', '_', 's', 'e', 't', ' ']) {
        assert(s@.subrange(0, 9) == s@.take(9));
        if s[11] == ':' && s[14] == ':' {
            if let (Some(h), Some(m), Some(sec)) = (read_two(s, 9), read_two(s, 12), read_two(s, 15)) {
                return Command::TimeSet { hours: h, minutes: m, seconds: sec };
            }
        }
        return Command::Unknown;
    }
    if s.len() == 19 && matches_at(s, 0, &['d', 'a', 't', 'e', '_', 's', 'e', 't', ' ']) {
        assert(s@.subrange(0, 9) == s@.take(9));
        if s[11] == '.' && s[14] == '.' {
            if let (Some(d), Some(m), Some(y1), Some(y2)) = (
                read_two(s, 9),
                read_two(s, 12),
                read_two(s, 15),
                read_two(s, 17),
            ) {
                proof {
                    assert forall|j: int| 15 <= j < 19 implies is_digit(#[trigger] s@[j]) by {
                        if j < 17 {
                            assert(digits_at(s@, 15, 2));
                        } else {
                            assert(digits_at(s@, 17, 2));
                        }
                    }
                }
                return Command::DateSet { day: d, month: m, year: 100 * (y1 as u16) + (y2 as u16) };
            }
        }
        return Command::Unknown;
    }
    Command::Unknown
}

/// What a command asks of the machine beyond the screen.
#[derive(Clone, Copy, Debug, PartialEq, Eq, Structural)]
pub enum CommandEffect {
    /// Nothing.
    Nothing,
    /// Set the clock's time.
    SetTime { hours: u8, minutes: u8, seconds: u8 },
    /// Set the clock's date.
    SetDate { day: u8, month: u8, year: u16 },
    /// Restart the machine.
    Reboot,
    /// Turn the machine off.
    Shutdown,
}

/// The greeting of `hello`: `HELLO!`.
pub open spec fn hello_text() -> Seq<u8> {
    seq![72u8, 69u8, 76u8, 76u8, 79u8, 33u8]
}

/// The line that a command prints below itself, given the clock's reading:
/// the greeting, the time or the date; the other commands print nothing.
pub open spec fn reply_of(cmd: Command, hour: u8, minute: u8, day: u8, month: u8, year: u16) -> Seq<u8> {
    match cmd {
        Command::Hello => hello_text(),
        Command::Time => time_text_spec(hour, minute),
        Command::Date => date_text_spec(day, month, year),
        _ => Seq::empty(),
    }
}

/// What a command asks of the machine.
pub open spec fn effect_of(cmd: Command) -> CommandEffect {
    match cmd {
        Command::TimeSet { hours, minutes, seconds } => CommandEffect::SetTime { hours, minutes, seconds },
        Command::DateSet { day, month, year } => CommandEffect::SetDate { day, month, year },
        Command::Reboot => CommandEffect::Reboot,
        Command::Shutdown => CommandEffect::Shutdown,
        _ => CommandEffect::Nothing,
    }
}

/// Runs a command typed on `row`, with the clock's reading at hand. `clear`
/// blanks the screen and reports success, so that the next prompt stays on
/// its row; any other command writes its line of output (if it has one and
/// there is a row below) at the start of the next row, and reports no
/// success, so that the next prompt goes below the output. The second result
/// is what the command asks of the machine.
pub fn run_command(
    t: &mut Terminal,
    row: usize,
    cmd: Command,
    hour: u8,
    minute: u8,
    day: u8,
    month: u8,
    year: u16,
) -> (r: (bool, CommandEffect))
    requires
        old(t).wf(),
    ensures
        r.0 == (cmd is Clear),
        r.1 == effect_of(cmd),
        cmd matches Command::TimeSet { hours, minutes, seconds } ==> r.1 == (CommandEffect::SetTime {
            hours: hours,
            minutes: minutes,
            seconds: seconds,
        }),
        cmd matches Command::DateSet { day, month, year } ==> r.1 == (CommandEffect::SetDate {
            day: day,
            month: month,
            year: year,
        }),
        final(t).wf(),
        cmd is Clear ==> final(t)@ == (TerminalView {
            cells: Seq::new(CELLS as nat, |i: int| 0u8),
            ..old(t)@
        }),
        !(cmd is Clear) && reply_of(cmd, hour, minute, day, month, year).len() > 0 && row + 1 < ROWS
            ==> final(t)@ == (TerminalView {
            cells: overlay(old(t)@.cells, idx(row + 1, 0), reply_of(cmd, hour, minute, day, month, year)),
            ..old(t)@
        }),
        !(cmd is Clear) && (reply_of(cmd, hour, minute, day, month, year).len() == 0 || row + 1 >= ROWS)
            ==> final(t)@ == old(t)@,
{
    proof {
        crate::decimal::lemma_decimal_len(hour as nat);
        crate::decimal::lemma_decimal_len(minute as nat);
        crate::decimal::lemma_decimal_len(day as nat);
        crate::decimal::lemma_decimal_len(month as nat);
        crate::decimal::lemma_decimal_len(year as nat);
    }
    let reply: Vec<u8> = match cmd {
        Command::Hello => {
            let h: Vec<u8> = vec![72, 69, 76, 76, 79, 33];
            assert(h@ =~= hello_text());
            h
        },
        Command::Time => time_text(hour, minute),
        Command::Date => date_text(day, month, year),
        _ => Vec::new(),
    };
    if let Command::Clear = cmd {
        t.clear_cells();
        return (true, CommandEffect::Nothing);
    }
    if reply.len() > 0 && row < ROWS - 1 {
        t.write_line(row + 1, reply.as_slice());
    }
    let effect = match cmd {
        Command::TimeSet { hours, minutes, seconds } => CommandEffect::SetTime { hours, minutes, seconds },
        Command::DateSet { day, month, year } => CommandEffect::SetDate { day, month, year },
        Command::Reboot => CommandEffect::Reboot,
        Command::Shutdown => CommandEffect::Shutdown,
        _ => CommandEffect::Nothing,
    };
    (false, effect)
}

/// A `time_set` line is read field by field: the hours are the number
/// written by the two characters after the space, the minutes the two after
/// the first colon, the seconds the two after the second; and a line read as
/// a time setting has exactly that shape.
pub proof fn lemma_time_set_fields(s: Seq<char>)
    ensures
        (s.len() == 17 && s.take(9) == seq!['t', 'i', 'm', 'e', '_', 's', 'e', 't', ' ']
            && s[11] == ':' && s[14] == ':'
            && (forall|j: int| (9 <= j < 11 || 12 <= j < 14 || 15 <= j < 17) ==> '0' <= #[trigger] s[j] <= '9'))
            ==> command_of(s) == (Command::TimeSet {
                hours: (10 * (s[9] as int - 48) + (s[10] as int - 48)) as u8,
                minutes: (10 * (s[12] as int - 48) + (s[13] as int - 48)) as u8,
                seconds: (10 * (s[15] as int - 48) + (s[16] as int - 48)) as u8,
            }),
        command_of(s) is TimeSet ==> s.len() == 17 && s[11] == ':' && s[14] == ':',
{
    if s.len() == 17 && s.take(9) == word_time_set() && s[11] == ':' && s[14] == ':'
        && (forall|j: int| (9 <= j < 11 || 12 <= j < 14 || 15 <= j < 17) ==> '0' <= #[trigger] s[j] <= '9') {
        assert(s != word_hello() && s != word_time() && s != word_date());
        assert(s != word_reboot() && s != word_shutdown() && s != word_clear());
        assert(is_time_set(s));
    }
}

/// A `date_set` line is read field by field: the day is the number written by
/// the two characters after the space, the month the two after the first dot,
/// and the year the four after the second dot, thousands first; and a line
/// read as a date setting has exactly that shape.
pub proof fn lemma_date_set_fields(s: Seq<char>)
    ensures
        (s.len() == 19 && s.take(9) == seq!['d', 'a', 't', 'e', '_', 's', 'e', 't', ' ']
            && s[11] == '.' && s[14] == '.'
            && (forall|j: int| (9 <= j < 11 || 12 <= j < 14 || 15 <= j < 19) ==> '0' <= #[trigger] s[j] <= '9'))
            ==> command_of(s) == (Command::DateSet {
                day: (10 * (s[9] as int - 48) + (s[10] as int - 48)) as u8,
                month: (10 * (s[12] as int - 48) + (s[13] as int - 48)) as u8,
                year: (1000 * (s[15] as int - 48) + 100 * (s[16] as int - 48) + 10 * (s[17] as int - 48)
                    + (s[18] as int - 48)) as u16,
            }),
        command_of(s) is DateSet ==> s.len() == 19 && s[11] == '.' && s[14] == '.',
{
    if s.len() == 19 && s.take(9) == word_date_set() && s[11] == '.' && s[14] == '.'
        && (forall|j: int| (9 <= j < 11 || 12 <= j < 14 || 15 <= j < 19) ==> '0' <= #[trigger] s[j] <= '9') {
        assert(s != word_hello() && s != word_time() && s != word_date());
        assert(s != word_reboot() && s != word_shutdown() && s != word_clear());
        assert(is_date_set(s));
    }
}

/// Each command word alone, and nothing else, is read as its command.
pub proof fn lemma_command_words(s: Seq<char>)
    ensures
        command_of(s) == Command::Hello <==> s == seq!['h', 'e', 'l', 'l', 'o'],
        command_of(s) == Command::Time <==> s == seq!['t', 'i', 'm', 'e'],
        command_of(s) == Command::Date <==> s == seq!['d', 'a', 't', 'e'],
        command_of(s) == Command::Reboot <==> s == seq!['r', 'e', 'b', 'o', 'o', 't'],
        command_of(s) == Command::Shutdown <==> s == seq!['s', 'h', 'u', 't', 'd', 'o', 'w', 'n'],
        command_of(s) == Command::Clear <==> s == seq!['c', 'l', 'e', 'a', 'r'],
        command_of(s) == Command::Empty <==> s.len() == 0,
{
}

/// A command asks the machine for exactly what it says: a time or date
/// setting carries its own fields, in the same places; `reboot` and
/// `shutdown` ask for that; every other command asks for nothing.
pub proof fn lemma_command_effect_fields(cmd: Command)
    ensures
        cmd matches Command::TimeSet { hours, minutes, seconds } ==> effect_of(cmd)
            == (CommandEffect::SetTime { hours: hours, minutes: minutes, seconds: seconds }),
        cmd matches Command::DateSet { day, month, year } ==> effect_of(cmd) == (CommandEffect::SetDate {
            day: day,
            month: month,
            year: year,
        }),
        cmd == Command::Reboot <==> effect_of(cmd) == CommandEffect::Reboot,
        cmd == Command::Shutdown <==> effect_of(cmd) == CommandEffect::Shutdown,
        effect_of(cmd) == CommandEffect::Nothing <==> !(cmd is TimeSet || cmd is DateSet || cmd is Reboot
            || cmd is Shutdown),
{
}

/// The line a command prints: `HELLO!` for `hello`; for `time` and `date` the
/// clock's reading as `HH:MM` and `DD.MM.YYYY` when its fields have no more
/// digits than that; nothing for any other command.
pub proof fn lemma_command_replies(cmd: Command, hour: u8, minute: u8, day: u8, month: u8, year: u16)
    ensures
        cmd == Command::Hello ==> reply_of(cmd, hour, minute, day, month, year) == seq![72u8, 69u8, 76u8, 76u8, 79u8, 33u8],
        (cmd == Command::Time && hour < 100 && minute < 100) ==> reply_of(cmd, hour, minute, day, month, year)
            == crate::status::time_digits(hour, minute),
        (cmd == Command::Date && day < 100 && month < 100 && year < 10000) ==> reply_of(
            cmd,
            hour,
            minute,
            day,
            month,
            year,
        ) == crate::status::date_digits(day, month, year),
        !(cmd is Hello || cmd is Time || cmd is Date) ==> reply_of(cmd, hour, minute, day, month, year).len() == 0,
{
    crate::status::lemma_time_text_digits(hour, minute);
    crate::status::lemma_date_text_digits(day, month, year);
}

} // verus!
