//! The boot splash: a message centred on the screen line by line, and a
//! loading animation of three dots.
use vstd::prelude::*;
use crate::screen::{CellWrite, COLOR_SPLASH};

verus! {

/// The most lines of a message that `print_centered` shows.
pub const MAX_LINES: usize = 25;

/// The byte that ends a line.
pub const NEWLINE: u8 = 10;

/// How many times the loading animation runs through its frames.
pub const ANIMATION_ROUNDS: usize = 5;

/// The number of dots of the loading animation.
pub const DOTS: usize = 3;

/// How long each frame of the loading animation stays on the screen, in
/// iterations of the busy-wait loop.
pub const FRAME_DELAY: u32 = 500000;

/// The pieces of `s` between newline bytes, in order. There is always at
/// least one piece: the empty message is one empty line, and a newline at the
/// end starts a last, empty line.
pub open spec fn split_lines(s: Seq<u8>) -> Seq<Seq<u8>>
    decreases s.len(),
{
    if s.len() == 0 {
        seq![Seq::<u8>::empty()]
    } else {
        let prev = split_lines(s.drop_last());
        if s.last() == NEWLINE {
            prev.push(Seq::<u8>::empty())
        } else {
            prev.update(prev.len() - 1, prev.last().push(s.last()))
        }
    }
}

/// A message always splits into at least one line.
pub proof fn lemma_split_lines_nonempty(s: Seq<u8>)
    ensures
        split_lines(s).len() >= 1,
    decreases s.len(),
{
    if s.len() > 0 {
        lemma_split_lines_nonempty(s.drop_last());
    }
}

/// The number of lines shown: all of them, up to `MAX_LINES`.
pub open spec fn shown_lines(msg: Seq<u8>) -> nat {
    let n = split_lines(msg).len();
    if n < MAX_LINES {
        n
    } else {
        MAX_LINES as nat
    }
}

/// The first row of the centred message.
pub open spec fn start_row(msg: Seq<u8>, height: u16) -> int {
    height / 2 - shown_lines(msg) / 2
}

/// The first column of a centred line of `len` bytes (its length taken
/// modulo 2^16, as a 16-bit count), never left of column 0.
pub open spec fn start_col(width: u16, len: nat) -> nat {
    let half = (len % 65536) / 2;
    if (width / 2) as nat >= half {
        ((width / 2) as nat - half) as nat
    } else {
        0
    }
}

/// The writes of one centred line on `row`.
pub open spec fn line_writes(line: Seq<u8>, row: int, width: u16) -> Seq<CellWrite> {
    Seq::new(
        line.len(),
        |i: int|
            CellWrite {
                row: row as usize,
                col: (start_col(width, line.len()) + i) as usize,
                byte: line[i],
                color: COLOR_SPLASH,
            },
    )
}

/// The writes of the first `k` lines, from row `first_row` down.
pub open spec fn lines_writes(lines: Seq<Seq<u8>>, k: nat, first_row: int, width: u16) -> Seq<
    CellWrite,
>
    decreases k,
{
    if k == 0 {
        Seq::empty()
    } else {
        lines_writes(lines, (k - 1) as nat, first_row, width) + line_writes(
            lines[k - 1],
            first_row + k - 1,
            width,
        )
    }
}

/// Everything that `print_centered` writes: each shown line, centred in a
/// screen `width` columns wide, on consecutive rows around the middle row of
/// a screen `height` rows high, in the splash colour.
pub open spec fn centered_writes(msg: Seq<u8>, width: u16, height: u16) -> Seq<CellWrite> {
    lines_writes(split_lines(msg), shown_lines(msg), start_row(msg, height), width)
}

/// The byte ranges of `msg` that `ranges` point at.
pub open spec fn ranges_lines(msg: Seq<u8>, ranges: Seq<(usize, usize)>) -> Seq<Seq<u8>> {
    Seq::new(ranges.len(), |i: int| msg.subrange(ranges[i].0 as int, ranges[i].1 as int))
}

/// Splits `msg` at its newline bytes; each piece is given by its start and
/// end index.
fn split_ranges(msg: &[u8]) -> (r: Vec<(usize, usize)>)
    ensures
        ranges_lines(msg@, r@) == split_lines(msg@),
        forall|i: int| 0 <= i < r@.len() ==> (#[trigger] r@[i]).0 <= r@[i].1 <= msg@.len(),
{
    let mut done: Vec<(usize, usize)> = Vec::new();
    let mut start: usize = 0;
    let mut i: usize = 0;
    assert(msg@.take(0) =~= Seq::<u8>::empty());
    assert(ranges_lines(msg@, done@).push(msg@.subrange(0, 0)) =~= split_lines(msg@.take(0)));
    while i < msg.len()
        invariant
            i <= msg@.len(),
            start <= i,
            forall|j: int| 0 <= j < done@.len() ==> (#[trigger] done@[j]).0 <= done@[j].1 <= i,
            ranges_lines(msg@, done@).push(msg@.subrange(start as int, i as int)) == split_lines(
                msg@.take(i as int),
            ),
        decreases msg@.len() - i,
    {
        let ghost prev = ranges_lines(msg@, done@).push(msg@.subrange(start as int, i as int));
        assert(msg@.take(i + 1).drop_last() =~= msg@.take(i as int));
        assert(msg@.take(i + 1).last() == msg@[i as int]);
        if msg[i] == NEWLINE {
            let ghost done_before = done@;
            done.push((start, i));
            assert(ranges_lines(msg@, done@) =~= ranges_lines(msg@, done_before).push(
                msg@.subrange(start as int, i as int),
            ));
            start = i + 1;
            assert(msg@.subrange(start as int, (i + 1) as int) =~= Seq::<u8>::empty());
            assert(ranges_lines(msg@, done@).push(msg@.subrange(start as int, (i + 1) as int))
                =~= prev.push(Seq::<u8>::empty()));
        } else {
            assert(msg@.subrange(start as int, (i + 1) as int) =~= msg@.subrange(
                start as int,
                i as int,
            ).push(msg@[i as int]));
            assert(ranges_lines(msg@, done@).push(msg@.subrange(start as int, (i + 1) as int))
                =~= prev.update(prev.len() - 1, prev.last().push(msg@[i as int])));
        }
        i = i + 1;
    }
    assert(msg@.take(msg@.len() as int) =~= msg@);
    let ghost before = done@;
    done.push((start, msg.len()));
    assert(ranges_lines(msg@, done@) =~= ranges_lines(msg@, before).push(
        msg@.subrange(start as int, msg@.len() as int),
    ));
    done
}

/// The first column of a centred line of `len` bytes.
fn line_start_col(width: u16, len: usize) -> (c: u16)
    ensures
        c == start_col(width, len as nat),
{
    let len16: u16 = (len % 65536) as u16;
    (width / 2).saturating_sub(len16 / 2)
}

/// Whether the message's shown lines fit around the middle row of a screen
/// `height` rows high, which `print_centered` asks of its caller.
pub fn centered_rows_fit(msg: &[u8], height: u16) -> (b: bool)
    ensures
        b == (shown_lines(msg@) / 2 <= height / 2),
{
    let ranges = split_ranges(msg);
    let line_count: usize = if ranges.len() < MAX_LINES {
        ranges.len()
    } else {
        MAX_LINES
    };
    line_count / 2 <= (height / 2) as usize
}

/// What the splash screen writes to show `msg` centred on a screen `width`
/// by `height`: the message is split at newline bytes, at most `MAX_LINES`
/// lines are kept, and they are written one per row from row
/// `height / 2 - lines / 2`, each line from the column that centres it, in
/// the splash colour. The first row is computed in 16 bits; a message with
/// more lines than the rows above the middle can hold would make it
/// negative, an arithmetic overflow that is left out.
pub fn print_centered(msg: &[u8], width: u16, height: u16) -> (w: Vec<CellWrite>)
    requires
        msg@.len() <= isize::MAX,
        shown_lines(msg@) / 2 <= height / 2,
    ensures
        w@ == centered_writes(msg@, width, height),
{
    let ranges = split_ranges(msg);
    proof {
        lemma_split_lines_nonempty(msg@);
    }
    let line_count: usize = if ranges.len() < MAX_LINES {
        ranges.len()
    } else {
        MAX_LINES
    };
    let first_row: u16 = height / 2 - (line_count as u16) / 2;
    let ghost lines = split_lines(msg@);
    let mut w: Vec<CellWrite> = Vec::new();
    let mut k: usize = 0;
    while k < line_count
        invariant
            k <= line_count,
            line_count == shown_lines(msg@),
            line_count <= ranges@.len(),
            line_count <= MAX_LINES,
            first_row == start_row(msg@, height),
            msg@.len() <= isize::MAX,
            lines == split_lines(msg@),
            ranges_lines(msg@, ranges@) == lines,
            forall|i: int| 0 <= i < ranges@.len() ==> (#[trigger] ranges@[i]).0 <= ranges@[i].1 <= msg@.len(),
            w@ == lines_writes(lines, k as nat, first_row as int, width),
        decreases line_count - k,
    {
        let (a, b) = ranges[k];
        let col0 = line_start_col(width, b - a);
        let row: u16 = first_row + k as u16;
        let ghost line = lines[k as int];
        assert(line == msg@.subrange(a as int, b as int));
        let ghost before = w@;
        let mut i: usize = 0;
        while i < b - a
            invariant
                a <= b <= msg@.len(),
                msg@.len() <= isize::MAX,
                i <= b - a,
                line == msg@.subrange(a as int, b as int),
                col0 == start_col(width, line.len()),
                row == first_row + k,
                w@ == before + line_writes(line, row as int, width).take(i as int),
            decreases b - a - i,
        {
            w.push(
                CellWrite {
                    row: row as usize,
                    col: col0 as usize + i,
                    byte: msg[a + i],
                    color: COLOR_SPLASH,
                },
            );
            i = i + 1;
            assert(w@ =~= before + line_writes(line, row as int, width).take(i as int));
        }
        assert(line_writes(line, row as int, width).take((b - a) as int) =~= line_writes(
            line,
            row as int,
            width,
        ));
        k = k + 1;
        assert(w@ =~= lines_writes(lines, k as nat, first_row as int, width));
    }
    w
}

/// One step of the loading animation: put a character on the screen, or
/// wait for the given number of busy-wait iterations.
#[derive(Clone, Copy, Debug, PartialEq, Eq, Structural)]
pub enum SplashStep {
    Put(CellWrite),
    Pause(u32),
}

/// The first `n` dots from `row`, `col`, each shown as `byte`.
pub open spec fn dot_steps(row: usize, col: usize, n: nat, byte: u8) -> Seq<SplashStep> {
    Seq::new(
        n,
        |j: int|
            SplashStep::Put(
                CellWrite { row: row, col: (col + j) as usize, byte: byte, color: COLOR_SPLASH },
            ),
    )
}

/// Frame `i` of the animation: light the first `i + 1` dots, wait, and
/// blank them again.
pub open spec fn frame_steps(row: usize, col: usize, i: nat) -> Seq<SplashStep> {
    dot_steps(row, col, i + 1, 46u8) + seq![SplashStep::Pause(FRAME_DELAY)] + dot_steps(
        row,
        col,
        i + 1,
        32u8,
    )
}

/// The first `k` frames of one round.
pub open spec fn round_steps(row: usize, col: usize, k: nat) -> Seq<SplashStep>
    decreases k,
{
    if k == 0 {
        Seq::empty()
    } else {
        round_steps(row, col, (k - 1) as nat) + frame_steps(row, col, (k - 1) as nat)
    }
}

/// The first `k` rounds of the animation.
pub open spec fn animation_steps(row: usize, col: usize, k: nat) -> Seq<SplashStep>
    decreases k,
{
    if k == 0 {
        Seq::empty()
    } else {
        animation_steps(row, col, (k - 1) as nat) + round_steps(row, col, DOTS as nat)
    }
}

/// Appends `n` dots shown as `byte` to `steps`.
fn push_dots(steps: &mut Vec<SplashStep>, row: usize, col: usize, n: usize, byte: u8)
    requires
        col + n <= usize::MAX + 1,
    ensures
        final(steps)@ == old(steps)@ + dot_steps(row, col, n as nat, byte),
{
    let mut j: usize = 0;
    while j < n
        invariant
            j <= n,
            col + n <= usize::MAX + 1,
            steps@ == old(steps)@ + dot_steps(row, col, j as nat, byte),
        decreases n - j,
    {
        steps.push(
            SplashStep::Put(CellWrite { row: row, col: col + j, byte: byte, color: COLOR_SPLASH }),
        );
        j = j + 1;
        assert(steps@ =~= old(steps)@ + dot_steps(row, col, j as nat, byte));
    }
}

/// The steps of the loading animation at `row`, `col`: five rounds; in each
/// round the dots light up one, two, then three at a time, each frame shown
/// for `FRAME_DELAY` busy-wait iterations and then blanked.
pub fn print_loading_animation(row: usize, col: usize) -> (steps: Vec<SplashStep>)
    requires
        col + (DOTS - 1) <= usize::MAX,
    ensures
        steps@ == animation_steps(row, col, ANIMATION_ROUNDS as nat),
{
    let mut steps: Vec<SplashStep> = Vec::new();
    let mut r: usize = 0;
    while r < ANIMATION_ROUNDS
        invariant
            r <= ANIMATION_ROUNDS,
            col + (DOTS - 1) <= usize::MAX,
            steps@ == animation_steps(row, col, r as nat),
        decreases ANIMATION_ROUNDS - r,
    {
        let ghost before = steps@;
        let mut i: usize = 0;
        while i < DOTS
            invariant
                i <= DOTS,
                col + (DOTS - 1) <= usize::MAX,
                steps@ == before + round_steps(row, col, i as nat),
            decreases DOTS - i,
        {
            let ghost mid = steps@;
            push_dots(&mut steps, row, col, i + 1, 46);
            steps.push(SplashStep::Pause(FRAME_DELAY));
            push_dots(&mut steps, row, col, i + 1, 32);
            assert(steps@ =~= mid + frame_steps(row, col, i as nat));
            i = i + 1;
            assert(steps@ =~= before + round_steps(row, col, i as nat));
        }
        r = r + 1;
        assert(steps@ =~= animation_steps(row, col, r as nat));
    }
    steps
}

/// A line no wider than the screen is centred: as many columns (up to one,
/// for an odd difference) are left free before it as after it. A wider line
/// starts at column 0.
pub proof fn lemma_line_centred(width: u16, len: nat)
    requires
        len < 65536,
    ensures
        len <= width ==> {
            let before = start_col(width, len) as int;
            let after = width - before - len;
            before <= after + 1 && after <= before + 1
        },
        len / 2 > width / 2 ==> start_col(width, len) == 0,
{
}

/// The loading animation ends by blanking all three dots: its last three
/// steps put spaces on the dots' cells.
pub proof fn lemma_animation_ends_blank(row: usize, col: usize)
    requires
        col + (DOTS - 1) <= usize::MAX,
    ensures
        ({
            let s = animation_steps(row, col, ANIMATION_ROUNDS as nat);
            &&& s.len() == ANIMATION_ROUNDS * 15
            &&& s.subrange(s.len() - 3, s.len() as int) == dot_steps(row, col, 3, 32u8)
        }),
{
    reveal_with_fuel(animation_steps, 6);
    reveal_with_fuel(round_steps, 4);
    let s = animation_steps(row, col, ANIMATION_ROUNDS as nat);
    let last = frame_steps(row, col, 2);
    assert(s.subrange(s.len() - 3, s.len() as int) =~= last.subrange(4, 7));
    assert(last.subrange(4, 7) =~= dot_steps(row, col, 3, 32u8));
}

/// The writes of the first `k` lines depend on those lines alone.
proof fn lemma_lines_writes_prefix(l1: Seq<Seq<u8>>, l2: Seq<Seq<u8>>, k: nat, first_row: int, width: u16)
    requires
        k <= l1.len(),
        k <= l2.len(),
        forall|j: int| 0 <= j < k ==> l1[j] == l2[j],
    ensures
        lines_writes(l1, k, first_row, width) == lines_writes(l2, k, first_row, width),
    decreases k,
{
    if k > 0 {
        lemma_lines_writes_prefix(l1, l2, (k - 1) as nat, first_row, width);
        assert(l1[k - 1] == l2[k - 1]);
    }
}

/// Lines past the `MAX_LINES`-th change nothing: two messages whose first
/// `MAX_LINES` lines are the same, and that both have at least that many
/// lines, are written the same way, in the same place.
pub proof fn lemma_lines_past_max_ignored(m1: Seq<u8>, m2: Seq<u8>, width: u16, height: u16)
    requires
        split_lines(m1).len() >= MAX_LINES,
        split_lines(m2).len() >= MAX_LINES,
        forall|j: int| 0 <= j < MAX_LINES ==> split_lines(m1)[j] == split_lines(m2)[j],
    ensures
        centered_writes(m1, width, height) == centered_writes(m2, width, height),
{
    assert(shown_lines(m1) == MAX_LINES && shown_lines(m2) == MAX_LINES);
    assert(start_row(m1, height) == start_row(m2, height));
    lemma_lines_writes_prefix(
        split_lines(m1),
        split_lines(m2),
        MAX_LINES as nat,
        start_row(m1, height),
        width,
    );
}

/// Reading more of a message keeps the lines already complete: every line of
/// a prefix but its last is a line of the longer prefix too, and when a
/// newline follows the shorter prefix, its last line is complete as well.
proof fn lemma_split_extend(s: Seq<u8>, n: int, m: int)
    requires
        0 <= n <= m <= s.len(),
    ensures
        split_lines(s.take(m)).len() >= split_lines(s.take(n)).len(),
        forall|j: int|
            0 <= j < split_lines(s.take(n)).len() - 1 ==> #[trigger] split_lines(s.take(m))[j]
                == split_lines(s.take(n))[j],
        n < m && s[n] == NEWLINE ==> split_lines(s.take(m)).len() > split_lines(s.take(n)).len()
            && forall|j: int|
            0 <= j < split_lines(s.take(n)).len() ==> #[trigger] split_lines(s.take(m))[j]
                == split_lines(s.take(n))[j],
    decreases m - n,
{
    lemma_split_lines_nonempty(s.take(n));
    if m > n {
        lemma_split_extend(s, n, m - 1);
        lemma_split_lines_nonempty(s.take(m - 1));
        assert(s.take(m).drop_last() =~= s.take(m - 1));
        assert(s.take(m).last() == s[m - 1]);
        if m - 1 == n && s[n] == NEWLINE {
            assert(s.take(m - 1) =~= s.take(n));
        }
    }
}

/// A message cut just before the newline that ends its `MAX_LINES`-th line
/// is written exactly as the whole message: the lines after it are dropped and
/// do not move the others.
pub proof fn lemma_cut_after_max_lines(msg: Seq<u8>, n: int, width: u16, height: u16)
    requires
        0 <= n < msg.len(),
        msg[n] == NEWLINE,
        split_lines(msg.take(n)).len() == MAX_LINES,
    ensures
        centered_writes(msg.take(n), width, height) == centered_writes(msg, width, height),
{
    lemma_split_extend(msg, n, msg.len() as int);
    assert(msg.take(msg.len() as int) =~= msg);
    assert(msg.take(n).take(n) =~= msg.take(n));
    lemma_lines_past_max_ignored(msg.take(n), msg, width, height);
}

/// Lines joined back together with a newline between each two.
pub open spec fn join_lines(lines: Seq<Seq<u8>>) -> Seq<u8>
    decreases lines.len(),
{
    if lines.len() <= 1 {
        if lines.len() == 1 { lines[0] } else { Seq::empty() }
    } else {
        join_lines(lines.drop_last()) + seq![NEWLINE] + lines.last()
    }
}

/// Splitting a message at its newlines loses nothing: no piece holds a
/// newline, and the pieces joined with newlines give the message back.
pub proof fn lemma_split_join(s: Seq<u8>)
    ensures
        join_lines(split_lines(s)) == s,
        forall|i: int, j: int|
            0 <= i < split_lines(s).len() && 0 <= j < split_lines(s)[i].len() ==> #[trigger] split_lines(s)[i][j]
                != NEWLINE,
    decreases s.len(),
{
    lemma_split_lines_nonempty(s);
    if s.len() == 0 {
        assert(join_lines(split_lines(s)) =~= s);
    } else {
        let prev = split_lines(s.drop_last());
        lemma_split_join(s.drop_last());
        lemma_split_lines_nonempty(s.drop_last());
        let b = s.last();
        if b == NEWLINE {
            let now = prev.push(Seq::<u8>::empty());
            assert(now.drop_last() =~= prev);
            assert(join_lines(now) =~= s);
        } else {
            let now = prev.update(prev.len() - 1, prev.last().push(b));
            if prev.len() == 1 {
                assert(join_lines(now) =~= s);
            } else {
                assert(now.drop_last() =~= prev.drop_last());
                assert(now.last() == prev.last().push(b));
                assert(join_lines(now) == join_lines(prev.drop_last()) + seq![NEWLINE] + prev.last().push(b));
                assert(join_lines(prev) == join_lines(prev.drop_last()) + seq![NEWLINE] + prev.last());
                assert(join_lines(now) =~= join_lines(prev).push(b));
                assert(s =~= s.drop_last().push(b));
            }
            assert forall|i: int, j: int|
                0 <= i < now.len() && 0 <= j < now[i].len() implies #[trigger] now[i][j] != NEWLINE by {
                if i == prev.len() - 1 && j == prev.last().len() {
                    assert(now[i][j] == b);
                } else if i == prev.len() - 1 {
                    assert(now[i][j] == prev.last()[j]);
                }
            }
        }
    }
}

/// Every write of the centred message is in the splash colour, and its byte
/// is never a newline.
pub proof fn lemma_centered_bytes(msg: Seq<u8>, width: u16, height: u16)
    ensures
        forall|i: int|
            0 <= i < centered_writes(msg, width, height).len() ==> (#[trigger] centered_writes(msg, width, height)[i]).color
                == COLOR_SPLASH && centered_writes(msg, width, height)[i].byte != NEWLINE,
{
    lemma_split_join(msg);
    lemma_split_lines_nonempty(msg);
    lemma_lines_writes_bytes(split_lines(msg), shown_lines(msg), start_row(msg, height), width);
}

/// The writes of the first `k` lines are in the splash colour and write no
/// newline, when the lines hold none.
proof fn lemma_lines_writes_bytes(lines: Seq<Seq<u8>>, k: nat, first_row: int, width: u16)
    requires
        k <= lines.len(),
        forall|i: int, j: int| 0 <= i < lines.len() && 0 <= j < lines[i].len() ==> #[trigger] lines[i][j] != NEWLINE,
    ensures
        forall|i: int|
            0 <= i < lines_writes(lines, k, first_row, width).len() ==> (#[trigger] lines_writes(
                lines,
                k,
                first_row,
                width,
            )[i]).color == COLOR_SPLASH && lines_writes(lines, k, first_row, width)[i].byte != NEWLINE,
    decreases k,
{
    if k > 0 {
        lemma_lines_writes_bytes(lines, (k - 1) as nat, first_row, width);
        let a = lines_writes(lines, (k - 1) as nat, first_row, width);
        let b = line_writes(lines[k - 1], first_row + k - 1, width);
        assert forall|i: int| 0 <= i < (a + b).len() implies (#[trigger] (a + b)[i]).color == COLOR_SPLASH
            && (a + b)[i].byte != NEWLINE by {
            if i >= a.len() {
                assert((a + b)[i] == b[i - a.len()]);
                assert(lines[k - 1][i - a.len()] != NEWLINE);
            }
        }
    }
}

} // verus!
