//! Decimal text of unsigned numbers, as ASCII bytes, optionally padded with
//! leading zeros to a minimum width (what `{:02}` and `{:04}` print).
use vstd::prelude::*;

verus! {

/// The ASCII code of the digit `d` (for `d` below ten).
pub open spec fn digit_byte(d: nat) -> u8 {
    (48 + d) as u8
}

/// The decimal digits of `n`, most significant first, without leading zeros
/// (zero itself is the single digit `0`).
pub open spec fn decimal(n: nat) -> Seq<u8>
    decreases n,
{
    if n < 10 {
        seq![digit_byte(n)]
    } else {
        decimal(n / 10).push(digit_byte(n % 10))
    }
}

/// The decimal digits of `n` with leading zeros added up to `width` digits;
/// a number with more digits is written in full.
pub open spec fn zero_padded(n: nat, width: nat) -> Seq<u8> {
    let d = decimal(n);
    if d.len() < width {
        Seq::new((width - d.len()) as nat, |i: int| 48u8) + d
    } else {
        d
    }
}

/// Whether `b` is the ASCII code of a decimal digit (`0` to `9`).
pub open spec fn is_ascii_digit(b: u8) -> bool {
    48 <= b <= 57
}

/// The number that a text of ASCII digits reads as in base ten, most
/// significant digit first (the empty text reads as 0).
pub open spec fn digits_value(s: Seq<u8>) -> int
    decreases s.len(),
{
    if s.len() == 0 {
        0
    } else {
        digits_value(s.drop_last()) * 10 + (s.last() - 48)
    }
}

/// The decimal text of `n` is made of ASCII digits only, reads back as `n`,
/// and has no leading zero (unless it is the single digit of zero).
pub proof fn lemma_decimal_reads_back(n: nat)
    ensures
        decimal(n).len() >= 1,
        forall|i: int| 0 <= i < decimal(n).len() ==> is_ascii_digit(#[trigger] decimal(n)[i]),
        digits_value(decimal(n)) == n,
        decimal(n).len() > 1 ==> decimal(n)[0] != 48u8,
        n < 10 <==> decimal(n).len() == 1,
    decreases n,
{
    let d = decimal(n);
    assert(digit_byte(n % 10) == 48 + n % 10);
    if n >= 10 {
        lemma_decimal_reads_back(n / 10);
        assert(d.drop_last() =~= decimal(n / 10));
        assert(d.last() == digit_byte(n % 10));
        assert(d[0] == decimal(n / 10)[0]);
        assert(digits_value(d) == (n / 10) * 10 + n % 10);
    } else {
        assert(d.drop_last() =~= Seq::<u8>::empty());
        assert(digits_value(Seq::<u8>::empty()) == 0);
        assert(digits_value(d) == n);
    }
}

/// Leading zeros do not change what a text of digits reads as.
proof fn lemma_leading_zeros_value(k: nat, d: Seq<u8>)
    ensures
        digits_value(Seq::new(k, |i: int| 48u8) + d) == digits_value(d),
    decreases d.len() + k,
{
    let z = Seq::new(k, |i: int| 48u8);
    if d.len() == 0 {
        assert(z + d =~= z);
        if k > 0 {
            assert(z.drop_last() =~= Seq::new((k - 1) as nat, |i: int| 48u8));
            lemma_leading_zeros_value((k - 1) as nat, Seq::<u8>::empty());
            assert(Seq::new((k - 1) as nat, |i: int| 48u8) + Seq::<u8>::empty() =~= Seq::new(
                (k - 1) as nat,
                |i: int| 48u8,
            ));
        }
    } else {
        lemma_leading_zeros_value(k, d.drop_last());
        assert((z + d).drop_last() =~= z + d.drop_last());
    }
}

/// The zero-padded text of `n` is made of ASCII digits only, is at least
/// `width` long (exactly `width` when `n` has no more digits than that), and
/// reads back as `n`.
pub proof fn lemma_zero_padded_reads_back(n: nat, width: nat)
    ensures
        forall|i: int| 0 <= i < zero_padded(n, width).len() ==> is_ascii_digit(#[trigger] zero_padded(n, width)[i]),
        digits_value(zero_padded(n, width)) == n,
        zero_padded(n, width).len() >= width,
        decimal(n).len() <= width ==> zero_padded(n, width).len() == width,
{
    lemma_decimal_reads_back(n);
    let d = decimal(n);
    if d.len() < width {
        lemma_leading_zeros_value((width - d.len()) as nat, d);
        let z = Seq::new((width - d.len()) as nat, |i: int| 48u8);
        assert forall|i: int| 0 <= i < zero_padded(n, width).len() implies is_ascii_digit(
            #[trigger] zero_padded(n, width)[i],
        ) by {
            if i >= z.len() {
                assert(zero_padded(n, width)[i] == d[i - z.len()]);
            }
        }
    }
}

/// A number below ten has one digit, below a hundred at most two, and so on:
/// the bounds that the status line relies on.
pub proof fn lemma_decimal_len(n: nat)
    ensures
        decimal(n).len() >= 1,
        n < 10 ==> decimal(n).len() == 1,
        n < 100 ==> decimal(n).len() <= 2,
        n < 1000 ==> decimal(n).len() <= 3,
        n < 10000 ==> decimal(n).len() <= 4,
        n < 100000 ==> decimal(n).len() <= 5,
    decreases n,
{
    if n >= 10 {
        lemma_decimal_len(n / 10);
    }
}

/// Padding a number below `10^width` to `width` gives exactly `width` digits
/// (for the widths two and four used by the status line).
pub proof fn lemma_zero_padded_len(n: nat)
    ensures
        n < 100 ==> zero_padded(n, 2).len() == 2,
        n < 10000 ==> zero_padded(n, 4).len() == 4,
{
    lemma_decimal_len(n);
}

/// A number below a hundred, padded to two digits, is its tens digit and
/// its ones digit.
pub proof fn lemma_two_digits(n: nat)
    requires
        n < 100,
    ensures
        zero_padded(n, 2) == seq![(48 + n / 10) as u8, (48 + n % 10) as u8],
{
    reveal_with_fuel(decimal, 3);
    if n < 10 {
        assert(zero_padded(n, 2) =~= seq![48u8, (48 + n) as u8]);
    } else {
        assert(decimal(n) =~= seq![(48 + n / 10) as u8, (48 + n % 10) as u8]);
    }
}

/// A number below ten thousand, padded to four digits, is its thousands,
/// hundreds, tens and ones digits.
pub proof fn lemma_four_digits(n: nat)
    requires
        n < 10000,
    ensures
        zero_padded(n, 4) == seq![
            (48 + n / 1000) as u8,
            (48 + n / 100 % 10) as u8,
            (48 + n / 10 % 10) as u8,
            (48 + n % 10) as u8,
        ],
{
    reveal_with_fuel(decimal, 5);
    let e = seq![
        (48 + n / 1000) as u8,
        (48 + n / 100 % 10) as u8,
        (48 + n / 10 % 10) as u8,
        (48 + n % 10) as u8,
    ];
    if n < 10 {
        assert(zero_padded(n, 4) =~= e);
    } else if n < 100 {
        assert(decimal(n) =~= seq![(48 + n / 10) as u8, (48 + n % 10) as u8]);
        assert(zero_padded(n, 4) =~= e);
    } else if n < 1000 {
        assert(decimal(n / 10) =~= seq![(48 + n / 100) as u8, (48 + n / 10 % 10) as u8]);
        assert(decimal(n) =~= seq![(48 + n / 100) as u8, (48 + n / 10 % 10) as u8, (48 + n % 10) as u8]);
        assert(zero_padded(n, 4) =~= e);
    } else {
        assert(decimal(n / 100) =~= seq![(48 + n / 1000) as u8, (48 + n / 100 % 10) as u8]);
        assert(decimal(n / 10) =~= seq![
            (48 + n / 1000) as u8,
            (48 + n / 100 % 10) as u8,
            (48 + n / 10 % 10) as u8,
        ]);
        assert(zero_padded(n, 4) =~= e);
    }
}

/// Appends the decimal digits of `n` to `out`.
pub fn push_decimal(out: &mut Vec<u8>, n: u32)
    ensures
        final(out)@ == old(out)@ + decimal(n as nat),
        final(out)@.subrange(0, old(out)@.len() as int) == old(out)@,
        forall|i: int|
            old(out)@.len() <= i < final(out)@.len() ==> is_ascii_digit(#[trigger] final(out)@[i]),
        digits_value(final(out)@.subrange(old(out)@.len() as int, final(out)@.len() as int)) == n,
        final(out)@.len() > old(out)@.len(),
        final(out)@.len() > old(out)@.len() + 1 ==> final(out)@[old(out)@.len() as int] != 48u8,
    decreases n,
{
    if n >= 10 {
        push_decimal(out, n / 10);
    }
    let d: u8 = (n % 10) as u8;
    out.push(48 + d);
    proof {
        if n >= 10 {
            assert(decimal(n as nat) == decimal((n / 10) as nat).push(digit_byte((n % 10) as nat)));
        }
    }
    assert(final(out)@ =~= old(out)@ + decimal(n as nat)) by {
        if n >= 10 {
            assert(old(out)@ + decimal((n / 10) as nat).push(digit_byte((n % 10) as nat)) =~= (old(
                out,
            )@ + decimal((n / 10) as nat)).push(digit_byte((n % 10) as nat)));
        }
    }
    proof {
        lemma_decimal_reads_back(n as nat);
        assert(final(out)@.subrange(old(out)@.len() as int, final(out)@.len() as int) =~= decimal(
            n as nat,
        ));
        assert(final(out)@.subrange(0, old(out)@.len() as int) =~= old(out)@);
        assert forall|i: int| old(out)@.len() <= i < final(out)@.len() implies is_ascii_digit(
            #[trigger] final(out)@[i],
        ) by {
            assert(final(out)@[i] == decimal(n as nat)[i - old(out)@.len()]);
        }
    }
}

/// Appends the decimal digits of `n`, padded with leading zeros to `width`,
/// to `out`.
pub fn push_zero_padded(out: &mut Vec<u8>, n: u32, width: usize)
    ensures
        final(out)@ == old(out)@ + zero_padded(n as nat, width as nat),
        final(out)@.subrange(0, old(out)@.len() as int) == old(out)@,
        forall|i: int|
            old(out)@.len() <= i < final(out)@.len() ==> is_ascii_digit(#[trigger] final(out)@[i]),
        digits_value(final(out)@.subrange(old(out)@.len() as int, final(out)@.len() as int)) == n,
        final(out)@.len() >= old(out)@.len() + width,
{
    let mut digits: Vec<u8> = Vec::new();
    push_decimal(&mut digits, n);
    assert(digits@ =~= decimal(n as nat));
    let len = digits.len();
    if len < width {
        let pad: usize = width - len;
        let mut i: usize = 0;
        while i < pad
            invariant
                i <= pad,
                pad == width - len,
                out@ == old(out)@ + Seq::new(i as nat, |j: int| 48u8),
            decreases pad - i,
        {
            out.push(48);
            i = i + 1;
            assert(out@ =~= old(out)@ + Seq::new(i as nat, |j: int| 48u8));
        }
    }
    let ghost before = out@;
    let mut k: usize = 0;
    while k < len
        invariant
            k <= len,
            len == digits@.len(),
            digits@ == decimal(n as nat),
            out@ == before + digits@.take(k as int),
        decreases len - k,
    {
        out.push(digits[k]);
        k = k + 1;
        assert(out@ =~= before + digits@.take(k as int));
    }
    assert(digits@.take(len as int) =~= digits@);
    assert(out@ =~= old(out)@ + zero_padded(n as nat, width as nat));
    proof {
        lemma_zero_padded_reads_back(n as nat, width as nat);
        let zp = zero_padded(n as nat, width as nat);
        assert(out@.subrange(old(out)@.len() as int, out@.len() as int) =~= zp);
        assert(out@.subrange(0, old(out)@.len() as int) =~= old(out)@);
        assert forall|i: int| old(out)@.len() <= i < out@.len() implies is_ascii_digit(
            #[trigger] out@[i],
        ) by {
            assert(out@[i] == zp[i - old(out)@.len()]);
        }
    }
}

} // verus!
