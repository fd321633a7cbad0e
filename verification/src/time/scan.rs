//! The scanner of timestamps: the checks and readers that look at the bytes
//! of a candidate, each for one part of its shape.

use vstd::prelude::*;
use vstd::slice::slice_subrange;
use crate::ascii::{
    all_digits, decimal, digit_run, digit_value, is_ascii_digit, is_digit, lemma_decimal_push,
    lemma_decimal_unfold, lemma_pow10_grows, lemma_pow10_nine, lemma_pow10_scale, pow10, COLON,
    DOT, MINUS, PLUS, SPACE, UPPER_T, UPPER_Z, ZERO,
};
use crate::ParseError;

verus! {

/// The length of a date alone, `2006-01-02`.
pub const DATE_TIME_FORMAT_MIN_LENGTH: usize = 10;

/// The length of a date and a time of day, `2006-01-02T15:04:05`.
pub const DATE_TIME_FORMAT_WITH_TIME: usize = 19;

/// The length of the longest timestamp, `2006-01-02T15:04:05.999999999+07:00`.
pub const DATE_TIME_FORMAT_MAX_LENGTH: usize = 35;

/// Whether a length is one that a timestamp can have: a date alone, or a date
/// and a time with up to sixteen bytes of fraction and zone.
pub open spec fn accepted_length(len: nat) -> bool {
    len == 10 || 19 <= len <= 35
}

/// Whether the separators stand where the shape of the length asks for them:
/// `-` in the date, `T` or a space before the time, `:` in the time, and
/// `.`, `Z`, `+` or `-` right after the seconds.
pub open spec fn well_punctuated(b: Seq<u8>) -> bool
    recommends
        accepted_length(b.len()),
{
    &&& b[4] == MINUS
    &&& b[7] == MINUS
    &&& b.len() > 10 ==> (b[10] == UPPER_T || b[10] == SPACE) && b[13] == COLON && b[16] == COLON
    &&& b.len() > 19 ==> b[19] == DOT || b[19] == UPPER_Z || b[19] == PLUS || b[19] == MINUS
}

/// Whether the bytes from `from` up to `to` are digits.
pub open spec fn digits_between(b: Seq<u8>, from: int, to: int) -> bool {
    forall|i: int| from <= i < to ==> is_digit(#[trigger] b[i])
}

/// Whether every field of fixed width holds digits only: year, month and
/// day, and the time of day where there is one.
pub open spec fn numeric_fields(b: Seq<u8>) -> bool
    recommends
        accepted_length(b.len()),
{
    &&& digits_between(b, 0, 4)
    &&& digits_between(b, 5, 7)
    &&& digits_between(b, 8, 10)
    &&& b.len() > 10 ==> digits_between(b, 11, 13) && digits_between(b, 14, 16)
        && digits_between(b, 17, 19)
}

/// The number that the two digits at `at` write.
pub open spec fn two_digits(b: Seq<u8>, at: int) -> int {
    10 * digit_value(b[at]) + digit_value(b[at + 1])
}

/// The number that the four digits at `at` write.
pub open spec fn four_digits(b: Seq<u8>, at: int) -> int {
    1000 * digit_value(b[at]) + 100 * digit_value(b[at + 1]) + 10 * digit_value(b[at + 2])
        + digit_value(b[at + 3])
}

/// The nanoseconds that a run of `digits` digits at the start of `s` writes,
/// read as the first digits of nine: `5` is half a second.
pub open spec fn fraction_value(s: Seq<u8>, digits: nat) -> nat {
    decimal(s.subrange(0, digits as int)) * pow10((9 - digits) as nat)
}

/// Reads the field of two or four digits that starts at `from`.
pub(crate) fn read_field(bs: &[u8], from: usize, to: usize) -> (number: Result<u32, ParseError>)
    requires
        from < to <= bs@.len(),
        to - from == 2 || to - from == 4,
    ensures
        match number {
            Ok(n) => digits_between(bs@, from as int, to as int) && n == if to - from == 2 {
                two_digits(bs@, from as int)
            } else {
                four_digits(bs@, from as int)
            },
            Err(e) => e == ParseError::InvalidValue && !digits_between(
                bs@,
                from as int,
                to as int,
            ),
        },
{
    let number = read_u32(slice_subrange(bs, from, to));
    proof {
        let window = bs@.subrange(from as int, to as int);
        if all_digits(window) {
            assert forall|i: int| from <= i < to implies is_digit(#[trigger] bs@[i]) by {
                assert(window[i - from] == bs@[i]);
            }
        }
        if digits_between(bs@, from as int, to as int) {
            assert forall|i: int| 0 <= i < window.len() implies is_digit(#[trigger] window[i]) by {
                assert(window[i] == bs@[from + i]);
            }
        }
        lemma_decimal_unfold(window);
        lemma_decimal_unfold(window.drop_last());
        if to - from == 4 {
            lemma_decimal_unfold(window.drop_last().drop_last());
            lemma_decimal_unfold(window.drop_last().drop_last().drop_last());
        }
    }
    number
}

/// Checks the separators of a timestamp whose length is an accepted one.
pub fn check_pattern(bs: &[u8]) -> (ok: bool)
    requires
        accepted_length(bs@.len()),
    ensures
        ok == well_punctuated(bs@),
{
    if bs[4] != MINUS || bs[7] != MINUS {
        return false;
    }
    if bs.len() > DATE_TIME_FORMAT_MIN_LENGTH {
        if (bs[DATE_TIME_FORMAT_MIN_LENGTH] != UPPER_T && bs[DATE_TIME_FORMAT_MIN_LENGTH] != SPACE)
            || bs[DATE_TIME_FORMAT_MIN_LENGTH + 3] != COLON || bs[DATE_TIME_FORMAT_MIN_LENGTH + 6]
            != COLON {
            return false;
        }
    }
    if bs.len() > DATE_TIME_FORMAT_WITH_TIME {
        if bs[DATE_TIME_FORMAT_WITH_TIME] != DOT && bs[DATE_TIME_FORMAT_WITH_TIME] != UPPER_Z
            && bs[DATE_TIME_FORMAT_WITH_TIME] != PLUS && bs[DATE_TIME_FORMAT_WITH_TIME] != MINUS {
            return false;
        }
    }
    true
}

/// Reads a field of digits as a number; any other byte in it is an
/// `InvalidValue`. Nine digits are the most that a `u32` is sure to hold.
pub fn read_u32(bs: &[u8]) -> (number: Result<u32, ParseError>)
    requires
        bs@.len() <= 9,
    ensures
        match number {
            Ok(n) => all_digits(bs@) && n == decimal(bs@),
            Err(e) => e == ParseError::InvalidValue && !all_digits(bs@),
        },
{
    let mut read: usize = 0;
    let mut n: u32 = 0;
    proof {
        lemma_pow10_grows(0, 9);
    }
    while read < bs.len()
        invariant
            read <= bs@.len() <= 9,
            all_digits(bs@.subrange(0, read as int)),
            n == decimal(bs@.subrange(0, read as int)),
            n < pow10(read as nat),
            pow10(read as nat) <= pow10(9),
        decreases bs@.len() - read,
    {
        let c = bs[read];
        if !is_ascii_digit(c) {
            return Err(ParseError::InvalidValue);
        }
        proof {
            lemma_decimal_push(bs@, read as int);
            lemma_pow10_grows(read as nat + 1, 9);
            lemma_pow10_nine();
        }
        n = n * 10;
        n += (c - ZERO) as u32;
        read += 1;
    }
    assert(bs@.subrange(0, read as int) =~= bs@);
    Ok(n)
}

/// Reads the fraction of a second at the start of `bs`: the digits, nine at
/// most, as nanoseconds, and how many digits there were.
pub fn read_nano(bs: &[u8]) -> (fraction: (u32, usize))
    ensures
        fraction.1 == digit_run(bs@, 0, 9),
        fraction.1 <= 9,
        fraction.1 <= bs@.len(),
        fraction.0 == fraction_value(bs@, fraction.1 as nat),
        fraction.0 <= 999_999_999,
{
    let mut read: usize = 0;
    let mut n: u32 = 0;
    proof {
        lemma_pow10_grows(0, 9);
    }
    while read < bs.len() && read < 9
        invariant
            read <= bs@.len(),
            read <= 9,
            all_digits(bs@.subrange(0, read as int)),
            n == decimal(bs@.subrange(0, read as int)),
            n < pow10(read as nat),
            pow10(read as nat) <= pow10(9),
            digit_run(bs@, 0, 9) == read + digit_run(bs@, read as int, (9 - read) as nat),
        ensures
            read <= bs@.len(),
            read <= 9,
            n == decimal(bs@.subrange(0, read as int)),
            n < pow10(read as nat),
            digit_run(bs@, 0, 9) == read,
        decreases 9 - read,
    {
        let c = bs[read];
        if !is_ascii_digit(c) {
            break;
        }
        proof {
            lemma_decimal_push(bs@, read as int);
            lemma_pow10_grows(read as nat + 1, 9);
            lemma_pow10_nine();
        }
        n = n * 10;
        n += (c - ZERO) as u32;
        read += 1;
    }
    let ghost digits = read;
    let ghost value = n;
    let mut width: usize = read;
    proof {
        lemma_pow10_scale(value as nat, digits as nat, 0);
    }
    while width < 9
        invariant
            digits <= width <= 9,
            n == value * pow10((width - digits) as nat),
            value < pow10(digits as nat),
            n < pow10(width as nat),
        decreases 9 - width,
    {
        proof {
            lemma_pow10_scale(value as nat, digits as nat, (width - digits) as nat);
            lemma_pow10_scale(value as nat, digits as nat, (width + 1 - digits) as nat);
            lemma_pow10_grows(width as nat + 1, 9);
            lemma_pow10_nine();
            assert(value * pow10((width + 1 - digits) as nat) == 10 * (value * pow10(
                (width - digits) as nat,
            ))) by (nonlinear_arith)
                requires
                    pow10((width + 1 - digits) as nat) == 10 * pow10((width - digits) as nat),
            ;
        }
        n = n * 10;
        width += 1;
    }
    proof {
        lemma_pow10_nine();
    }
    (n, read)
}

} // verus!
