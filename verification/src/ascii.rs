//! The ASCII bytes that the parsers look for.

use vstd::prelude::*;

verus! {

/// `0`
pub const ZERO: u8 = 0x30;

/// `9`
pub const NINE: u8 = 0x39;

/// A space.
pub const SPACE: u8 = 0x20;

/// `+`
pub const PLUS: u8 = 0x2b;

/// `-`
pub const MINUS: u8 = 0x2d;

/// `.`
pub const DOT: u8 = 0x2e;

/// `:`
pub const COLON: u8 = 0x3a;

/// `T`
pub const UPPER_T: u8 = 0x54;

/// `Z`
pub const UPPER_Z: u8 = 0x5a;

/// `b`
pub const LOWER_B: u8 = 0x62;

/// `d`
pub const LOWER_D: u8 = 0x64;

/// `e`
pub const LOWER_E: u8 = 0x65;

/// `g`
pub const LOWER_G: u8 = 0x67;

/// `h`
pub const LOWER_H: u8 = 0x68;

/// `i`
pub const LOWER_I: u8 = 0x69;

/// `k`
pub const LOWER_K: u8 = 0x6b;

/// `m`
pub const LOWER_M: u8 = 0x6d;

/// `n`
pub const LOWER_N: u8 = 0x6e;

/// `p`
pub const LOWER_P: u8 = 0x70;

/// `s`
pub const LOWER_S: u8 = 0x73;

/// `t`
pub const LOWER_T: u8 = 0x74;

/// `u`
pub const LOWER_U: u8 = 0x75;

/// Whether the byte is one of the ASCII digits `0` to `9`.
pub open spec fn is_digit(b: u8) -> bool {
    ZERO <= b <= NINE
}

/// The value of an ASCII digit.
pub open spec fn digit_value(b: u8) -> int {
    b - ZERO
}

/// Whether every byte is an ASCII digit.
pub open spec fn all_digits(s: Seq<u8>) -> bool {
    forall|i: int| 0 <= i < s.len() ==> is_digit(#[trigger] s[i])
}

/// The number that a sequence of ASCII digits writes in base ten.
pub open spec fn decimal(s: Seq<u8>) -> nat
    decreases s.len(),
{
    if s.len() == 0 {
        0
    } else {
        (decimal(s.drop_last()) * 10 + digit_value(s.last())) as nat
    }
}

/// How many bytes of `s`, from index `from` on and `max` at most, are ASCII
/// digits without a gap.
pub open spec fn digit_run(s: Seq<u8>, from: int, max: nat) -> nat
    decreases max,
{
    if max == 0 || from < 0 || from >= s.len() || !is_digit(s[from]) {
        0
    } else {
        1 + digit_run(s, from + 1, (max - 1) as nat)
    }
}

/// How many bytes at the start of `s` are all digits (`digits` true) or all
/// something else (`digits` false).
pub open spec fn run(s: Seq<u8>, digits: bool) -> nat
    decreases s.len(),
{
    if s.len() == 0 || is_digit(s.first()) != digits {
        0
    } else {
        1 + run(s.drop_first(), digits)
    }
}

/// Ten to the power `e`.
pub open spec fn pow10(e: nat) -> nat
    decreases e,
{
    if e == 0 {
        1
    } else {
        10 * pow10((e - 1) as nat)
    }
}

/// Whether `b` is an ASCII digit.
pub fn is_ascii_digit(b: u8) -> (digit: bool)
    ensures
        digit == is_digit(b),
{
    ZERO <= b && b <= NINE
}

/// The number that digits write is ten times the number without the last
/// digit, and the last digit.
pub proof fn lemma_decimal_unfold(s: Seq<u8>)
    ensures
        s.len() == 0 ==> decimal(s) == 0,
        s.len() > 0 && all_digits(s) ==> decimal(s) == decimal(s.drop_last()) * 10 + digit_value(
            s.last(),
        ) && all_digits(s.drop_last()),
{
    if s.len() > 0 && all_digits(s) {
        assert(is_digit(s.last()));
        let shorter = s.drop_last();
        assert forall|i: int| 0 <= i < shorter.len() implies is_digit(#[trigger] shorter[i]) by {
            assert(shorter[i] == s[i]);
        }
    }
}

/// Appending a digit multiplies the number by ten and adds the digit.
pub proof fn lemma_decimal_push(s: Seq<u8>, k: int)
    requires
        0 <= k < s.len(),
        all_digits(s.subrange(0, k)),
        is_digit(s[k]),
    ensures
        all_digits(s.subrange(0, k + 1)),
        decimal(s.subrange(0, k + 1)) == decimal(s.subrange(0, k)) * 10 + digit_value(s[k]),
        decimal(s.subrange(0, k)) < pow10(k as nat) ==> decimal(s.subrange(0, k + 1)) < pow10(
            (k + 1) as nat,
        ),
{
    let longer = s.subrange(0, k + 1);
    assert(longer.drop_last() =~= s.subrange(0, k));
    assert(longer.last() == s[k]);
    assert forall|i: int| 0 <= i < longer.len() implies is_digit(#[trigger] longer[i]) by {
        if i < k {
            assert(s.subrange(0, k)[i] == longer[i]);
        }
    }
}

/// A run is no longer than the bytes it is counted in.
pub proof fn lemma_run_bound(s: Seq<u8>, digits: bool)
    ensures
        run(s, digits) <= s.len(),
    decreases s.len(),
{
    if s.len() > 0 && is_digit(s.first()) == digits {
        lemma_run_bound(s.drop_first(), digits);
    }
}

/// The bytes of a run of digits are digits.
pub proof fn lemma_run_digits(s: Seq<u8>)
    ensures
        run(s, true) <= s.len(),
        all_digits(s.subrange(0, run(s, true) as int)),
    decreases s.len(),
{
    lemma_run_bound(s, true);
    if s.len() > 0 && is_digit(s.first()) {
        lemma_run_digits(s.drop_first());
        let k = run(s, true) as int;
        let tail = s.drop_first();
        assert forall|i: int| 0 <= i < k implies is_digit(#[trigger] s.subrange(0, k)[i]) by {
            if i > 0 {
                assert(tail.subrange(0, k - 1)[i - 1] == s[i]);
            }
        }
    }
}

/// More digits never write a smaller number.
pub proof fn lemma_decimal_grows(s: Seq<u8>, shorter: int, longer: int)
    requires
        0 <= shorter <= longer <= s.len(),
        all_digits(s.subrange(0, longer)),
    ensures
        decimal(s.subrange(0, shorter)) <= decimal(s.subrange(0, longer)),
    decreases longer - shorter,
{
    if shorter < longer {
        assert(s.subrange(0, longer).drop_last() =~= s.subrange(0, longer - 1));
        assert(is_digit(s.subrange(0, longer).last()));
        assert forall|i: int| 0 <= i < longer - 1 implies is_digit(
            #[trigger] s.subrange(0, longer - 1)[i],
        ) by {
            assert(s.subrange(0, longer)[i] == s.subrange(0, longer - 1)[i]);
        }
        lemma_decimal_grows(s, shorter, longer - 1);
    }
}

/// Ten to the ninth power.
pub proof fn lemma_pow10_nine()
    ensures
        pow10(9) == 1_000_000_000,
{
    reveal_with_fuel(pow10, 10);
}

/// A larger exponent gives a power of ten that is no smaller.
pub proof fn lemma_pow10_grows(a: nat, b: nat)
    requires
        a <= b,
    ensures
        pow10(a) <= pow10(b),
        pow10(a) >= 1,
    decreases b,
{
    if a < b {
        lemma_pow10_grows(a, (b - 1) as nat);
    } else if a > 0 {
        lemma_pow10_grows((a - 1) as nat, (a - 1) as nat);
    }
}

/// A number below ten to the `digits`, padded with `pad` zeros, stays below
/// ten to the `digits + pad`; and one more zero multiplies by ten.
pub proof fn lemma_pow10_scale(value: nat, digits: nat, pad: nat)
    requires
        value < pow10(digits),
    ensures
        value * pow10(pad) < pow10(digits + pad),
        pow10(pad + 1) == 10 * pow10(pad),
        pad == 0 ==> value * pow10(pad) == value,
    decreases pad,
{
    if pad > 0 {
        lemma_pow10_scale(value, digits, (pad - 1) as nat);
        assert(value * pow10(pad) == 10 * (value * pow10((pad - 1) as nat))) by (nonlinear_arith)
            requires
                pow10(pad) == 10 * pow10((pad - 1) as nat),
        ;
        assert(pow10(digits + pad) == 10 * pow10((digits + pad - 1) as nat));
    } else {
        assert(value * pow10(pad) == value) by (nonlinear_arith)
            requires
                pow10(pad) == 1,
        ;
    }
}

/// A run of digits counted in a tail of `s` is the run counted in `s` from
/// where the tail starts.
pub proof fn lemma_digit_run_subrange(s: Seq<u8>, from: int, max: nat)
    requires
        0 <= from <= s.len(),
    ensures
        digit_run(s.subrange(from, s.len() as int), 0, max) == digit_run(s, from, max),
{
    lemma_digit_run_shift(s, from, 0, max);
}

/// The same, from any index of the tail.
pub proof fn lemma_digit_run_shift(s: Seq<u8>, from: int, at: int, max: nat)
    requires
        0 <= from <= s.len(),
        0 <= at,
    ensures
        digit_run(s.subrange(from, s.len() as int), at, max) == digit_run(s, from + at, max),
    decreases max,
{
    if max > 0 && from + at < s.len() {
        let tail = s.subrange(from, s.len() as int);
        assert(tail[at] == s[from + at]);
        if is_digit(s[from + at]) {
            lemma_digit_run_shift(s, from, at + 1, (max - 1) as nat);
        }
    }
}

} // verus!
