//! Durations written as numbers with units, such as `1h 30m`.
//!
//! A duration is a sequence of segments, each a decimal number followed by
//! one of the units `d`, `h`, `m`, `s`, `ms`, `us` and `ns`; white space may
//! stand around a unit. The segments add up. A lone `0` needs no unit.

use vstd::prelude::*;
use vstd::slice::slice_subrange;
use vstd::utf8::{decode_utf8, encode_utf8, valid_utf8};
use std::time::Duration;
use crate::ascii::{
    all_digits, decimal, is_ascii_digit, lemma_decimal_grows, lemma_decimal_push, lemma_run_bound,
    lemma_run_digits, run, LOWER_D, LOWER_H, LOWER_M, LOWER_N, LOWER_S, LOWER_U, ZERO,
};
use crate::std_specs::{duration_nanos, trimmed, utf8_text};
use crate::ParseError;

verus! {

/// Nanoseconds in each unit, from `ns` to `d`.
pub const NANOS: [u64; 7] = [
    1,
    1_000,
    1_000_000,
    1_000_000_000,
    60_000_000_000,
    3_600_000_000_000,
    86_400_000_000_000,
];

/// The nanoseconds in the unit of that name: `ns`, `us`, `ms`, `s`, `m`,
/// `h` or `d`. No other name is a unit.
pub open spec fn unit_nanos(name: Seq<char>) -> Option<nat> {
    if name.len() == 2 && name[1] == 's' {
        if name[0] == 'n' {
            Some(1)
        } else if name[0] == 'u' {
            Some(1_000)
        } else if name[0] == 'm' {
            Some(1_000_000)
        } else {
            None
        }
    } else if name.len() == 1 {
        if name[0] == 's' {
            Some(1_000_000_000)
        } else if name[0] == 'm' {
            Some(60_000_000_000)
        } else if name[0] == 'h' {
            Some(3_600_000_000_000)
        } else if name[0] == 'd' {
            Some(86_400_000_000_000)
        } else {
            None
        }
    } else {
        None
    }
}

/// The seven units by name.
pub proof fn law_unit_names()
    ensures
        unit_nanos("ns"@) == Some(1nat),
        unit_nanos("us"@) == Some(1_000nat),
        unit_nanos("ms"@) == Some(1_000_000nat),
        unit_nanos("s"@) == Some(1_000_000_000nat),
        unit_nanos("m"@) == Some(60_000_000_000nat),
        unit_nanos("h"@) == Some(3_600_000_000_000nat),
        unit_nanos("d"@) == Some(86_400_000_000_000nat),
{
    reveal_strlit("ns");
    reveal_strlit("us");
    reveal_strlit("ms");
    reveal_strlit("s");
    reveal_strlit("m");
    reveal_strlit("h");
    reveal_strlit("d");
}

/// The nanoseconds in the unit that the bytes between two numbers name, once
/// they are read as UTF-8 and the white space around the name is removed.
pub open spec fn unit_scale(unit: Seq<u8>) -> Option<nat> {
    if valid_utf8(unit) {
        unit_nanos(trimmed(decode_utf8(unit)))
    } else {
        None
    }
}

/// The sum of `total` and the segments in `b`, in nanoseconds, or the first
/// fault: a segment without a number, a number beyond 64 bits, a number
/// without a unit, an unknown unit, a sum beyond 64 bits.
pub open spec fn segments(b: Seq<u8>, total: nat) -> Result<nat, ParseError>
    decreases b.len(),
{
    let digits = run(b, true);
    let rest = b.subrange(digits as int, b.len() as int);
    let letters = run(rest, false);
    let value = decimal(b.subrange(0, digits as int));
    if b.len() == 0 {
        Ok(total)
    } else if digits == 0 {
        Err(ParseError::MissingValue)
    } else if value > u64::MAX {
        Err(ParseError::Overflow)
    } else if letters == 0 {
        Err(ParseError::MissingUnit)
    } else {
        match unit_scale(rest.subrange(0, letters as int)) {
            None => Err(ParseError::InvalidUnit),
            Some(scale) => if total + value * scale > u64::MAX {
                Err(ParseError::Overflow)
            } else {
                proof {
                    lemma_run_bound(b, true);
                    lemma_run_bound(rest, false);
                }
                segments(rest.subrange(letters as int, rest.len() as int), total + value * scale)
            },
        }
    }
}

/// The nanoseconds that a duration denotes, given as bytes without
/// surrounding white space.
pub open spec fn duration_bytes(b: Seq<u8>) -> Result<nat, ParseError> {
    if b.len() == 0 {
        Err(ParseError::EmptyInput)
    } else if b.len() == 1 && b[0] == ZERO {
        Ok(0)
    } else {
        segments(b, 0)
    }
}

/// The nanoseconds that a duration denotes: its UTF-8 bytes are read once the
/// white space at either end is removed.
pub open spec fn duration_text(s: Seq<char>) -> Result<nat, ParseError> {
    duration_bytes(encode_utf8(trimmed(s)))
}

/// Parses a duration such as `1h`, `1h 30m` or `3m 20s 100ns`.
pub fn parse(s: &str) -> (duration: Result<Duration, ParseError>)
    ensures
        match duration {
            Ok(d) => duration_text(s@) == Ok::<nat, ParseError>(duration_nanos(d)),
            Err(e) => duration_text(s@) == Err::<nat, ParseError>(e),
        },
{
    let input = s.trim();
    let bs = input.as_bytes();
    if bs.len() == 0 {
        return Err(ParseError::EmptyInput);
    }
    if bs.len() == 1 && bs[0] == ZERO {
        return Ok(Duration::new(0, 0));
    }
    let mut value: u64 = 0;
    let mut read: usize = 0;
    assert(bs@.subrange(0, bs@.len() as int) =~= bs@);
    while read < bs.len()
        invariant
            read <= bs@.len(),
            duration_text(s@) == segments(bs@, 0),
            segments(bs@, 0) == segments(bs@.subrange(read as int, bs@.len() as int), value as nat),
        decreases bs@.len() - read,
    {
        let ghost tail = bs@.subrange(read as int, bs@.len() as int);
        let (v, consumed) = match read_int(slice_subrange(bs, read, bs.len())) {
            Ok(number) => number,
            Err(e) => { return Err(e); },
        };
        proof {
            lemma_run_bound(tail, true);
        }
        read += consumed;
        let ghost rest = tail.subrange(consumed as int, tail.len() as int);
        assert(rest =~= bs@.subrange(read as int, bs@.len() as int));

        let (unit, consumed) = match read_unit(slice_subrange(bs, read, bs.len())) {
            Ok(unit) => unit,
            Err(e) => { return Err(e); },
        };
        proof {
            lemma_run_bound(rest, false);
        }
        read += consumed;
        assert(rest.subrange(consumed as int, rest.len() as int) =~= bs@.subrange(
            read as int,
            bs@.len() as int,
        ));

        let nanos = match unit_to_nanos(unit) {
            Ok(nanos) => nanos,
            Err(e) => { return Err(e); },
        };
        value = match v.checked_mul(nanos) {
            Some(product) => match value.checked_add(product) {
                Some(sum) => sum,
                None => { return Err(ParseError::Overflow); },
            },
            None => {
                assert(value + v * nanos > u64::MAX) by (nonlinear_arith)
                    requires
                        v * nanos > u64::MAX,
                        value >= 0,
                ;
                return Err(ParseError::Overflow);
            },
        };
    }
    assert(bs@.subrange(read as int, bs@.len() as int).len() == 0);
    let secs: u64 = value / NANOS[3];
    let nanos: u32 = (value % NANOS[3]) as u32;
    Ok(Duration::new(secs, nanos))
}

/// Reads the number that `bs` starts with: its value and how many digits it
/// has. No digit at the start is a `MissingValue`; a number beyond 64 bits is
/// an `Overflow`.
pub fn read_int(bs: &[u8]) -> (number: Result<(u64, usize), ParseError>)
    ensures
        match number {
            Ok((v, read)) => read == run(bs@, true) && read > 0 && v == decimal(
                bs@.subrange(0, read as int),
            ),
            Err(e) => if run(bs@, true) == 0 {
                e == ParseError::MissingValue
            } else {
                e == ParseError::Overflow && decimal(bs@.subrange(0, run(bs@, true) as int))
                    > u64::MAX
            },
        },
{
    let mut v: u64 = 0;
    let mut read: usize = 0;
    assert(bs@.subrange(0, bs@.len() as int) =~= bs@);
    while read < bs.len()
        invariant
            read <= bs@.len(),
            all_digits(bs@.subrange(0, read as int)),
            v == decimal(bs@.subrange(0, read as int)),
            run(bs@, true) == read + run(bs@.subrange(read as int, bs@.len() as int), true),
        ensures
            read <= bs@.len(),
            v == decimal(bs@.subrange(0, read as int)),
            run(bs@, true) == read,
        decreases bs@.len() - read,
    {
        let c = bs[read];
        let ghost tail = bs@.subrange(read as int, bs@.len() as int);
        assert(tail.first() == bs@[read as int]);
        if !is_ascii_digit(c) {
            break;
        }
        proof {
            lemma_decimal_push(bs@, read as int);
            assert(tail.drop_first() =~= bs@.subrange(read + 1, bs@.len() as int));
        }
        v = match v.checked_mul(10) {
            Some(tenfold) => match tenfold.checked_add((c - ZERO) as u64) {
                Some(next) => next,
                None => {
                    proof {
                        lemma_run_bound(tail, true);
                        lemma_run_digits(bs@);
                        lemma_decimal_grows(bs@, read + 1, run(bs@, true) as int);
                    }
                    return Err(ParseError::Overflow);
                },
            },
            None => {
                proof {
                    lemma_run_bound(tail, true);
                    lemma_run_digits(bs@);
                    lemma_decimal_grows(bs@, read + 1, run(bs@, true) as int);
                }
                return Err(ParseError::Overflow);
            },
        };
        read += 1;
    }
    if read == 0 {
        return Err(ParseError::MissingValue);
    }
    Ok((v, read))
}

/// Reads the unit that `bs` starts with, up to the next digit: its name
/// without the white space around it, and how many bytes it took. A digit at
/// the start is a `MissingUnit`; bytes that are no text are an `InvalidUnit`.
pub fn read_unit(bs: &[u8]) -> (unit: Result<(&str, usize), ParseError>)
    ensures
        match unit {
            Ok((name, read)) => {
                &&& read == run(bs@, false)
                &&& read > 0
                &&& valid_utf8(bs@.subrange(0, read as int))
                &&& name@ == trimmed(decode_utf8(bs@.subrange(0, read as int)))
            },
            Err(e) => if run(bs@, false) == 0 {
                e == ParseError::MissingUnit
            } else {
                e == ParseError::InvalidUnit && !valid_utf8(
                    bs@.subrange(0, run(bs@, false) as int),
                )
            },
        },
{
    let mut read: usize = 0;
    assert(bs@.subrange(0, bs@.len() as int) =~= bs@);
    while read < bs.len()
        invariant
            read <= bs@.len(),
            run(bs@, false) == read + run(bs@.subrange(read as int, bs@.len() as int), false),
        ensures
            read <= bs@.len(),
            run(bs@, false) == read,
        decreases bs@.len() - read,
    {
        let c = bs[read];
        let ghost tail = bs@.subrange(read as int, bs@.len() as int);
        assert(tail.first() == bs@[read as int]);
        if is_ascii_digit(c) {
            break;
        }
        assert(tail.drop_first() =~= bs@.subrange(read + 1, bs@.len() as int));
        read += 1;
    }
    if read == 0 {
        return Err(ParseError::MissingUnit);
    }
    match utf8_text(slice_subrange(bs, 0, read)) {
        Some(text) => {
            proof {
                vstd::utf8::encode_utf8_decode_utf8(text@);
            }
            Ok((text.trim(), read))
        },
        None => Err(ParseError::InvalidUnit),
    }
}

/// The nanoseconds in the unit of that name; any other name is an
/// `InvalidUnit`.
pub fn unit_to_nanos(unit: &str) -> (nanos: Result<u64, ParseError>)
    ensures
        match nanos {
            Ok(n) => unit_nanos(unit@) == Some(n as nat),
            Err(e) => e == ParseError::InvalidUnit && unit_nanos(unit@) is None,
        },
{
    if !unit.is_ascii() {
        return Err(ParseError::InvalidUnit);
    }
    let bs = unit.as_bytes();
    proof {
        vstd::string::is_ascii_spec_bytes(unit);
    }
    if bs.len() == 1 {
        let c = bs[0];
        if c == LOWER_S {
            Ok(NANOS[3])
        } else if c == LOWER_M {
            Ok(NANOS[4])
        } else if c == LOWER_H {
            Ok(NANOS[5])
        } else if c == LOWER_D {
            Ok(NANOS[6])
        } else {
            Err(ParseError::InvalidUnit)
        }
    } else if bs.len() == 2 && bs[1] == LOWER_S {
        let c = bs[0];
        if c == LOWER_N {
            Ok(NANOS[0])
        } else if c == LOWER_U {
            Ok(NANOS[1])
        } else if c == LOWER_M {
            Ok(NANOS[2])
        } else {
            Err(ParseError::InvalidUnit)
        }
    } else {
        Err(ParseError::InvalidUnit)
    }
}

} // verus!
