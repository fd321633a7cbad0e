//! RFC 3339 timestamps: the zone suffix, the instant and the text parser.
//!
//! Three shapes are accepted: `YYYY-MM-DD`, `YYYY-MM-DD HH:MM:SS` (with `T`
//! or a space between date and time), and the latter followed by a fraction
//! of a second, a zone suffix or both.

use vstd::prelude::*;
use vstd::slice::slice_subrange;
use vstd::utf8::encode_utf8;
use std::str::FromStr;
use crate::ascii::{digit_run, lemma_digit_run_subrange, DOT};
use crate::std_specs::trimmed;
use crate::ParseError;
use self::instant::{civil_instant, Instant};
use self::scan::{
    accepted_length, fraction_value, four_digits, numeric_fields, read_field, two_digits,
    well_punctuated, DATE_TIME_FORMAT_MAX_LENGTH, DATE_TIME_FORMAT_MIN_LENGTH,
    DATE_TIME_FORMAT_WITH_TIME,
};
use self::timezone::zone_offset;

pub mod calendar;
pub mod instant;
pub mod laws;
pub mod order;
pub mod scan;
pub mod timezone;

pub use self::instant::{is_leap_year, Time};
pub use self::scan::{check_pattern, read_nano, read_u32};
pub use self::timezone::TimeZone;

verus! {

/// The year of a timestamp.
pub open spec fn year_field(b: Seq<u8>) -> int {
    four_digits(b, 0)
}

/// The month of a timestamp.
pub open spec fn month_field(b: Seq<u8>) -> int {
    two_digits(b, 5)
}

/// The day of a timestamp.
pub open spec fn day_field(b: Seq<u8>) -> int {
    two_digits(b, 8)
}

/// The hour of a timestamp, 0 for a date alone.
pub open spec fn hour_field(b: Seq<u8>) -> int {
    if b.len() > 10 {
        two_digits(b, 11)
    } else {
        0
    }
}

/// The minute of a timestamp, 0 for a date alone.
pub open spec fn minute_field(b: Seq<u8>) -> int {
    if b.len() > 10 {
        two_digits(b, 14)
    } else {
        0
    }
}

/// The second of a timestamp, 0 for a date alone.
pub open spec fn second_field(b: Seq<u8>) -> int {
    if b.len() > 10 {
        two_digits(b, 17)
    } else {
        0
    }
}

/// Whether a fraction of a second follows the seconds.
pub open spec fn has_fraction(b: Seq<u8>) -> bool {
    b.len() > 19 && b[19] == DOT
}

/// The number of digits of the fraction: those that follow the `.`, nine at
/// most.
pub open spec fn fraction_digits(b: Seq<u8>) -> nat {
    if has_fraction(b) {
        digit_run(b, 20, 9)
    } else {
        0
    }
}

/// The nanoseconds of a timestamp, 0 where it has no fraction.
pub open spec fn fraction_nanos(b: Seq<u8>) -> nat {
    if has_fraction(b) {
        fraction_value(b.subrange(20, b.len() as int), fraction_digits(b))
    } else {
        0
    }
}

/// Where the zone suffix starts: after the digits of the fraction, or after
/// the seconds where there is none. A date alone has an empty suffix.
pub open spec fn zone_start(b: Seq<u8>) -> int {
    if b.len() <= 19 {
        b.len() as int
    } else if has_fraction(b) {
        20 + fraction_digits(b) as int
    } else {
        19
    }
}

/// The zone suffix: all that follows the seconds and the fraction.
pub open spec fn zone_suffix(b: Seq<u8>) -> Seq<u8> {
    b.subrange(zone_start(b), b.len() as int)
}

/// The instant that the fields of a timestamp denote, once its shape, its
/// digits and its zone suffix are known to be in order.
pub open spec fn fields_instant(b: Seq<u8>) -> Option<Instant>
    recommends
        accepted_length(b.len()),
        zone_offset(zone_suffix(b)) is Some,
{
    civil_instant(
        year_field(b),
        month_field(b),
        day_field(b),
        hour_field(b),
        minute_field(b),
        second_field(b),
        fraction_nanos(b) as int,
        zone_offset(zone_suffix(b)).unwrap(),
    )
}

/// What a timestamp, given as bytes without surrounding white space, denotes:
/// an instant, or the first fault found in this order: no text, a length
/// that no shape has, a separator out of place, a field that is not a
/// number, a `.` without digits, a zone suffix that is not accepted, and
/// fields that name no instant in range.
pub open spec fn timestamp_bytes(b: Seq<u8>) -> Result<Instant, ParseError> {
    if b.len() == 0 {
        Err(ParseError::EmptyInput)
    } else if b.len() < 10 || 10 < b.len() < 19 {
        Err(ParseError::TooShort)
    } else if b.len() > 35 {
        Err(ParseError::TooLong)
    } else if !well_punctuated(b) {
        Err(ParseError::Malformed)
    } else if !numeric_fields(b) {
        Err(ParseError::InvalidValue)
    } else if has_fraction(b) && fraction_digits(b) == 0 {
        Err(ParseError::MissingValue)
    } else if zone_offset(zone_suffix(b)) is None {
        Err(ParseError::InvalidTimezone)
    } else {
        match fields_instant(b) {
            Some(instant) => Ok(instant),
            None => Err(ParseError::Overflow),
        }
    }
}

/// What a timestamp denotes: its UTF-8 bytes are read once the white space
/// at either end is removed.
pub open spec fn timestamp(s: Seq<char>) -> Result<Instant, ParseError> {
    timestamp_bytes(encode_utf8(trimmed(s)))
}

/// Whether a parser's answer is the one that the grammar gives.
pub open spec fn answers(
    result: Result<Time, ParseError>,
    expected: Result<Instant, ParseError>,
) -> bool {
    match result {
        Ok(time) => expected == Ok::<Instant, ParseError>(time@),
        Err(e) => expected == Err::<Instant, ParseError>(e),
    }
}

/// Parses an RFC 3339 timestamp, with or without white space around it.
pub fn parse_rfc3339(s: &str) -> (time: Result<Time, ParseError>)
    ensures
        answers(time, timestamp(s@)),
{
    parse_rfc3339_bytes(s.trim().as_bytes())
}

impl FromStr for Time {
    type Err = ParseError;

    /// Parses an RFC 3339 timestamp, as `parse_rfc3339` does.
    fn from_str(s: &str) -> (time: Result<Time, ParseError>)
        ensures
            answers(time, timestamp(s@)),
    {
        parse_rfc3339(s)
    }
}

/// Parses an RFC 3339 timestamp given as bytes, which are taken as they are:
/// white space around the timestamp is a fault like any other.
pub fn parse_rfc3339_bytes(bs: &[u8]) -> (time: Result<Time, ParseError>)
    ensures
        answers(time, timestamp_bytes(bs@)),
{
    let size = bs.len();
    if size == 0 {
        return Err(ParseError::EmptyInput);
    }
    if size < DATE_TIME_FORMAT_MIN_LENGTH || (size > DATE_TIME_FORMAT_MIN_LENGTH && size
        < DATE_TIME_FORMAT_WITH_TIME) {
        return Err(ParseError::TooShort);
    }
    if size > DATE_TIME_FORMAT_MAX_LENGTH {
        return Err(ParseError::TooLong);
    }
    if !check_pattern(bs) {
        return Err(ParseError::Malformed);
    }
    let year = match read_field(bs, 0, 4) {
        Ok(n) => n,
        Err(e) => { return Err(e); },
    };
    let month = match read_field(bs, 5, 7) {
        Ok(n) => n,
        Err(e) => { return Err(e); },
    };
    let day = match read_field(bs, 8, 10) {
        Ok(n) => n,
        Err(e) => { return Err(e); },
    };

    let mut hour: u32 = 0;
    let mut minute: u32 = 0;
    let mut second: u32 = 0;
    if size > DATE_TIME_FORMAT_MIN_LENGTH {
        hour = match read_field(bs, 11, 13) {
            Ok(n) => n,
            Err(e) => { return Err(e); },
        };
        minute = match read_field(bs, 14, 16) {
            Ok(n) => n,
            Err(e) => { return Err(e); },
        };
        second = match read_field(bs, 17, 19) {
            Ok(n) => n,
            Err(e) => { return Err(e); },
        };
    }

    let mut nano: u32 = 0;
    let mut tz_start: usize = size;
    if size > DATE_TIME_FORMAT_WITH_TIME {
        if bs[DATE_TIME_FORMAT_WITH_TIME] == DOT {
            let (v, read) = read_nano(slice_subrange(bs, DATE_TIME_FORMAT_WITH_TIME + 1, size));
            proof {
                lemma_digit_run_subrange(bs@, 20, 9);
            }
            if read == 0 {
                return Err(ParseError::MissingValue);
            }
            nano = v;
            tz_start = DATE_TIME_FORMAT_WITH_TIME + 1 + read;
        } else {
            tz_start = DATE_TIME_FORMAT_WITH_TIME;
        }
    }
    let tz = match TimeZone::from_bytes(slice_subrange(bs, tz_start, size)) {
        Ok(zone) => zone,
        Err(_) => { return Err(ParseError::InvalidTimezone); },
    };

    match Time::from_timetuple(year, month, day, hour, minute, second, nano, tz) {
        Some(time) => Ok(time),
        None => Err(ParseError::Overflow),
    }
}

} // verus!
