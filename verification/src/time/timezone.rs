use vstd::prelude::*;
use vstd::string::StringSliceAdditionalSpecFns;
use std::str::FromStr;
use crate::ascii::{digit_value, is_ascii_digit, is_digit, COLON, MINUS, PLUS, UPPER_Z, ZERO};
use crate::ParseError;

verus! {

/// Seconds east of UTC for each whole hour from -12 to +12.
const OFFSETS: [i32; 25] = [
    -43200,
    -39600,
    -36000,
    -32400,
    -28800,
    -25200,
    -21600,
    -18000,
    -14400,
    -10800,
    -7200,
    -3600,
    0,
    3600,
    7200,
    10800,
    14400,
    18000,
    21600,
    25200,
    28800,
    32400,
    36000,
    39600,
    43200,
];

/// A fixed offset from UTC, a whole number of hours between -12 and +12.
#[derive(Debug, Copy, Clone, PartialEq, Eq, Structural)]
pub struct TimeZone(i32);

impl View for TimeZone {
    type V = int;

    /// The offset in seconds east of UTC.
    closed spec fn view(&self) -> int {
        self.0 as int
    }
}

/// The hours that a suffix of the shape `+HH:00` or `-HH:00` names, counted
/// east of UTC, if it has that shape and names twelve hours at most.
pub open spec fn zone_hours(s: Seq<u8>) -> Option<int> {
    if s.len() == 6 && (s[0] == PLUS || s[0] == MINUS) && is_digit(s[1]) && is_digit(s[2]) && s[3]
        == COLON && s[4] == ZERO && s[5] == ZERO && 10 * digit_value(s[1]) + digit_value(s[2])
        <= 12 {
        let hours = 10 * digit_value(s[1]) + digit_value(s[2]);
        Some(
            if s[0] == PLUS {
                hours
            } else {
                -hours
            },
        )
    } else {
        None
    }
}

/// The offset in seconds east of UTC that a zone suffix denotes: none for the
/// empty suffix and for `Z`, a whole number of hours for `+HH:00` and
/// `-HH:00` with `HH` from `00` to `12`. No other suffix denotes one.
pub open spec fn zone_offset(s: Seq<u8>) -> Option<int> {
    if s.len() == 0 || (s.len() == 1 && s[0] == UPPER_Z) {
        Some(0)
    } else {
        match zone_hours(s) {
            Some(hours) => Some(hours * 3600),
            None => None,
        }
    }
}

impl TimeZone {
    #[verifier::type_invariant]
    spec fn whole_hour(self) -> bool {
        -43200 <= self.0 <= 43200 && self.0 % 3600 == 0
    }

    /// The zone `hoffset` hours east of UTC, for -12 to +12; nothing otherwise.
    pub fn new(hoffset: i32) -> (zone: Option<TimeZone>)
        ensures
            zone is Some <==> -12 <= hoffset <= 12,
            zone matches Some(z) ==> z@ == hoffset * 3600,
    {
        if hoffset < -12 || hoffset > 12 {
            return None;
        }
        let index: usize = (hoffset + 12) as usize;
        Some(TimeZone(OFFSETS[index]))
    }

    /// UTC itself.
    pub fn utc() -> (zone: TimeZone)
        ensures
            zone@ == 0,
    {
        TimeZone(0)
    }

    /// The zone that a suffix written in ASCII denotes. Any text but the
    /// accepted suffixes is an `InvalidValue`.
    pub fn from_bytes(bs: &[u8]) -> (zone: Result<TimeZone, ParseError>)
        ensures
            match zone {
                Ok(z) => zone_offset(bs@) == Some(z@),
                Err(e) => e == ParseError::InvalidValue && zone_offset(bs@) is None,
            },
    {
        let size = bs.len();
        if size == 0 || (size == 1 && bs[0] == UPPER_Z) {
            return Ok(TimeZone(0));
        }
        if size != 6 || (bs[0] != PLUS && bs[0] != MINUS) || bs[3] != COLON || bs[4] != ZERO || bs[5]
            != ZERO {
            return Err(ParseError::InvalidValue);
        }
        if !is_ascii_digit(bs[1]) || !is_ascii_digit(bs[2]) {
            return Err(ParseError::InvalidValue);
        }
        let hours: usize = ((bs[1] - ZERO) * 10 + (bs[2] - ZERO)) as usize;
        if hours > 12 {
            return Err(ParseError::InvalidValue);
        }
        let index: usize = if bs[0] == PLUS {
            12 + hours
        } else {
            12 - hours
        };
        Ok(TimeZone(OFFSETS[index]))
    }

    /// The zone that a suffix denotes, read from its UTF-8 bytes.
    pub fn from_str(s: &str) -> (zone: Result<TimeZone, ParseError>)
        ensures
            match zone {
                Ok(z) => zone_offset(s.spec_bytes()) == Some(z@),
                Err(e) => e == ParseError::InvalidValue && zone_offset(s.spec_bytes()) is None,
            },
    {
        TimeZone::from_bytes(s.as_bytes())
    }

    /// The offset in seconds east of UTC: a whole number of hours, twelve at most.
    pub fn offset(&self) -> (seconds: i32)
        ensures
            seconds == self@,
            -43200 <= seconds <= 43200,
            seconds % 3600 == 0,
    {
        proof {
            use_type_invariant(self);
        }
        self.0
    }
}

impl FromStr for TimeZone {
    type Err = ParseError;

    /// The zone that a suffix denotes, read from its UTF-8 bytes, as
    /// `TimeZone::from_str` gives it.
    fn from_str(s: &str) -> (zone: Result<TimeZone, ParseError>)
        ensures
            match zone {
                Ok(z) => zone_offset(s.spec_bytes()) == Some(z@),
                Err(e) => e == ParseError::InvalidValue && zone_offset(s.spec_bytes()) is None,
            },
    {
        TimeZone::from_str(s)
    }
}

} // verus!
