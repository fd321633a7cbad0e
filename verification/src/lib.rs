//! Parsers for human-written literals: byte sizes, durations and RFC 3339
//! timestamps, each giving an exact typed value or a precise error.

use vstd::prelude::*;

pub mod ascii;
pub mod bytes;
pub mod duration;
pub mod num;
pub mod std_specs;
pub mod time;

verus! {

/// Why a literal could not be parsed.
#[derive(Debug, Copy, Clone, PartialEq, Eq, Structural)]
pub enum ParseError {
    /// The text is empty once surrounding white space is removed.
    EmptyInput,
    /// The text is shorter than any accepted shape.
    TooShort,
    /// The text is longer than any accepted shape.
    TooLong,
    /// A separator is missing or stands in the wrong place.
    Malformed,
    /// A number was expected and no digit was found.
    MissingValue,
    /// A number holds something other than a digit.
    InvalidValue,
    /// A number is not followed by a unit.
    MissingUnit,
    /// The unit is not a known one.
    InvalidUnit,
    /// The same unit is given more than once.
    DuplicateUnit,
    /// The zone suffix is not an accepted one.
    InvalidTimezone,
    /// The value does not fit the range of the result.
    Overflow,
}

impl ParseError {
    /// The fixed text that describes each kind of error.
    pub open spec fn description_text(self) -> Seq<char> {
        match self {
            ParseError::EmptyInput => "empty input"@,
            ParseError::TooShort => "input too short"@,
            ParseError::TooLong => "input too long"@,
            ParseError::Malformed => "malformed input"@,
            ParseError::MissingValue => "missing value"@,
            ParseError::InvalidValue => "invalid value"@,
            ParseError::MissingUnit => "missing unit"@,
            ParseError::InvalidUnit => "invalid unit"@,
            ParseError::DuplicateUnit => "duplicate unit"@,
            ParseError::InvalidTimezone => "invalid timezone"@,
            ParseError::Overflow => "value overflow"@,
        }
    }

    /// A short description of the error, in lower case and without a full stop.
    pub fn description(&self) -> (text: &'static str)
        ensures
            text@ == self.description_text(),
    {
        match self {
            ParseError::EmptyInput => "empty input",
            ParseError::TooShort => "input too short",
            ParseError::TooLong => "input too long",
            ParseError::Malformed => "malformed input",
            ParseError::MissingValue => "missing value",
            ParseError::InvalidValue => "invalid value",
            ParseError::MissingUnit => "missing unit",
            ParseError::InvalidUnit => "invalid unit",
            ParseError::DuplicateUnit => "duplicate unit",
            ParseError::InvalidTimezone => "invalid timezone",
            ParseError::Overflow => "value overflow",
        }
    }
}

} // verus!
