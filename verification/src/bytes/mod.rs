//! Byte sizes written as a number and a unit, such as `1 KiB` or `5MB`.
//!
//! The units of 1024 are `Ki`, `Mi`, `Gi`, `Ti`, `Pi` and `Ei`, those of 1000
//! are `K`, `M`, `G`, `T`, `P` and `E`; each may be followed by `B`, and
//! upper and lower case are the same. A number alone counts bytes.

use vstd::prelude::*;
use vstd::string::StrSliceExecFns;
use vstd::utf8::is_ascii_chars;
use std::str::FromStr;
use vstd::slice::slice_subrange;
use vstd::std_specs::iter::IteratorSpec;
use crate::ascii::{
    all_digits, decimal, is_ascii_digit, lemma_decimal_grows, lemma_decimal_push, LOWER_B,
    LOWER_E, LOWER_G, LOWER_I, LOWER_K, LOWER_M, LOWER_P, LOWER_T, MINUS, PLUS, ZERO,
};
use crate::num::{signed_value, Int};
use crate::std_specs::{alphabetic, is_white_space, lowercase, trimmed};
use crate::ParseError;

verus! {

/// Bytes in each unit of 1024, from `B` to `EiB`.
pub const IBYTES: [u64; 7] = [
    1,
    0x400,
    0x10_0000,
    0x4000_0000,
    0x100_0000_0000,
    0x4_0000_0000_0000,
    0x1000_0000_0000_0000,
];

/// Bytes in each unit of 1000, from `B` to `EB`.
pub const BYTES: [u64; 7] = [
    1,
    1_000,
    1_000_000,
    1_000_000_000,
    1_000_000_000_000,
    1_000_000_000_000_000,
    1_000_000_000_000_000_000,
];

/// The units that a byte size is written in.
#[derive(Debug, Copy, Clone, PartialEq, Eq, Structural)]
pub enum Unit {
    /// 1 byte
    Byte,
    /// 1024 bytes
    KiByte,
    /// 1024 KiB
    MiByte,
    /// 1024 MiB
    GiByte,
    /// 1024 GiB
    TiByte,
    /// 1024 TiB
    PiByte,
    /// 1024 PiB
    EiByte,
    /// 1000 bytes
    KByte,
    /// 1000 KB
    MByte,
    /// 1000 MB
    GByte,
    /// 1000 GB
    TByte,
    /// 1000 TB
    PByte,
    /// 1000 PB
    EByte,
}

/// The unit of 1000 that a letter stands for.
pub open spec fn decimal_unit(letter: char) -> Option<Unit> {
    if letter == 'k' {
        Some(Unit::KByte)
    } else if letter == 'm' {
        Some(Unit::MByte)
    } else if letter == 'g' {
        Some(Unit::GByte)
    } else if letter == 't' {
        Some(Unit::TByte)
    } else if letter == 'p' {
        Some(Unit::PByte)
    } else if letter == 'e' {
        Some(Unit::EByte)
    } else {
        None
    }
}

/// The unit of 1024 that a letter stands for.
pub open spec fn binary_unit(letter: char) -> Option<Unit> {
    if letter == 'k' {
        Some(Unit::KiByte)
    } else if letter == 'm' {
        Some(Unit::MiByte)
    } else if letter == 'g' {
        Some(Unit::GiByte)
    } else if letter == 't' {
        Some(Unit::TiByte)
    } else if letter == 'p' {
        Some(Unit::PiByte)
    } else if letter == 'e' {
        Some(Unit::EiByte)
    } else {
        None
    }
}

/// The unit that a name in lower case stands for: nothing or `b` for the
/// byte; one of the letters `k`, `m`, `g`, `t`, `p` and `e` for a unit of
/// 1000, and the letter with an `i` for a unit of 1024, each with or without
/// a `b` at the end.
pub open spec fn unit_named(name: Seq<char>) -> Option<Unit> {
    if name.len() == 0 || (name.len() == 1 && name[0] == 'b') {
        Some(Unit::Byte)
    } else if name.len() == 1 || (name.len() == 2 && name[1] == 'b') {
        decimal_unit(name[0])
    } else if (name.len() == 2 || (name.len() == 3 && name[2] == 'b')) && name[1] == 'i' {
        binary_unit(name[0])
    } else {
        None
    }
}

impl Unit {
    /// The number of bytes in the unit.
    pub open spec fn factor(self) -> int {
        match self {
            Unit::Byte => 1,
            Unit::KiByte => 1024,
            Unit::MiByte => 1_048_576,
            Unit::GiByte => 1_073_741_824,
            Unit::TiByte => 1_099_511_627_776,
            Unit::PiByte => 1_125_899_906_842_624,
            Unit::EiByte => 1_152_921_504_606_846_976,
            Unit::KByte => 1000,
            Unit::MByte => 1_000_000,
            Unit::GByte => 1_000_000_000,
            Unit::TByte => 1_000_000_000_000,
            Unit::PByte => 1_000_000_000_000_000,
            Unit::EByte => 1_000_000_000_000_000_000,
        }
    }

    /// The way the unit is written.
    pub open spec fn symbol_text(self) -> Seq<char> {
        match self {
            Unit::Byte => "B"@,
            Unit::KiByte => "KiB"@,
            Unit::MiByte => "MiB"@,
            Unit::GiByte => "GiB"@,
            Unit::TiByte => "TiB"@,
            Unit::PiByte => "PiB"@,
            Unit::EiByte => "EiB"@,
            Unit::KByte => "KB"@,
            Unit::MByte => "MB"@,
            Unit::GByte => "GB"@,
            Unit::TByte => "TB"@,
            Unit::PByte => "PB"@,
            Unit::EByte => "EB"@,
        }
    }

    /// The number of bytes in the unit, as a `T`; an `Overflow` where `T` has
    /// no such value.
    pub fn size<T: Int>(&self) -> (bytes: Result<T, ParseError>)
        ensures
            match bytes {
                Ok(n) => T::fits(self.factor()) && n.as_int() == self.factor(),
                Err(e) => e == ParseError::Overflow && !T::fits(self.factor()),
            },
    {
        let v = match self {
            Unit::Byte => T::from_u64(1),
            Unit::KiByte => T::from_u64(IBYTES[1]),
            Unit::MiByte => T::from_u64(IBYTES[2]),
            Unit::GiByte => T::from_u64(IBYTES[3]),
            Unit::TiByte => T::from_u64(IBYTES[4]),
            Unit::PiByte => T::from_u64(IBYTES[5]),
            Unit::EiByte => T::from_u64(IBYTES[6]),
            Unit::KByte => T::from_u64(BYTES[1]),
            Unit::MByte => T::from_u64(BYTES[2]),
            Unit::GByte => T::from_u64(BYTES[3]),
            Unit::TByte => T::from_u64(BYTES[4]),
            Unit::PByte => T::from_u64(BYTES[5]),
            Unit::EByte => T::from_u64(BYTES[6]),
        };
        match v {
            Some(n) => Ok(n),
            None => Err(ParseError::Overflow),
        }
    }

    /// The unit that a name in lower case stands for; any other text is an
    /// `InvalidUnit`.
    pub fn from_str(s: &str) -> (unit: Result<Unit, ParseError>)
        ensures
            match unit {
                Ok(u) => unit_named(s@) == Some(u),
                Err(e) => e == ParseError::InvalidUnit && unit_named(s@) is None,
            },
    {
        if !s.is_ascii() {
            return Err(ParseError::InvalidUnit);
        }
        let bs = s.as_bytes();
        proof {
            vstd::string::is_ascii_spec_bytes(s);
        }
        let size = bs.len();
        if size == 0 || (size == 1 && bs[0] == LOWER_B) {
            Ok(Unit::Byte)
        } else if size == 1 || (size == 2 && bs[1] == LOWER_B) {
            Unit::decimal(bs[0])
        } else if (size == 2 || (size == 3 && bs[2] == LOWER_B)) && bs[1] == LOWER_I {
            Unit::binary(bs[0])
        } else {
            Err(ParseError::InvalidUnit)
        }
    }

    /// The unit of 1000 that a letter stands for.
    fn decimal(letter: u8) -> (unit: Result<Unit, ParseError>)
        requires
            letter <= 0x7f,
        ensures
            match unit {
                Ok(u) => decimal_unit(letter as char) == Some(u),
                Err(e) => e == ParseError::InvalidUnit && decimal_unit(letter as char) is None,
            },
    {
        if letter == LOWER_K {
            Ok(Unit::KByte)
        } else if letter == LOWER_M {
            Ok(Unit::MByte)
        } else if letter == LOWER_G {
            Ok(Unit::GByte)
        } else if letter == LOWER_T {
            Ok(Unit::TByte)
        } else if letter == LOWER_P {
            Ok(Unit::PByte)
        } else if letter == LOWER_E {
            Ok(Unit::EByte)
        } else {
            Err(ParseError::InvalidUnit)
        }
    }

    /// The unit of 1024 that a letter stands for.
    fn binary(letter: u8) -> (unit: Result<Unit, ParseError>)
        requires
            letter <= 0x7f,
        ensures
            match unit {
                Ok(u) => binary_unit(letter as char) == Some(u),
                Err(e) => e == ParseError::InvalidUnit && binary_unit(letter as char) is None,
            },
    {
        if letter == LOWER_K {
            Ok(Unit::KiByte)
        } else if letter == LOWER_M {
            Ok(Unit::MiByte)
        } else if letter == LOWER_G {
            Ok(Unit::GiByte)
        } else if letter == LOWER_T {
            Ok(Unit::TiByte)
        } else if letter == LOWER_P {
            Ok(Unit::PiByte)
        } else if letter == LOWER_E {
            Ok(Unit::EiByte)
        } else {
            Err(ParseError::InvalidUnit)
        }
    }

    /// The way the unit is written, such as `KiB`.
    pub fn symbol(&self) -> (text: &'static str)
        ensures
            text@ == self.symbol_text(),
    {
        match self {
            Unit::Byte => "B",
            Unit::KiByte => "KiB",
            Unit::MiByte => "MiB",
            Unit::GiByte => "GiB",
            Unit::TiByte => "TiB",
            Unit::PiByte => "PiB",
            Unit::EiByte => "EiB",
            Unit::KByte => "KB",
            Unit::MByte => "MB",
            Unit::GByte => "GB",
            Unit::TByte => "TB",
            Unit::PByte => "PB",
            Unit::EByte => "EB",
        }
    }
}

impl<T: Int> FromStr for Bytes<T> {
    type Err = ParseError;

    /// Parses a size such as `1 KiB`, `5mb` or `42`, as `Bytes::from_str`
    /// does.
    fn from_str(s: &str) -> (bytes: Result<Bytes<T>, ParseError>)
        ensures
            answers(bytes, size_text::<T>(s@)),
    {
        Bytes::<T>::from_str(s)
    }
}

impl FromStr for Unit {
    type Err = ParseError;

    /// The unit that a name in lower case stands for, as `Unit::from_str`
    /// gives it.
    fn from_str(s: &str) -> (unit: Result<Unit, ParseError>)
        ensures
            match unit {
                Ok(u) => unit_named(s@) == Some(u),
                Err(e) => e == ParseError::InvalidUnit && unit_named(s@) is None,
            },
    {
        Unit::from_str(s)
    }
}

/// The units by name.
pub proof fn law_unit_names()
    ensures
        unit_named(""@) == Some(Unit::Byte),
        unit_named("b"@) == Some(Unit::Byte),
        unit_named("ki"@) == Some(Unit::KiByte),
        unit_named("kib"@) == Some(Unit::KiByte),
        unit_named("mi"@) == Some(Unit::MiByte),
        unit_named("mib"@) == Some(Unit::MiByte),
        unit_named("gi"@) == Some(Unit::GiByte),
        unit_named("gib"@) == Some(Unit::GiByte),
        unit_named("ti"@) == Some(Unit::TiByte),
        unit_named("tib"@) == Some(Unit::TiByte),
        unit_named("pi"@) == Some(Unit::PiByte),
        unit_named("pib"@) == Some(Unit::PiByte),
        unit_named("ei"@) == Some(Unit::EiByte),
        unit_named("eib"@) == Some(Unit::EiByte),
        unit_named("k"@) == Some(Unit::KByte),
        unit_named("kb"@) == Some(Unit::KByte),
        unit_named("m"@) == Some(Unit::MByte),
        unit_named("mb"@) == Some(Unit::MByte),
        unit_named("g"@) == Some(Unit::GByte),
        unit_named("gb"@) == Some(Unit::GByte),
        unit_named("t"@) == Some(Unit::TByte),
        unit_named("tb"@) == Some(Unit::TByte),
        unit_named("p"@) == Some(Unit::PByte),
        unit_named("pb"@) == Some(Unit::PByte),
        unit_named("e"@) == Some(Unit::EByte),
        unit_named("eb"@) == Some(Unit::EByte),
{
    reveal_strlit("");
    reveal_strlit("b");
    reveal_strlit("ki");
    reveal_strlit("kib");
    reveal_strlit("mi");
    reveal_strlit("mib");
    reveal_strlit("gi");
    reveal_strlit("gib");
    reveal_strlit("ti");
    reveal_strlit("tib");
    reveal_strlit("pi");
    reveal_strlit("pib");
    reveal_strlit("ei");
    reveal_strlit("eib");
    reveal_strlit("k");
    reveal_strlit("kb");
    reveal_strlit("m");
    reveal_strlit("mb");
    reveal_strlit("g");
    reveal_strlit("gb");
    reveal_strlit("t");
    reveal_strlit("tb");
    reveal_strlit("p");
    reveal_strlit("pb");
    reveal_strlit("e");
    reveal_strlit("eb");
}

/// The number of bytes that `value` units are, where `T` can count both the
/// unit and the product; an `Overflow` where it cannot.
pub open spec fn byte_count<T: Int>(value: int, unit: Unit) -> Result<int, ParseError> {
    if T::fits(unit.factor()) && T::fits(value * unit.factor()) {
        Ok(value * unit.factor())
    } else {
        Err(ParseError::Overflow)
    }
}

/// Whether a literal starts with a minus sign.
pub open spec fn literal_negative(s: Seq<u8>) -> bool {
    s.len() > 0 && s[0] == MINUS
}

/// A literal without its sign.
pub open spec fn literal_digits(s: Seq<u8>) -> Seq<u8> {
    if s.len() > 0 && (s[0] == PLUS || s[0] == MINUS) {
        s.subrange(1, s.len() as int)
    } else {
        s
    }
}

/// The integer that a literal in base ten writes, if `T` has a value for it:
/// an optional sign, `-` only for a type with negative values, and then at
/// least one digit and nothing but digits. A magnitude beyond 128 bits is
/// not read.
pub open spec fn integer_literal<T: Int>(s: Seq<u8>) -> Option<int> {
    let negative = literal_negative(s);
    let digits = literal_digits(s);
    let value = signed_value(negative, decimal(digits) as int);
    if digits.len() > 0 && all_digits(digits) && decimal(digits) <= u128::MAX && (negative
        ==> T::signed()) && T::fits(value) {
        Some(value)
    } else {
        None
    }
}

/// The bytes of a text in ASCII, one for each character.
pub open spec fn ascii_bytes(s: Seq<char>) -> Seq<u8> {
    Seq::new(s.len(), |i: int| s[i] as u8)
}

/// How many characters at the start of `t` belong to the number: those
/// before the first letter or white space.
pub open spec fn number_len(t: Seq<char>) -> nat
    decreases t.len(),
{
    if t.len() == 0 || alphabetic(t.first()) || is_white_space(t.first()) {
        0
    } else {
        1 + number_len(t.drop_first())
    }
}

/// The size that a number and the name of a unit in lower case denote, in
/// bytes: an `InvalidUnit` where the name is none, an `InvalidValue` where
/// the number is no integer literal of `T`, an `Overflow` where `T` cannot
/// count the bytes.
pub open spec fn literal_size<T: Int>(
    number: Seq<char>,
    unit: Seq<char>,
) -> Result<int, ParseError> {
    match unit_named(unit) {
        None => Err(ParseError::InvalidUnit),
        Some(u) => if !is_ascii_chars(number) {
            Err(ParseError::InvalidValue)
        } else {
            match integer_literal::<T>(ascii_bytes(number)) {
                None => Err(ParseError::InvalidValue),
                Some(value) => byte_count::<T>(value, u),
            }
        },
    }
}

/// The size that a text denotes, in bytes. Without the white space around
/// it, the text is a number, which ends before the first letter or white
/// space, and a unit, which is named by the rest in any case and with white
/// space around it. A number that holds a character outside ASCII and is
/// followed by a unit is reported as an `InvalidUnit`.
pub open spec fn size_text<T: Int>(s: Seq<char>) -> Result<int, ParseError> {
    let t = trimmed(s);
    let digits = number_len(t) as int;
    let number = t.subrange(0, digits);
    let rest = t.subrange(digits, t.len() as int);
    if t.len() == 0 {
        Err(ParseError::EmptyInput)
    } else if digits == 0 {
        Err(ParseError::MissingValue)
    } else if digits < t.len() && !is_ascii_chars(number) {
        Err(ParseError::InvalidUnit)
    } else {
        literal_size::<T>(number, lowercase(trimmed(rest)))
    }
}

/// Whether a parser's answer is the one that the grammar gives.
pub open spec fn answers<T: Int>(
    result: Result<Bytes<T>, ParseError>,
    expected: Result<int, ParseError>,
) -> bool {
    match result {
        Ok(bytes) => expected == Ok::<int, ParseError>(bytes@),
        Err(e) => expected == Err::<int, ParseError>(e),
    }
}

/// Reads an integer literal in base ten as a `T`; nothing where the text is
/// no such literal or `T` has no value for it.
pub fn parse_integer<T: Int>(bs: &[u8]) -> (value: Option<T>)
    ensures
        match value {
            Some(v) => integer_literal::<T>(bs@) == Some(v.as_int()),
            None => integer_literal::<T>(bs@) is None,
        },
{
    let size = bs.len();
    let mut start: usize = 0;
    let mut negative = false;
    if size > 0 && bs[0] == PLUS {
        start = 1;
    } else if size > 0 && bs[0] == MINUS {
        negative = true;
        start = 1;
    }
    let digits = slice_subrange(bs, start, size);
    assert(start == 0 ==> digits@ =~= bs@);
    if digits.len() == 0 {
        return None;
    }
    let mut magnitude: u128 = 0;
    let mut read: usize = 0;
    while read < digits.len()
        invariant
            read <= digits@.len(),
            digits@ == literal_digits(bs@),
            negative == literal_negative(bs@),
            all_digits(digits@.subrange(0, read as int)),
            magnitude == decimal(digits@.subrange(0, read as int)),
        decreases digits@.len() - read,
    {
        let c = digits[read];
        if !is_ascii_digit(c) {
            return None;
        }
        proof {
            lemma_decimal_push(digits@, read as int);
            if all_digits(digits@) {
                assert(digits@.subrange(0, digits@.len() as int) =~= digits@);
                lemma_decimal_grows(digits@, read + 1, digits@.len() as int);
            }
        }
        magnitude = match magnitude.checked_mul(10) {
            Some(tenfold) => match tenfold.checked_add((c - ZERO) as u128) {
                Some(next) => next,
                None => { return None; },
            },
            None => { return None; },
        };
        read += 1;
    }
    assert(digits@.subrange(0, read as int) =~= digits@);
    T::from_sign_magnitude(negative, magnitude)
}

/// A text with one more character is ASCII exactly when the text and the
/// character are.
pub proof fn lemma_ascii_push(s: Seq<char>, c: char)
    ensures
        is_ascii_chars(s.push(c)) == (is_ascii_chars(s) && c <= '\u{7f}'),
{
    let longer = s.push(c);
    if is_ascii_chars(s) && c <= '\u{7f}' {
        assert forall|i: int| 0 <= i < longer.len() implies '\0' <= #[trigger] longer[i]
            <= '\u{7f}' by {
            if i < s.len() {
                assert(longer[i] == s[i]);
            }
        }
    }
    if is_ascii_chars(longer) {
        assert(longer[s.len() as int] == c);
        assert forall|i: int| 0 <= i < s.len() implies '\0' <= #[trigger] s[i] <= '\u{7f}' by {
            assert(longer[i] == s[i]);
        }
    }
}

/// Counts the characters of the number that `input` starts with, and tells
/// whether all of them are ASCII.
pub fn scan_number(input: &str) -> (scan: (usize, bool))
    ensures
        scan.0 == number_len(input@),
        scan.0 <= input@.len(),
        scan.1 == is_ascii_chars(input@.subrange(0, scan.0 as int)),
{
    let total = input.unicode_len();
    let mut digits: usize = 0;
    let mut ascii = true;
    let mut chars = input.chars();
    assert(input@.subrange(0, input@.len() as int) =~= input@);
    assert(input@.subrange(0, 0) =~= Seq::<char>::empty());
    loop
        invariant_except_break
            digits <= total == input@.len(),
            chars.obeys_prophetic_iter_laws(),
            chars.remaining() == input@.subrange(digits as int, input@.len() as int),
            number_len(input@) == digits + number_len(chars.remaining()),
            ascii == is_ascii_chars(input@.subrange(0, digits as int)),
        ensures
            digits <= total == input@.len(),
            number_len(input@) == digits,
            ascii == is_ascii_chars(input@.subrange(0, digits as int)),
        decreases input@.len() - digits,
    {
        let ghost before = chars.remaining();
        match chars.next() {
            None => { break; },
            Some(c) => {
                if c.is_alphabetic() || c.is_whitespace() {
                    break;
                }
                assert(before.drop_first() =~= input@.subrange(
                    digits + 1,
                    input@.len() as int,
                ));
                assert(input@.subrange(0, digits + 1) =~= input@.subrange(0, digits as int).push(
                    c,
                ));
                proof {
                    lemma_ascii_push(input@.subrange(0, digits as int), c);
                }
                if c > '\u{7f}' {
                    ascii = false;
                }
                digits += 1;
            },
        }
    }
    (digits, ascii)
}

/// A size in bytes, counted in a `T`.
#[derive(Debug, Copy, Clone, PartialEq, Eq)]
pub struct Bytes<T: Int = usize>(T);

impl<T: Int> View for Bytes<T> {
    type V = int;

    /// The number of bytes.
    closed spec fn view(&self) -> int {
        self.0.as_int()
    }
}

impl Bytes {
    /// The size of `value` units, or an `Overflow` where `T` cannot count
    /// the bytes of the unit or of the whole.
    pub fn new<T: Int>(value: T, unit: Unit) -> (bytes: Result<Bytes<T>, ParseError>)
        ensures
            match bytes {
                Ok(b) => byte_count::<T>(value.as_int(), unit) == Ok::<int, ParseError>(b@),
                Err(e) => byte_count::<T>(value.as_int(), unit) == Err::<int, ParseError>(e),
            },
    {
        let unit_size = match unit.size::<T>() {
            Ok(n) => n,
            Err(e) => { return Err(e); },
        };
        match value.checked_mul(unit_size) {
            Some(size) => Ok(Bytes(size)),
            None => Err(ParseError::Overflow),
        }
    }
}

impl<T: Int> Bytes<T> {
    /// Parses a size such as `1 KiB`, `5mb` or `42`.
    pub fn from_str(s: &str) -> (bytes: Result<Bytes<T>, ParseError>)
        ensures
            answers(bytes, size_text::<T>(s@)),
    {
        let input = s.trim();
        if input.is_empty() {
            return Err(ParseError::EmptyInput);
        }
        let total = input.unicode_len();
        let (unit_index, ascii) = scan_number(input);
        if unit_index == 0 {
            return Err(ParseError::MissingValue);
        }
        if unit_index < total && !ascii {
            return Err(ParseError::InvalidUnit);
        }
        let number = input.substring_char(0, unit_index);
        let rest = input.substring_char(unit_index, total);
        let unit = rest.trim().to_lowercase();
        Bytes::from_literal(number, unit.as_str())
    }

    /// The size that a number and the name of a unit in lower case denote.
    pub fn from_literal(number: &str, unit: &str) -> (bytes: Result<Bytes<T>, ParseError>)
        ensures
            answers(bytes, literal_size::<T>(number@, unit@)),
    {
        let unit = match Unit::from_str(unit) {
            Ok(u) => u,
            Err(e) => { return Err(e); },
        };
        if !number.is_ascii() {
            return Err(ParseError::InvalidValue);
        }
        proof {
            vstd::string::is_ascii_spec_bytes(number);
        }
        let value = match parse_integer::<T>(number.as_bytes()) {
            Some(v) => v,
            None => { return Err(ParseError::InvalidValue); },
        };
        Bytes::new(value, unit)
    }

    /// The number of bytes.
    pub fn size(&self) -> (bytes: T)
        ensures
            bytes.as_int() == self@,
    {
        self.0
    }
}

} // verus!
