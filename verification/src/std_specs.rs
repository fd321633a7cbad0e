//! Contracts for the parts of the standard library that the parsers call and
//! that come without one. Nothing here is proved: each contract restates the
//! documentation of the function it is about.

use vstd::prelude::*;
use vstd::string::StringSliceAdditionalSpecFns;
use vstd::utf8::valid_utf8;
use std::time::Duration;

verus! {

/// Whether `c` is white space as Unicode defines it: the property White_Space
/// of the Unicode Character Database, which `char::is_whitespace` reports.
pub open spec fn is_white_space(c: char) -> bool {
    let code = c as u32;
    ||| 0x09 <= code <= 0x0d
    ||| code == 0x20
    ||| code == 0x85
    ||| code == 0xa0
    ||| code == 0x1680
    ||| 0x2000 <= code <= 0x200a
    ||| code == 0x2028
    ||| code == 0x2029
    ||| code == 0x202f
    ||| code == 0x205f
    ||| code == 0x3000
}

/// `char::is_whitespace`: whether the character has the property White_Space.
pub assume_specification[ char::is_whitespace ](c: char) -> (white: bool)
    ensures
        white == is_white_space(c),
;

/// Whether `c` is a letter as Unicode defines it: the derived property
/// Alphabetic of the Unicode Character Database, as `char::is_alphabetic`
/// reports it.
pub uninterp spec fn alphabetic(c: char) -> bool;

/// `char::is_alphabetic`: whether the character has the property Alphabetic.
pub assume_specification[ char::is_alphabetic ](c: char) -> (letter: bool)
    ensures
        letter == alphabetic(c),
;

/// The text in lower case, as `str::to_lowercase` gives it: each character
/// replaced by what Unicode maps it to.
pub uninterp spec fn lowercase(s: Seq<char>) -> Seq<char>;

/// `str::to_lowercase`: the lower-case equivalent of the text, as a new string.
pub assume_specification[ str::to_lowercase ](s: &str) -> (lower: String)
    ensures
        lower@ == lowercase(s@),
;

/// The text without the white space that it starts with.
pub open spec fn trim_start(s: Seq<char>) -> Seq<char>
    decreases s.len(),
{
    if s.len() > 0 && is_white_space(s.first()) {
        trim_start(s.drop_first())
    } else {
        s
    }
}

/// The text without the white space that it ends with.
pub open spec fn trim_end(s: Seq<char>) -> Seq<char>
    decreases s.len(),
{
    if s.len() > 0 && is_white_space(s.last()) {
        trim_end(s.drop_last())
    } else {
        s
    }
}

/// The text without the white space at either end.
pub open spec fn trimmed(s: Seq<char>) -> Seq<char> {
    trim_end(trim_start(s))
}

/// `str::trim`: the slice of `s` that is left when leading and trailing white
/// space, in the sense of Unicode's White_Space, is removed.
pub assume_specification[ str::trim ](s: &str) -> (t: &str)
    ensures
        t@ == trimmed(s@),
;

/// `core::str::from_utf8`: the bytes as text, if they are valid UTF-8, and
/// nothing if they are not. The text has exactly these bytes.
#[verifier::external_body]
pub(crate) fn utf8_text(bs: &[u8]) -> (text: Option<&str>)
    ensures
        text is Some <==> valid_utf8(bs@),
        text matches Some(t) ==> t.spec_bytes() == bs@,
{
    core::str::from_utf8(bs).ok()
}

/// The length of a `Duration` in nanoseconds, as `Duration::as_nanos` gives it.
pub uninterp spec fn duration_nanos(d: Duration) -> nat;

/// `Duration::new`: a span of `secs` whole seconds and `nanos` further
/// nanoseconds. The standard library carries nanoseconds beyond a full second
/// over into the seconds and panics if they no longer fit, which `requires`
/// rules out.
pub assume_specification[ Duration::new ](secs: u64, nanos: u32) -> (d: Duration)
    requires
        secs + nanos / 1_000_000_000 <= u64::MAX,
    ensures
        duration_nanos(d) == secs * 1_000_000_000 + nanos,
;

} // verus!
