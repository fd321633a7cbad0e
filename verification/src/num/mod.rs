//! The integer types that a byte size can be counted in.

use vstd::prelude::*;

mod checked;

pub use self::checked::CheckedMul;

verus! {

/// An integer type of the machine.
pub trait Int: Sized + Copy + CheckedMul {
    /// Whether the type has negative values.
    spec fn signed() -> bool;

    /// The value of the type that stands for `n`, where it has one.
    fn from_u64(n: u64) -> (value: Option<Self>)
        ensures
            match value {
                Some(v) => Self::fits(n as int) && v.as_int() == n,
                None => !Self::fits(n as int),
            },
    ;

    /// The value of the type that a sign and a magnitude write, where it has
    /// one. A type without negative values takes no minus sign, not even
    /// before zero.
    fn from_sign_magnitude(negative: bool, magnitude: u128) -> (value: Option<Self>)
        ensures
            match value {
                Some(v) => (negative ==> Self::signed()) && Self::fits(
                    signed_value(negative, magnitude as int),
                ) && v.as_int() == signed_value(negative, magnitude as int),
                None => !((negative ==> Self::signed()) && Self::fits(
                    signed_value(negative, magnitude as int),
                )),
            },
    ;
}

/// A magnitude with its sign.
pub open spec fn signed_value(negative: bool, magnitude: int) -> int {
    if negative {
        -magnitude
    } else {
        magnitude
    }
}

impl Int for i8 {
    open spec fn signed() -> bool {
        true
    }

    fn from_u64(n: u64) -> (value: Option<i8>) {
        let max: u64 = i8::MAX as u64;
        if n <= max {
            Some(n as i8)
        } else {
            None
        }
    }

    fn from_sign_magnitude(negative: bool, magnitude: u128) -> (value: Option<i8>) {
        let max: u128 = i8::MAX as u128;
        if magnitude <= max {
            let value: i8 = magnitude as i8;
            if negative {
                Some(-value)
            } else {
                Some(value)
            }
        } else if negative && magnitude == max + 1 {
            Some(i8::MIN)
        } else {
            None
        }
    }
}

impl Int for u8 {
    open spec fn signed() -> bool {
        false
    }

    fn from_u64(n: u64) -> (value: Option<u8>) {
        let max: u64 = u8::MAX as u64;
        if n <= max {
            Some(n as u8)
        } else {
            None
        }
    }

    fn from_sign_magnitude(negative: bool, magnitude: u128) -> (value: Option<u8>) {
        let max: u128 = u8::MAX as u128;
        if magnitude <= max && !negative {
            Some(magnitude as u8)
        } else {
            None
        }
    }
}

impl Int for i16 {
    open spec fn signed() -> bool {
        true
    }

    fn from_u64(n: u64) -> (value: Option<i16>) {
        let max: u64 = i16::MAX as u64;
        if n <= max {
            Some(n as i16)
        } else {
            None
        }
    }

    fn from_sign_magnitude(negative: bool, magnitude: u128) -> (value: Option<i16>) {
        let max: u128 = i16::MAX as u128;
        if magnitude <= max {
            let value: i16 = magnitude as i16;
            if negative {
                Some(-value)
            } else {
                Some(value)
            }
        } else if negative && magnitude == max + 1 {
            Some(i16::MIN)
        } else {
            None
        }
    }
}

impl Int for u16 {
    open spec fn signed() -> bool {
        false
    }

    fn from_u64(n: u64) -> (value: Option<u16>) {
        let max: u64 = u16::MAX as u64;
        if n <= max {
            Some(n as u16)
        } else {
            None
        }
    }

    fn from_sign_magnitude(negative: bool, magnitude: u128) -> (value: Option<u16>) {
        let max: u128 = u16::MAX as u128;
        if magnitude <= max && !negative {
            Some(magnitude as u16)
        } else {
            None
        }
    }
}

impl Int for i32 {
    open spec fn signed() -> bool {
        true
    }

    fn from_u64(n: u64) -> (value: Option<i32>) {
        let max: u64 = i32::MAX as u64;
        if n <= max {
            Some(n as i32)
        } else {
            None
        }
    }

    fn from_sign_magnitude(negative: bool, magnitude: u128) -> (value: Option<i32>) {
        let max: u128 = i32::MAX as u128;
        if magnitude <= max {
            let value: i32 = magnitude as i32;
            if negative {
                Some(-value)
            } else {
                Some(value)
            }
        } else if negative && magnitude == max + 1 {
            Some(i32::MIN)
        } else {
            None
        }
    }
}

impl Int for u32 {
    open spec fn signed() -> bool {
        false
    }

    fn from_u64(n: u64) -> (value: Option<u32>) {
        let max: u64 = u32::MAX as u64;
        if n <= max {
            Some(n as u32)
        } else {
            None
        }
    }

    fn from_sign_magnitude(negative: bool, magnitude: u128) -> (value: Option<u32>) {
        let max: u128 = u32::MAX as u128;
        if magnitude <= max && !negative {
            Some(magnitude as u32)
        } else {
            None
        }
    }
}

impl Int for i64 {
    open spec fn signed() -> bool {
        true
    }

    fn from_u64(n: u64) -> (value: Option<i64>) {
        let max: u64 = i64::MAX as u64;
        if n <= max {
            Some(n as i64)
        } else {
            None
        }
    }

    fn from_sign_magnitude(negative: bool, magnitude: u128) -> (value: Option<i64>) {
        let max: u128 = i64::MAX as u128;
        if magnitude <= max {
            let value: i64 = magnitude as i64;
            if negative {
                Some(-value)
            } else {
                Some(value)
            }
        } else if negative && magnitude == max + 1 {
            Some(i64::MIN)
        } else {
            None
        }
    }
}

impl Int for u64 {
    open spec fn signed() -> bool {
        false
    }

    fn from_u64(n: u64) -> (value: Option<u64>) {
        Some(n)
    }

    fn from_sign_magnitude(negative: bool, magnitude: u128) -> (value: Option<u64>) {
        let max: u128 = u64::MAX as u128;
        if magnitude <= max && !negative {
            Some(magnitude as u64)
        } else {
            None
        }
    }
}

impl Int for i128 {
    open spec fn signed() -> bool {
        true
    }

    fn from_u64(n: u64) -> (value: Option<i128>) {
        Some(n as i128)
    }

    fn from_sign_magnitude(negative: bool, magnitude: u128) -> (value: Option<i128>) {
        let max: u128 = i128::MAX as u128;
        if magnitude <= max {
            let value: i128 = magnitude as i128;
            if negative {
                Some(-value)
            } else {
                Some(value)
            }
        } else if negative && magnitude == max + 1 {
            Some(i128::MIN)
        } else {
            None
        }
    }
}

impl Int for u128 {
    open spec fn signed() -> bool {
        false
    }

    fn from_u64(n: u64) -> (value: Option<u128>) {
        Some(n as u128)
    }

    fn from_sign_magnitude(negative: bool, magnitude: u128) -> (value: Option<u128>) {
        if !negative {
            Some(magnitude)
        } else {
            None
        }
    }
}

impl Int for isize {
    open spec fn signed() -> bool {
        true
    }

    fn from_u64(n: u64) -> (value: Option<isize>) {
        let max: u64 = isize::MAX as u64;
        if n <= max {
            Some(n as isize)
        } else {
            None
        }
    }

    fn from_sign_magnitude(negative: bool, magnitude: u128) -> (value: Option<isize>) {
        let max: u128 = isize::MAX as u128;
        if magnitude <= max {
            let value: isize = magnitude as isize;
            if negative {
                Some(-value)
            } else {
                Some(value)
            }
        } else if negative && magnitude == max + 1 {
            Some(isize::MIN)
        } else {
            None
        }
    }
}

impl Int for usize {
    open spec fn signed() -> bool {
        false
    }

    fn from_u64(n: u64) -> (value: Option<usize>) {
        let max: u64 = usize::MAX as u64;
        if n <= max {
            Some(n as usize)
        } else {
            None
        }
    }

    fn from_sign_magnitude(negative: bool, magnitude: u128) -> (value: Option<usize>) {
        let max: u128 = usize::MAX as u128;
        if magnitude <= max && !negative {
            Some(magnitude as usize)
        } else {
            None
        }
    }
}

} // verus!
