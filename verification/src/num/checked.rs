//! Multiplication that reports overflow instead of wrapping around.

use vstd::prelude::*;
use std::ops::Mul;

verus! {

/// Multiplication that gives nothing where the product does not fit the type.
pub trait CheckedMul: Copy + Sized + Mul<Self, Output = Self> {
    /// The integer that a value of the type stands for.
    spec fn as_int(self) -> int;

    /// Whether the type has a value for the integer `v`.
    spec fn fits(v: int) -> bool;

    /// Multiplies two numbers. The product is returned where the type has a
    /// value for it, and nothing where it has none.
    fn checked_mul(self, rhs: Self) -> (product: Option<Self>)
        ensures
            match product {
                Some(p) => Self::fits(self.as_int() * rhs.as_int()) && p.as_int() == self.as_int()
                    * rhs.as_int(),
                None => !Self::fits(self.as_int() * rhs.as_int()),
            },
    ;
}

impl CheckedMul for i8 {
    open spec fn as_int(self) -> int {
        self as int
    }

    open spec fn fits(v: int) -> bool {
        i8::MIN <= v <= i8::MAX
    }

    fn checked_mul(self, rhs: i8) -> (product: Option<i8>) {
        <i8>::checked_mul(self, rhs)
    }
}

impl CheckedMul for u8 {
    open spec fn as_int(self) -> int {
        self as int
    }

    open spec fn fits(v: int) -> bool {
        u8::MIN <= v <= u8::MAX
    }

    fn checked_mul(self, rhs: u8) -> (product: Option<u8>) {
        <u8>::checked_mul(self, rhs)
    }
}

impl CheckedMul for i16 {
    open spec fn as_int(self) -> int {
        self as int
    }

    open spec fn fits(v: int) -> bool {
        i16::MIN <= v <= i16::MAX
    }

    fn checked_mul(self, rhs: i16) -> (product: Option<i16>) {
        <i16>::checked_mul(self, rhs)
    }
}

impl CheckedMul for u16 {
    open spec fn as_int(self) -> int {
        self as int
    }

    open spec fn fits(v: int) -> bool {
        u16::MIN <= v <= u16::MAX
    }

    fn checked_mul(self, rhs: u16) -> (product: Option<u16>) {
        <u16>::checked_mul(self, rhs)
    }
}

impl CheckedMul for i32 {
    open spec fn as_int(self) -> int {
        self as int
    }

    open spec fn fits(v: int) -> bool {
        i32::MIN <= v <= i32::MAX
    }

    fn checked_mul(self, rhs: i32) -> (product: Option<i32>) {
        <i32>::checked_mul(self, rhs)
    }
}

impl CheckedMul for u32 {
    open spec fn as_int(self) -> int {
        self as int
    }

    open spec fn fits(v: int) -> bool {
        u32::MIN <= v <= u32::MAX
    }

    fn checked_mul(self, rhs: u32) -> (product: Option<u32>) {
        <u32>::checked_mul(self, rhs)
    }
}

impl CheckedMul for i64 {
    open spec fn as_int(self) -> int {
        self as int
    }

    open spec fn fits(v: int) -> bool {
        i64::MIN <= v <= i64::MAX
    }

    fn checked_mul(self, rhs: i64) -> (product: Option<i64>) {
        <i64>::checked_mul(self, rhs)
    }
}

impl CheckedMul for u64 {
    open spec fn as_int(self) -> int {
        self as int
    }

    open spec fn fits(v: int) -> bool {
        u64::MIN <= v <= u64::MAX
    }

    fn checked_mul(self, rhs: u64) -> (product: Option<u64>) {
        <u64>::checked_mul(self, rhs)
    }
}

impl CheckedMul for i128 {
    open spec fn as_int(self) -> int {
        self as int
    }

    open spec fn fits(v: int) -> bool {
        i128::MIN <= v <= i128::MAX
    }

    fn checked_mul(self, rhs: i128) -> (product: Option<i128>) {
        <i128>::checked_mul(self, rhs)
    }
}

impl CheckedMul for u128 {
    open spec fn as_int(self) -> int {
        self as int
    }

    open spec fn fits(v: int) -> bool {
        u128::MIN <= v <= u128::MAX
    }

    fn checked_mul(self, rhs: u128) -> (product: Option<u128>) {
        <u128>::checked_mul(self, rhs)
    }
}

impl CheckedMul for isize {
    open spec fn as_int(self) -> int {
        self as int
    }

    open spec fn fits(v: int) -> bool {
        isize::MIN <= v <= isize::MAX
    }

    fn checked_mul(self, rhs: isize) -> (product: Option<isize>) {
        <isize>::checked_mul(self, rhs)
    }
}

impl CheckedMul for usize {
    open spec fn as_int(self) -> int {
        self as int
    }

    open spec fn fits(v: int) -> bool {
        usize::MIN <= v <= usize::MAX
    }

    fn checked_mul(self, rhs: usize) -> (product: Option<usize>) {
        <usize>::checked_mul(self, rhs)
    }
}

} // verus!
