use humanize_rs::num::{CheckedMul, Int};

#[test]
fn test_from_u64_bounds() {
    assert_eq!(<u8 as Int>::from_u64(255), Some(255u8));
    assert_eq!(<u8 as Int>::from_u64(256), None);
    assert_eq!(<i8 as Int>::from_u64(127), Some(127i8));
    assert_eq!(<i8 as Int>::from_u64(128), None);
    assert_eq!(<u16 as Int>::from_u64(65535), Some(65535u16));
    assert_eq!(<u16 as Int>::from_u64(65536), None);
    assert_eq!(<i16 as Int>::from_u64(32768), None);
    assert_eq!(<u32 as Int>::from_u64(4294967295), Some(4294967295u32));
    assert_eq!(<u32 as Int>::from_u64(4294967296), None);
    assert_eq!(<i32 as Int>::from_u64(2147483648), None);
    assert_eq!(<i64 as Int>::from_u64(9223372036854775807), Some(i64::MAX));
    assert_eq!(<i64 as Int>::from_u64(9223372036854775808), None);
    assert_eq!(<u64 as Int>::from_u64(u64::MAX), Some(u64::MAX));
    assert_eq!(<i128 as Int>::from_u64(u64::MAX), Some(u64::MAX as i128));
    assert_eq!(<u128 as Int>::from_u64(u64::MAX), Some(u64::MAX as u128));
    assert_eq!(<usize as Int>::from_u64(0), Some(0usize));
    assert_eq!(<isize as Int>::from_u64(1), Some(1isize));
    assert_eq!(<isize as Int>::from_u64(u64::MAX), None);
}

#[test]
fn test_checked_mul() {
    assert_eq!(CheckedMul::checked_mul(16u8, 15u8), Some(240u8));
    assert_eq!(CheckedMul::checked_mul(16u8, 16u8), None);
    assert_eq!(CheckedMul::checked_mul(-16i8, 8i8), Some(-128i8));
    assert_eq!(CheckedMul::checked_mul(16i8, 8i8), None);
    assert_eq!(CheckedMul::checked_mul(-1i8, i8::MIN), None);
    assert_eq!(CheckedMul::checked_mul(u64::MAX, 1u64), Some(u64::MAX));
    assert_eq!(CheckedMul::checked_mul(u64::MAX, 2u64), None);
    assert_eq!(CheckedMul::checked_mul(0u128, u128::MAX), Some(0u128));
    assert_eq!(CheckedMul::checked_mul(i128::MAX, 2i128), None);
    assert_eq!(CheckedMul::checked_mul(3usize, 5usize), Some(15usize));
    assert_eq!(CheckedMul::checked_mul(-3isize, 5isize), Some(-15isize));
}

#[test]
fn test_from_sign_magnitude() {
    assert_eq!(<i8 as Int>::from_sign_magnitude(false, 127), Some(127i8));
    assert_eq!(<i8 as Int>::from_sign_magnitude(false, 128), None);
    assert_eq!(<i8 as Int>::from_sign_magnitude(true, 128), Some(-128i8));
    assert_eq!(<i8 as Int>::from_sign_magnitude(true, 129), None);
    assert_eq!(<i8 as Int>::from_sign_magnitude(true, 0), Some(0i8));
    assert_eq!(<u8 as Int>::from_sign_magnitude(false, 255), Some(255u8));
    assert_eq!(<u8 as Int>::from_sign_magnitude(false, 256), None);
    assert_eq!(<u8 as Int>::from_sign_magnitude(true, 1), None);
    assert_eq!(<u8 as Int>::from_sign_magnitude(true, 0), None);
    assert_eq!(
        <i64 as Int>::from_sign_magnitude(true, 9223372036854775808),
        Some(i64::MIN)
    );
    assert_eq!(
        <i64 as Int>::from_sign_magnitude(false, 9223372036854775808),
        None
    );
    assert_eq!(
        <i128 as Int>::from_sign_magnitude(true, 1u128 << 127),
        Some(i128::MIN)
    );
    assert_eq!(<i128 as Int>::from_sign_magnitude(false, 1u128 << 127), None);
    assert_eq!(
        <i128 as Int>::from_sign_magnitude(true, (1u128 << 127) + 1),
        None
    );
    assert_eq!(
        <u128 as Int>::from_sign_magnitude(false, u128::MAX),
        Some(u128::MAX)
    );
    assert_eq!(<u128 as Int>::from_sign_magnitude(true, 0), None);
    assert_eq!(<usize as Int>::from_sign_magnitude(false, 7), Some(7usize));
    assert_eq!(<isize as Int>::from_sign_magnitude(true, 7), Some(-7isize));
    assert_eq!(<u64 as Int>::from_sign_magnitude(false, 1u128 << 64), None);
    assert_eq!(<u16 as Int>::from_sign_magnitude(false, 65536), None);
    assert_eq!(<i16 as Int>::from_sign_magnitude(true, 32768), Some(i16::MIN));
    assert_eq!(<u32 as Int>::from_sign_magnitude(false, 1u128 << 32), None);
    assert_eq!(<i32 as Int>::from_sign_magnitude(true, 1u128 << 31), Some(i32::MIN));
}
