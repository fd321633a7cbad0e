use humanize_rs::bytes::{Bytes, Unit};
use humanize_rs::ParseError;

#[test]
fn test_parsing_strings() {
    let cases: Vec<(&str, Result<Bytes, ParseError>)> = vec![
        ("0", Bytes::new(0, Unit::Byte)),
        ("1", Bytes::new(1, Unit::Byte)),
        ("1b", Bytes::new(1, Unit::Byte)),
        ("1B", Bytes::new(1, Unit::Byte)),
        ("1 b", Bytes::new(1, Unit::Byte)),
        ("1 B", Bytes::new(1, Unit::Byte)),
        (
            "1 ki",
            Bytes::new(Unit::KiByte.size::<usize>().unwrap(), Unit::Byte),
        ),
        (
            "1 Ki",
            Bytes::new(Unit::KiByte.size::<usize>().unwrap(), Unit::Byte),
        ),
        (
            "1 kib",
            Bytes::new(Unit::KiByte.size::<usize>().unwrap(), Unit::Byte),
        ),
        (
            "1 KiB",
            Bytes::new(Unit::KiByte.size::<usize>().unwrap(), Unit::Byte),
        ),
        (
            "1 mi",
            Bytes::new(Unit::MiByte.size::<usize>().unwrap(), Unit::Byte),
        ),
        (
            "1 Mi",
            Bytes::new(Unit::MiByte.size::<usize>().unwrap(), Unit::Byte),
        ),
        (
            "1 mib",
            Bytes::new(Unit::MiByte.size::<usize>().unwrap(), Unit::Byte),
        ),
        (
            "1 MiB",
            Bytes::new(Unit::MiByte.size::<usize>().unwrap(), Unit::Byte),
        ),
        (
            "1 gi",
            Bytes::new(Unit::GiByte.size::<usize>().unwrap(), Unit::Byte),
        ),
        (
            "1 Gi",
            Bytes::new(Unit::GiByte.size::<usize>().unwrap(), Unit::Byte),
        ),
        (
            "1 gib",
            Bytes::new(Unit::GiByte.size::<usize>().unwrap(), Unit::Byte),
        ),
        (
            "1 GiB",
            Bytes::new(Unit::GiByte.size::<usize>().unwrap(), Unit::Byte),
        ),
        (
            "1 ti",
            Bytes::new(Unit::TiByte.size::<usize>().unwrap(), Unit::Byte),
        ),
        (
            "1 Ti",
            Bytes::new(Unit::TiByte.size::<usize>().unwrap(), Unit::Byte),
        ),
        (
            "1 tib",
            Bytes::new(Unit::TiByte.size::<usize>().unwrap(), Unit::Byte),
        ),
        (
            "1 TiB",
            Bytes::new(Unit::TiByte.size::<usize>().unwrap(), Unit::Byte),
        ),
        (
            "1 pi",
            Bytes::new(Unit::PiByte.size::<usize>().unwrap(), Unit::Byte),
        ),
        (
            "1 Pi",
            Bytes::new(Unit::PiByte.size::<usize>().unwrap(), Unit::Byte),
        ),
        (
            "1 pib",
            Bytes::new(Unit::PiByte.size::<usize>().unwrap(), Unit::Byte),
        ),
        (
            "1 PiB",
            Bytes::new(Unit::PiByte.size::<usize>().unwrap(), Unit::Byte),
        ),
        (
            "1 ei",
            Bytes::new(Unit::EiByte.size::<usize>().unwrap(), Unit::Byte),
        ),
        (
            "1 Ei",
            Bytes::new(Unit::EiByte.size::<usize>().unwrap(), Unit::Byte),
        ),
        (
            "1 eib",
            Bytes::new(Unit::EiByte.size::<usize>().unwrap(), Unit::Byte),
        ),
        (
            "1 EiB",
            Bytes::new(Unit::EiByte.size::<usize>().unwrap(), Unit::Byte),
        ),
        (
            "1 k",
            Bytes::new(Unit::KByte.size::<usize>().unwrap(), Unit::Byte),
        ),
        (
            "1 K",
            Bytes::new(Unit::KByte.size::<usize>().unwrap(), Unit::Byte),
        ),
        (
            "1 kb",
            Bytes::new(Unit::KByte.size::<usize>().unwrap(), Unit::Byte),
        ),
        (
            "1 KB",
            Bytes::new(Unit::KByte.size::<usize>().unwrap(), Unit::Byte),
        ),
        (
            "1 m",
            Bytes::new(Unit::MByte.size::<usize>().unwrap(), Unit::Byte),
        ),
        (
            "1 M",
            Bytes::new(Unit::MByte.size::<usize>().unwrap(), Unit::Byte),
        ),
        (
            "1 mb",
            Bytes::new(Unit::MByte.size::<usize>().unwrap(), Unit::Byte),
        ),
        (
            "1 MB",
            Bytes::new(Unit::MByte.size::<usize>().unwrap(), Unit::Byte),
        ),
        (
            "1 g",
            Bytes::new(Unit::GByte.size::<usize>().unwrap(), Unit::Byte),
        ),
        (
            "1 G",
            Bytes::new(Unit::GByte.size::<usize>().unwrap(), Unit::Byte),
        ),
        (
            "1 gb",
            Bytes::new(Unit::GByte.size::<usize>().unwrap(), Unit::Byte),
        ),
        (
            "1 GB",
            Bytes::new(Unit::GByte.size::<usize>().unwrap(), Unit::Byte),
        ),
        (
            "1 t",
            Bytes::new(Unit::TByte.size::<usize>().unwrap(), Unit::Byte),
        ),
        (
            "1 T",
            Bytes::new(Unit::TByte.size::<usize>().unwrap(), Unit::Byte),
        ),
        (
            "1 tb",
            Bytes::new(Unit::TByte.size::<usize>().unwrap(), Unit::Byte),
        ),
        (
            "1 TB",
            Bytes::new(Unit::TByte.size::<usize>().unwrap(), Unit::Byte),
        ),
        (
            "1 p",
            Bytes::new(Unit::PByte.size::<usize>().unwrap(), Unit::Byte),
        ),
        (
            "1 P",
            Bytes::new(Unit::PByte.size::<usize>().unwrap(), Unit::Byte),
        ),
        (
            "1 pb",
            Bytes::new(Unit::PByte.size::<usize>().unwrap(), Unit::Byte),
        ),
        (
            "1 PB",
            Bytes::new(Unit::PByte.size::<usize>().unwrap(), Unit::Byte),
        ),
        (
            "1 e",
            Bytes::new(Unit::EByte.size::<usize>().unwrap(), Unit::Byte),
        ),
        (
            "1 E",
            Bytes::new(Unit::EByte.size::<usize>().unwrap(), Unit::Byte),
        ),
        (
            "1 eb",
            Bytes::new(Unit::EByte.size::<usize>().unwrap(), Unit::Byte),
        ),
        (
            "1 EB",
            Bytes::new(Unit::EByte.size::<usize>().unwrap(), Unit::Byte),
        ),
        ("", Err(ParseError::EmptyInput)),
        ("EB", Err(ParseError::MissingValue)),
        ("0.5 EB", Err(ParseError::InvalidValue)),
        ("-1 EB", Err(ParseError::InvalidValue)),
        ("1 EEEEB", Err(ParseError::InvalidUnit)),
        ("100 EB", Err(ParseError::Overflow)),
    ];

    for c in cases {
        let b = c.0.parse::<Bytes>();
        assert_eq!(b, c.1);
    }
}

#[test]
fn test_int_types() {
    assert_eq!("1 B".parse::<Bytes<i8>>(), Bytes::new(1i8, Unit::Byte));
    assert_eq!("1 B".parse::<Bytes<u8>>(), Bytes::new(1u8, Unit::Byte));
    assert_eq!("1 B".parse::<Bytes<i16>>(), Bytes::new(1i16, Unit::Byte));
    assert_eq!("1 B".parse::<Bytes<u16>>(), Bytes::new(1u16, Unit::Byte));
    assert_eq!("1 B".parse::<Bytes<i32>>(), Bytes::new(1i32, Unit::Byte));
    assert_eq!("1 B".parse::<Bytes<u32>>(), Bytes::new(1u32, Unit::Byte));
    assert_eq!("1 B".parse::<Bytes<i64>>(), Bytes::new(1i64, Unit::Byte));
    assert_eq!("1 B".parse::<Bytes<u64>>(), Bytes::new(1u64, Unit::Byte));
    assert_eq!("1 B".parse::<Bytes<isize>>(), Bytes::new(1isize, Unit::Byte));
    assert_eq!("1 B".parse::<Bytes<usize>>(), Bytes::new(1usize, Unit::Byte));
    assert_eq!("1 B".parse::<Bytes<i128>>(), Bytes::new(1i128, Unit::Byte));
    assert_eq!("1 B".parse::<Bytes<u128>>(), Bytes::new(1u128, Unit::Byte));
}
