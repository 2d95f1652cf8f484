use winchain::guid::Guid;
use winchain::guid::GuidParseError;

#[test]
fn known_vector_layout() {
    let g = Guid::parse(b"01020304-0506-0708-090a-0b0c0d0e0f10").unwrap();
    assert_eq!(
        g.bytes,
        vec![
            0x04, 0x03, 0x02, 0x01, 0x06, 0x05, 0x08, 0x07, 0x09, 0x0a, 0x0b, 0x0c, 0x0d, 0x0e,
            0x0f, 0x10
        ]
    );
}

#[test]
fn round_trip_lowercase() {
    let literal = b"a1b2c3d4-e5f6-0718-293a-4b5c6d7e8f90";
    let g = Guid::parse(literal).unwrap();
    assert_eq!(g.encode(), literal.to_vec());
}

#[test]
fn round_trip_known_vector() {
    let literal = b"01020304-0506-0708-090a-0b0c0d0e0f10";
    let g = Guid::parse(literal).unwrap();
    assert_eq!(g.encode(), literal.to_vec());
}

#[test]
fn encode_then_parse_restores_bytes() {
    let g = Guid {
        bytes: vec![
            0xde, 0xad, 0xbe, 0xef, 0x00, 0x11, 0x22, 0x33, 0x44, 0x55, 0x66, 0x77, 0x88, 0x99,
            0xaa, 0xbb,
        ],
    };
    let literal = g.encode();
    let reparsed = Guid::parse(&literal).unwrap();
    assert_eq!(reparsed.bytes, g.bytes);
}

#[test]
fn uppercase_decodes_like_lowercase() {
    let upper = Guid::parse(b"01020304-0506-0708-090A-0B0C0D0E0F10").unwrap();
    let lower = Guid::parse(b"01020304-0506-0708-090a-0b0c0d0e0f10").unwrap();
    assert_eq!(upper.bytes, lower.bytes);
}

#[test]
fn wrong_length_rejected() {
    assert_eq!(Guid::parse(b""), Err(GuidParseError::BadLength));
    assert_eq!(
        Guid::parse(b"01020304-0506-0708-090a-0b0c0d0e0f1"),
        Err(GuidParseError::BadLength)
    );
    assert_eq!(
        Guid::parse(b"01020304-0506-0708-090a-0b0c0d0e0f100"),
        Err(GuidParseError::BadLength)
    );
}

#[test]
fn wrong_separator_rejected() {
    assert_eq!(
        Guid::parse(b"01020304x0506-0708-090a-0b0c0d0e0f10"),
        Err(GuidParseError::BadSeparator)
    );
    assert_eq!(
        Guid::parse(b"01020304-0506-0708-090a_0b0c0d0e0f10"),
        Err(GuidParseError::BadSeparator)
    );
}

#[test]
fn non_hex_digit_rejected() {
    assert_eq!(
        Guid::parse(b"0102030g-0506-0708-090a-0b0c0d0e0f10"),
        Err(GuidParseError::BadDigit)
    );
    // A hyphen in a digit position is a digit failure, not a separator one.
    assert_eq!(
        Guid::parse(b"0102030--0506-0708-090a-0b0c0d0e0f10"),
        Err(GuidParseError::BadDigit)
    );
}
