use tap_audio::ArrayParams;
use tap_audio::BlockParams;
use tap_audio::ByteCursor;
use tap_audio::DecodePolicy;
use tap_audio::FlagEnum;
use tap_audio::Header;
use tap_audio::HeaderTypeEnum;
use tap_audio::TapeError;

fn program_header_block() -> Vec<u8> {
    vec![
        0x13, 0x00, // declared length 19
        0x00, // flag: Header
        0x00, // kind: Program
        b'T', b'E', b'S', b'T', 0, 0, 0, 0, 0, 0, // filename, 10 bytes
        0x05, 0x00, // data length 5
        0x0A, 0x00, // autostart line 10, little-endian
        0x00, 0x00, // program length 0
        0xAA, // checksum
    ]
}

#[test]
fn flag_from_u8_maps_reserved_values() {
    assert_eq!(FlagEnum::from_u8(0x00), Some(FlagEnum::Header));
    assert_eq!(FlagEnum::from_u8(0xFF), Some(FlagEnum::Data));
    assert_eq!(FlagEnum::from_u8(0x01), None);
    assert_eq!(FlagEnum::from_u8(0xFE), None);
}

#[test]
fn header_type_from_u8_maps_four_kinds() {
    assert!(matches!(HeaderTypeEnum::from_u8(0x00), Some(HeaderTypeEnum::Program)));
    assert!(matches!(HeaderTypeEnum::from_u8(0x01), Some(HeaderTypeEnum::NumArray)));
    assert!(matches!(HeaderTypeEnum::from_u8(0x02), Some(HeaderTypeEnum::CharArray)));
    assert!(matches!(HeaderTypeEnum::from_u8(0x03), Some(HeaderTypeEnum::Bytes)));
    assert!(HeaderTypeEnum::from_u8(0x04).is_none());
    assert!(HeaderTypeEnum::from_u8(0xFF).is_none());
}

#[test]
fn program_header_scenario() {
    let bytes = program_header_block();
    let mut cursor = ByteCursor::new(bytes);
    let len = cursor.read_u16_le().unwrap();
    assert_eq!(len, 0x13);
    let flag = FlagEnum::from_u8(cursor.read_u8().unwrap()).unwrap();
    assert_eq!(flag, FlagEnum::Header);
    let header = Header::from_bytes(&mut cursor, DecodePolicy::Lenient).unwrap();
    assert_eq!(header.header_type, HeaderTypeEnum::Program);
    assert_eq!(header.filename, vec![b'T', b'E', b'S', b'T', 0, 0, 0, 0, 0, 0]);
    assert_eq!(header.len_data, 5);
    match header.params {
        BlockParams::Program(p) => {
            assert_eq!(p.autostart_line, 10);
            assert_eq!(p.len_program, 0);
        }
        other => panic!("expected program params, got {:?}", other),
    }
    assert_eq!(header.checksum, 0xAA);
}

#[test]
fn program_header_round_trip() {
    let bytes = program_header_block();
    let payload = bytes[3..21].to_vec();
    let mut cursor = ByteCursor::new(payload.clone());
    let header = Header::from_bytes(&mut cursor, DecodePolicy::Lenient).unwrap();
    assert_eq!(header.to_bytes(), payload);
}

#[test]
fn array_header_round_trip() {
    // kind NumArray, arbitrary filename, data length 20, params with the
    // conventional reserved pair, checksum 0x33
    let payload = vec![
        0x01, b'A', b'R', b'R', b' ', b' ', b' ', b' ', b' ', b' ', b' ', 0x14, 0x00, 0x07,
        0x41, 0x00, 0x80, 0x33,
    ];
    let mut cursor = ByteCursor::new(payload.clone());
    let header = Header::from_bytes(&mut cursor, DecodePolicy::Strict).unwrap();
    assert_eq!(header.header_type, HeaderTypeEnum::NumArray);
    match header.params {
        BlockParams::Array(a) => {
            assert_eq!(a.reserved, 0x07);
            assert_eq!(a.var_name, 0x41);
            assert_eq!(a.reserved1, (0x00, 0x80));
        }
        other => panic!("expected array params, got {:?}", other),
    }
    assert_eq!(header.to_bytes(), payload);
}

#[test]
fn bytes_header_round_trip() {
    // kind Bytes, start address 0x8000, reserved pair carried verbatim
    let payload = vec![
        0x03, b'S', b'C', b'R', b'E', b'E', b'N', b' ', b' ', b' ', b' ', 0x00, 0x1B, 0x00,
        0x80, 0x12, 0x34, 0x5C,
    ];
    let mut cursor = ByteCursor::new(payload.clone());
    let header = Header::from_bytes(&mut cursor, DecodePolicy::Lenient).unwrap();
    assert_eq!(header.header_type, HeaderTypeEnum::Bytes);
    match header.params {
        BlockParams::Bytes(b) => {
            assert_eq!(b.start_address, 0x8000);
            assert_eq!(b.reserved, (0x12, 0x34));
        }
        other => panic!("expected bytes params, got {:?}", other),
    }
    assert_eq!(header.to_bytes(), payload);
}

#[test]
fn unmapped_kind_byte_is_invalid_header_kind() {
    let mut payload = program_header_block()[3..21].to_vec();
    payload[0] = 0x07;
    let mut cursor = ByteCursor::new(payload);
    let err = Header::from_bytes(&mut cursor, DecodePolicy::Lenient).unwrap_err();
    assert_eq!(err, TapeError::InvalidHeaderKind);
}

#[test]
fn truncated_header_is_unexpected_end_of_input() {
    let payload = program_header_block()[3..10].to_vec();
    let mut cursor = ByteCursor::new(payload);
    let err = Header::from_bytes(&mut cursor, DecodePolicy::Lenient).unwrap_err();
    assert_eq!(err, TapeError::UnexpectedEndOfInput);
}

#[test]
fn array_header_policy_controls_reserved_pair() {
    // array header whose trailing reserved pair is not (0x00, 0x80)
    let payload = vec![
        0x02, b'C', b'H', b'A', b'R', b'S', b' ', b' ', b' ', b' ', b' ', 0x08, 0x00, 0x01,
        0x42, 0x05, 0x06, 0x99,
    ];
    let mut strict_cursor = ByteCursor::new(payload.clone());
    let err = Header::from_bytes(&mut strict_cursor, DecodePolicy::Strict).unwrap_err();
    assert_eq!(err, TapeError::MalformedArrayHeader);

    let mut lenient_cursor = ByteCursor::new(payload);
    let header = Header::from_bytes(&mut lenient_cursor, DecodePolicy::Lenient).unwrap();
    match header.params {
        BlockParams::Array(a) => assert_eq!(a.reserved1, (0x05, 0x06)),
        other => panic!("expected array params, got {:?}", other),
    }
}

#[test]
fn array_params_read_in_wire_order() {
    let mut cursor = ByteCursor::new(vec![0x09, 0x58, 0x00, 0x80]);
    let params = ArrayParams::new(&mut cursor, DecodePolicy::Strict).unwrap();
    assert_eq!(params.reserved, 0x09);
    assert_eq!(params.var_name, 0x58);
    assert_eq!(params.reserved1, (0x00, 0x80));
    assert_eq!(cursor.offset(), 4);
}

#[test]
fn cursor_reads_and_fails_exactly() {
    let mut cursor = ByteCursor::new(vec![0x34, 0x12, 0xAB, 0xCD, 0xEF]);
    assert_eq!(cursor.read_u16_le().unwrap(), 0x1234);
    assert_eq!(cursor.read_u8().unwrap(), 0xAB);
    assert_eq!(cursor.offset(), 3);
    let rest = cursor.read_exact(2).unwrap();
    assert_eq!(rest, vec![0xCD, 0xEF]);
    assert_eq!(cursor.read_u8().unwrap_err(), TapeError::UnexpectedEndOfInput);
    assert_eq!(cursor.read_u16_le().unwrap_err(), TapeError::UnexpectedEndOfInput);
    assert_eq!(cursor.read_exact(1).unwrap_err(), TapeError::UnexpectedEndOfInput);
    assert_eq!(cursor.offset(), 5);
}

#[test]
fn cursor_short_reads_do_not_consume() {
    let mut cursor = ByteCursor::new(vec![0x01]);
    assert_eq!(cursor.read_u16_le().unwrap_err(), TapeError::UnexpectedEndOfInput);
    assert_eq!(cursor.offset(), 0);
    assert_eq!(cursor.read_exact(2).unwrap_err(), TapeError::UnexpectedEndOfInput);
    assert_eq!(cursor.offset(), 0);
    assert_eq!(cursor.skip(2).unwrap_err(), TapeError::UnexpectedEndOfInput);
    assert_eq!(cursor.offset(), 0);
    assert_eq!(cursor.read_u8().unwrap(), 0x01);
    assert_eq!(cursor.offset(), 1);
}
