use tor_cell::cell::Cell;
use tor_cell::cell::CellBody;
use tor_cell::cell::CellCommand;
use tor_cell::cell::CellError;
use tor_cell::cell::CircidId;
use tor_cell::cell::CELL_BODY_LEN;

#[test]
fn test_curcid_len_default() {
    let circ_id = CircidId::default();
    assert_eq!(circ_id, CircidId::MODERN(0));
}

#[test]
fn test_cell_body_default() {
    let body = CellBody::default();
    assert_eq!(body, CellBody::Fixed(vec![0; CELL_BODY_LEN]));
}

#[test]
fn test_cell_command_tor_serializer_1() {
    let command = CellCommand::CREATE;
    let bytes = command.to_bytes().unwrap();
    let new_command = CellCommand::from_bytes(&bytes, 0).unwrap();
    assert_eq!(command, new_command);
}

#[test]
fn test_cell_command_tor_serializer_2() {
    let command = CellCommand::VERSIONS;
    let bytes = command.to_bytes().unwrap();
    let new_command = CellCommand::from_bytes(&bytes, 0).unwrap();
    assert_eq!(command, new_command);
}

#[test]
fn test_cell_new() {
    let circ_id = CircidId::MODERN(1);
    let command = CellCommand::CREATE;
    let body = CellBody::Fixed(vec![1; CELL_BODY_LEN]);
    let cell = Cell::new(circ_id.clone(), command.clone(), body.clone());
    assert_eq!(&cell.circ_id, &circ_id);
    assert_eq!(&cell.command, &command);
    assert_eq!(cell.body, body);
}

#[test]
fn test_cell_tor_serializer_legacy() {
    let circ_id = CircidId::LEGACY(1);
    let command = CellCommand::CREATE;
    let body = CellBody::Fixed(vec![1; CELL_BODY_LEN]);

    let cell = Cell::new(circ_id.clone(), command.clone(), body.clone());
    let bytes = cell.to_bytes().unwrap();
    let new_cell = Cell::from_bytes(&bytes, 1).unwrap();

    assert_eq!(cell, new_cell);
}

#[test]
fn test_cell_tor_serializer_modern_variable() {
    let circ_id = CircidId::MODERN(0x01020304);
    let command = CellCommand::VERSIONS;
    let body = CellBody::Variable(3, vec![0, 4, 0]);

    let cell = Cell::new(circ_id.clone(), command.clone(), body.clone());
    let bytes = cell.to_bytes().unwrap();
    let new_cell = Cell::from_bytes(&bytes, 4).unwrap();

    assert_eq!(cell, new_cell);
}

#[test]
fn test_cell_command_default() {
    assert_eq!(CellCommand::default(), CellCommand::PADDING);
}

#[test]
fn test_cell_default() {
    let cell = Cell::default();
    assert_eq!(cell.circ_id, CircidId::MODERN(0));
    assert_eq!(cell.command, CellCommand::PADDING);
    assert_eq!(cell.body, CellBody::Fixed(vec![0; CELL_BODY_LEN]));
}

#[test]
fn test_invalid_command_bytes() {
    for num in [13u8, 127, 132, 255] {
        assert_eq!(CellCommand::try_from(num), Err(CellError::InvalidCommand));
    }
}

#[test]
fn test_invalid_command_in_cell() {
    // Legacy header 0x0001, then command byte 13, then a full fixed body.
    let mut bytes = vec![0u8, 1, 13];
    bytes.extend(std::iter::repeat(0u8).take(CELL_BODY_LEN));
    assert_eq!(Cell::from_bytes(&bytes, 3), Err(CellError::InvalidCommand));
}

#[test]
fn test_circid_widths() {
    // Version 3 reads a 2-byte identifier, version 4 a 4-byte one.
    let bytes = vec![1u8, 2, 3, 4, 5];
    let (legacy, consumed) = CircidId::from_bytes(&bytes, 3).unwrap();
    assert_eq!(legacy, CircidId::LEGACY(0x0102));
    assert_eq!(consumed, 2);
    let (modern, consumed) = CircidId::from_bytes(&bytes, 4).unwrap();
    assert_eq!(modern, CircidId::MODERN(0x01020304));
    assert_eq!(consumed, 4);
}

#[test]
fn test_circid_encoding_is_big_endian() {
    assert_eq!(CircidId::LEGACY(0x0102).to_bytes(), vec![1u8, 2]);
    assert_eq!(CircidId::MODERN(0x01020304).to_bytes(), vec![1u8, 2, 3, 4]);
}

#[test]
fn test_circid_truncated() {
    let bytes = vec![1u8];
    assert_eq!(CircidId::from_bytes(&bytes, 3), Err(CellError::TruncatedBuffer));
    let bytes = vec![1u8, 2, 3];
    assert_eq!(CircidId::from_bytes(&bytes, 4), Err(CellError::TruncatedBuffer));
}

#[test]
fn test_command_classification() {
    let fixed = [
        CellCommand::PADDING,
        CellCommand::CREATE,
        CellCommand::CREATED,
        CellCommand::RELAY,
        CellCommand::DESTROY,
        CellCommand::CREATE_FAST,
        CellCommand::CREATED_FAST,
        CellCommand::NETINFO,
        CellCommand::RELAY_EARLY,
        CellCommand::CREATE2,
        CellCommand::CREATED2,
        CellCommand::PADDING_NEGOTIATE,
    ];
    for command in fixed {
        assert!(!command.is_variable());
    }
    let variable = [
        CellCommand::VERSIONS,
        CellCommand::VPADDING,
        CellCommand::CERTS,
        CellCommand::AUTH_CHALLENGE,
        CellCommand::AUTHENTICATE,
    ];
    for command in variable {
        assert!(command.is_variable());
    }
}

#[test]
fn test_command_codes_round_trip() {
    // Every valid code decodes, and decoding inverts encoding.
    for num in 0u8..=12 {
        let command = CellCommand::try_from(num).unwrap();
        assert_eq!(command.to_bytes().unwrap(), vec![num]);
    }
    for num in 128u8..=131 {
        let command = CellCommand::try_from(num).unwrap();
        assert_eq!(command.to_bytes().unwrap(), vec![num]);
    }
}

#[test]
fn test_fixed_cell_truncated() {
    // Legacy header, CREATE, then one byte short of a full body.
    let mut bytes = vec![0u8, 1, 1];
    bytes.extend(std::iter::repeat(7u8).take(CELL_BODY_LEN - 1));
    assert_eq!(Cell::from_bytes(&bytes, 3), Err(CellError::TruncatedBuffer));
}

#[test]
fn test_fixed_cell_exact_round_trip() {
    // With exactly CELL_BODY_LEN bytes after the command, a fixed cell
    // round-trips byte for byte.
    let mut bytes = vec![0u8, 9, 3];
    for i in 0..CELL_BODY_LEN {
        bytes.push((i % 251) as u8);
    }
    let cell = Cell::from_bytes(&bytes, 3).unwrap();
    assert_eq!(cell.command, CellCommand::RELAY);
    assert_eq!(cell.to_bytes().unwrap(), bytes);
}

#[test]
fn test_variable_cell_decode() {
    // VERSIONS cell: declared length 2, payload [0, 4].
    let bytes = vec![0u8, 0, 7, 0, 2, 0, 4];
    let cell = Cell::from_bytes(&bytes, 3).unwrap();
    assert_eq!(cell.circ_id, CircidId::LEGACY(0));
    assert_eq!(cell.command, CellCommand::VERSIONS);
    assert_eq!(cell.body, CellBody::Variable(2, vec![0, 4]));
}

#[test]
fn test_variable_cell_truncated() {
    // Declares 5 payload bytes but supplies 3.
    let bytes = vec![0u8, 0, 7, 0, 5, 1, 2, 3];
    assert_eq!(Cell::from_bytes(&bytes, 3), Err(CellError::TruncatedBuffer));
}

#[test]
fn test_cell_missing_command_byte() {
    let bytes = vec![0u8, 0];
    assert_eq!(Cell::from_bytes(&bytes, 3), Err(CellError::TruncatedBuffer));
}

#[test]
fn test_body_decode_takes_exactly_the_body() {
    // The fixed-class decoder consumes the next CELL_BODY_LEN bytes and does
    // not examine trailing bytes; the caller frames the input.
    let mut bytes = vec![5u8; CELL_BODY_LEN];
    bytes.push(77);
    let body = CellBody::from_bytes(&bytes, 1).unwrap();
    assert_eq!(body, CellBody::Fixed(vec![5u8; CELL_BODY_LEN]));
}

#[test]
fn test_body_fixed_truncated() {
    let bytes = vec![5u8; CELL_BODY_LEN - 1];
    assert_eq!(CellBody::from_bytes(&bytes, 1), Err(CellError::TruncatedBuffer));
}

#[test]
fn test_body_encode_keeps_declared_length() {
    // The declared length is emitted as supplied, not recomputed from the
    // payload.
    let body = CellBody::Variable(5, vec![1, 2]);
    assert_eq!(body.to_bytes().unwrap(), vec![0u8, 5, 1, 2]);
}

#[test]
fn test_body_variable_decode() {
    let bytes = vec![0u8, 2, 8, 9, 10];
    let body = CellBody::from_bytes(&bytes, 129).unwrap();
    assert_eq!(body, CellBody::Variable(2, vec![8, 9]));
}
