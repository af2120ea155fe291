use titlereg::codec::{pack_string, unpack_string, TitleRegInstruction};
use titlereg::error::TitleRegError;

#[test]
fn test_pack_unpack_string() {
    let mut data = Vec::new();
    pack_string(&mut data, "test");
    let (unpacked, _) = unpack_string(&data).unwrap();
    assert_eq!(unpacked, "test");
}

#[test]
fn pack_string_exact_bytes() {
    let mut data = Vec::new();
    pack_string(&mut data, "test");
    assert_eq!(data, vec![4u8, 0, 0, 0, b't', b'e', b's', b't']);
}

#[test]
fn round_trip_empty_string() {
    let mut data = Vec::new();
    pack_string(&mut data, "");
    let (unpacked, offset) = unpack_string(&data).unwrap();
    assert_eq!(unpacked, "");
    assert_eq!(offset, 4);
}

#[test]
fn round_trip_multibyte_utf8() {
    let s = "héllo \u{1F30D} \u{0928}\u{092E}";
    let mut data = Vec::new();
    pack_string(&mut data, s);
    data.push(0xAB);
    data.push(0xCD);
    let (unpacked, offset) = unpack_string(&data).unwrap();
    assert_eq!(unpacked, s);
    assert_eq!(offset, 4 + s.len());
}

#[test]
fn unpack_decodes_multibyte_sequence() {
    let data = vec![2u8, 0, 0, 0, 0xC3, 0xA9];
    let (unpacked, offset) = unpack_string(&data).unwrap();
    assert_eq!(unpacked, "\u{00E9}");
    assert_eq!(unpacked.chars().count(), 1);
    assert_eq!(offset, 6);
}

#[test]
fn unpack_fails_on_short_prefix() {
    assert_eq!(unpack_string(&[]), Err(TitleRegError::TruncatedInput));
    assert_eq!(unpack_string(&[1, 2, 3]), Err(TitleRegError::TruncatedInput));
}

#[test]
fn unpack_fails_on_short_payload() {
    let data = vec![5u8, 0, 0, 0, b'a', b'b'];
    assert_eq!(unpack_string(&data), Err(TitleRegError::TruncatedInput));
}

#[test]
fn unpack_fails_on_invalid_utf8() {
    let data = vec![2u8, 0, 0, 0, 0xFF, 0xFE];
    assert_eq!(unpack_string(&data), Err(TitleRegError::InvalidEncoding));
}

#[test]
fn unpack_command_rejects_unknown_tag() {
    let err = TitleRegInstruction::unpack(&[9u8]).err().unwrap();
    assert_eq!(err, TitleRegError::UnknownCommand);
}

#[test]
fn unpack_command_rejects_empty_buffer() {
    let err = TitleRegInstruction::unpack(&[]).err().unwrap();
    assert_eq!(err, TitleRegError::TruncatedInput);
}

#[test]
fn unpack_command_rejects_missing_status_byte() {
    let err = TitleRegInstruction::unpack(&[1u8]).err().unwrap();
    assert_eq!(err, TitleRegError::TruncatedInput);
}

#[test]
fn unpack_status_command() {
    let cmd = TitleRegInstruction::unpack(&[1u8, 7]).unwrap();
    match cmd {
        TitleRegInstruction::UpdateStatus { status } => assert_eq!(status, 7),
        _ => panic!("wrong command"),
    }
}

#[test]
fn unpack_documents_cid_command() {
    let mut data = vec![2u8];
    pack_string(&mut data, "QmDocs");
    let cmd = TitleRegInstruction::unpack(&data).unwrap();
    match cmd {
        TitleRegInstruction::UpdateDocumentsCid { cid } => assert_eq!(cid, "QmDocs"),
        _ => panic!("wrong command"),
    }
}

#[test]
fn unpack_photos_cid_command() {
    let mut data = vec![3u8];
    pack_string(&mut data, "QmPhotos");
    let cmd = TitleRegInstruction::unpack(&data).unwrap();
    match cmd {
        TitleRegInstruction::UpdatePhotosCid { cid } => assert_eq!(cid, "QmPhotos"),
        _ => panic!("wrong command"),
    }
}

#[test]
fn unpack_create_command_truncated_fields() {
    let mut data = vec![0u8];
    pack_string(&mut data, "REG-001");
    let err = TitleRegInstruction::unpack(&data).err().unwrap();
    assert_eq!(err, TitleRegError::TruncatedInput);
}
