use fitreader::error::ErrorKind;
use fitreader::fit::{compressed_timestamp_value, Fit, Step};
use fitreader::sdk::MessageType;
use fitreader::value::Value;

const PSEUDO_EPOCH: u32 = 631_065_600;

/// Wrap record bytes in a 14-byte file header and a trailing checksum.
fn make_file(records: &[u8]) -> Vec<u8> {
    let mut out = vec![14u8, 16, 116, 6];
    out.extend((records.len() as u32).to_le_bytes());
    out.extend(b".FIT");
    out.extend([0u8, 0]);
    out.extend(records);
    out.extend([0u8, 0]);
    out
}

fn file_id_definition() -> Vec<u8> {
    vec![
        0x40, // definition header, local 0
        0, 0, // reserved, little-endian
        0, 0, // global message number 0: FileId
        7, // seven fields
        3, 4, 140, 4, 4, 134, 7, 4, 134, 1, 2, 132, 2, 2, 132, 5, 2, 132, 0, 1, 0,
    ]
}

#[test]
fn file_id_message_little_endian_seven_fields() {
    let mut records = file_id_definition();
    records.push(0x00); // data header, local 0
    records.extend([
        0xC7, 0xCD, 0xA5, 0xE8, // field 3: serial number
        0x44, 0x08, 0xA2, 0x32, // field 4: time created
        0xFF, 0xFF, 0xFF, 0xFF, // field 7: absent
        0x01, 0x00, // field 1
        0x02, 0x00, // field 2: manufacturer code 2
        0x05, 0x00, // field 5
        0x04, // field 0: file type 4
    ]);
    let mut fit = Fit::new(make_file(&records)).unwrap();
    let m = fit.next().unwrap().unwrap();
    assert_eq!(m.kind, MessageType::FileId);
    assert_eq!(m.get_value(3), Some(&Value::U32(0xE8A5CDC7)));
    assert_eq!(
        m.get_value(4),
        Some(&Value::Time(0x32A20844u32.wrapping_add(PSEUDO_EPOCH)))
    );
    assert_eq!(m.get_value(7), None);
    assert_eq!(m.get_value(1), Some(&Value::U16(1)));
    assert_eq!(m.get_value(2), Some(&Value::Enum("garmin_fr405_antfs")));
    assert_eq!(m.get_value(5), Some(&Value::U16(5)));
    assert_eq!(m.get_value(0), Some(&Value::Enum("activity")));
    assert!(fit.next().unwrap().is_none());
}

#[test]
fn a_sentinel_field_still_emits_the_rest() {
    let records = vec![
        0x40, 0, 0, 0, 0, 2, // FileId definition with two fields
        1, 2, 132, // field 1: uint16
        5, 2, 132, // field 5: uint16
        0x00, 0xFF, 0xFF, // field 1 absent
        0x05, 0x00, // field 5 = 5
    ];
    let mut fit = Fit::new(make_file(&records)).unwrap();
    let m = fit.next().unwrap().unwrap();
    assert_eq!(m.get_value(1), None);
    assert_eq!(m.get_value(5), Some(&Value::U16(5)));
}

#[test]
fn definitions_replace_their_slot() {
    let records = vec![
        0x40, 0, 0, 0, 0, 1, 1, 2, 132, // local 0: FileId, one uint16 field
        0x00, 0x2A, 0x00, // FileId data
        0x40, 0, 0, 20, 0, 1, 3, 1, 2, // local 0 redefined: Record, heart rate
        0x00, 0x64, // Record data under the new schema
    ];
    let mut fit = Fit::new(make_file(&records)).unwrap();
    let m1 = fit.next().unwrap().unwrap();
    assert_eq!(m1.kind, MessageType::FileId);
    let m2 = fit.next().unwrap().unwrap();
    assert_eq!(m2.kind, MessageType::Record);
    assert_eq!(m2.get_value(3), Some(&Value::U8(100)));
    assert!(fit.next().unwrap().is_none());
}

#[test]
fn unknown_message_types_consume_their_exact_size() {
    let mut records = vec![
        0x41, 0, 0, 0xFF, 0xFF, 2, // local 1: unknown global number 65535
        0, 2, 132, 1, 4, 134, // two fields, six bytes of payload
        0x01, 1, 0, 2, 0, 0, 0, // its data record: skipped but consumed
    ];
    records.extend([
        0x40, 0, 0, 0, 0, 1, 1, 2, 132, // local 0: FileId with one uint16
        0x00, 0x2A, 0x00,
    ]);
    let mut fit = Fit::new(make_file(&records)).unwrap();
    let m = fit.next().unwrap().unwrap();
    assert_eq!(m.kind, MessageType::FileId);
    assert_eq!(m.get_value(1), Some(&Value::U16(42)));
}

#[test]
fn developer_field_round_trip() {
    let mut records = vec![
        // definition for FieldDescription at local 2
        0x42, 0, 0, 206, 0, 4, //
        0, 1, 2, // developer data index: uint8
        1, 1, 2, // field definition number: uint8
        2, 1, 2, // fit base type id: uint8
        3, 6, 7, // field name: 6-byte string
        // FieldDescription data: index 0, number 5, base type 2, "Power"
        0x02, 0, 5, 2, b'P', b'o', b'w', b'e', b'r', 0,
    ];
    // Record definition at local 3 with one standard and one developer field
    records.extend([
        0x63, 0, 0, 20, 0, 1, 3, 1, 2, // heart rate
        1, // one developer field definition
        5, 1, 0, // field number 5, one byte, developer data index 0
    ]);
    records.extend([0x03, 0x48, 0x64]); // data: heart rate 0x48, dev byte 0x64
    let mut fit = Fit::new(make_file(&records)).unwrap();
    let m = fit.next().unwrap().unwrap();
    // the FieldDescription message itself is not user-visible
    assert_eq!(m.kind, MessageType::Record);
    let devs = m.dev_values.as_ref().unwrap();
    assert_eq!(devs.len(), 1);
    assert_eq!(devs[0].data_index, 0);
    assert_eq!(devs[0].field_num, 5);
    assert_eq!(devs[0].value, Value::U8(100));
    assert!(fit.next().unwrap().is_none());
}

#[test]
fn developer_fields_without_a_description_are_dropped() {
    let records = vec![
        0x63, 0, 0, 20, 0, 1, 3, 1, 2, // Record at local 3, heart rate
        1, 5, 1, 0, // one developer field, never described
        0x03, 0x48, 0x64, // data: the dev byte is consumed and dropped
    ];
    let mut fit = Fit::new(make_file(&records)).unwrap();
    let m = fit.next().unwrap().unwrap();
    assert_eq!(m.kind, MessageType::Record);
    assert_eq!(m.get_value(3), Some(&Value::U8(0x48)));
    assert_eq!(m.dev_values.as_ref().unwrap().len(), 0);
    assert!(fit.next().unwrap().is_none());
}

#[test]
fn compressed_timestamp_reconstitution() {
    let mut records = vec![
        // local 0: Record with the absolute timestamp field
        0x40, 0, 0, 20, 0, 1, 253, 4, 134, //
        0x00, 0x20, 0x00, 0x00, 0x3A, // timestamp 0x3A000020
        // local 1: Record with one heart-rate byte
        0x41, 0, 0, 20, 0, 1, 3, 1, 2,
    ];
    records.extend([0xA3, 0x64]); // compressed header: local 1, offset 3
    let mut fit = Fit::new(make_file(&records)).unwrap();
    let m1 = fit.next().unwrap().unwrap();
    assert_eq!(
        m1.get_value(253),
        Some(&Value::Time(0x3A000020u32.wrapping_add(PSEUDO_EPOCH)))
    );
    let m2 = fit.next().unwrap().unwrap();
    assert_eq!(m2.get_value(3), Some(&Value::U8(100)));
    let expected = ((0x3A000020u32 & 0xFFFF_FFE0) | 3).wrapping_add(PSEUDO_EPOCH);
    assert_eq!(m2.get_value(253), Some(&Value::Time(expected)));
}

#[test]
fn compressed_offsets_roll_over_when_stepping_back() {
    // offset below the last timestamp's low bits rolls forward 32 seconds
    assert_eq!(compressed_timestamp_value(0x3A000010, 3), 0x3A000003 + 32);
    // otherwise the offset simply replaces the low bits
    assert_eq!(compressed_timestamp_value(0x3A000010, 0x11), 0x3A000011);
    assert_eq!(compressed_timestamp_value(0x3A000020, 3), 0x3A000023);
}

#[test]
fn a_data_record_without_a_definition_is_fatal() {
    let records = vec![0x05, 0x01];
    let mut fit = Fit::new(make_file(&records)).unwrap();
    assert_eq!(fit.next(), Err(ErrorKind::MissingDefinition(5)));
}

#[test]
fn an_invalid_endianness_byte_in_a_stream_is_fatal() {
    let records = vec![0x40, 0, 9, 0, 0, 0];
    let mut fit = Fit::new(make_file(&records)).unwrap();
    assert_eq!(fit.next(), Err(ErrorKind::InvalidEndianness));
}

#[test]
fn a_truncated_stream_is_fatal() {
    let mut bytes = make_file(&file_id_definition());
    // claim more record bytes than the file carries
    bytes[4] = 200;
    let mut fit = Fit::new(bytes).unwrap();
    assert_eq!(fit.next(), Err(ErrorKind::UnexpectedEof));
}

#[test]
fn a_bad_signature_fails_construction() {
    let mut bytes = make_file(&[]);
    bytes[8] = b'!';
    match Fit::new(bytes) {
        Err(e) => assert_eq!(e, ErrorKind::InvalidSignature),
        Ok(_) => panic!("a bad signature must not parse"),
    }
}

#[test]
fn fit_file_it_reads_whole_file() {
    let mut records = file_id_definition();
    records.push(0x00);
    records.extend([
        0xC7, 0xCD, 0xA5, 0xE8, 0x44, 0x08, 0xA2, 0x32, 0xFF, 0xFF, 0xFF, 0xFF, 0x01, 0x00, 0x02,
        0x00, 0x05, 0x00, 0x04,
    ]);
    let mut fit = Fit::new(make_file(&records)).unwrap();
    let mut count = 0;
    while let Some(_m) = fit.next().unwrap() {
        count += 1;
    }
    assert_eq!(count, 1);
}

#[test]
fn fit_it_reads_whole_file() {
    let mut records = vec![0x40, 0, 0, 20, 0, 1, 3, 1, 2];
    for hr in [0x40u8, 0x41, 0x42] {
        records.extend([0x00, hr]);
    }
    let mut fit = Fit::new(make_file(&records)).unwrap();
    let mut kinds = Vec::new();
    while let Some(m) = fit.next().unwrap() {
        kinds.push(m.kind);
    }
    assert_eq!(kinds, vec![MessageType::Record; 3]);
}

#[test]
fn single_steps_classify_each_record() {
    let records = vec![
        0x40, 0, 0, 0, 0, 1, 1, 2, 132, // FileId definition
        0x00, 0xFF, 0xFF, // a record whose only field is absent
        0x00, 0x2A, 0x00, // a record that becomes a message
    ];
    let mut fit = Fit::new(make_file(&records)).unwrap();
    assert_eq!(fit.step().unwrap(), Step::Definition);
    assert_eq!(fit.step().unwrap(), Step::Skipped);
    match fit.step().unwrap() {
        Step::Message(m) => assert_eq!(m.get_value(1), Some(&Value::U16(42))),
        other => panic!("expected a message, got {:?}", other),
    }
    assert_eq!(fit.step().unwrap(), Step::End);
}

#[test]
fn endianness_swap_yields_identical_messages() {
    // the same FileId payload declared little-endian and big-endian
    let little = vec![
        0x40, 0, 0, 0, 0, 2, 1, 2, 132, 5, 2, 132, // definition
        0x00, 0x2A, 0x00, 0x07, 0x01, // 42 and 263, least byte first
    ];
    let big = vec![
        0x40, 0, 1, 0, 0, 2, 1, 2, 132, 5, 2, 132, // definition
        0x00, 0x00, 0x2A, 0x01, 0x07, // the same values, most byte first
    ];
    let mut f1 = Fit::new(make_file(&little)).unwrap();
    let mut f2 = Fit::new(make_file(&big)).unwrap();
    let m1 = f1.next().unwrap().unwrap();
    let m2 = f2.next().unwrap().unwrap();
    assert_eq!(m1.values, m2.values);
    assert_eq!(m1.get_value(5), Some(&Value::U16(263)));
}

#[test]
fn an_empty_data_section_yields_no_messages() {
    let mut fit = Fit::new(make_file(&[])).unwrap();
    assert!(fit.next().unwrap().is_none());
    assert!(fit.next().unwrap().is_none());
}

#[test]
fn the_first_matching_description_wins() {
    // two FieldDescription records for the same (index, number) pair
    let mut records = vec![
        0x42, 0, 0, 206, 0, 4, 0, 1, 2, 1, 1, 2, 2, 1, 2, 3, 2, 7, //
        0x02, 0, 5, 2, b'a', 0, // described as uint8 first
        0x02, 0, 5, 4, b'b', 0, // described again as uint16
    ];
    records.extend([
        0x63, 0, 0, 20, 0, 1, 3, 1, 2, 1, 5, 1, 0, // Record, one-byte dev field
        0x03, 0x48, 0x64, // heart rate, then the dev span
    ]);
    let mut fit = Fit::new(make_file(&records)).unwrap();
    let m = fit.next().unwrap().unwrap();
    let devs = m.dev_values.as_ref().unwrap();
    // the first registration's uint8 shape decodes the single byte;
    // under the later uint16 shape the span would be absent
    assert_eq!(devs[0].value, Value::U8(100));
}

#[test]
fn fatal_errors_leave_the_cursor_at_the_failing_record() {
    // a definition, then a data header with no definition behind it
    let records = vec![
        0x40, 0, 0, 0, 0, 1, 1, 2, 132, // local 0 defined
        0x05, 0x01, // local 5 was never defined
    ];
    let mut fit = Fit::new(make_file(&records)).unwrap();
    assert_eq!(fit.next(), Err(ErrorKind::MissingDefinition(5)));
    // the cursor stands on the failing record's header byte
    assert_eq!(fit.buf.pos, 14 + 9);
    // and the truncated-stream error behaves the same way
    let records = vec![0x40, 0, 0, 0, 0, 7, 1, 2, 132];
    let mut bytes = make_file(&records);
    bytes[4] = 100;
    let mut fit = Fit::new(bytes).unwrap();
    assert_eq!(fit.next(), Err(ErrorKind::UnexpectedEof));
    assert_eq!(fit.buf.pos, 14);
}
