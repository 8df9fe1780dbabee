use fitreader::data_field::read_next_field;
use fitreader::definition_record::DefinitionRecord;
use fitreader::fit::read_data_record;
use fitreader::io::{Endianness, Reader};
use fitreader::value::Value;

#[test]
fn a_string_field_strips_nulls() {
    let mut bytes = b"Garmin".to_vec();
    bytes.extend(vec![0u8; 10]);
    let mut c = Reader::new(bytes);
    let v = read_next_field(16, 7, Endianness::Little, &mut c).unwrap();
    assert_eq!(v, Some(Value::String("Garmin".to_string())));
    assert_eq!(c.pos(), 16);
}

#[test]
fn an_invalid_utf8_string_field_is_absent() {
    let bytes = vec![0xFF; 16];
    let mut c = Reader::new(bytes);
    let v = read_next_field(16, 7, Endianness::Little, &mut c).unwrap();
    assert_eq!(v, None);
    assert_eq!(c.pos(), 16);
}

#[test]
fn an_all_null_string_field_is_absent() {
    let bytes = vec![0x00; 8];
    let mut c = Reader::new(bytes);
    let v = read_next_field(8, 7, Endianness::Little, &mut c).unwrap();
    assert_eq!(v, None);
}

#[test]
fn a_uint16_sentinel_is_absent() {
    let mut c = Reader::new(vec![0xFF, 0xFF]);
    let v = read_next_field(2, 4, Endianness::Little, &mut c).unwrap();
    assert_eq!(v, None);
    assert_eq!(c.pos(), 2);
}

#[test]
fn a_uint16_value_is_present() {
    let mut c = Reader::new(vec![0x2A, 0x00]);
    let v = read_next_field(2, 4, Endianness::Little, &mut c).unwrap();
    assert_eq!(v, Some(Value::U16(42)));
}

#[test]
fn zero_is_the_sentinel_of_the_z_types() {
    let mut c = Reader::new(vec![0x00]);
    assert_eq!(read_next_field(1, 10, Endianness::Little, &mut c).unwrap(), None);
    let mut c = Reader::new(vec![0x00, 0x00, 0x00, 0x00]);
    assert_eq!(read_next_field(4, 12, Endianness::Little, &mut c).unwrap(), None);
    let mut c = Reader::new(vec![0x07]);
    assert_eq!(
        read_next_field(1, 10, Endianness::Little, &mut c).unwrap(),
        Some(Value::U8(7))
    );
}

#[test]
fn every_single_element_sentinel_is_absent() {
    // (base type, element size, sentinel bytes little-endian)
    let cases: Vec<(u8, Vec<u8>)> = vec![
        (0, vec![0xFF]),
        (1, vec![0x7F]),
        (2, vec![0xFF]),
        (3, vec![0xFF, 0x7F]),
        (4, vec![0xFF, 0xFF]),
        (5, vec![0xFF, 0xFF, 0xFF, 0x7F]),
        (6, vec![0xFF, 0xFF, 0xFF, 0xFF]),
        (8, vec![0xFF, 0xFF, 0xFF, 0xFF]),
        (9, vec![0xFF; 8]),
        (10, vec![0x00]),
        (11, vec![0x00, 0x00]),
        (12, vec![0x00; 4]),
        (13, vec![0xFF]),
        (14, vec![0xFF, 0xFF, 0xFF, 0xFF, 0xFF, 0xFF, 0xFF, 0x7F]),
        (15, vec![0xFF; 8]),
        (16, vec![0x00; 8]),
    ];
    for (bt, bytes) in cases {
        let n = bytes.len() as u8;
        let mut c = Reader::new(bytes);
        assert_eq!(read_next_field(n, bt, Endianness::Little, &mut c).unwrap(), None);
        assert_eq!(c.pos() as u8, n);
    }
}

#[test]
fn signed_values_reinterpret_the_raw_pattern() {
    let mut c = Reader::new(vec![0xFE]);
    assert_eq!(
        read_next_field(1, 1, Endianness::Little, &mut c).unwrap(),
        Some(Value::I8(-2))
    );
    let mut c = Reader::new(vec![0xFE, 0xFF, 0xFF, 0xFF]);
    assert_eq!(
        read_next_field(4, 5, Endianness::Little, &mut c).unwrap(),
        Some(Value::I32(-2))
    );
}

#[test]
fn endianness_decides_multi_byte_values() {
    let mut c = Reader::new(vec![0x12, 0x34]);
    assert_eq!(
        read_next_field(2, 4, Endianness::Little, &mut c).unwrap(),
        Some(Value::U16(0x3412))
    );
    // the same payload re-encoded byte-reversed, read big-endian
    let mut c = Reader::new(vec![0x34, 0x12]);
    assert_eq!(
        read_next_field(2, 4, Endianness::Big, &mut c).unwrap(),
        Some(Value::U16(0x3412))
    );
}

#[test]
fn uint16_arrays_keep_valid_elements() {
    let mut c = Reader::new(vec![0x01, 0x00, 0xFF, 0xFF, 0x03, 0x00]);
    assert_eq!(
        read_next_field(6, 4, Endianness::Little, &mut c).unwrap(),
        Some(Value::ArrU16(vec![1, 3]))
    );
    assert_eq!(c.pos(), 6);
}

#[test]
fn an_all_sentinel_array_is_absent() {
    let mut c = Reader::new(vec![0xFF; 6]);
    assert_eq!(read_next_field(6, 4, Endianness::Little, &mut c).unwrap(), None);
    assert_eq!(c.pos(), 6);
}

#[test]
fn byte_arrays_behave_like_uint8_arrays() {
    let mut c = Reader::new(vec![0x01, 0xFF, 0x03]);
    assert_eq!(
        read_next_field(3, 13, Endianness::Little, &mut c).unwrap(),
        Some(Value::ArrU8(vec![1, 3]))
    );
}

#[test]
fn unsupported_array_shapes_consume_their_span() {
    // a two-element sint32 span is absent but fully consumed
    let mut c = Reader::new(vec![1, 0, 0, 0, 2, 0, 0, 0, 0x2A]);
    assert_eq!(read_next_field(8, 5, Endianness::Little, &mut c).unwrap(), None);
    assert_eq!(c.pos(), 8);
    assert_eq!(
        read_next_field(1, 2, Endianness::Little, &mut c).unwrap(),
        Some(Value::U8(0x2A))
    );
}

#[test]
fn unknown_base_types_consume_their_span() {
    let mut c = Reader::new(vec![9, 9, 9]);
    assert_eq!(read_next_field(3, 17, Endianness::Little, &mut c).unwrap(), None);
    assert_eq!(c.pos(), 3);
}

#[test]
fn a_float_sentinel_is_the_bit_pattern() {
    // 0xFFFFFFFF is absent; a real NaN pattern is kept as bits
    let mut c = Reader::new(vec![0x00, 0x00, 0xC0, 0x7F]);
    assert_eq!(
        read_next_field(4, 8, Endianness::Little, &mut c).unwrap(),
        Some(Value::F32(0x7FC0_0000))
    );
}

#[test]
fn data_record_it_reads_a_data_record() {
    // the schema of a FileId message followed by its payload
    let def_bytes = vec![
        0, 0, 0, 0, 7, 3, 4, 140, 4, 4, 134, 7, 4, 134, 1, 2, 132, 2, 2, 132, 5, 2, 132, 0, 1, 0,
    ];
    let definition = DefinitionRecord::new(&mut Reader::new(def_bytes), false).unwrap();
    let data = vec![
        71, 146, 153, 232, // field 3: 3902378567
        4, 198, 166, 50, // field 4: 849790468
        0xFF, 0xFF, 0xFF, 0xFF, // field 7: absent
        1, 0, // field 1
        2, 0, // field 2
        5, 0, // field 5
        4, // field 0
    ];
    let mut reader = Reader::new(data);
    let (fields, devs) = read_data_record(&definition, &mut reader, &Vec::new()).unwrap();
    assert_eq!(fields[0].value, Value::U32(3902378567));
    assert_eq!(fields[1].value, Value::U32(849790468));
    // field 7 was all-sentinel, so field number 1 follows the two u32s
    let f1 = fields.iter().find(|f| f.field_num == 1).unwrap();
    assert_eq!(f1.value, Value::U16(1));
    assert!(devs.is_none());
    assert_eq!(reader.pos(), 19);
}

#[test]
fn the_largest_field_size_is_consumed_whole() {
    let mut bytes = b"edge".to_vec();
    bytes.extend(vec![0u8; 251]);
    let mut c = Reader::new(bytes);
    let v = read_next_field(255, 7, Endianness::Little, &mut c).unwrap();
    assert_eq!(v, Some(Value::String("edge".to_string())));
    assert_eq!(c.pos(), 255);
}
