use fitreader::base_type::BaseType;
use fitreader::definition_record::DefinitionRecord;
use fitreader::field_definition::FieldDefinition;
use fitreader::file_header::FileHeader;
use fitreader::header_byte::{HeaderByte, RecordHeaderByte};
use fitreader::io::{Endianness, Reader};

#[test]
fn it_reads_file_header() {
    let a = vec![14, 16, 116, 6, 51, 92, 1, 0, 46, 70, 73, 84, 213, 14];
    let mut c = Reader::new(a);
    let fh = FileHeader::new(&mut c).unwrap();
    assert_eq!(
        fh,
        FileHeader {
            filesize: 14,
            protocol: 16,
            profile_version: 1652,
            num_record_bytes: 89139,
            fileext: true,
            crc: 3797,
        }
    );
}

#[test]
fn it_reads_fileheader() {
    // a 14-byte header whose data section holds 191877 record bytes
    let a = vec![14, 16, 116, 6, 133, 237, 2, 0, 46, 70, 73, 84, 0, 0];
    let mut reader = Reader::new(a);
    let fileheader = FileHeader::new(&mut reader).unwrap();
    assert_eq!(fileheader.num_record_bytes, 191_877);
}

#[test]
fn twelve_byte_header_has_no_checksum() {
    let a = vec![12, 16, 116, 6, 51, 92, 1, 0, 46, 70, 73, 84, 99];
    let mut c = Reader::new(a);
    let fh = FileHeader::new(&mut c).unwrap();
    assert_eq!(fh.filesize, 12);
    assert_eq!(fh.crc, 0);
    assert_eq!(c.pos(), 12);
    assert_eq!(fh.file_length(), 12 + 89139);
}

#[test]
fn a_missing_signature_is_fatal() {
    let a = vec![14, 16, 116, 6, 51, 92, 1, 0, 46, 70, 73, 85, 213, 14];
    let mut c = Reader::new(a);
    assert!(FileHeader::new(&mut c).is_err());
}

#[test]
fn it_reads_header_byte_compressed_header() {
    let a = vec![208];
    let mut c = Reader::new(a);
    let h = HeaderByte::new(&mut c).unwrap();
    assert_eq!(
        h,
        HeaderByte {
            compressed_header: true,
            definition: false,
            dev_fields: false,
            local_num: 2,
            time_offset: Some(16)
        }
    );
}

#[test]
fn it_reads_header_byte_normal() {
    let a = vec![14];
    let mut c = Reader::new(a);
    let h = HeaderByte::new(&mut c).unwrap();
    assert_eq!(
        h,
        HeaderByte {
            compressed_header: false,
            definition: false,
            dev_fields: false,
            local_num: 14,
            time_offset: None
        }
    );
}

#[test]
fn mod_it_reads_header_byte() {
    let mut reader = Reader::new(vec![0x40]);
    let header_byte = RecordHeaderByte::new(&mut reader).unwrap();
    assert_eq!(header_byte.is_definition(), true);
}

#[test]
fn fit_file_it_reads_header_byte() {
    let mut reader = Reader::new(vec![0x40]);
    let header_byte = RecordHeaderByte::new(&mut reader).unwrap();
    assert_eq!(header_byte.is_definition(), true);
    assert_eq!(header_byte.has_developer_fields(), false);
    assert_eq!(header_byte.local_msg_number(), 0);
}

#[test]
fn fit_it_reads_header_byte() {
    let mut reader = Reader::new(vec![0x40]);
    let h = HeaderByte::new(&mut reader).unwrap();
    assert_eq!(h.definition, true);
}

#[test]
fn it_reads_definition_record() {
    let a = vec![
        0, 0, 0, 0, 7, 3, 4, 140, 4, 4, 134, 7, 4, 134, 1, 2, 132, 2, 2, 132, 5, 2, 132, 0, 1, 0,
    ];
    let mut c = Reader::new(a);
    let def = DefinitionRecord::new(&mut c, false).unwrap();
    let comp = DefinitionRecord {
        endianness: Endianness::Little,
        global_message_number: 0,
        field_definitions: vec![
            FieldDefinition { definition_number: 3, size: 4, base_type: 12 },
            FieldDefinition { definition_number: 4, size: 4, base_type: 6 },
            FieldDefinition { definition_number: 7, size: 4, base_type: 6 },
            FieldDefinition { definition_number: 1, size: 2, base_type: 4 },
            FieldDefinition { definition_number: 2, size: 2, base_type: 4 },
            FieldDefinition { definition_number: 5, size: 2, base_type: 4 },
            FieldDefinition { definition_number: 0, size: 1, base_type: 0 },
        ],
        developer_fields: None,
    };
    assert_eq!(def, comp);
}

#[test]
fn definition_record_it_reads_a_definition() {
    let a = vec![
        0, 0, 0, 0, 7, 3, 4, 140, 4, 4, 134, 7, 4, 134, 1, 2, 132, 2, 2, 132, 5, 2, 132, 0, 1, 0,
    ];
    let mut reader = Reader::new(a);
    let definition = DefinitionRecord::new(&mut reader, false).unwrap();
    assert_eq!(definition.field_definitions.len(), 7);
}

#[test]
fn it_reads_field_definition() {
    let fda = FieldDefinition::new(&mut Reader::new(vec![254, 2, 132])).unwrap();
    assert_eq!(
        fda,
        FieldDefinition { definition_number: 254, size: 2, base_type: 4 }
    );
    let fdb = FieldDefinition::new(&mut Reader::new(vec![102, 4, 2])).unwrap();
    assert_eq!(
        fdb,
        FieldDefinition { definition_number: 102, size: 4, base_type: 2 }
    );
}

#[test]
fn big_endian_definitions_read_the_message_number_big_endian() {
    // endianness byte 1: global message number 0x0014 = 20 stored big-endian
    let a = vec![0, 1, 0, 20, 1, 3, 1, 2];
    let mut c = Reader::new(a);
    let def = DefinitionRecord::new(&mut c, false).unwrap();
    assert_eq!(def.endianness, Endianness::Big);
    assert_eq!(def.global_message_number, 20);
}

#[test]
fn an_invalid_endianness_byte_is_fatal() {
    let a = vec![0, 2, 0, 20, 0];
    let mut c = Reader::new(a);
    assert!(DefinitionRecord::new(&mut c, false).is_err());
}

#[test]
fn base_type_lookup_matches_the_table() {
    assert!(matches!(BaseType::get(0), BaseType::ENUM));
    assert!(matches!(BaseType::get(7), BaseType::STRING));
    assert!(matches!(BaseType::get(13), BaseType::BYTE));
    assert!(matches!(BaseType::get(16), BaseType::UINT64Z));
}

#[test]
fn varray_copies_a_short_slice() {
    let v: Vec<u16> = vec![7, 8, 9];
    let a = fitreader::arrayable::VArray::from_slice(v.as_slice()).unwrap();
    assert_eq!(a.length, 3);
    assert_eq!(a.stack[0], 7);
    assert_eq!(a.stack[1], 8);
    assert_eq!(a.stack[2], 9);
}
