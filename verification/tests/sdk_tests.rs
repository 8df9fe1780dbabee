use fitreader::sdk::{
    get_field_scale, get_field_string_value, get_field_type, get_message_timestamp_field,
    get_message_type, message_name, type_value, FieldType, MessageType,
};

#[test]
fn it_gets_message_name() {
    let t = message_name(1);
    assert_eq!(t, Some("capabilities"));
}

#[test]
fn it_gets_type() {
    let t = type_value("file", 4);
    assert_eq!(t, Some("activity"));
}

#[test]
fn unknown_message_numbers_have_no_name() {
    assert_eq!(message_name(64000), None);
}

#[test]
fn unknown_type_names_resolve_nothing() {
    assert_eq!(type_value("no_such_kind", 1), None);
    assert_eq!(type_value("file", 200), None);
}

#[test]
fn message_types_resolve_by_global_number() {
    assert_eq!(get_message_type(0), MessageType::FileId);
    assert_eq!(get_message_type(20), MessageType::Record);
    assert_eq!(get_message_type(206), MessageType::FieldDescription);
    assert_eq!(get_message_type(54321), MessageType::Unknown);
}

#[test]
fn record_field_types_follow_the_profile() {
    assert_eq!(get_field_type(MessageType::Record, 253), FieldType::Timestamp);
    assert_eq!(get_field_type(MessageType::Record, 0), FieldType::Coordinates);
    assert_eq!(get_field_type(MessageType::Record, 99), FieldType::Unknown);
    assert_eq!(get_field_type(MessageType::FileId, 2), FieldType::Manufacturer);
}

#[test]
fn scales_and_timestamp_fields_follow_the_profile() {
    assert_eq!(get_field_scale(MessageType::Record, 6), Some(1000));
    assert_eq!(get_field_scale(MessageType::Record, 3), None);
    assert_eq!(get_message_timestamp_field(MessageType::Record), Some(253));
    assert_eq!(get_message_timestamp_field(MessageType::FileId), None);
}

#[test]
fn enum_symbols_resolve_known_codes() {
    assert_eq!(get_field_string_value(FieldType::Manufacturer, 1), Some("garmin"));
    assert_eq!(get_field_string_value(FieldType::File, 4), Some("activity"));
    assert_eq!(get_field_string_value(FieldType::Manufacturer, 60000), None);
}
