use fitreader::process::process_value;
use fitreader::sdk::MessageType;
use fitreader::value::Value;

const PSEUDO_EPOCH: u32 = 631_065_600;

fn f32_of(v: Option<Value>) -> f32 {
    match v {
        Some(Value::F32(bits)) => f32::from_bits(bits),
        other => panic!("expected a binary32 value, got {:?}", other),
    }
}

fn f64_of(v: Option<Value>) -> f64 {
    match v {
        Some(Value::F64(bits)) => f64::from_bits(bits),
        other => panic!("expected a binary64 value, got {:?}", other),
    }
}

#[test]
fn coordinates_convert_semicircles_to_degrees() {
    // Record field 0 is position_lat
    let raw: i32 = 0x1E84_8000;
    let got = f32_of(process_value(MessageType::Record, 0, Value::I32(raw)));
    let expected = (raw as f64 * 180.0 / 2147483648.0) as f32;
    assert!((got - expected).abs() <= expected.abs() * f32::EPSILON);
}

#[test]
fn negative_coordinates_convert_too() {
    let raw: i32 = -0x1000_0000;
    let got = f32_of(process_value(MessageType::Record, 1, Value::I32(raw)));
    let expected = (raw as f64 * 180.0 / 2147483648.0) as f32;
    assert!((got - expected).abs() <= expected.abs() * f32::EPSILON);
    assert!(got < 0.0);
}

#[test]
fn scale_and_offset_apply_in_order() {
    // Record field 2 is altitude: scale 5, offset 500
    let got = f64_of(process_value(MessageType::Record, 2, Value::U16(3000)));
    assert_eq!(got, 3000.0 / 5.0 - 500.0);
}

#[test]
fn scale_alone_divides() {
    // Record field 5 is distance: scale 100, no offset
    let got = f64_of(process_value(MessageType::Record, 5, Value::U32(12345)));
    assert_eq!(got, 123.45);
    // Record field 6 is speed: scale 1000
    let got = f64_of(process_value(MessageType::Record, 6, Value::U16(5000)));
    assert_eq!(got, 5.0);
}

#[test]
fn no_scale_or_offset_keeps_the_raw_integer() {
    // Record field 3 is heart rate: no scale, no offset
    assert_eq!(
        process_value(MessageType::Record, 3, Value::U8(71)),
        Some(Value::U8(71))
    );
}

#[test]
fn timestamps_shift_to_the_unix_epoch() {
    assert_eq!(
        process_value(MessageType::Record, 253, Value::U32(1000)),
        Some(Value::Time(1000 + PSEUDO_EPOCH))
    );
}

#[test]
fn local_timestamps_carry_the_fixed_offset() {
    // Activity field 5 is the local timestamp
    assert_eq!(
        process_value(MessageType::Activity, 5, Value::U32(10000)),
        Some(Value::Time(10000 + PSEUDO_EPOCH - 3600))
    );
}

#[test]
fn unknown_enum_codes_keep_the_raw_integer() {
    // FileId field 2 is the manufacturer
    assert_eq!(
        process_value(MessageType::FileId, 2, Value::U16(60000)),
        Some(Value::U16(60000))
    );
}

#[test]
fn known_enum_codes_resolve_to_symbols() {
    assert_eq!(
        process_value(MessageType::FileId, 2, Value::U16(1)),
        Some(Value::Enum("garmin"))
    );
}

#[test]
fn unlisted_fields_are_dropped() {
    assert_eq!(process_value(MessageType::Record, 99, Value::U8(7)), None);
}

#[test]
fn inexact_quotients_round_to_nearest() {
    let got = f64_of(process_value(MessageType::Record, 5, Value::U32(25_000)));
    assert_eq!(got, 250.0);
    // 33 / 100 has no finite binary expansion; nearest wins
    let got = f64_of(process_value(MessageType::Record, 5, Value::U32(33)));
    assert_eq!(got, 0.33);
}

#[test]
fn session_speeds_scale_to_meters_per_second() {
    // Session field 14 is the average speed in mm/s
    let got = f64_of(process_value(MessageType::Session, 14, Value::U16(8125)));
    assert_eq!(got, 8.125);
}

#[test]
fn sub_sport_codes_resolve_to_symbols() {
    assert_eq!(
        process_value(MessageType::Session, 6, Value::U8(6)),
        Some(Value::Enum("indoor_cycling"))
    );
}

#[test]
fn plain_signed_sixteen_bit_fields_pass_through() {
    // Record field 9 is the grade: a sint16 slot outside the scale set
    assert_eq!(
        process_value(MessageType::Record, 9, Value::I16(-250)),
        Some(Value::I16(-250))
    );
}
