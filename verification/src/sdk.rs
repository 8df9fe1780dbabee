use vstd::prelude::*;
use vstd::string::StringSliceAdditionalSpecFns;
use vstd::utf8::encode_utf8_decode_utf8;

verus! {

/// The message types this decoder's profile tables know by name.
///
/// The tables below are a closed-world subset of the vendor profile,
/// realized as match trees: pure, total, and constant-time. The engine
/// assumes nothing of any entry except `FieldDescription`, and
/// tolerates `Unknown` everywhere.
#[derive(Clone, Copy, Debug, PartialEq, Eq, Structural)]
pub enum MessageType {
    Unknown,
    FileId,
    Capabilities,
    DeviceSettings,
    UserProfile,
    Sport,
    Session,
    Lap,
    Record,
    Event,
    DeviceInfo,
    Activity,
    FileCreator,
    GpsMetadata,
    FieldDescription,
    DeveloperDataId,
}

/// The semantic interpretation of one field of a known message.
#[derive(Clone, Copy, Debug, PartialEq, Eq, Structural)]
pub enum FieldType {
    Unknown,
    Coordinates,
    DateTime,
    Timestamp,
    LocalDateTime,
    String,
    LocaltimeIntoDay,
    Uint8,
    Uint8z,
    Uint16,
    Uint16z,
    Uint32,
    Uint32z,
    Sint8,
    Sint16,
    File,
    Manufacturer,
    Event,
    EventType,
    Sport,
    SubSport,
    DeviceIndex,
    BatteryStatus,
    MessageIndex,
    Activity,
}

/// The message type a global message number names.
pub open spec fn message_type_of(gmn: u16) -> MessageType {
    if gmn == 0 {
        MessageType::FileId
    } else if gmn == 1 {
        MessageType::Capabilities
    } else if gmn == 2 {
        MessageType::DeviceSettings
    } else if gmn == 3 {
        MessageType::UserProfile
    } else if gmn == 12 {
        MessageType::Sport
    } else if gmn == 18 {
        MessageType::Session
    } else if gmn == 19 {
        MessageType::Lap
    } else if gmn == 20 {
        MessageType::Record
    } else if gmn == 21 {
        MessageType::Event
    } else if gmn == 23 {
        MessageType::DeviceInfo
    } else if gmn == 34 {
        MessageType::Activity
    } else if gmn == 49 {
        MessageType::FileCreator
    } else if gmn == 160 {
        MessageType::GpsMetadata
    } else if gmn == 206 {
        MessageType::FieldDescription
    } else if gmn == 207 {
        MessageType::DeveloperDataId
    } else {
        MessageType::Unknown
    }
}

pub fn get_message_type(gmn: u16) -> (r: MessageType)
    ensures
        r == message_type_of(gmn),
{
    match gmn {
        0 => MessageType::FileId,
        1 => MessageType::Capabilities,
        2 => MessageType::DeviceSettings,
        3 => MessageType::UserProfile,
        12 => MessageType::Sport,
        18 => MessageType::Session,
        19 => MessageType::Lap,
        20 => MessageType::Record,
        21 => MessageType::Event,
        23 => MessageType::DeviceInfo,
        34 => MessageType::Activity,
        49 => MessageType::FileCreator,
        160 => MessageType::GpsMetadata,
        206 => MessageType::FieldDescription,
        207 => MessageType::DeveloperDataId,
        _ => MessageType::Unknown,
    }
}

/// The field type of field `num` of a message, `Unknown` when unlisted.
pub open spec fn field_type_of(mt: MessageType, num: u8) -> FieldType {
    match mt {
        MessageType::FileId => if num == 0 {
            FieldType::File
        } else if num == 1 {
            FieldType::Uint16
        } else if num == 2 {
            FieldType::Manufacturer
        } else if num == 3 {
            FieldType::Uint32z
        } else if num == 4 {
            FieldType::DateTime
        } else if num == 5 {
            FieldType::Uint16
        } else if num == 7 {
            FieldType::Uint32
        } else if num == 8 {
            FieldType::String
        } else {
            FieldType::Unknown
        },
        MessageType::Record => if num == 253 {
            FieldType::Timestamp
        } else if num == 0 || num == 1 {
            FieldType::Coordinates
        } else if num == 2 {
            FieldType::Uint16
        } else if num == 3 || num == 4 {
            FieldType::Uint8
        } else if num == 5 {
            FieldType::Uint32
        } else if num == 6 || num == 7 {
            FieldType::Uint16
        } else if num == 9 {
            FieldType::Sint16
        } else if num == 10 {
            FieldType::Uint8
        } else if num == 13 {
            FieldType::Sint8
        } else if num == 29 {
            FieldType::Uint32
        } else {
            FieldType::Unknown
        },
        MessageType::Session => if num == 253 {
            FieldType::Timestamp
        } else if num == 0 {
            FieldType::Event
        } else if num == 1 {
            FieldType::EventType
        } else if num == 2 {
            FieldType::DateTime
        } else if num == 3 || num == 4 {
            FieldType::Coordinates
        } else if num == 5 {
            FieldType::Sport
        } else if num == 6 {
            FieldType::SubSport
        } else if num == 7 || num == 8 {
            FieldType::Uint32
        } else if num == 9 {
            FieldType::Uint32
        } else if num == 11 {
            FieldType::Uint16
        } else if num == 14 || num == 15 {
            FieldType::Uint16
        } else if num == 16 || num == 17 || num == 18 || num == 19 {
            FieldType::Uint8
        } else if num == 20 || num == 21 || num == 22 || num == 23 {
            FieldType::Uint16
        } else if num == 26 {
            FieldType::Uint16
        } else if num == 254 {
            FieldType::MessageIndex
        } else {
            FieldType::Unknown
        },
        MessageType::Lap => if num == 253 {
            FieldType::Timestamp
        } else if num == 0 {
            FieldType::Event
        } else if num == 1 {
            FieldType::EventType
        } else if num == 2 {
            FieldType::DateTime
        } else if num == 3 || num == 4 || num == 5 || num == 6 {
            FieldType::Coordinates
        } else if num == 7 || num == 8 || num == 9 {
            FieldType::Uint32
        } else if num == 11 {
            FieldType::Uint16
        } else if num == 13 || num == 14 {
            FieldType::Uint16
        } else if num == 15 || num == 16 || num == 17 || num == 18 {
            FieldType::Uint8
        } else if num == 19 || num == 20 || num == 21 || num == 22 {
            FieldType::Uint16
        } else if num == 25 {
            FieldType::Sport
        } else if num == 254 {
            FieldType::MessageIndex
        } else {
            FieldType::Unknown
        },
        MessageType::Event => if num == 253 {
            FieldType::Timestamp
        } else if num == 0 {
            FieldType::Event
        } else if num == 1 {
            FieldType::EventType
        } else if num == 2 {
            FieldType::Uint16
        } else if num == 3 {
            FieldType::Uint32
        } else if num == 4 {
            FieldType::Uint8
        } else {
            FieldType::Unknown
        },
        MessageType::Activity => if num == 253 {
            FieldType::Timestamp
        } else if num == 0 {
            FieldType::Uint32
        } else if num == 1 {
            FieldType::Uint16
        } else if num == 2 {
            FieldType::Activity
        } else if num == 3 {
            FieldType::Event
        } else if num == 4 {
            FieldType::EventType
        } else if num == 5 {
            FieldType::LocalDateTime
        } else {
            FieldType::Unknown
        },
        MessageType::DeviceInfo => if num == 253 {
            FieldType::Timestamp
        } else if num == 0 {
            FieldType::DeviceIndex
        } else if num == 1 {
            FieldType::Uint8
        } else if num == 2 {
            FieldType::Manufacturer
        } else if num == 3 {
            FieldType::Uint32z
        } else if num == 4 {
            FieldType::Uint16
        } else if num == 5 {
            FieldType::Uint16
        } else if num == 6 {
            FieldType::Uint16
        } else if num == 11 {
            FieldType::BatteryStatus
        } else {
            FieldType::Unknown
        },
        MessageType::FileCreator => if num == 0 {
            FieldType::Uint16
        } else if num == 1 {
            FieldType::Uint8
        } else {
            FieldType::Unknown
        },
        MessageType::FieldDescription => if num == 0 || num == 1 || num == 2 {
            FieldType::Uint8
        } else if num == 3 || num == 8 {
            FieldType::String
        } else {
            FieldType::Unknown
        },
        MessageType::DeveloperDataId => if num == 3 {
            FieldType::Uint8
        } else {
            FieldType::Unknown
        },
        _ => FieldType::Unknown,
    }
}

pub fn get_field_type(mt: MessageType, num: u8) -> (r: FieldType)
    ensures
        r == field_type_of(mt, num),
{
    match mt {
        MessageType::FileId => match num {
            0 => FieldType::File,
            1 => FieldType::Uint16,
            2 => FieldType::Manufacturer,
            3 => FieldType::Uint32z,
            4 => FieldType::DateTime,
            5 => FieldType::Uint16,
            7 => FieldType::Uint32,
            8 => FieldType::String,
            _ => FieldType::Unknown,
        },
        MessageType::Record => match num {
            253 => FieldType::Timestamp,
            0 | 1 => FieldType::Coordinates,
            2 => FieldType::Uint16,
            3 | 4 => FieldType::Uint8,
            5 => FieldType::Uint32,
            6 | 7 => FieldType::Uint16,
            9 => FieldType::Sint16,
            10 => FieldType::Uint8,
            13 => FieldType::Sint8,
            29 => FieldType::Uint32,
            _ => FieldType::Unknown,
        },
        MessageType::Session => match num {
            253 => FieldType::Timestamp,
            0 => FieldType::Event,
            1 => FieldType::EventType,
            2 => FieldType::DateTime,
            3 | 4 => FieldType::Coordinates,
            5 => FieldType::Sport,
            6 => FieldType::SubSport,
            7 | 8 | 9 => FieldType::Uint32,
            11 => FieldType::Uint16,
            14 | 15 => FieldType::Uint16,
            16 | 17 | 18 | 19 => FieldType::Uint8,
            20 | 21 | 22 | 23 => FieldType::Uint16,
            26 => FieldType::Uint16,
            254 => FieldType::MessageIndex,
            _ => FieldType::Unknown,
        },
        MessageType::Lap => match num {
            253 => FieldType::Timestamp,
            0 => FieldType::Event,
            1 => FieldType::EventType,
            2 => FieldType::DateTime,
            3 | 4 | 5 | 6 => FieldType::Coordinates,
            7 | 8 | 9 => FieldType::Uint32,
            11 => FieldType::Uint16,
            13 | 14 => FieldType::Uint16,
            15 | 16 | 17 | 18 => FieldType::Uint8,
            19 | 20 | 21 | 22 => FieldType::Uint16,
            25 => FieldType::Sport,
            254 => FieldType::MessageIndex,
            _ => FieldType::Unknown,
        },
        MessageType::Event => match num {
            253 => FieldType::Timestamp,
            0 => FieldType::Event,
            1 => FieldType::EventType,
            2 => FieldType::Uint16,
            3 => FieldType::Uint32,
            4 => FieldType::Uint8,
            _ => FieldType::Unknown,
        },
        MessageType::Activity => match num {
            253 => FieldType::Timestamp,
            0 => FieldType::Uint32,
            1 => FieldType::Uint16,
            2 => FieldType::Activity,
            3 => FieldType::Event,
            4 => FieldType::EventType,
            5 => FieldType::LocalDateTime,
            _ => FieldType::Unknown,
        },
        MessageType::DeviceInfo => match num {
            253 => FieldType::Timestamp,
            0 => FieldType::DeviceIndex,
            1 => FieldType::Uint8,
            2 => FieldType::Manufacturer,
            3 => FieldType::Uint32z,
            4 => FieldType::Uint16,
            5 => FieldType::Uint16,
            6 => FieldType::Uint16,
            11 => FieldType::BatteryStatus,
            _ => FieldType::Unknown,
        },
        MessageType::FileCreator => match num {
            0 => FieldType::Uint16,
            1 => FieldType::Uint8,
            _ => FieldType::Unknown,
        },
        MessageType::FieldDescription => match num {
            0 | 1 | 2 => FieldType::Uint8,
            3 | 8 => FieldType::String,
            _ => FieldType::Unknown,
        },
        MessageType::DeveloperDataId => match num {
            3 => FieldType::Uint8,
            _ => FieldType::Unknown,
        },
        _ => FieldType::Unknown,
    }
}

/// The strictly positive divisor a listed field's raw value carries.
pub open spec fn scale_of(mt: MessageType, num: u8) -> Option<u32> {
    match mt {
        MessageType::Record => if num == 2 {
            Some(5u32)
        } else if num == 5 {
            Some(100u32)
        } else if num == 6 {
            Some(1000u32)
        } else {
            None
        },
        MessageType::Session => if num == 7 || num == 8 {
            Some(1000u32)
        } else if num == 9 {
            Some(100u32)
        } else if num == 14 || num == 15 {
            Some(1000u32)
        } else {
            None
        },
        MessageType::Lap => if num == 7 || num == 8 {
            Some(1000u32)
        } else if num == 9 {
            Some(100u32)
        } else if num == 13 || num == 14 {
            Some(1000u32)
        } else {
            None
        },
        MessageType::Activity => if num == 0 {
            Some(1000u32)
        } else {
            None
        },
        MessageType::DeviceInfo => if num == 5 {
            Some(100u32)
        } else if num == 6 {
            Some(256u32)
        } else {
            None
        },
        _ => None,
    }
}

pub fn get_field_scale(mt: MessageType, num: u8) -> (r: Option<u32>)
    ensures
        r == scale_of(mt, num),
{
    match mt {
        MessageType::Record => match num {
            2 => Some(5),
            5 => Some(100),
            6 => Some(1000),
            _ => None,
        },
        MessageType::Session => match num {
            7 | 8 => Some(1000),
            9 => Some(100),
            14 | 15 => Some(1000),
            _ => None,
        },
        MessageType::Lap => match num {
            7 | 8 => Some(1000),
            9 => Some(100),
            13 | 14 => Some(1000),
            _ => None,
        },
        MessageType::Activity => match num {
            0 => Some(1000),
            _ => None,
        },
        MessageType::DeviceInfo => match num {
            5 => Some(100),
            6 => Some(256),
            _ => None,
        },
        _ => None,
    }
}

/// The signed offset subtracted from a listed field after scaling.
pub open spec fn offset_of(mt: MessageType, num: u8) -> Option<i16> {
    match mt {
        MessageType::Record => if num == 2 {
            Some(500i16)
        } else {
            None
        },
        _ => None,
    }
}

pub fn get_field_offset(mt: MessageType, num: u8) -> (r: Option<i16>)
    ensures
        r == offset_of(mt, num),
{
    match mt {
        MessageType::Record => match num {
            2 => Some(500),
            _ => None,
        },
        _ => None,
    }
}

/// The field number that carries a message's absolute timestamp, used
/// to synthesize a timestamp from a compressed header.
pub open spec fn timestamp_field_of(mt: MessageType) -> Option<u8> {
    match mt {
        MessageType::Record | MessageType::Session | MessageType::Lap | MessageType::Event
            | MessageType::Activity | MessageType::DeviceInfo | MessageType::GpsMetadata => Some(
            253u8,
        ),
        _ => None,
    }
}

pub fn get_message_timestamp_field(mt: MessageType) -> (r: Option<u8>)
    ensures
        r == timestamp_field_of(mt),
{
    match mt {
        MessageType::Record | MessageType::Session | MessageType::Lap | MessageType::Event
            | MessageType::Activity | MessageType::DeviceInfo | MessageType::GpsMetadata => Some(
            253,
        ),
        _ => None,
    }
}

/// The symbol a named enumeration assigns to a code, `None` on a miss.
pub open spec fn enum_symbol_of(ft: FieldType, k: u16) -> Option<Seq<char>> {
    match ft {
        FieldType::File => if k == 1 {
            Some("device"@)
        } else if k == 2 {
            Some("settings"@)
        } else if k == 3 {
            Some("sport"@)
        } else if k == 4 {
            Some("activity"@)
        } else if k == 5 {
            Some("workout"@)
        } else if k == 6 {
            Some("course"@)
        } else if k == 9 {
            Some("weight"@)
        } else if k == 10 {
            Some("totals"@)
        } else if k == 11 {
            Some("goals"@)
        } else {
            None
        },
        FieldType::Manufacturer => if k == 1 {
            Some("garmin"@)
        } else if k == 2 {
            Some("garmin_fr405_antfs"@)
        } else if k == 3 {
            Some("zephyr"@)
        } else if k == 13 {
            Some("dynastream"@)
        } else if k == 23 {
            Some("suunto"@)
        } else if k == 32 {
            Some("wahoo_fitness"@)
        } else if k == 89 {
            Some("tacx"@)
        } else if k == 255 {
            Some("development"@)
        } else {
            None
        },
        FieldType::Event => if k == 0 {
            Some("timer"@)
        } else if k == 8 {
            Some("session"@)
        } else if k == 9 {
            Some("lap"@)
        } else {
            None
        },
        FieldType::EventType => if k == 0 {
            Some("start"@)
        } else if k == 1 {
            Some("stop"@)
        } else if k == 3 {
            Some("marker"@)
        } else if k == 4 {
            Some("stop_all"@)
        } else {
            None
        },
        FieldType::Sport => if k == 0 {
            Some("generic"@)
        } else if k == 1 {
            Some("running"@)
        } else if k == 2 {
            Some("cycling"@)
        } else if k == 5 {
            Some("swimming"@)
        } else {
            None
        },
        FieldType::SubSport => if k == 0 {
            Some("generic"@)
        } else if k == 1 {
            Some("treadmill"@)
        } else if k == 2 {
            Some("street"@)
        } else if k == 3 {
            Some("trail"@)
        } else if k == 4 {
            Some("track"@)
        } else if k == 6 {
            Some("indoor_cycling"@)
        } else if k == 7 {
            Some("road"@)
        } else if k == 8 {
            Some("mountain"@)
        } else {
            None
        },
        FieldType::DeviceIndex => if k == 0 {
            Some("creator"@)
        } else {
            None
        },
        FieldType::BatteryStatus => if k == 1 {
            Some("new"@)
        } else if k == 2 {
            Some("good"@)
        } else if k == 3 {
            Some("ok"@)
        } else if k == 4 {
            Some("low"@)
        } else if k == 5 {
            Some("critical"@)
        } else {
            None
        },
        FieldType::Activity => if k == 0 {
            Some("manual"@)
        } else if k == 1 {
            Some("auto_multi_sport"@)
        } else {
            None
        },
        _ => None,
    }
}

pub fn get_field_string_value(ft: FieldType, k: u16) -> (r: Option<&'static str>)
    ensures
        match r {
            Some(s) => enum_symbol_of(ft, k) == Some(s@),
            None => enum_symbol_of(ft, k) is None,
        },
{
    match ft {
        FieldType::File => match k {
            1 => Some("device"),
            2 => Some("settings"),
            3 => Some("sport"),
            4 => Some("activity"),
            5 => Some("workout"),
            6 => Some("course"),
            9 => Some("weight"),
            10 => Some("totals"),
            11 => Some("goals"),
            _ => None,
        },
        FieldType::Manufacturer => match k {
            1 => Some("garmin"),
            2 => Some("garmin_fr405_antfs"),
            3 => Some("zephyr"),
            13 => Some("dynastream"),
            23 => Some("suunto"),
            32 => Some("wahoo_fitness"),
            89 => Some("tacx"),
            255 => Some("development"),
            _ => None,
        },
        FieldType::Event => match k {
            0 => Some("timer"),
            8 => Some("session"),
            9 => Some("lap"),
            _ => None,
        },
        FieldType::EventType => match k {
            0 => Some("start"),
            1 => Some("stop"),
            3 => Some("marker"),
            4 => Some("stop_all"),
            _ => None,
        },
        FieldType::Sport => match k {
            0 => Some("generic"),
            1 => Some("running"),
            2 => Some("cycling"),
            5 => Some("swimming"),
            _ => None,
        },
        FieldType::SubSport => match k {
            0 => Some("generic"),
            1 => Some("treadmill"),
            2 => Some("street"),
            3 => Some("trail"),
            4 => Some("track"),
            6 => Some("indoor_cycling"),
            7 => Some("road"),
            8 => Some("mountain"),
            _ => None,
        },
        FieldType::DeviceIndex => match k {
            0 => Some("creator"),
            _ => None,
        },
        FieldType::BatteryStatus => match k {
            1 => Some("new"),
            2 => Some("good"),
            3 => Some("ok"),
            4 => Some("low"),
            5 => Some("critical"),
            _ => None,
        },
        FieldType::Activity => match k {
            0 => Some("manual"),
            1 => Some("auto_multi_sport"),
            _ => None,
        },
        _ => None,
    }
}

/// The profile name of a global message number.
pub open spec fn message_name_of(gmn: u16) -> Option<Seq<char>> {
    if gmn == 0 {
        Some("file_id"@)
    } else if gmn == 1 {
        Some("capabilities"@)
    } else if gmn == 2 {
        Some("device_settings"@)
    } else if gmn == 3 {
        Some("user_profile"@)
    } else if gmn == 12 {
        Some("sport"@)
    } else if gmn == 18 {
        Some("session"@)
    } else if gmn == 19 {
        Some("lap"@)
    } else if gmn == 20 {
        Some("record"@)
    } else if gmn == 21 {
        Some("event"@)
    } else if gmn == 23 {
        Some("device_info"@)
    } else if gmn == 34 {
        Some("activity"@)
    } else if gmn == 49 {
        Some("file_creator"@)
    } else if gmn == 160 {
        Some("gps_metadata"@)
    } else if gmn == 206 {
        Some("field_description"@)
    } else if gmn == 207 {
        Some("developer_data_id"@)
    } else {
        None
    }
}

pub fn message_name(gmn: u16) -> (r: Option<&'static str>)
    ensures
        match r {
            Some(s) => message_name_of(gmn) == Some(s@),
            None => message_name_of(gmn) is None,
        },
{
    match gmn {
        0 => Some("file_id"),
        1 => Some("capabilities"),
        2 => Some("device_settings"),
        3 => Some("user_profile"),
        12 => Some("sport"),
        18 => Some("session"),
        19 => Some("lap"),
        20 => Some("record"),
        21 => Some("event"),
        23 => Some("device_info"),
        34 => Some("activity"),
        49 => Some("file_creator"),
        160 => Some("gps_metadata"),
        206 => Some("field_description"),
        207 => Some("developer_data_id"),
        _ => None,
    }
}

/// Whether two string slices hold the same characters.
pub fn str_eq(a: &str, b: &str) -> (r: bool)
    ensures
        r == (a@ == b@),
{
    let ab = a.as_bytes();
    let bb = b.as_bytes();
    proof {
        encode_utf8_decode_utf8(a@);
        encode_utf8_decode_utf8(b@);
    }
    if ab.len() != bb.len() {
        return false;
    }
    let n = ab.len();
    let mut i: usize = 0;
    while i < n
        invariant
            n == ab@.len(),
            n == bb@.len(),
            i <= n,
            ab@ == a.spec_bytes(),
            bb@ == b.spec_bytes(),
            vstd::utf8::decode_utf8(a.spec_bytes()) == a@,
            vstd::utf8::decode_utf8(b.spec_bytes()) == b@,
            forall|j: int| 0 <= j < i ==> ab@[j] == bb@[j],
        decreases n - i,
    {
        if ab[i] != bb[i] {
            proof {
                assert(a.spec_bytes() != b.spec_bytes());
            }
            return false;
        }
        i = i + 1;
    }
    proof {
        assert(a.spec_bytes() =~= b.spec_bytes());
    }
    true
}

/// The symbol a named enumeration, itself named by a profile type
/// string, assigns to a code.
pub open spec fn type_value_of(kind: Seq<char>, k: u32) -> Option<Seq<char>> {
    let ft = if kind == "file"@ {
        FieldType::File
    } else if kind == "manufacturer"@ {
        FieldType::Manufacturer
    } else if kind == "event"@ {
        FieldType::Event
    } else if kind == "event_type"@ {
        FieldType::EventType
    } else if kind == "sport"@ {
        FieldType::Sport
    } else if kind == "sub_sport"@ {
        FieldType::SubSport
    } else if kind == "device_index"@ {
        FieldType::DeviceIndex
    } else if kind == "battery_status"@ {
        FieldType::BatteryStatus
    } else if kind == "activity"@ {
        FieldType::Activity
    } else {
        FieldType::Unknown
    };
    if k < 0x1_0000 {
        enum_symbol_of(ft, k as u16)
    } else {
        None
    }
}

pub fn type_value(kind: &str, k: u32) -> (r: Option<&'static str>)
    ensures
        match r {
            Some(s) => type_value_of(kind@, k) == Some(s@),
            None => type_value_of(kind@, k) is None,
        },
{
    let ft = if str_eq(kind, "file") {
        FieldType::File
    } else if str_eq(kind, "manufacturer") {
        FieldType::Manufacturer
    } else if str_eq(kind, "event") {
        FieldType::Event
    } else if str_eq(kind, "event_type") {
        FieldType::EventType
    } else if str_eq(kind, "sport") {
        FieldType::Sport
    } else if str_eq(kind, "sub_sport") {
        FieldType::SubSport
    } else if str_eq(kind, "device_index") {
        FieldType::DeviceIndex
    } else if str_eq(kind, "battery_status") {
        FieldType::BatteryStatus
    } else if str_eq(kind, "activity") {
        FieldType::Activity
    } else {
        FieldType::Unknown
    };
    if k < 0x1_0000 {
        get_field_string_value(ft, k as u16)
    } else {
        None
    }
}

} // verus!
