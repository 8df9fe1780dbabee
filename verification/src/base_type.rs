use vstd::prelude::*;

verus! {

/// The seventeen FIT wire-level base types.
#[derive(Clone, Copy, Debug, PartialEq, Eq, Structural)]
#[allow(non_camel_case_types)]
pub enum BaseType {
    ENUM,
    SINT8,
    UINT8,
    SINT16,
    UINT16,
    SINT32,
    UINT32,
    STRING,
    FLOAT32,
    FLOAT64,
    UINT8Z,
    UINT16Z,
    UINT32Z,
    BYTE,
    SINT64,
    UINT64,
    UINT64Z,
}

/// The base type a wire identifier names.
pub open spec fn base_type_of(num: u8) -> BaseType {
    if num == 0 {
        BaseType::ENUM
    } else if num == 1 {
        BaseType::SINT8
    } else if num == 2 {
        BaseType::UINT8
    } else if num == 3 {
        BaseType::SINT16
    } else if num == 4 {
        BaseType::UINT16
    } else if num == 5 {
        BaseType::SINT32
    } else if num == 6 {
        BaseType::UINT32
    } else if num == 7 {
        BaseType::STRING
    } else if num == 8 {
        BaseType::FLOAT32
    } else if num == 9 {
        BaseType::FLOAT64
    } else if num == 10 {
        BaseType::UINT8Z
    } else if num == 11 {
        BaseType::UINT16Z
    } else if num == 12 {
        BaseType::UINT32Z
    } else if num == 13 {
        BaseType::BYTE
    } else if num == 14 {
        BaseType::SINT64
    } else if num == 15 {
        BaseType::UINT64
    } else {
        BaseType::UINT64Z
    }
}

impl BaseType {
    /// Resolve a wire identifier. Identifiers above 16 name no base
    /// type, so they are excluded here; the field reader treats them as
    /// bytes to consume with no value.
    pub fn get(num: u8) -> (r: BaseType)
        requires
            num <= 16,
        ensures
            r == base_type_of(num),
    {
        match num {
            0 => BaseType::ENUM,
            1 => BaseType::SINT8,
            2 => BaseType::UINT8,
            3 => BaseType::SINT16,
            4 => BaseType::UINT16,
            5 => BaseType::SINT32,
            6 => BaseType::UINT32,
            7 => BaseType::STRING,
            8 => BaseType::FLOAT32,
            9 => BaseType::FLOAT64,
            10 => BaseType::UINT8Z,
            11 => BaseType::UINT16Z,
            12 => BaseType::UINT32Z,
            13 => BaseType::BYTE,
            14 => BaseType::SINT64,
            15 => BaseType::UINT64,
            _ => BaseType::UINT64Z,
        }
    }
}

/// Bytes per element of a base type, by wire identifier.
pub open spec fn elem_size(base_type: u8) -> int {
    if base_type == 3 || base_type == 4 || base_type == 11 {
        2
    } else if base_type == 5 || base_type == 6 || base_type == 8 || base_type == 12 {
        4
    } else if base_type == 9 || base_type == 14 || base_type == 15 || base_type == 16 {
        8
    } else {
        1
    }
}

/// The "invalid" sentinel of a base type, as the unsigned integer read
/// from an element's bytes. A field whose element equals this pattern
/// is absent, not an error. For the float types the sentinel is a bit
/// pattern, never a float comparison.
pub open spec fn sentinel(base_type: u8) -> nat {
    if base_type == 1 {
        0x7F
    } else if base_type == 0 || base_type == 2 || base_type == 13 {
        0xFF
    } else if base_type == 3 {
        0x7FFF
    } else if base_type == 4 {
        0xFFFF
    } else if base_type == 5 {
        0x7FFF_FFFF
    } else if base_type == 6 || base_type == 8 {
        0xFFFF_FFFF
    } else if base_type == 9 || base_type == 15 {
        0xFFFF_FFFF_FFFF_FFFF
    } else if base_type == 14 {
        0x7FFF_FFFF_FFFF_FFFF
    } else {
        // the "z" types: zero is the invalid pattern
        0
    }
}

} // verus!
