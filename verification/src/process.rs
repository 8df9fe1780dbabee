use vstd::arithmetic::power2::{lemma2_to64, lemma2_to64_rest, pow2};
use vstd::math::abs;
use vstd::prelude::*;

use crate::rounding::{f32_bits_of_rat, f64_bits_of_rat, rat_to_f32_bits, rat_to_f64_bits};
use crate::sdk::{
    enum_symbol_of, field_type_of, get_field_scale, get_field_string_value, get_field_type,
    get_field_offset, offset_of, scale_of, FieldType, MessageType,
};
use crate::value::{opt_val, Val, Value};

verus! {

/// Seconds from the FIT epoch (1989-12-31T00:00:00Z) back to the UNIX
/// epoch.
pub const PSEUDO_EPOCH: u32 = 631_065_600;

/// 32-bit wrapping sum, for epoch adjustment near the end of the range.
pub open spec fn wrap_add32(a: nat, b: nat) -> u32 {
    ((a + b) % 0x1_0000_0000) as u32
}

/// The binary32 bits of a coordinate in degrees: the raw value counts
/// semicircles, each 180 / 2^31 of a degree, so the result is the
/// correctly rounded value of `v * 45 / 2^29`.
pub open spec fn semicircle_bits(v: i32) -> u32 {
    if v == 0 {
        0
    } else {
        f32_bits_of_rat(v < 0, (abs(v as int) * 45) as nat, pow2(29))
    }
}

/// Convert raw semicircles to degrees, as binary32 bits.
pub fn semicircles_to_degrees(v: i32) -> (r: u32)
    ensures
        r == semicircle_bits(v),
{
    if v == 0 {
        0
    } else {
        let neg = v < 0;
        let a: u64 = if v < 0 {
            (-(v as i64)) as u64
        } else {
            v as u64
        };
        let num: u64 = a * 45;
        proof {
            lemma2_to64();
            assert(pow2(29) == 0x2000_0000);
            assert(pow2(24) == 0x100_0000);
            assert(a == abs(v as int));
            assert((num as nat) < 0x2000_0000 * pow2(24));
        }
        rat_to_f32_bits(neg, num, 0x2000_0000)
    }
}

/// The binary64 bits of a raw integer after the profile's scale and
/// offset: the correctly rounded value of `n / scale - offset`, which
/// equals `(n - offset * scale) / scale` exactly.
pub open spec fn scaled_offset_bits(n: int, scale: nat, offset: int) -> u64 {
    let num = n - offset * scale;
    if num == 0 {
        0
    } else {
        f64_bits_of_rat(num < 0, abs(num) as nat, scale)
    }
}

/// Apply a scale divisor and an offset to a raw integer, producing
/// binary64 bits.
pub fn apply_scale_offset(n: i64, scale: u32, offset: i16) -> (r: u64)
    requires
        scale >= 1,
        -0x8000_0000 <= n <= 0x1_0000_0000,
    ensures
        r == scaled_offset_bits(n as int, scale as nat, offset as int),
{
    proof {
        assert(-0x8000 * 0xFFFF_FFFFi64 <= (offset as int) * (scale as int) <= 0x8000
            * 0xFFFF_FFFFi64) by (nonlinear_arith)
            requires
                -0x8000 <= offset as int <= 0x7FFF,
                0 <= scale as int <= 0xFFFF_FFFF,
        ;
    }
    let num_i: i64 = n - (offset as i64) * (scale as i64);
    if num_i == 0 {
        0
    } else {
        let neg = num_i < 0;
        let a: u64 = if neg {
            (-num_i) as u64
        } else {
            num_i as u64
        };
        proof {
            lemma2_to64();
            lemma2_to64_rest();
            assert(pow2(53) == 0x20_0000_0000_0000);
            assert(a == abs(num_i as int));
            assert((a as nat) < (scale as nat) * pow2(53)) by (nonlinear_arith)
                requires
                    scale >= 1,
                    (a as nat) < pow2(53),
                    pow2(53) > 0,
            ;
        }
        rat_to_f64_bits(neg, a, scale as u64)
    }
}

/// The integer a numeric value carries, if it carries one the
/// scale/offset pass applies to.
pub open spec fn int_of(v: Val) -> Option<int> {
    match v {
        Val::U8(x) => Some(x as int),
        Val::I8(x) => Some(x as int),
        Val::U16(x) => Some(x as int),
        Val::I16(x) => Some(x as int),
        Val::U32(x) => Some(x as int),
        Val::I32(x) => Some(x as int),
        _ => None,
    }
}

/// What the semantic pass makes of one decoded value, by the SDK's
/// field type for its slot.
///
/// A slot the profile does not list is dropped. Coordinates turn into
/// degrees, date-times into UNIX-epoch times, scaled integers into
/// binary64, and codes of a named enumeration into their symbols (kept
/// raw on a miss). Everything else passes through unchanged.
pub open spec fn post_process(mt: MessageType, num: u8, v: Val) -> Option<Val> {
    let ft = field_type_of(mt, num);
    match ft {
        FieldType::Unknown => None,
        FieldType::Coordinates => match v {
            Val::I32(n) => Some(Val::F32(semicircle_bits(n))),
            _ => Some(v),
        },
        FieldType::Timestamp => match v {
            Val::U32(s) => Some(Val::Time(wrap_add32(s as nat, PSEUDO_EPOCH as nat))),
            _ => Some(v),
        },
        FieldType::DateTime => match v {
            Val::U32(s) => Some(Val::Time(wrap_add32(s as nat, PSEUDO_EPOCH as nat))),
            _ => Some(v),
        },
        FieldType::LocalDateTime => match v {
            Val::U32(s) => Some(Val::Time(wrap_add32(s as nat, (PSEUDO_EPOCH - 3600) as nat))),
            _ => Some(v),
        },
        FieldType::String => Some(v),
        FieldType::LocaltimeIntoDay => Some(v),
        FieldType::Uint8 => scaled(mt, num, v),
        FieldType::Uint8z => scaled(mt, num, v),
        FieldType::Uint16 => scaled(mt, num, v),
        FieldType::Uint16z => scaled(mt, num, v),
        FieldType::Uint32 => scaled(mt, num, v),
        FieldType::Uint32z => scaled(mt, num, v),
        FieldType::Sint8 => scaled(mt, num, v),
        _ => match v {
            Val::U8(k) => match enum_symbol_of(ft, k as u16) {
                Some(sym) => Some(Val::Enum(sym)),
                None => Some(v),
            },
            Val::U16(k) => match enum_symbol_of(ft, k) {
                Some(sym) => Some(Val::Enum(sym)),
                None => Some(v),
            },
            _ => Some(v),
        },
    }
}

/// The scale/offset pass on one value: raw integers gain the listed
/// scale and offset and widen to binary64; with neither listed, and on
/// non-integer shapes, the value passes through.
pub open spec fn scaled(mt: MessageType, num: u8, v: Val) -> Option<Val> {
    let sc = scale_of(mt, num);
    let of = offset_of(mt, num);
    if sc is None && of is None {
        Some(v)
    } else {
        match int_of(v) {
            Some(n) => Some(
                Val::F64(
                    scaled_offset_bits(
                        n,
                        match sc {
                            Some(s) => s as nat,
                            None => 1nat,
                        },
                        match of {
                            Some(o) => o as int,
                            None => 0int,
                        },
                    ),
                ),
            ),
            None => Some(v),
        }
    }
}

/// Run the semantic pass over one `(field number, value)` slot of a
/// message.
pub fn process_value(mt: MessageType, num: u8, value: Value) -> (r: Option<Value>)
    ensures
        opt_val(r) == post_process(mt, num, value@),
{
    let ft = get_field_type(mt, num);
    match ft {
        FieldType::Unknown => None,
        FieldType::Coordinates => match value {
            Value::I32(n) => Some(Value::F32(semicircles_to_degrees(n))),
            v => Some(v),
        },
        FieldType::Timestamp | FieldType::DateTime => match value {
            Value::U32(s) => Some(Value::Time(epoch_shift(s, PSEUDO_EPOCH))),
            v => Some(v),
        },
        FieldType::LocalDateTime => match value {
            Value::U32(s) => Some(Value::Time(epoch_shift(s, PSEUDO_EPOCH - 3600))),
            v => Some(v),
        },
        FieldType::String | FieldType::LocaltimeIntoDay => Some(value),
        FieldType::Uint8 | FieldType::Uint8z | FieldType::Uint16 | FieldType::Uint16z
            | FieldType::Uint32 | FieldType::Uint32z | FieldType::Sint8 => {
            let sc = get_field_scale(mt, num);
            let of = get_field_offset(mt, num);
            if sc.is_none() && of.is_none() {
                Some(value)
            } else {
                let n: Option<i64> = match &value {
                    Value::U8(x) => Some(*x as i64),
                    Value::I8(x) => Some(*x as i64),
                    Value::U16(x) => Some(*x as i64),
                    Value::I16(x) => Some(*x as i64),
                    Value::U32(x) => Some(*x as i64),
                    Value::I32(x) => Some(*x as i64),
                    _ => None,
                };
                match n {
                    Some(n) => {
                        let s: u32 = match sc {
                            Some(s) => s,
                            None => 1,
                        };
                        let o: i16 = match of {
                            Some(o) => o,
                            None => 0,
                        };
                        Some(Value::F64(apply_scale_offset(n, s, o)))
                    },
                    None => Some(value),
                }
            }
        },
        _ => match value {
            Value::U8(k) => match get_field_string_value(ft, k as u16) {
                Some(sym) => Some(Value::Enum(sym)),
                None => Some(Value::U8(k)),
            },
            Value::U16(k) => match get_field_string_value(ft, k) {
                Some(sym) => Some(Value::Enum(sym)),
                None => Some(Value::U16(k)),
            },
            v => Some(v),
        },
    }
}

/// Shift a FIT-epoch second count to the UNIX epoch, wrapping at the
/// 32-bit boundary.
fn epoch_shift(s: u32, shift: u32) -> (r: u32)
    ensures
        r == wrap_add32(s as nat, shift as nat),
{
    let t: u64 = s as u64 + shift as u64;
    (t % 0x1_0000_0000) as u32
}

} // verus!
