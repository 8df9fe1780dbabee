use vstd::prelude::*;
use vstd::utf8::{decode_utf8, valid_utf8};

use crate::base_type::{elem_size, sentinel};
use crate::error::ErrorKind;
use crate::io::{
    as_i16, le_nat, as_i32, as_i64, as_i8, num_of, read_u16, read_u32, read_u64, read_u8, skip_bytes,
    Endianness, Reader,
};
use crate::value::{opt_val, Val, Value};

verus! {

/// A decoded standard field: its field number and its value.
#[derive(Clone, Debug, PartialEq)]
pub struct DataField {
    pub field_num: u8,
    pub value: Value,
}

impl DataField {
    pub fn new(fnum: u8, v: Value) -> (r: DataField)
        ensures
            r.field_num == fnum,
            r.value == v,
    {
        DataField { field_num: fnum, value: v }
    }
}

/// A decoded developer field: the developer data index it was declared
/// under, its field number, and its value.
#[derive(Clone, Debug, PartialEq)]
pub struct DevDataField {
    pub data_index: u8,
    pub field_num: u8,
    pub value: Value,
}

impl DevDataField {
    pub fn new(ddi: u8, fnum: u8, v: Value) -> (r: DevDataField)
        ensures
            r.data_index == ddi,
            r.field_num == fnum,
            r.value == v,
    {
        DevDataField { data_index: ddi, field_num: fnum, value: v }
    }
}

/// The raw integer of element `i` in a span of `es`-byte elements.
pub open spec fn raw_at(bytes: Seq<u8>, es: int, en: Endianness, i: int) -> nat {
    num_of(bytes.subrange(i * es, (i + 1) * es), en)
}

/// The value one element decodes to, by wire base type identifier.
pub open spec fn elem_val(base_type: u8, raw: nat) -> Val {
    if base_type == 1 {
        Val::I8(as_i8(raw as u8))
    } else if base_type == 3 {
        Val::I16(as_i16(raw as u16))
    } else if base_type == 4 || base_type == 11 {
        Val::U16(raw as u16)
    } else if base_type == 5 {
        Val::I32(as_i32(raw as u32))
    } else if base_type == 6 || base_type == 12 {
        Val::U32(raw as u32)
    } else if base_type == 8 {
        Val::F32(raw as u32)
    } else if base_type == 9 {
        Val::F64(raw as u64)
    } else if base_type == 14 {
        Val::I64(as_i64(raw as u64))
    } else if base_type == 15 || base_type == 16 {
        Val::U64(raw as u64)
    } else {
        // 0 enum, 2 uint8, 10 uint8z, 13 byte
        Val::U8(raw as u8)
    }
}

/// The first `count` one-byte elements that are not the 0xFF sentinel.
pub open spec fn kept_u8(bytes: Seq<u8>, en: Endianness, count: int) -> Seq<u8>
    decreases count,
{
    if count <= 0 {
        Seq::empty()
    } else {
        let init = kept_u8(bytes, en, count - 1);
        let raw = raw_at(bytes, 1, en, count - 1);
        if raw == 0xFF {
            init
        } else {
            init.push(raw as u8)
        }
    }
}

/// The first `count` two-byte elements that are not the 0xFFFF sentinel.
pub open spec fn kept_u16(bytes: Seq<u8>, en: Endianness, count: int) -> Seq<u16>
    decreases count,
{
    if count <= 0 {
        Seq::empty()
    } else {
        let init = kept_u16(bytes, en, count - 1);
        let raw = raw_at(bytes, 2, en, count - 1);
        if raw == 0xFFFF {
            init
        } else {
            init.push(raw as u16)
        }
    }
}

/// The first `count` four-byte elements that are not the 0xFFFFFFFF sentinel.
pub open spec fn kept_u32(bytes: Seq<u8>, en: Endianness, count: int) -> Seq<u32>
    decreases count,
{
    if count <= 0 {
        Seq::empty()
    } else {
        let init = kept_u32(bytes, en, count - 1);
        let raw = raw_at(bytes, 4, en, count - 1);
        if raw == 0xFFFF_FFFF {
            init
        } else {
            init.push(raw as u32)
        }
    }
}

/// The first `count` bytes with every 0x00 removed, as a string field
/// keeps neither its terminator nor embedded nulls.
pub open spec fn nonzero_prefix(bytes: Seq<u8>, count: int) -> Seq<u8>
    decreases count,
{
    if count <= 0 {
        Seq::empty()
    } else {
        let init = nonzero_prefix(bytes, count - 1);
        if bytes[count - 1] == 0 {
            init
        } else {
            init.push(bytes[count - 1])
        }
    }
}

/// What a field's byte span decodes to.
///
/// `bytes` is the whole declared span. A span whose single element
/// equals the base type's sentinel is absent. A multi-element span of
/// the unsigned 8-, 16- or 32-bit types keeps its non-sentinel
/// elements, and is absent when none survive. A string keeps its
/// non-null bytes when they form non-empty UTF-8. Spans of every other
/// multi-element shape, of unknown base types, and spans too short for
/// one element are absent.
pub open spec fn decode_field(bytes: Seq<u8>, base_type: u8, en: Endianness) -> Option<Val> {
    let size = bytes.len() as int;
    if base_type == 7 {
        let text = nonzero_prefix(bytes, size);
        if valid_utf8(text) && decode_utf8(text).len() > 0 {
            Some(Val::String(decode_utf8(text)))
        } else {
            None
        }
    } else if base_type > 16 {
        None
    } else {
        let es = elem_size(base_type);
        let count = size / es;
        if count == 0 {
            None
        } else if count == 1 {
            let raw = raw_at(bytes, es, en, 0);
            if raw == sentinel(base_type) {
                None
            } else {
                Some(elem_val(base_type, raw))
            }
        } else if base_type == 2 || base_type == 13 {
            let ks = kept_u8(bytes, en, count);
            if ks.len() == 0 {
                None
            } else {
                Some(Val::ArrU8(ks))
            }
        } else if base_type == 4 {
            let ks = kept_u16(bytes, en, count);
            if ks.len() == 0 {
                None
            } else {
                Some(Val::ArrU16(ks))
            }
        } else if base_type == 6 {
            let ks = kept_u32(bytes, en, count);
            if ks.len() == 0 {
                None
            } else {
                Some(Val::ArrU32(ks))
            }
        } else {
            None
        }
    }
}

/// Relies on String::from_utf8: it succeeds exactly on valid UTF-8 and
/// yields the characters those bytes encode.
#[verifier::external_body]
fn utf8_to_string(bytes: Vec<u8>) -> (r: Option<String>)
    ensures
        match r {
            Some(s) => valid_utf8(bytes@) && s@ == decode_utf8(bytes@),
            None => !valid_utf8(bytes@),
        },
{
    String::from_utf8(bytes).ok()
}

/// Bytes per element of a base type identifier at or below 16.
fn elem_size_of(base_type: u8) -> (r: u8)
    ensures
        r == elem_size(base_type),
{
    if base_type == 3 || base_type == 4 || base_type == 11 {
        2
    } else if base_type == 5 || base_type == 6 || base_type == 8 || base_type == 12 {
        4
    } else if base_type == 9 || base_type == 14 || base_type == 15 || base_type == 16 {
        8
    } else {
        1
    }
}

/// The sentinel of a base type, widened to u64.
fn sentinel_of(base_type: u8) -> (r: u64)
    ensures
        r == sentinel(base_type),
{
    if base_type == 1 {
        0x7F
    } else if base_type == 0 || base_type == 2 || base_type == 13 {
        0xFF
    } else if base_type == 3 {
        0x7FFF
    } else if base_type == 4 {
        0xFFFF
    } else if base_type == 5 {
        0x7FFF_FFFF
    } else if base_type == 6 || base_type == 8 {
        0xFFFF_FFFF
    } else if base_type == 9 || base_type == 15 {
        0xFFFF_FFFF_FFFF_FFFF
    } else if base_type == 14 {
        0x7FFF_FFFF_FFFF_FFFF
    } else {
        0
    }
}

/// Build the single-element value of a base type from its raw integer.
fn single_value(base_type: u8, raw: u64) -> (r: Value)
    requires
        base_type <= 16,
        base_type != 7,
        elem_size(base_type) == 1 ==> raw < 0x100,
        elem_size(base_type) == 2 ==> raw < 0x1_0000,
        elem_size(base_type) == 4 ==> raw < 0x1_0000_0000,
    ensures
        r@ == elem_val(base_type, raw as nat),
{
    if base_type == 1 {
        let v = raw as u8;
        proof {
            assert(v as i8 == as_i8(v)) by (bit_vector);
        }
        Value::I8(v as i8)
    } else if base_type == 3 {
        let v = raw as u16;
        proof {
            assert(v as i16 == as_i16(v)) by (bit_vector);
        }
        Value::I16(v as i16)
    } else if base_type == 4 || base_type == 11 {
        Value::U16(raw as u16)
    } else if base_type == 5 {
        let v = raw as u32;
        proof {
            assert(v as i32 == as_i32(v)) by (bit_vector);
        }
        Value::I32(v as i32)
    } else if base_type == 6 || base_type == 12 {
        Value::U32(raw as u32)
    } else if base_type == 8 {
        Value::F32(raw as u32)
    } else if base_type == 9 {
        Value::F64(raw)
    } else if base_type == 14 {
        proof {
            assert(raw as i64 == as_i64(raw)) by (bit_vector);
        }
        Value::I64(raw as i64)
    } else if base_type == 15 || base_type == 16 {
        Value::U64(raw)
    } else {
        Value::U8(raw as u8)
    }
}

/// Read one element of `es` bytes as its raw unsigned integer.
fn read_raw(map: &mut Reader, es: u8, endianness: Endianness) -> (r: Result<u64, ErrorKind>)
    requires
        old(map).wf(),
        es == 1 || es == 2 || es == 4 || es == 8,
    ensures
        final(map).data == old(map).data,
        final(map).wf(),
        match r {
            Ok(v) => old(map).can_read(es as int) && final(map).pos == old(map).pos + es
                && v == num_of(old(map).bytes_at(es as int), endianness)
                && (es == 1 ==> v < 0x100)
                && (es == 2 ==> v < 0x1_0000)
                && (es == 4 ==> v < 0x1_0000_0000),
            Err(e) => e == ErrorKind::UnexpectedEof && !old(map).can_read(es as int)
                && *final(map) == *old(map),
        },
{
    if es == 1 {
        let v = read_u8(map)?;
        proof {
            let s = old(map).bytes_at(1);
            assert(s.len() == 1);
            assert(s.drop_first().len() == 0);
            assert(le_nat(s.drop_first()) == 0);
            assert(le_nat(s) == s[0]);
            assert(s.reverse() =~= s);
        }
        Ok(v as u64)
    } else if es == 2 {
        let v = read_u16(map, endianness)?;
        Ok(v as u64)
    } else if es == 4 {
        let v = read_u32(map, endianness)?;
        Ok(v as u64)
    } else {
        let v = read_u64(map, endianness)?;
        Ok(v)
    }
}

/// Decode one field span: consume exactly `size` bytes and produce the
/// value `decode_field` assigns to them, or nothing where it assigns
/// nothing. Fails only when fewer than `size` bytes remain, and then
/// moves nothing.
pub fn read_next_field(size: u8, base_type: u8, endianness: Endianness, map: &mut Reader) -> (r:
    Result<Option<Value>, ErrorKind>)
    requires
        old(map).wf(),
    ensures
        final(map).data == old(map).data,
        final(map).wf(),
        match r {
            Ok(v) => old(map).can_read(size as int) && final(map).pos == old(map).pos + size
                && opt_val(v) == decode_field(
                old(map).bytes_at(size as int),
                base_type,
                endianness,
            ),
            Err(e) => e == ErrorKind::UnexpectedEof && !old(map).can_read(size as int)
                && *final(map) == *old(map),
        },
{
    if map.remaining() < size as usize {
        return Err(ErrorKind::UnexpectedEof);
    }
    let ghost bytes = map.bytes_at(size as int);
    let start = map.pos();
    if base_type == 7 {
        let mut buf: Vec<u8> = Vec::new();
        let mut i: u8 = 0;
        while i < size
            invariant
                map.wf(),
                map.data == old(map).data,
                i <= size,
                map.pos == start + i,
                start + size <= map.data@.len(),
                bytes == map.data@.subrange(start as int, start + size),
                buf@ == nonzero_prefix(bytes, i as int),
            decreases size - i,
        {
            let b = read_u8(map)?;
            proof {
                assert(map.data@[start + i] == bytes[i as int]);
            }
            if b != 0 {
                buf.push(b);
            }
            i = i + 1;
        }
        match utf8_to_string(buf) {
            Some(s) => {
                if s.as_str().is_empty() {
                    Ok(None)
                } else {
                    Ok(Some(Value::String(s)))
                }
            },
            None => Ok(None),
        }
    } else if base_type > 16 {
        skip_bytes(map, size)?;
        Ok(None)
    } else {
        let es = elem_size_of(base_type);
        let count = size / es;
        if count == 0 {
            skip_bytes(map, size)?;
            Ok(None)
        } else if count == 1 {
            proof {
                if es == 1 {
                    assert(size as int >= 1);
                } else if es == 2 {
                    assert(size as int / 2 >= 1 ==> size >= 2);
                } else if es == 4 {
                    assert(size as int / 4 >= 1 ==> size >= 4);
                } else {
                    assert(size as int / 8 >= 1 ==> size >= 8);
                }
            }
            let raw = read_raw(map, es, endianness)?;
            proof {
                assert(map.data@.subrange(start as int, start + es) =~= bytes.subrange(
                    0,
                    es as int,
                ));
            }
            skip_bytes(map, size - es)?;
            if raw == sentinel_of(base_type) {
                Ok(None)
            } else {
                Ok(Some(single_value(base_type, raw)))
            }
        } else if base_type == 2 || base_type == 13 {
            let mut vals: Vec<u8> = Vec::new();
            let mut i: u8 = 0;
            while i < count
                invariant
                    map.wf(),
                    map.data == old(map).data,
                    i <= count,
                    count == size / 1,
                    es == 1,
                    map.pos == start + i,
                    start + size <= map.data@.len(),
                    bytes == map.data@.subrange(start as int, start + size),
                    vals@ == kept_u8(bytes, endianness, i as int),
                decreases count - i,
            {
                proof {
                    assert(map.bytes_at(1) =~= bytes.subrange(i as int, i + 1));
                }
                let raw = read_raw(map, 1, endianness)?;
                if raw != 0xFF {
                    vals.push(raw as u8);
                }
                i = i + 1;
            }
            skip_bytes(map, size - count)?;
            if vals.len() == 0 {
                Ok(None)
            } else {
                Ok(Some(Value::ArrU8(vals)))
            }
        } else if base_type == 4 {
            let mut vals: Vec<u16> = Vec::new();
            let mut i: u8 = 0;
            while i < count
                invariant
                    map.wf(),
                    map.data == old(map).data,
                    i <= count,
                    count == size / 2,
                    es == 2,
                    map.pos == start + 2 * i,
                    start + size <= map.data@.len(),
                    bytes == map.data@.subrange(start as int, start + size),
                    vals@ == kept_u16(bytes, endianness, i as int),
                decreases count - i,
            {
                proof {
                    assert(map.bytes_at(2) =~= bytes.subrange(2 * i, 2 * i + 2));
                }
                let raw = read_raw(map, 2, endianness)?;
                if raw != 0xFFFF {
                    vals.push(raw as u16);
                }
                i = i + 1;
            }
            skip_bytes(map, size - 2 * count)?;
            if vals.len() == 0 {
                Ok(None)
            } else {
                Ok(Some(Value::ArrU16(vals)))
            }
        } else if base_type == 6 {
            let mut vals: Vec<u32> = Vec::new();
            let mut i: u8 = 0;
            while i < count
                invariant
                    map.wf(),
                    map.data == old(map).data,
                    i <= count,
                    count == size / 4,
                    es == 4,
                    map.pos == start + 4 * i,
                    start + size <= map.data@.len(),
                    bytes == map.data@.subrange(start as int, start + size),
                    vals@ == kept_u32(bytes, endianness, i as int),
                decreases count - i,
            {
                proof {
                    assert(map.bytes_at(4) =~= bytes.subrange(4 * i, 4 * i + 4));
                }
                let raw = read_raw(map, 4, endianness)?;
                if raw != 0xFFFF_FFFF {
                    vals.push(raw as u32);
                }
                i = i + 1;
            }
            skip_bytes(map, size - 4 * count)?;
            if vals.len() == 0 {
                Ok(None)
            } else {
                Ok(Some(Value::ArrU32(vals)))
            }
        } else {
            skip_bytes(map, size)?;
            Ok(None)
        }
    }
}

} // verus!
