use vstd::prelude::*;

verus! {

/// A decoded field value.
///
/// The `F32` and `F64` variants carry IEEE 754 bit patterns rather than
/// native floating-point values, so that every transformation the
/// decoder performs on them can be specified and verified exactly over
/// the integers. `Time` is seconds since the UNIX epoch. `Enum` holds a
/// symbol resolved from the SDK tables.
#[derive(Clone, Debug, PartialEq)]
pub enum Value {
    U8(u8),
    I8(i8),
    U16(u16),
    I16(i16),
    U32(u32),
    I32(i32),
    Enum(&'static str),
    String(String),
    F32(u32),
    F64(u64),
    I64(i64),
    U64(u64),
    Time(u32),
    ArrU8(Vec<u8>),
    ArrU16(Vec<u16>),
    ArrU32(Vec<u32>),
}

/// The mathematical model of a `Value`: text becomes a character
/// sequence and arrays become sequences.
pub ghost enum Val {
    U8(u8),
    I8(i8),
    U16(u16),
    I16(i16),
    U32(u32),
    I32(i32),
    Enum(Seq<char>),
    String(Seq<char>),
    F32(u32),
    F64(u64),
    I64(i64),
    U64(u64),
    Time(u32),
    ArrU8(Seq<u8>),
    ArrU16(Seq<u16>),
    ArrU32(Seq<u32>),
}

impl View for Value {
    type V = Val;

    open spec fn view(&self) -> Val {
        match self {
            Value::U8(v) => Val::U8(*v),
            Value::I8(v) => Val::I8(*v),
            Value::U16(v) => Val::U16(*v),
            Value::I16(v) => Val::I16(*v),
            Value::U32(v) => Val::U32(*v),
            Value::I32(v) => Val::I32(*v),
            Value::Enum(s) => Val::Enum(s@),
            Value::String(s) => Val::String(s@),
            Value::F32(v) => Val::F32(*v),
            Value::F64(v) => Val::F64(*v),
            Value::I64(v) => Val::I64(*v),
            Value::U64(v) => Val::U64(*v),
            Value::Time(v) => Val::Time(*v),
            Value::ArrU8(v) => Val::ArrU8(v@),
            Value::ArrU16(v) => Val::ArrU16(v@),
            Value::ArrU32(v) => Val::ArrU32(v@),
        }
    }
}

/// The model of an optional value.
pub open spec fn opt_val(v: Option<Value>) -> Option<Val> {
    match v {
        Some(x) => Some(x@),
        None => None,
    }
}

} // verus!
