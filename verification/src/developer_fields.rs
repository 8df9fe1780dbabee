use vstd::prelude::*;

use crate::data_field::DataField;
use crate::error::ErrorKind;
use crate::io::{read_u8, Reader};
use crate::value::{Val, Value};

verus! {

/// One developer-field entry of a definition record. It is resolved
/// against the registry of `FieldDescription` messages seen so far.
#[derive(Clone, Copy, Debug, PartialEq, Eq, Structural)]
pub struct DeveloperFieldDefinition {
    pub field_number: u8,
    pub size: u8,
    pub developer_data_index: u8,
}

/// The developer field definition encoded by the three bytes of `d` at `p`.
pub open spec fn dev_field_def_at(d: Seq<u8>, p: int) -> DeveloperFieldDefinition {
    DeveloperFieldDefinition {
        field_number: d[p],
        size: d[p + 1],
        developer_data_index: d[p + 2],
    }
}

impl DeveloperFieldDefinition {
    pub fn new(map: &mut Reader) -> (r: Result<DeveloperFieldDefinition, ErrorKind>)
        requires
            old(map).wf(),
        ensures
            final(map).data == old(map).data,
            final(map).wf(),
            match r {
                Ok(fd) => old(map).can_read(3) && final(map).pos == old(map).pos + 3
                    && fd == dev_field_def_at(old(map).data@, old(map).pos as int),
                Err(e) => e == ErrorKind::UnexpectedEof && !old(map).can_read(3)
                    && *final(map) == *old(map),
            },
    {
        if map.remaining() < 3 {
            return Err(ErrorKind::UnexpectedEof);
        }
        let field_number = read_u8(map)?;
        let size = read_u8(map)?;
        let developer_data_index = read_u8(map)?;
        Ok(DeveloperFieldDefinition { field_number, size, developer_data_index })
    }
}

/// A fully decoded `FieldDescription` message: the in-band schema of
/// one developer field, registered for later data records.
#[derive(Clone, Debug, PartialEq)]
pub struct DeveloperFieldDescription {
    pub developer_data_index: u8,
    pub field_definition_number: u8,
    pub fit_base_type: u8,
    pub field_name: String,
    pub units: String,
}

/// The first value in `values` carried by field number `num`, if any.
pub open spec fn field_lookup(values: Seq<(u8, Val)>, num: u8) -> Option<Val>
    decreases values.len(),
{
    if values.len() == 0 {
        None
    } else if values[0].0 == num {
        Some(values[0].1)
    } else {
        field_lookup(values.drop_first(), num)
    }
}

/// The model of `values`: each data field as its field number and value.
pub open spec fn fields_view(values: Seq<DataField>) -> Seq<(u8, Val)> {
    values.map_values(|df: DataField| (df.field_num, df.value@))
}

/// Whether a decoded `FieldDescription` payload carries everything a
/// registry entry needs: a `U8` in fields 0, 1 and 2 and text in field 3.
pub open spec fn describes_dev_field(values: Seq<(u8, Val)>) -> bool {
    &&& field_lookup(values, 0) matches Some(v) && v is U8
    &&& field_lookup(values, 1) matches Some(v) && v is U8
    &&& field_lookup(values, 2) matches Some(v) && v is U8
    &&& field_lookup(values, 3) matches Some(v) && (v is String || v is Enum)
}

/// The text carried by a `String` or `Enum` value.
pub open spec fn text_of(v: Val) -> Seq<char> {
    match v {
        Val::String(s) => s,
        Val::Enum(s) => s,
        _ => Seq::empty(),
    }
}

impl DeveloperFieldDescription {
    /// Build a registry entry from the decoded values of a
    /// `FieldDescription` message: field 0 is the developer data index,
    /// 1 the field definition number, 2 the base type, 3 the name and 8
    /// the units (optional, empty when missing). A payload that lacks
    /// any of the first four, or carries it with the wrong shape,
    /// describes nothing and yields `None`.
    pub fn new(values: &Vec<DataField>) -> (r: Option<DeveloperFieldDescription>)
        ensures
            match r {
                Some(d) => {
                    let vs = fields_view(values@);
                    &&& describes_dev_field(vs)
                    &&& Some(Val::U8(d.developer_data_index)) == field_lookup(vs, 0)
                    &&& Some(Val::U8(d.field_definition_number)) == field_lookup(vs, 1)
                    &&& Some(Val::U8(d.fit_base_type)) == field_lookup(vs, 2)
                    &&& d.field_name@ == text_of(field_lookup(vs, 3).unwrap())
                    &&& d.units@ == match field_lookup(vs, 8) {
                        Some(v) => if v is String || v is Enum {
                            text_of(v)
                        } else {
                            Seq::<char>::empty()
                        },
                        None => Seq::<char>::empty(),
                    }
                },
                None => !describes_dev_field(fields_view(values@)),
            },
    {
        let developer_data_index = match Self::find(values, 0) {
            Some(Value::U8(v)) => *v,
            _ => {
                return None;
            },
        };
        let field_definition_number = match Self::find(values, 1) {
            Some(Value::U8(v)) => *v,
            _ => {
                return None;
            },
        };
        let fit_base_type = match Self::find(values, 2) {
            Some(Value::U8(v)) => *v,
            _ => {
                return None;
            },
        };
        let field_name = match Self::find(values, 3) {
            Some(Value::String(s)) => s.clone(),
            Some(Value::Enum(s)) => (*s).to_owned(),
            _ => {
                return None;
            },
        };
        let units = match Self::find(values, 8) {
            Some(Value::String(s)) => s.clone(),
            Some(Value::Enum(s)) => (*s).to_owned(),
            _ => String::new(),
        };
        Some(
            DeveloperFieldDescription {
                developer_data_index,
                field_definition_number,
                fit_base_type,
                field_name,
                units,
            },
        )
    }

    /// The first value carried by field number `num`.
    fn find(values: &Vec<DataField>, num: u8) -> (r: Option<&Value>)
        ensures
            match r {
                Some(v) => field_lookup(fields_view(values@), num) == Some(v@),
                None => field_lookup(fields_view(values@), num) is None,
            },
    {
        let mut i: usize = 0;
        proof {
            assert(values@.skip(0) =~= values@);
        }
        while i < values.len()
            invariant
                i <= values@.len(),
                field_lookup(fields_view(values@), num) == field_lookup(
                    fields_view(values@.skip(i as int)),
                    num,
                ),
            decreases values@.len() - i,
        {
            proof {
                assert(fields_view(values@.skip(i as int)).drop_first() =~= fields_view(
                    values@.skip(i + 1),
                ));
            }
            if values[i].field_num == num {
                return Some(&values[i].value);
            }
            i = i + 1;
        }
        proof {
            assert(fields_view(values@.skip(i as int)).len() == 0);
        }
        None
    }
}

} // verus!
