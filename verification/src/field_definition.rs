use vstd::prelude::*;

use crate::error::ErrorKind;
use crate::io::{read_u8, Reader};

verus! {

/// One entry of a definition record: which field, how many bytes its
/// span takes in a data record, and its wire base type.
///
/// Only the low five bits of the third byte name the base type; the
/// high bit merely repeats whether the type is multi-byte.
#[derive(Clone, Copy, Debug, PartialEq, Eq, Structural)]
pub struct FieldDefinition {
    pub definition_number: u8,
    pub size: u8,
    pub base_type: u8,
}

/// The field definition encoded by the three bytes of `d` at `p`.
pub open spec fn field_def_at(d: Seq<u8>, p: int) -> FieldDefinition {
    FieldDefinition {
        definition_number: d[p],
        size: d[p + 1],
        base_type: d[p + 2] & 0x1F,
    }
}

impl FieldDefinition {
    pub fn new(map: &mut Reader) -> (r: Result<FieldDefinition, ErrorKind>)
        requires
            old(map).wf(),
        ensures
            final(map).data == old(map).data,
            final(map).wf(),
            match r {
                Ok(fd) => old(map).can_read(3) && final(map).pos == old(map).pos + 3
                    && fd == field_def_at(old(map).data@, old(map).pos as int),
                Err(e) => e == ErrorKind::UnexpectedEof && !old(map).can_read(3)
                    && *final(map) == *old(map),
            },
    {
        if map.remaining() < 3 {
            return Err(ErrorKind::UnexpectedEof);
        }
        let definition_number = read_u8(map)?;
        let size = read_u8(map)?;
        let b2 = read_u8(map)?;
        Ok(FieldDefinition { definition_number, size, base_type: b2 & 0x1F })
    }
}

} // verus!
