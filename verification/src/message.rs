use vstd::prelude::*;

use crate::data_field::{DataField, DevDataField};
use crate::developer_fields::{field_lookup, fields_view};
use crate::sdk::MessageType;
use crate::value::Value;

verus! {

/// One decoded, post-processed message: its resolved type, its
/// standard fields in declaration order, and its developer fields,
/// present exactly when the definition in force declared any.
#[derive(Clone, Debug, PartialEq)]
pub struct Message {
    pub kind: MessageType,
    pub values: Vec<DataField>,
    pub dev_values: Option<Vec<DevDataField>>,
}

impl Message {
    /// The first value carried by field number `num`, if any.
    pub fn get_value(&self, num: u8) -> (r: Option<&Value>)
        ensures
            match r {
                Some(v) => field_lookup(fields_view(self.values@), num) == Some(v@),
                None => field_lookup(fields_view(self.values@), num) is None,
            },
    {
        let values = &self.values;
        let mut i: usize = 0;
        proof {
            assert(values@.skip(0) =~= values@);
        }
        while i < values.len()
            invariant
                values@ == self.values@,
                i <= values@.len(),
                field_lookup(fields_view(values@), num) == field_lookup(
                    fields_view(values@.skip(i as int)),
                    num,
                ),
            decreases values@.len() - i,
        {
            proof {
                assert(fields_view(values@.skip(i as int)).drop_first() =~= fields_view(
                    values@.skip(i + 1),
                ));
            }
            if values[i].field_num == num {
                return Some(&values[i].value);
            }
            i = i + 1;
        }
        proof {
            assert(fields_view(values@.skip(i as int)).len() == 0);
        }
        None
    }
}

} // verus!
