use vstd::prelude::*;

use crate::developer_fields::{dev_field_def_at, DeveloperFieldDefinition};
use crate::error::ErrorKind;
use crate::field_definition::{field_def_at, FieldDefinition};
use crate::io::{num_of, read_u16, read_u8, skip_bytes, Endianness, Reader};

verus! {

/// The schema in force for one local message number: the byte order,
/// the global message number, and the ordered field layouts that every
/// data record under this local number follows. `developer_fields` is
/// present exactly when the defining header byte announced them.
#[derive(Clone, Debug, PartialEq)]
pub struct DefinitionRecord {
    pub endianness: Endianness,
    pub global_message_number: u16,
    pub field_definitions: Vec<FieldDefinition>,
    pub developer_fields: Option<Vec<DeveloperFieldDefinition>>,
}

/// The mathematical model of a definition record.
pub ghost struct DefRec {
    pub endianness: Endianness,
    pub global_message_number: u16,
    pub fields: Seq<FieldDefinition>,
    pub dev_fields: Option<Seq<DeveloperFieldDefinition>>,
}

impl View for DefinitionRecord {
    type V = DefRec;

    open spec fn view(&self) -> DefRec {
        DefRec {
            endianness: self.endianness,
            global_message_number: self.global_message_number,
            fields: self.field_definitions@,
            dev_fields: match self.developer_fields {
                Some(v) => Some(v@),
                None => None,
            },
        }
    }
}

/// The byte order a definition's endianness byte declares.
pub open spec fn endianness_of(b: u8) -> Endianness {
    if b == 1 {
        Endianness::Big
    } else {
        Endianness::Little
    }
}

/// How many bytes the definition payload at `p` occupies: reserved and
/// endianness bytes, the global message number, the field count, three
/// bytes per field, and, with developer fields, one more count and
/// three bytes per developer field.
pub open spec fn def_len(d: Seq<u8>, p: int, dev: bool) -> int {
    let n = d[p + 4];
    if dev {
        6 + 3 * n + 3 * d[p + 5 + 3 * n]
    } else {
        5 + 3 * n
    }
}

/// Whether a whole, well-formed definition payload lies at `p`: its
/// bytes are all present and its endianness byte is 0 or 1.
pub open spec fn def_ok(d: Seq<u8>, p: int, dev: bool) -> bool {
    &&& p + 5 <= d.len()
    &&& d[p + 1] == 0 || d[p + 1] == 1
    &&& p + def_len(d, p, dev) <= d.len()
}

/// The definition record encoded at `p`, meaningful when `def_ok`.
pub open spec fn def_rec(d: Seq<u8>, p: int, dev: bool) -> DefRec {
    let en = endianness_of(d[p + 1]);
    let n = d[p + 4] as int;
    DefRec {
        endianness: en,
        global_message_number: num_of(d.subrange(p + 2, p + 4), en) as u16,
        fields: Seq::new(n as nat, |i: int| field_def_at(d, p + 5 + 3 * i)),
        dev_fields: if dev {
            let m = d[p + 5 + 3 * n] as int;
            Some(Seq::new(m as nat, |i: int| dev_field_def_at(d, p + 6 + 3 * n + 3 * i)))
        } else {
            None
        },
    }
}

/// The bytes the first `n` field definitions claim of a data record.
pub open spec fn fields_size(fields: Seq<FieldDefinition>, n: int) -> int
    decreases n,
{
    if n <= 0 {
        0
    } else {
        fields_size(fields, n - 1) + fields[n - 1].size
    }
}

/// The bytes the first `n` developer field definitions claim.
pub open spec fn dev_fields_size(devs: Seq<DeveloperFieldDefinition>, n: int) -> int
    decreases n,
{
    if n <= 0 {
        0
    } else {
        dev_fields_size(devs, n - 1) + devs[n - 1].size
    }
}

/// The exact number of bytes a data record under this definition
/// occupies: the sum of every declared field and developer-field size.
pub open spec fn total_size(def: DefRec) -> int {
    fields_size(def.fields, def.fields.len() as int) + match def.dev_fields {
        Some(devs) => dev_fields_size(devs, devs.len() as int),
        None => 0,
    }
}

impl DefinitionRecord {
    /// Parse the definition payload that follows a definition header
    /// byte. `dev_fields` is that header's developer-fields bit.
    pub fn new(map: &mut Reader, dev_fields: bool) -> (r: Result<DefinitionRecord, ErrorKind>)
        requires
            old(map).wf(),
        ensures
            final(map).data == old(map).data,
            final(map).wf(),
            final(map).pos >= old(map).pos,
            match r {
                Ok(def) => {
                    let d = old(map).data@;
                    let p = old(map).pos as int;
                    &&& def_ok(d, p, dev_fields)
                    &&& def@ == def_rec(d, p, dev_fields)
                    &&& final(map).pos == p + def_len(d, p, dev_fields)
                },
                Err(e) => {
                    let d = old(map).data@;
                    let p = old(map).pos as int;
                    match e {
                        ErrorKind::InvalidEndianness => p + 2 <= d.len() && d[p + 1] != 0 && d[p
                            + 1] != 1,
                        ErrorKind::UnexpectedEof => p + 2 > d.len() || ((d[p + 1] == 0 || d[p + 1]
                            == 1) && (p + 5 > d.len() || p + def_len(d, p, dev_fields) > d.len())),
                        _ => false,
                    }
                },
            },
    {
        let ghost d = old(map).data@;
        let ghost p = old(map).pos as int;
        skip_bytes(map, 1)?;
        let en_byte = read_u8(map)?;
        let endianness = if en_byte == 1 {
            Endianness::Big
        } else if en_byte == 0 {
            Endianness::Little
        } else {
            return Err(ErrorKind::InvalidEndianness);
        };
        let global_message_number = read_u16(map, endianness)?;
        let number_of_fields = read_u8(map)?;
        let ghost n = number_of_fields as int;
        let mut buffer: Vec<FieldDefinition> = Vec::new();
        let mut i: u8 = 0;
        while i < number_of_fields
            invariant
                map.wf(),
                map.data == old(map).data,
                map.data@ == d,
                d == old(map).data@,
                p == old(map).pos as int,
                i <= number_of_fields,
                n == number_of_fields as int,
                map.pos == p + 5 + 3 * i,
                buffer@.len() == i as int,
                forall|j: int| 0 <= j < i as int ==> buffer@[j] == field_def_at(d, p + 5 + 3 * j),
                d[p + 1] == 0 || d[p + 1] == 1,
                n == d[p + 4],
            decreases number_of_fields - i,
        {
            proof {
                if !map.can_read(3) {
                    assert(p + 5 + 3 * (i as int + 1) > d.len());
                    assert(3 * (i as int + 1) <= 3 * n);
                    assert(p + def_len(d, p, dev_fields) >= p + 5 + 3 * n);
                }
            }
            let fd = FieldDefinition::new(map)?;
            buffer.push(fd);
            i = i + 1;
        }
        let developer_fields: Option<Vec<DeveloperFieldDefinition>> = if dev_fields {
            proof {
                if !map.can_read(1) {
                    assert(p + def_len(d, p, dev_fields) >= p + 6 + 3 * n);
                }
            }
            let number_of_dev_fields = read_u8(map)?;
            let ghost m = number_of_dev_fields as int;
            let mut devs: Vec<DeveloperFieldDefinition> = Vec::new();
            let mut k: u8 = 0;
            while k < number_of_dev_fields
                invariant
                    map.wf(),
                    map.data == old(map).data,
                    map.data@ == d,
                    d == old(map).data@,
                    p == old(map).pos as int,
                    dev_fields,
                    k <= number_of_dev_fields,
                    m == number_of_dev_fields as int,
                    map.pos == p + 6 + 3 * n + 3 * k,
                    p + 6 + 3 * n <= d.len(),
                    devs@.len() == k as int,
                    forall|j: int| 0 <= j < k as int ==> devs@[j] == dev_field_def_at(
                        d,
                        p + 6 + 3 * n + 3 * j,
                    ),
                    d[p + 1] == 0 || d[p + 1] == 1,
                    n == d[p + 4],
                    m == d[p + 5 + 3 * n],
                    0 <= n,
                    0 <= p,
                decreases number_of_dev_fields - k,
            {
                proof {
                    if !map.can_read(3) {
                        assert(p + 6 + 3 * n + 3 * (k as int + 1) > d.len());
                        assert(3 * (k as int + 1) <= 3 * m);
                        assert(d[p + 4] == n);
                        assert(d[p + 5 + 3 * n] == m);
                        assert(def_len(d, p, dev_fields) == 6 + 3 * n + 3 * m);
                    }
                }
                let dd = DeveloperFieldDefinition::new(map)?;
                devs.push(dd);
                k = k + 1;
            }
            Some(devs)
        } else {
            None
        };
        let def = DefinitionRecord {
            endianness,
            global_message_number,
            field_definitions: buffer,
            developer_fields,
        };
        proof {
            let spec_def = def_rec(d, p, dev_fields);
            assert(def@.fields =~= spec_def.fields);
            match def@.dev_fields {
                Some(ds) => {
                    assert(spec_def.dev_fields matches Some(sds) && ds =~= sds);
                },
                None => {},
            }
        }
        Ok(def)
    }
}

} // verus!
