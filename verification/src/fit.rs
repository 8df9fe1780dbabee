use vstd::math::max;
use vstd::pervasive::VecAdditionalExecFns;
use vstd::prelude::*;

use crate::data_field::{decode_field, read_next_field, DataField, DevDataField};
use crate::definition_record::{
    def_len, def_ok, def_rec, dev_fields_size, fields_size, total_size, DefRec, DefinitionRecord,
};
use crate::developer_fields::{
    describes_dev_field, field_lookup, fields_view, text_of, DeveloperFieldDefinition,
    DeveloperFieldDescription,
};
use crate::error::ErrorKind;
use crate::field_definition::FieldDefinition;
use crate::file_header::FileHeader;
use crate::header_byte::{header_of, HeaderByte};
use crate::io::{skip_bytes, Endianness, Reader};
use crate::message::Message;
use crate::process::{post_process, process_value, PSEUDO_EPOCH, wrap_add32};
use crate::sdk::{
    field_type_of, get_field_type, get_message_timestamp_field, get_message_type, message_type_of,
    timestamp_field_of, FieldType, MessageType,
};
use crate::value::{Val, Value};

verus! {

/// The first registered description matching a developer field's
/// `(developer data index, field number)` pair.
pub open spec fn find_desc(
    descs: Seq<DeveloperFieldDescription>,
    ddi: u8,
    fnum: u8,
) -> Option<DeveloperFieldDescription>
    decreases descs.len(),
{
    if descs.len() == 0 {
        None
    } else if descs[0].developer_data_index == ddi && descs[0].field_definition_number == fnum {
        Some(descs[0])
    } else {
        find_desc(descs.drop_first(), ddi, fnum)
    }
}

/// The standard fields the first `n` field definitions decode from the
/// spans that start at `p`: each span is read under the definition's
/// byte order, and absent values leave no entry.
pub open spec fn decoded_fields(
    d: Seq<u8>,
    p: int,
    fields: Seq<FieldDefinition>,
    n: int,
    en: Endianness,
) -> Seq<(u8, Val)>
    decreases n,
{
    if n <= 0 {
        Seq::empty()
    } else {
        let init = decoded_fields(d, p, fields, n - 1, en);
        let fd = fields[n - 1];
        let off = p + fields_size(fields, n - 1);
        match decode_field(d.subrange(off, off + fd.size), fd.base_type, en) {
            Some(v) => init.push((fd.definition_number, v)),
            None => init,
        }
    }
}

/// The developer fields the first `n` developer field definitions
/// decode from the spans that start at `p`. A definition with no
/// matching description consumes its span and yields nothing; a
/// matching one reads its span under the described base type.
pub open spec fn decoded_dev_fields(
    d: Seq<u8>,
    p: int,
    devs: Seq<DeveloperFieldDefinition>,
    n: int,
    en: Endianness,
    descs: Seq<DeveloperFieldDescription>,
) -> Seq<(u8, u8, Val)>
    decreases n,
{
    if n <= 0 {
        Seq::empty()
    } else {
        let init = decoded_dev_fields(d, p, devs, n - 1, en, descs);
        let dd = devs[n - 1];
        let off = p + dev_fields_size(devs, n - 1);
        match find_desc(descs, dd.developer_data_index, dd.field_number) {
            Some(desc) => match decode_field(
                d.subrange(off, off + dd.size),
                desc.fit_base_type,
                en,
            ) {
                Some(v) => init.push((dd.developer_data_index, dd.field_number, v)),
                None => init,
            },
            None => init,
        }
    }
}

/// The model of a developer value list.
pub open spec fn dev_fields_view(values: Seq<DevDataField>) -> Seq<(u8, u8, Val)> {
    values.map_values(|df: DevDataField| (df.data_index, df.field_num, df.value@))
}

/// Prefix sums of declared field sizes never shrink.
pub proof fn lemma_fields_size_mono(fields: Seq<FieldDefinition>, i: int, j: int)
    requires
        0 <= i <= j,
    ensures
        0 <= fields_size(fields, i) <= fields_size(fields, j),
    decreases j,
{
    if 0 < j {
        if i < j {
            lemma_fields_size_mono(fields, i, j - 1);
        } else {
            lemma_fields_size_mono(fields, 0, j - 1);
        }
    }
}

/// Prefix sums of declared developer field sizes never shrink.
pub proof fn lemma_dev_fields_size_mono(devs: Seq<DeveloperFieldDefinition>, i: int, j: int)
    requires
        0 <= i <= j,
    ensures
        0 <= dev_fields_size(devs, i) <= dev_fields_size(devs, j),
    decreases j,
{
    if 0 < j {
        if i < j {
            lemma_dev_fields_size_mono(devs, i, j - 1);
        } else {
            lemma_dev_fields_size_mono(devs, 0, j - 1);
        }
    }
}

/// The first registered description for this pair, by linear search.
fn find_description(descs: &Vec<DeveloperFieldDescription>, ddi: u8, fnum: u8) -> (r: Option<
    &DeveloperFieldDescription,
>)
    ensures
        match r {
            Some(x) => find_desc(descs@, ddi, fnum) == Some(*x),
            None => find_desc(descs@, ddi, fnum) is None,
        },
{
    let mut i: usize = 0;
    proof {
        assert(descs@.skip(0) =~= descs@);
    }
    while i < descs.len()
        invariant
            i <= descs@.len(),
            find_desc(descs@, ddi, fnum) == find_desc(descs@.skip(i as int), ddi, fnum),
        decreases descs@.len() - i,
    {
        proof {
            assert(descs@.skip(i as int).drop_first() =~= descs@.skip(i + 1));
        }
        if descs[i].developer_data_index == ddi && descs[i].field_definition_number == fnum {
            return Some(&descs[i]);
        }
        i = i + 1;
    }
    None
}

/// Whether a definition keeps its declared counts inside one byte, as
/// every parsed definition does.
pub open spec fn def_bounded(dr: DefinitionRecord) -> bool {
    &&& dr.field_definitions@.len() <= 255
    &&& match dr.developer_fields {
        Some(v) => v@.len() <= 255,
        None => true,
    }
}

/// Decode the payload of one data record under `def`: every standard
/// field in order, then every developer field. Exactly
/// `total_size(def)` bytes are consumed whatever the values hold, so
/// the stream stays aligned; fewer available bytes fail the decode and
/// move nothing.
pub fn read_data_record(
    def: &DefinitionRecord,
    map: &mut Reader,
    developer_fields: &Vec<DeveloperFieldDescription>,
) -> (r: Result<(Vec<DataField>, Option<Vec<DevDataField>>), ErrorKind>)
    requires
        old(map).wf(),
        def_bounded(*def),
    ensures
        final(map).data == old(map).data,
        final(map).wf(),
        match r {
            Ok((values, devs)) => {
                let d = old(map).data@;
                let p = old(map).pos as int;
                let nf = def@.fields.len() as int;
                &&& old(map).can_read(total_size(def@))
                &&& final(map).pos == p + total_size(def@)
                &&& fields_view(values@) == decoded_fields(d, p, def@.fields, nf, def@.endianness)
                &&& match (devs, def@.dev_fields) {
                    (Some(dv), Some(dd)) => dev_fields_view(dv@) == decoded_dev_fields(
                        d,
                        p + fields_size(def@.fields, nf),
                        dd,
                        dd.len() as int,
                        def@.endianness,
                        developer_fields@,
                    ),
                    (None, None) => true,
                    _ => false,
                }
            },
            Err(e) => e == ErrorKind::UnexpectedEof && !old(map).can_read(total_size(def@))
                && *final(map) == *old(map),
        },
{
    let ghost d = old(map).data@;
    let ghost p = old(map).pos as int;
    let ghost fields = def@.fields;
    let nf = def.field_definitions.len();

    // the whole record must be present before anything moves
    let mut total: u64 = 0;
    let mut i: usize = 0;
    while i < nf
        invariant
            i <= nf,
            nf == fields.len(),
            fields == def@.fields,
            nf <= 255,
            total == fields_size(fields, i as int),
            total <= 255 * i,
        decreases nf - i,
    {
        total = total + def.field_definitions[i].size as u64;
        i = i + 1;
    }
    let dev_total: u64 = match &def.developer_fields {
        Some(dev_defs) => {
            let ghost devs = dev_defs@;
            let mut t: u64 = 0;
            let mut k: usize = 0;
            while k < dev_defs.len()
                invariant
                    k <= dev_defs@.len(),
                    devs == dev_defs@,
                    devs.len() <= 255,
                    t == dev_fields_size(devs, k as int),
                    t <= 255 * k,
                decreases dev_defs@.len() - k,
            {
                t = t + dev_defs[k].size as u64;
                k = k + 1;
            }
            t
        },
        None => 0,
    };
    proof {
        assert(total + dev_total == total_size(def@));
    }
    if (map.remaining() as u64) < total + dev_total {
        return Err(ErrorKind::UnexpectedEof);
    }

    let mut values: Vec<DataField> = Vec::new();
    let mut i: usize = 0;
    while i < nf
        invariant
            map.wf(),
            map.data == old(map).data,
            map.data@ == d,
            d == old(map).data@,
            p == old(map).pos as int,
            i <= nf,
            nf == fields.len(),
            fields == def@.fields,
            def_bounded(*def),
            map.pos == p + fields_size(fields, i as int),
            p + total_size(def@) <= d.len(),
            total_size(def@) == fields_size(fields, nf as int) + (match def@.dev_fields {
                Some(dd) => dev_fields_size(dd, dd.len() as int),
                None => 0int,
            }),
            fields_view(values@) == decoded_fields(d, p, fields, i as int, def@.endianness),
        decreases nf - i,
    {
        let fd = def.field_definitions[i];
        proof {
            lemma_fields_size_mono(fields, i + 1, nf as int);
            match def@.dev_fields {
                Some(dd) => {
                    lemma_dev_fields_size_mono(dd, 0, dd.len() as int);
                },
                None => {},
            }
            assert(map.pos + fd.size <= d.len());
        }
        let ghost before = values@;
        let v = read_next_field(fd.size, fd.base_type, def.endianness, map)?;
        match v {
            Some(x) => {
                values.push(DataField::new(fd.definition_number, x));
                proof {
                    assert(fields_view(values@) =~= fields_view(before).push(
                        (fd.definition_number, values@.last().value@),
                    ));
                }
            },
            None => {},
        }
        i = i + 1;
    }

    let ghost after_fields = p + fields_size(fields, nf as int);
    let dev_values: Option<Vec<DevDataField>> = match &def.developer_fields {
        Some(dev_defs) => {
            let ghost devs = dev_defs@;
            let nd = dev_defs.len();
            let mut dv: Vec<DevDataField> = Vec::new();
            let mut k: usize = 0;
            while k < nd
                invariant
                    map.wf(),
                    map.data == old(map).data,
                    map.data@ == d,
                    d == old(map).data@,
                    p == old(map).pos as int,
                    k <= nd,
                    nd == devs.len(),
                    devs == dev_defs@,
                    def@.dev_fields == Some(devs),
                    fields == def@.fields,
                    after_fields == p + fields_size(fields, fields.len() as int),
                    map.pos == after_fields + dev_fields_size(devs, k as int),
                    p + total_size(def@) <= d.len(),
                    total_size(def@) == fields_size(fields, fields.len() as int)
                        + dev_fields_size(devs, devs.len() as int),
                    dev_fields_view(dv@) == decoded_dev_fields(
                        d,
                        after_fields,
                        devs,
                        k as int,
                        def@.endianness,
                        developer_fields@,
                    ),
                decreases nd - k,
            {
                let dd = dev_defs[k];
                proof {
                    lemma_dev_fields_size_mono(devs, k + 1, nd as int);
                    assert(map.pos + dd.size <= d.len());
                }
                let ghost before = dv@;
                match find_description(developer_fields, dd.developer_data_index, dd.field_number) {
                    Some(desc) => {
                        let bt = desc.fit_base_type;
                        let v = read_next_field(dd.size, bt, def.endianness, map)?;
                        match v {
                            Some(x) => {
                                dv.push(
                                    DevDataField::new(dd.developer_data_index, dd.field_number, x),
                                );
                                proof {
                                    assert(dev_fields_view(dv@) =~= dev_fields_view(before).push(
                                        (
                                            dd.developer_data_index,
                                            dd.field_number,
                                            dv@.last().value@,
                                        ),
                                    ));
                                }
                            },
                            None => {},
                        }
                    },
                    None => {
                        skip_bytes(map, dd.size)?;
                    },
                }
                k = k + 1;
            }
            Some(dv)
        },
        None => None,
    };
    Ok((values, dev_values))
}

/// The absolute timestamp a compressed header reconstructs: the five
/// offset bits replace the low bits of the last absolute timestamp,
/// rolling forward by 32 seconds when they would otherwise step back.
pub open spec fn reconstructed_timestamp(last: u32, off: u8) -> u32 {
    let base = (last & 0xFFFF_FFE0) | (off as u32);
    wrap_add32(
        base as nat,
        if (off as u32) < (last & 0x1F) {
            32nat
        } else {
            0nat
        },
    )
}

/// Reconstruct an absolute timestamp (in FIT-epoch seconds) from the
/// last seen one and a compressed header's five-bit offset.
pub fn compressed_timestamp_value(last: u32, off: u8) -> (r: u32)
    ensures
        r == reconstructed_timestamp(last, off),
{
    let base: u32 = (last & 0xFFFF_FFE0) | (off as u32);
    let roll: u64 = if (off as u32) < (last & 0x1F) {
        32
    } else {
        0
    };
    let t: u64 = base as u64 + roll;
    (t % 0x1_0000_0000) as u32
}

/// The fields that survive the semantic pass over the first `n` raw
/// values, in order.
pub open spec fn processed_values(mt: MessageType, vs: Seq<(u8, Val)>, n: int) -> Seq<(u8, Val)>
    decreases n,
{
    if n <= 0 {
        Seq::empty()
    } else {
        let init = processed_values(mt, vs, n - 1);
        match post_process(mt, vs[n - 1].0, vs[n - 1].1) {
            Some(v) => init.push((vs[n - 1].0, v)),
            None => init,
        }
    }
}

/// The last absolute timestamp after the semantic pass over the first
/// `n` raw values: each raw `U32` in a slot the profile types as the
/// timestamp overwrites it.
pub open spec fn updated_timestamp(mt: MessageType, vs: Seq<(u8, Val)>, n: int, last: u32) -> u32
    decreases n,
{
    if n <= 0 {
        last
    } else {
        let prev = updated_timestamp(mt, vs, n - 1, last);
        if field_type_of(mt, vs[n - 1].0) == FieldType::Timestamp && vs[n - 1].1 is U32 {
            vs[n - 1].1->U32_0
        } else {
            prev
        }
    }
}

/// A whole FIT stream being decoded: the parsed file header, the
/// cursor over the bytes, the end of the data section, the sixteen
/// definition slots, the developer-field registry, and the last
/// absolute timestamp seen.
pub struct Fit {
    pub file_header: FileHeader,
    pub buf: Reader,
    pub data_len: u64,
    pub queue: Vec<Option<DefinitionRecord>>,
    pub developer_fields: Vec<DeveloperFieldDescription>,
    pub last_timestamp: u32,
}

impl Fit {
    /// The cursor stays inside the bytes, all sixteen definition slots
    /// exist, and every stored definition keeps byte-sized counts.
    pub open spec fn wf(self) -> bool {
        &&& self.buf.wf()
        &&& self.queue@.len() == 16
        &&& forall|i: int|
            0 <= i < 16 ==> ((#[trigger] self.queue@[i]) matches Some(dr) ==> def_bounded(dr))
    }

    /// The definition in force for a local message number.
    pub open spec fn slot(self, ln: u8) -> Option<DefRec> {
        match self.queue@[ln as int] {
            Some(dr) => Some(dr@),
            None => None,
        }
    }

    /// Start decoding a byte view of a whole FIT file: parse the file
    /// header and stand ready at the first record, with empty
    /// definition slots and an empty developer-field registry.
    pub fn new(data: Vec<u8>) -> (r: Result<Fit, ErrorKind>)
        ensures
            match r {
                Ok(f) => {
                    &&& f.wf()
                    &&& f.buf.data@ == data@
                    &&& crate::file_header::header_ok(data@, 0)
                    &&& f.file_header == crate::file_header::header_rec(data@, 0)
                    &&& f.buf.pos == crate::file_header::header_len(data@[0])
                    &&& f.data_len == f.file_header.filesize + f.file_header.num_record_bytes
                    &&& forall|i: int| 0 <= i < 16 ==> f.queue@[i] is None
                    &&& f.developer_fields@.len() == 0
                    &&& f.last_timestamp == 0
                },
                Err(e) => match e {
                    ErrorKind::UnexpectedEof => data@.len() < 1 || data@.len()
                        < crate::file_header::header_len(data@[0]),
                    ErrorKind::InvalidSignature => data@.len() >= 12 && data@.subrange(8, 12)
                        != crate::file_header::fit_signature(),
                    _ => false,
                },
            },
    {
        let mut buf = Reader::new(data);
        let fh = FileHeader::new(&mut buf)?;
        let data_len = fh.file_length();
        let mut queue: Vec<Option<DefinitionRecord>> = Vec::new();
        let mut i: usize = 0;
        while i < 16
            invariant
                i <= 16,
                queue@.len() == i,
                forall|j: int| 0 <= j < i as int ==> queue@[j] is None,
            decreases 16 - i,
        {
            queue.push(None);
            i = i + 1;
        }
        Ok(
            Fit {
                file_header: fh,
                buf,
                data_len,
                queue,
                developer_fields: Vec::new(),
                last_timestamp: 0,
            },
        )
    }

    pub fn file_header(&self) -> (r: &FileHeader)
        ensures
            r == self.file_header,
    {
        &self.file_header
    }

    /// Install a definition for a local message number, wholly
    /// replacing whatever definition that slot held: data records at
    /// this local number decode under the new schema alone, and every
    /// other slot keeps its definition.
    pub fn store_definition(&mut self, local_num: u8, def: DefinitionRecord)
        requires
            old(self).wf(),
            local_num < 16,
            def_bounded(def),
        ensures
            final(self).wf(),
            final(self).slot(local_num) == Some(def@),
            forall|ln: u8| ln < 16 && ln != local_num ==> final(self).slot(ln) == old(self).slot(
                ln,
            ),
            final(self).buf == old(self).buf,
            final(self).file_header == old(self).file_header,
            final(self).data_len == old(self).data_len,
            final(self).developer_fields == old(self).developer_fields,
            final(self).last_timestamp == old(self).last_timestamp,
    {
        self.queue.set(local_num as usize, Some(def));
    }

    /// Decode up to the next user-visible message.
    ///
    /// Definition records update their slot and `FieldDescription`
    /// messages update the developer-field registry; neither is
    /// emitted. Records of unknown type, and records where no raw value
    /// survived at all, standard or developer, are skipped, the cursor
    /// advancing by exactly each record's declared size. `Ok(None)` means the data section is exhausted. A
    /// missing definition, a bad endianness byte and a truncated stream
    /// are fatal.
    pub fn next(&mut self) -> (r: Result<Option<Message>, ErrorKind>)
        requires
            old(self).wf(),
        ensures
            final(self).wf(),
            final(self).buf.data == old(self).buf.data,
            final(self).file_header == old(self).file_header,
            final(self).data_len == old(self).data_len,
            final(self).buf.pos >= old(self).buf.pos,
            match r {
                Ok(m) => match m {
                    Some(msg) => msg.kind != MessageType::FieldDescription && msg.kind
                        != MessageType::Unknown && final(self).buf.pos > old(self).buf.pos,
                    None => final(self).buf.pos >= final(self).data_len,
                },
                Err(e) => {
                    // the cursor stands at the record that failed, and the
                    // error's own condition holds of it there
                    let d = final(self).buf.data@;
                    let q = final(self).buf.pos as int;
                    let q1 = q + 1;
                    let h = header_of(d[q]);
                    &&& q < final(self).data_len
                    &&& match e {
                        ErrorKind::UnexpectedEof => q + 1 > d.len() || (h.definition && (q1 + 2
                            > d.len() || ((d[q1 + 1] == 0 || d[q1 + 1] == 1) && (q1 + 5 > d.len()
                            || q1 + def_len(d, q1, h.dev_fields) > d.len())))) || (!h.definition
                            && final(self).slot(h.local_num) is Some && q1 + total_size(
                            final(self).slot(h.local_num).unwrap(),
                        ) > d.len()),
                        ErrorKind::InvalidEndianness => q < d.len() && h.definition && q1 + 2
                            <= d.len() && d[q1 + 1] != 0 && d[q1 + 1] != 1,
                        ErrorKind::MissingDefinition(l) => q < d.len() && !h.definition && l
                            == h.local_num && final(self).slot(h.local_num) is None,
                        _ => false,
                    }
                },
            },
    {
        loop
            invariant
                self.wf(),
                self.buf.data == old(self).buf.data,
                self.file_header == old(self).file_header,
                self.data_len == old(self).data_len,
                self.buf.pos >= old(self).buf.pos,
            decreases max(0, self.data_len - self.buf.pos),
        {
            match self.step()? {
                Step::Message(m) => {
                    return Ok(Some(m));
                },
                Step::End => {
                    return Ok(None);
                },
                Step::Definition => {},
                Step::Skipped => {},
            }
        }
    }

    /// Consume exactly one record.
    ///
    /// The record at the cursor is classified and handled whole: a
    /// definition updates its slot, a `FieldDescription` payload feeds
    /// the developer-field registry, a record with no surviving value
    /// or an unknown type is dropped, and anything else becomes a
    /// message. The contract below pins each case to the byte-level
    /// decode functions, so one call's behaviour is determined by the
    /// bytes and the decoder state alone.
    pub fn step(&mut self) -> (r: Result<Step, ErrorKind>)
        requires
            old(self).wf(),
        ensures
            final(self).wf(),
            final(self).buf.data == old(self).buf.data,
            final(self).file_header == old(self).file_header,
            final(self).data_len == old(self).data_len,
            final(self).buf.pos >= old(self).buf.pos,
            match r {
                Ok(s) => s is End || final(self).buf.pos > old(self).buf.pos,
                Err(e) => true,
            },
            ({
                let d = old(self).buf.data@;
                let p = old(self).buf.pos as int;
                let p1 = p + 1;
                let h = header_of(d[p]);
                match r {
                    Ok(step) => match step {
                        Step::End => p >= old(self).data_len && *final(self) == *old(self),
                        Step::Definition => {
                            &&& p < old(self).data_len
                            &&& p < d.len()
                            &&& h.definition
                            &&& def_ok(d, p1, h.dev_fields)
                            &&& final(self).slot(h.local_num) == Some(
                                def_rec(d, p1, h.dev_fields),
                            )
                            &&& forall|l: u8|
                                l < 16 && l != h.local_num ==> final(self).slot(l) == old(
                                    self,
                                ).slot(l)
                            &&& final(self).buf.pos == p1 + def_len(d, p1, h.dev_fields)
                            &&& final(self).developer_fields == old(self).developer_fields
                            &&& final(self).last_timestamp == old(self).last_timestamp
                        },
                        Step::Skipped => {
                            &&& p < old(self).data_len
                            &&& p < d.len()
                            &&& !h.definition
                            &&& old(self).slot(h.local_num) is Some
                            &&& {
                                let defv = old(self).slot(h.local_num).unwrap();
                                let raws = raw_values_at(d, p1, defv);
                                let mt = message_type_of(defv.global_message_number);
                                &&& final(self).buf.pos == p1 + total_size(defv)
                                &&& final(self).queue == old(self).queue
                                &&& final(self).last_timestamp == old(self).last_timestamp
                                &&& if mt == MessageType::FieldDescription {
                                    registered(
                                        old(self).developer_fields@,
                                        final(self).developer_fields@,
                                        raws,
                                    )
                                } else {
                                    &&& final(self).developer_fields == old(
                                        self,
                                    ).developer_fields
                                    &&& mt == MessageType::Unknown || (raws.len() == 0
                                        && no_dev_values(dev_values_at(d, p1, defv, old(self).developer_fields@)))
                                }
                            }
                        },
                        Step::Message(m) => {
                            &&& p < old(self).data_len
                            &&& p < d.len()
                            &&& !h.definition
                            &&& old(self).slot(h.local_num) is Some
                            &&& {
                                let defv = old(self).slot(h.local_num).unwrap();
                                let raws = raw_values_at(d, p1, defv);
                                let mt = message_type_of(defv.global_message_number);
                                &&& mt != MessageType::FieldDescription
                                &&& mt != MessageType::Unknown
                                &&& m.kind == mt
                                &&& final(self).buf.pos == p1 + total_size(defv)
                                &&& final(self).queue == old(self).queue
                                &&& final(self).developer_fields == old(self).developer_fields
                                &&& final(self).last_timestamp == updated_timestamp(
                                    mt,
                                    raws,
                                    raws.len() as int,
                                    old(self).last_timestamp,
                                )
                                &&& fields_view(m.values@) == emitted_values(
                                    mt,
                                    raws,
                                    old(self).last_timestamp,
                                    h,
                                )
                                &&& match (m.dev_values, dev_values_at(
                                    d,
                                    p1,
                                    defv,
                                    old(self).developer_fields@,
                                )) {
                                    (Some(dv), Some(s)) => dev_fields_view(dv@) == s,
                                    (None, None) => true,
                                    _ => false,
                                }
                            }
                        },
                    },
                    Err(e) => {
                        &&& *final(self) == *old(self)
                        &&& p < old(self).data_len
                        &&& match e {
                            ErrorKind::UnexpectedEof => p + 1 > d.len() || (h.definition && (p1
                                + 2 > d.len() || ((d[p1 + 1] == 0 || d[p1 + 1] == 1) && (p1 + 5
                                > d.len() || p1 + def_len(d, p1, h.dev_fields) > d.len())))) || (
                            !h.definition && old(self).slot(h.local_num) is Some && p1
                                + total_size(old(self).slot(h.local_num).unwrap()) > d.len()),
                            ErrorKind::InvalidEndianness => p < d.len() && h.definition && p1 + 2
                                <= d.len() && d[p1 + 1] != 0 && d[p1 + 1] != 1,
                            ErrorKind::MissingDefinition(l) => p < d.len() && !h.definition && l
                                == h.local_num && old(self).slot(h.local_num) is None,
                            _ => false,
                        }
                    },
                }
            }),
    {
        if self.buf.pos() as u64 >= self.data_len {
            return Ok(Step::End);
        }
        let start = self.buf.pos();
        let ghost hb = self.buf.data@[self.buf.pos as int];
        let h = HeaderByte::new(&mut self.buf)?;
        proof {
            crate::header_byte::lemma_header_bounds(hb);
        }
        if h.definition {
            let def = match DefinitionRecord::new(&mut self.buf, h.dev_fields) {
                Ok(def) => def,
                Err(e) => {
                    // a fatal error leaves the decoder exactly as it was
                    self.buf.pos = start;
                    return Err(e);
                },
            };
            proof {
                assert(def@.fields.len() <= 255);
                match def@.dev_fields {
                    Some(v) => {
                        assert(v.len() <= 255);
                    },
                    None => {},
                }
            }
            self.store_definition(h.local_num, def);
            return Ok(Step::Definition);
        }
        let ln = h.local_num as usize;
        let (gmn, values, dev_values) = match &self.queue[ln] {
            None => {
                self.buf.pos = start;
                return Err(ErrorKind::MissingDefinition(h.local_num));
            },
            Some(def) => {
                proof {
                    assert(old(self).slot(h.local_num) == Some(def@));
                    lemma_fields_size_mono(def@.fields, 0, def@.fields.len() as int);
                    match def@.dev_fields {
                        Some(dd) => {
                            lemma_dev_fields_size_mono(dd, 0, dd.len() as int);
                        },
                        None => {},
                    }
                }
                let (v, dv) = match read_data_record(
                    def,
                    &mut self.buf,
                    &self.developer_fields,
                ) {
                    Ok(x) => x,
                    Err(e) => {
                        self.buf.pos = start;
                        return Err(e);
                    },
                };
                (def.global_message_number, v, dv)
            },
        };
        let message_type = get_message_type(gmn);
        if matches!(message_type, MessageType::FieldDescription) {
            let ghost descs0 = self.developer_fields@;
            if let Some(desc) = DeveloperFieldDescription::new(&values) {
                self.developer_fields.push(desc);
                proof {
                    assert(self.developer_fields@.subrange(0, descs0.len() as int) =~= descs0);
                }
            }
            return Ok(Step::Skipped);
        }
        let dev_empty = match &dev_values {
            Some(dv) => dv.len() == 0,
            None => true,
        };
        if matches!(message_type, MessageType::Unknown) || (values.len() == 0 && dev_empty) {
            return Ok(Step::Skipped);
        }
        let ghost raw = fields_view(values@);
        let ghost last0 = self.last_timestamp;
        let ghost snap = *self;
        let mut processed: Vec<DataField> = Vec::new();
        let mut rest = values;
        let ghost nv = raw.len() as int;
        let ghost mut i: int = 0;
        proof {
            assert(raw.subrange(0, nv) =~= raw);
        }
        while rest.len() > 0
            invariant
                0 <= i,
                i + rest@.len() == nv,
                nv == raw.len(),
                raw.subrange(i, nv) == fields_view(rest@),
                fields_view(processed@) == processed_values(message_type, raw, i),
                self.last_timestamp == updated_timestamp(message_type, raw, i, last0),
                self.buf == snap.buf,
                self.queue == snap.queue,
                self.developer_fields == snap.developer_fields,
                self.file_header == snap.file_header,
                self.data_len == snap.data_len,
                snap.wf(),
            decreases rest@.len(),
        {
            let ghost old_rest = rest@;
            proof {
                assert(fields_view(old_rest)[0] == raw.subrange(i, nv)[0]);
                assert((old_rest[0].field_num, old_rest[0].value@) == raw[i]);
            }
            let df = rest.remove(0);
            let ghost before = processed@;
            let ft = get_field_type(message_type, df.field_num);
            if matches!(ft, FieldType::Timestamp) {
                match &df.value {
                    Value::U32(ts) => {
                        self.last_timestamp = *ts;
                    },
                    _ => {},
                }
            }
            let fnum = df.field_num;
            match process_value(message_type, fnum, df.value) {
                Some(v2) => {
                    processed.push(DataField::new(fnum, v2));
                    proof {
                        assert(fields_view(processed@) =~= fields_view(before).push(
                            (fnum, processed@.last().value@),
                        ));
                    }
                },
                None => {},
            }
            proof {
                assert(rest@ =~= old_rest.drop_first());
                assert(fields_view(rest@) =~= fields_view(old_rest).drop_first());
                assert(raw.subrange(i + 1, nv) =~= fields_view(old_rest).drop_first());
                i = i + 1;
            }
        }
        // a compressed header synthesizes an absolute timestamp
        if let Some(off) = h.compressed_timestamp() {
            let ts = compressed_timestamp_value(self.last_timestamp, off);
            if let Some(tf) = get_message_timestamp_field(message_type) {
                let ghost before = processed@;
                let t: u64 = ts as u64 + PSEUDO_EPOCH as u64;
                processed.push(DataField::new(tf, Value::Time((t % 0x1_0000_0000) as u32)));
                proof {
                    assert(fields_view(processed@) =~= fields_view(before).push(
                        (tf, processed@.last().value@),
                    ));
                }
            }
        }
        Ok(Step::Message(Message { kind: message_type, values: processed, dev_values }))
    }
}

/// What one engine step did with the record at the cursor.
#[derive(Debug, PartialEq)]
pub enum Step {
    /// A user-visible message was decoded.
    Message(Message),
    /// A definition record replaced its slot.
    Definition,
    /// A record was consumed without becoming a message.
    Skipped,
    /// The data section is exhausted.
    End,
}

/// The raw standard values a data record's payload at `p1` decodes to
/// under the definition in force.
pub open spec fn raw_values_at(d: Seq<u8>, p1: int, defv: DefRec) -> Seq<(u8, Val)> {
    decoded_fields(d, p1, defv.fields, defv.fields.len() as int, defv.endianness)
}

/// The developer values the same payload decodes to, after the
/// standard fields, against the registry `descs`.
pub open spec fn dev_values_at(
    d: Seq<u8>,
    p1: int,
    defv: DefRec,
    descs: Seq<DeveloperFieldDescription>,
) -> Option<Seq<(u8, u8, Val)>> {
    match defv.dev_fields {
        Some(dd) => Some(
            decoded_dev_fields(
                d,
                p1 + fields_size(defv.fields, defv.fields.len() as int),
                dd,
                dd.len() as int,
                defv.endianness,
                descs,
            ),
        ),
        None => None,
    }
}

/// Whether a decoded developer value list is missing or empty.
pub open spec fn no_dev_values(devm: Option<Seq<(u8, u8, Val)>>) -> bool {
    match devm {
        Some(s) => s.len() == 0,
        None => true,
    }
}

/// The fields an emitted message carries: the raw values through the
/// semantic pass, plus, under a compressed-timestamp header, one
/// synthetic absolute timestamp rebuilt from the last one seen.
pub open spec fn emitted_values(
    mt: MessageType,
    raws: Seq<(u8, Val)>,
    last0: u32,
    h: crate::header_byte::HeaderByte,
) -> Seq<(u8, Val)> {
    let base = processed_values(mt, raws, raws.len() as int);
    let lastn = updated_timestamp(mt, raws, raws.len() as int, last0);
    if h.compressed_header {
        match (h.time_offset, timestamp_field_of(mt)) {
            (Some(off), Some(tf)) => base.push(
                (
                    tf,
                    Val::Time(
                        wrap_add32(
                            reconstructed_timestamp(lastn, off) as nat,
                            PSEUDO_EPOCH as nat,
                        ),
                    ),
                ),
            ),
            _ => base,
        }
    } else {
        base
    }
}

/// How one `FieldDescription` payload changes the registry: a payload
/// that describes a developer field appends exactly one entry built
/// from its well-known fields; any other payload leaves it unchanged.
pub open spec fn registered(
    descs0: Seq<DeveloperFieldDescription>,
    descs1: Seq<DeveloperFieldDescription>,
    vals: Seq<(u8, Val)>,
) -> bool {
    if describes_dev_field(vals) {
        &&& descs1.len() == descs0.len() + 1
        &&& descs1.subrange(0, descs0.len() as int) == descs0
        &&& {
            let dsc = descs1.last();
            &&& Some(Val::U8(dsc.developer_data_index)) == field_lookup(vals, 0)
            &&& Some(Val::U8(dsc.field_definition_number)) == field_lookup(vals, 1)
            &&& Some(Val::U8(dsc.fit_base_type)) == field_lookup(vals, 2)
            &&& dsc.field_name@ == text_of(field_lookup(vals, 3).unwrap())
            &&& dsc.units@ == match field_lookup(vals, 8) {
                Some(v) => if v is String || v is Enum {
                    text_of(v)
                } else {
                    Seq::<char>::empty()
                },
                None => Seq::<char>::empty(),
            }
        }
    } else {
        descs1 == descs0
    }
}

} // verus!
