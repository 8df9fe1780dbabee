use vstd::arithmetic::div_mod::{lemma_div_by_self, lemma_fundamental_div_mod};
use vstd::arithmetic::mul::lemma_mul_inequality;
use vstd::prelude::*;
use vstd::utf8::{decode_utf8, valid_utf8};

use crate::base_type::{elem_size, sentinel};
use crate::definition_record::{dev_fields_size, fields_size};
use crate::field_definition::FieldDefinition;
use crate::fit::decoded_fields;
use crate::developer_fields::{DeveloperFieldDefinition, DeveloperFieldDescription};
use crate::fit::{decoded_dev_fields, find_desc};
use crate::data_field::{decode_field, elem_val, kept_u16, kept_u32, kept_u8, nonzero_prefix, raw_at};
use crate::io::{num_of, Endianness};
use crate::process::{int_of, post_process, scaled, scaled_offset_bits, semicircle_bits};
use crate::sdk::{field_type_of, offset_of, scale_of, FieldType, MessageType};
use crate::value::Val;

verus! {

/// `bytes` re-encoded in the opposite byte order: the first `count`
/// elements of `es` bytes each, every element's bytes reversed.
pub open spec fn swap_elems(bytes: Seq<u8>, es: int, count: int) -> Seq<u8>
    decreases count,
{
    if count <= 0 {
        Seq::empty()
    } else {
        swap_elems(bytes, es, count - 1) + bytes.subrange((count - 1) * es, count * es).reverse()
    }
}

/// The swapped image is as long as the elements it covers.
pub proof fn lemma_swap_len(bytes: Seq<u8>, es: int, count: int)
    requires
        es >= 1,
        count >= 0,
        count * es <= bytes.len(),
    ensures
        swap_elems(bytes, es, count).len() == count * es,
    decreases count,
{
    if count > 0 {
        assert(count * es == (count - 1) * es + es) by (nonlinear_arith);
        assert((count - 1) * es >= 0) by (nonlinear_arith)
            requires
                count >= 1,
                es >= 1,
        ;
        lemma_swap_len(bytes, es, count - 1);
        let chunk = bytes.subrange((count - 1) * es, count * es);
        assert(chunk.len() == es);
        assert(chunk.reverse().len() == es);
        assert(swap_elems(bytes, es, count) == swap_elems(bytes, es, count - 1) + chunk.reverse());
    } else {
        assert(count * es == 0) by (nonlinear_arith)
            requires
                count == 0,
        ;
    }
}

/// Each element of the swapped image is the reversal of the matching
/// element of the original.
pub proof fn lemma_swap_chunk(bytes: Seq<u8>, es: int, count: int, i: int)
    requires
        es >= 1,
        0 <= i < count,
        count * es <= bytes.len(),
    ensures
        swap_elems(bytes, es, count).subrange(i * es, (i + 1) * es) == bytes.subrange(
            i * es,
            (i + 1) * es,
        ).reverse(),
    decreases count,
{
    assert(count * es == (count - 1) * es + es) by (nonlinear_arith);
    assert((count - 1) * es >= 0 && i * es >= 0) by (nonlinear_arith)
        requires
            count >= 1,
            es >= 1,
            i >= 0,
    ;
    lemma_mul_inequality(i + 1, count, es);
    lemma_swap_len(bytes, es, count);
    lemma_swap_len(bytes, es, count - 1);
    if i == count - 1 {
        assert(swap_elems(bytes, es, count).subrange(i * es, (i + 1) * es) =~= bytes.subrange(
            i * es,
            (i + 1) * es,
        ).reverse());
    } else {
        lemma_mul_inequality(i + 1, count - 1, es);
        lemma_swap_chunk(bytes, es, count - 1, i);
        let head = swap_elems(bytes, es, count - 1);
        let tail = bytes.subrange((count - 1) * es, count * es).reverse();
        assert(swap_elems(bytes, es, count) == head + tail);
        assert((i + 1) * es == i * es + es) by (nonlinear_arith);
        assert forall|j: int| 0 <= j < es implies #[trigger] swap_elems(bytes, es, count).subrange(
            i * es,
            (i + 1) * es,
        )[j] == head.subrange(i * es, (i + 1) * es)[j] by {
            assert(swap_elems(bytes, es, count)[i * es + j] == (head + tail)[i * es + j]);
            assert((head + tail)[i * es + j] == head[i * es + j]);
        }
        assert(swap_elems(bytes, es, count).subrange(i * es, (i + 1) * es) =~= head.subrange(
            i * es,
            (i + 1) * es,
        ));
    }
}

/// Reading an element of the swapped image in one byte order equals
/// reading the original element in the other.
pub proof fn lemma_raw_swap(bytes: Seq<u8>, es: int, count: int, i: int)
    requires
        es >= 1,
        0 <= i < count,
        count * es <= bytes.len(),
    ensures
        raw_at(swap_elems(bytes, es, count), es, Endianness::Big, i) == raw_at(
            bytes,
            es,
            Endianness::Little,
            i,
        ),
{
    lemma_swap_chunk(bytes, es, count, i);
    let chunk = bytes.subrange(i * es, (i + 1) * es);
    assert(chunk.reverse().reverse() =~= chunk);
}

/// Collecting valid one-byte elements commutes with the element swap.
pub proof fn lemma_kept_u8_swap(bytes: Seq<u8>, full: int, k: int)
    requires
        0 <= k <= full,
        full * 1 <= bytes.len(),
    ensures
        kept_u8(swap_elems(bytes, 1, full), Endianness::Big, k) == kept_u8(
            bytes,
            Endianness::Little,
            k,
        ),
    decreases k,
{
    if k > 0 {
        lemma_kept_u8_swap(bytes, full, k - 1);
        lemma_raw_swap(bytes, 1, full, k - 1);
    }
}

/// Collecting valid two-byte elements commutes with the element swap.
pub proof fn lemma_kept_u16_swap(bytes: Seq<u8>, full: int, k: int)
    requires
        0 <= k <= full,
        full * 2 <= bytes.len(),
    ensures
        kept_u16(swap_elems(bytes, 2, full), Endianness::Big, k) == kept_u16(
            bytes,
            Endianness::Little,
            k,
        ),
    decreases k,
{
    if k > 0 {
        lemma_kept_u16_swap(bytes, full, k - 1);
        lemma_raw_swap(bytes, 2, full, k - 1);
    }
}

/// Collecting valid four-byte elements commutes with the element swap.
pub proof fn lemma_kept_u32_swap(bytes: Seq<u8>, full: int, k: int)
    requires
        0 <= k <= full,
        full * 4 <= bytes.len(),
    ensures
        kept_u32(swap_elems(bytes, 4, full), Endianness::Big, k) == kept_u32(
            bytes,
            Endianness::Little,
            k,
        ),
    decreases k,
{
    if k > 0 {
        lemma_kept_u32_swap(bytes, full, k - 1);
        lemma_raw_swap(bytes, 4, full, k - 1);
    }
}

/// Endianness discipline: re-encode a field's span with every
/// element's bytes reversed and flip the declared byte order, and the
/// span decodes to the same value.
pub proof fn lemma_endianness(bytes: Seq<u8>, base_type: u8)
    requires
        bytes.len() as int % elem_size(base_type) == 0,
    ensures
        ({
            let es = elem_size(base_type);
            let count = bytes.len() as int / es;
            decode_field(swap_elems(bytes, es, count), base_type, Endianness::Big) == decode_field(
                bytes,
                base_type,
                Endianness::Little,
            )
        }),
{
    let es = elem_size(base_type);
    let count = bytes.len() as int / es;
    lemma_fundamental_div_mod(bytes.len() as int, es);
    assert(count * es == bytes.len());
    lemma_swap_len(bytes, es, count);
    let sw = swap_elems(bytes, es, count);
    assert(sw.len() == bytes.len());
    if base_type == 7 {
        // one-byte elements: the swap is the identity
        assert(sw =~= bytes) by {
            assert forall|j: int| 0 <= j < bytes.len() implies sw[j] == bytes[j] by {
                lemma_swap_chunk(bytes, 1, count, j);
                assert(sw[j] == sw.subrange(j, j + 1)[0]);
                assert(bytes.subrange(j, j + 1).reverse()[0] == bytes[j]);
            }
        }
    } else if base_type > 16 {
        // both absent
    } else {
        if count == 0 {
        } else if count == 1 {
            lemma_raw_swap(bytes, es, count, 0);
            assert(sw.subrange(0, es) =~= sw.subrange(0 * es, 1 * es));
            assert(bytes.subrange(0, es) =~= bytes.subrange(0 * es, 1 * es));
        } else if base_type == 2 || base_type == 13 {
            lemma_kept_u8_swap(bytes, count, count);
        } else if base_type == 4 {
            lemma_kept_u16_swap(bytes, count, count);
        } else if base_type == 6 {
            lemma_kept_u32_swap(bytes, count, count);
        } else {
            // other multi-element shapes are absent either way
        }
    }
}

/// Sentinel law for a single-element field: a span holding exactly the
/// base type's sentinel pattern decodes to nothing, and any other
/// pattern decodes to a present value of that base type's shape.
pub proof fn lemma_sentinel(bytes: Seq<u8>, base_type: u8, en: Endianness)
    requires
        base_type <= 16,
        base_type != 7,
        bytes.len() == elem_size(base_type),
    ensures
        decode_field(bytes, base_type, en) == (if num_of(bytes, en) == sentinel(base_type) {
            None
        } else {
            Some(elem_val(base_type, num_of(bytes, en)))
        }),
{
    let es = elem_size(base_type);
    lemma_div_by_self(es);
    assert(bytes.len() as int / es == 1);
    assert(bytes.subrange(0, es) =~= bytes);
}

/// Every decoded value carries the shape its wire base type dictates:
/// text for strings, the matching integer width elsewhere, and an
/// array only for the unsigned 8-, 16- and 32-bit types.
pub proof fn lemma_decode_shape(bytes: Seq<u8>, base_type: u8, en: Endianness)
    ensures
        match decode_field(bytes, base_type, en) {
            Some(v) => {
                &&& (base_type == 0 || base_type == 2 || base_type == 10 || base_type == 13) ==> (
                v is U8 || v is ArrU8)
                &&& base_type == 1 ==> v is I8
                &&& base_type == 3 ==> v is I16
                &&& (base_type == 4 || base_type == 11) ==> (v is U16 || v is ArrU16)
                &&& base_type == 5 ==> v is I32
                &&& (base_type == 6 || base_type == 12) ==> (v is U32 || v is ArrU32)
                &&& base_type == 7 ==> v is String
                &&& base_type == 8 ==> v is F32
                &&& base_type == 9 ==> v is F64
                &&& base_type == 14 ==> v is I64
                &&& (base_type == 15 || base_type == 16) ==> v is U64
            },
            None => true,
        },
{
}

/// String fields: a string span keeps its bytes with every null
/// removed, terminator and padding included, and decodes to exactly
/// those bytes' characters when they form valid, non-empty UTF-8;
/// otherwise the field is absent.
pub proof fn lemma_string_field(bytes: Seq<u8>, en: Endianness)
    ensures
        decode_field(bytes, 7, en) == ({
            let text = nonzero_prefix(bytes, bytes.len() as int);
            if valid_utf8(text) && decode_utf8(text).len() > 0 {
                Some(Val::String(decode_utf8(text)))
            } else {
                None
            }
        }),
{
}

/// Semicircle conversion: in a slot the profile types as coordinates,
/// a raw signed 32-bit count of semicircles becomes the correctly
/// rounded binary32 number of degrees, `v * 180 / 2^31`.
pub proof fn lemma_semicircle_conversion(mt: MessageType, num: u8, v: i32)
    requires
        field_type_of(mt, num) == FieldType::Coordinates,
    ensures
        post_process(mt, num, Val::I32(v)) == Some(Val::F32(semicircle_bits(v))),
{
}

/// Developer-field visibility: a developer field definition with a
/// registered description contributes its span's decode under the
/// described base type, in order, and one without a match contributes
/// nothing; `lemma_decode_shape` then ties the value's shape to that
/// base type.
pub proof fn lemma_dev_field_visibility(
    d: Seq<u8>,
    p: int,
    devs: Seq<DeveloperFieldDefinition>,
    en: Endianness,
    descs: Seq<DeveloperFieldDescription>,
    k: int,
)
    requires
        0 <= k,
    ensures
        ({
            let prefix = decoded_dev_fields(d, p, devs, k, en, descs);
            let next = decoded_dev_fields(d, p, devs, k + 1, en, descs);
            let dd = devs[k];
            match find_desc(descs, dd.developer_data_index, dd.field_number) {
                Some(desc) => {
                    let off = p + dev_fields_size(devs, k);
                    match decode_field(d.subrange(off, off + dd.size), desc.fit_base_type, en) {
                        Some(v) => next == prefix.push(
                            (dd.developer_data_index, dd.field_number, v),
                        ),
                        None => next == prefix,
                    }
                },
                None => next == prefix,
            }
        }),
{
}

/// Scale and offset: on a raw integer in a slot of one of the plain
/// unsigned widths or `Sint8`, the semantic pass divides by the listed
/// scale and then subtracts the listed offset, as one exactly rounded
/// binary64 value of `(n - offset * scale) / scale`; omitting either
/// step uses a scale of one or an offset of zero, and with neither
/// listed the raw value passes through untouched.
pub proof fn lemma_scale_offset(mt: MessageType, num: u8, v: Val, n: int)
    requires
        int_of(v) == Some(n),
        ({
            let ft = field_type_of(mt, num);
            ||| ft == FieldType::Uint8
            ||| ft == FieldType::Uint8z
            ||| ft == FieldType::Uint16
            ||| ft == FieldType::Uint16z
            ||| ft == FieldType::Uint32
            ||| ft == FieldType::Uint32z
            ||| ft == FieldType::Sint8
        }),
    ensures
        match (scale_of(mt, num), offset_of(mt, num)) {
            (Some(s), Some(o)) => post_process(mt, num, v) == Some(
                Val::F64(scaled_offset_bits(n, s as nat, o as int)),
            ),
            (Some(s), None) => post_process(mt, num, v) == Some(
                Val::F64(scaled_offset_bits(n, s as nat, 0)),
            ),
            (None, Some(o)) => post_process(mt, num, v) == Some(
                Val::F64(scaled_offset_bits(n, 1nat, o as int)),
            ),
            (None, None) => post_process(mt, num, v) == Some(v),
        },
{
    assert(post_process(mt, num, v) == scaled(mt, num, v));
}



/// A whole data-record payload re-encoded in the opposite byte order:
/// each field's span, in order, with its elements' bytes reversed.
/// Spans are assumed element-aligned, as well-formed definitions make
/// them.
pub open spec fn swap_payload(d: Seq<u8>, p: int, fields: Seq<FieldDefinition>, n: int) -> Seq<u8>
    decreases n,
{
    if n <= 0 {
        Seq::empty()
    } else {
        let fd = fields[n - 1];
        let off = p + fields_size(fields, n - 1);
        let es = elem_size(fd.base_type);
        swap_payload(d, p, fields, n - 1) + swap_elems(
            d.subrange(off, off + fd.size),
            es,
            fd.size as int / es,
        )
    }
}

/// Whether every declared span is a whole number of elements.
pub open spec fn aligned_fields(fields: Seq<FieldDefinition>, n: int) -> bool {
    forall|i: int|
        0 <= i < n ==> #[trigger] fields[i].size as int % elem_size(fields[i].base_type) == 0
}

/// The swapped payload is exactly as long as the original.
pub proof fn lemma_swap_payload_len(d: Seq<u8>, p: int, fields: Seq<FieldDefinition>, n: int)
    requires
        n >= 0,
        aligned_fields(fields, n),
        p >= 0,
        p + fields_size(fields, n) <= d.len(),
    ensures
        swap_payload(d, p, fields, n).len() == fields_size(fields, n),
    decreases n,
{
    crate::fit::lemma_fields_size_mono(fields, 0, n);
    if n > 0 {
        crate::fit::lemma_fields_size_mono(fields, n - 1, n);
        lemma_swap_payload_len(d, p, fields, n - 1);
        let fd = fields[n - 1];
        let off = p + fields_size(fields, n - 1);
        let es = elem_size(fd.base_type);
        let count = fd.size as int / es;
        lemma_fundamental_div_mod(fd.size as int, es);
        lemma_swap_len(d.subrange(off, off + fd.size), es, count);
    }
}

/// Each field's span of the swapped payload is the element swap of
/// that field's original span.
pub proof fn lemma_swap_payload_span(
    d: Seq<u8>,
    p: int,
    fields: Seq<FieldDefinition>,
    n: int,
    i: int,
)
    requires
        0 <= i < n,
        aligned_fields(fields, n),
        p >= 0,
        p + fields_size(fields, n) <= d.len(),
    ensures
        ({
            let fd = fields[i];
            let off = p + fields_size(fields, i);
            let es = elem_size(fd.base_type);
            swap_payload(d, p, fields, n).subrange(
                fields_size(fields, i),
                fields_size(fields, i) + fd.size,
            ) == swap_elems(d.subrange(off, off + fd.size), es, fd.size as int / es)
        }),
    decreases n,
{
    crate::fit::lemma_fields_size_mono(fields, i, n);
    crate::fit::lemma_fields_size_mono(fields, i + 1, n);
    crate::fit::lemma_fields_size_mono(fields, 0, i);
    crate::fit::lemma_fields_size_mono(fields, n - 1, n);
    lemma_swap_payload_len(d, p, fields, n);
    lemma_swap_payload_len(d, p, fields, n - 1);
    let fd = fields[i];
    let off = p + fields_size(fields, i);
    let es = elem_size(fd.base_type);
    let count = fd.size as int / es;
    lemma_fundamental_div_mod(fd.size as int, es);
    let sw = swap_elems(d.subrange(off, off + fd.size), es, count);
    lemma_swap_len(d.subrange(off, off + fd.size), es, count);
    if i == n - 1 {
        assert(swap_payload(d, p, fields, n).subrange(
            fields_size(fields, i),
            fields_size(fields, i) + fd.size,
        ) =~= sw);
    } else {
        crate::fit::lemma_fields_size_mono(fields, i + 1, n - 1);
        lemma_swap_payload_span(d, p, fields, n - 1, i);
        let head = swap_payload(d, p, fields, n - 1);
        let last = fields[n - 1];
        let off_last = p + fields_size(fields, n - 1);
        let tail = swap_elems(
            d.subrange(off_last, off_last + last.size),
            elem_size(last.base_type),
            last.size as int / elem_size(last.base_type),
        );
        assert(swap_payload(d, p, fields, n) == head + tail);
        assert forall|x: int| 0 <= x < fields_size(fields, n - 1) implies (head + tail)[x]
            == head[x] by {}
        assert(swap_payload(d, p, fields, n).subrange(
            fields_size(fields, i),
            fields_size(fields, i) + fd.size,
        ) =~= head.subrange(fields_size(fields, i), fields_size(fields, i) + fd.size));
    }
}

/// Endianness discipline over a whole data record: re-encode every
/// field's span with its elements' bytes reversed and flip the
/// declared byte order, and the record decodes to the same fields.
pub proof fn lemma_endianness_record(d: Seq<u8>, p: int, fields: Seq<FieldDefinition>, n: int)
    requires
        n >= 0,
        aligned_fields(fields, n),
        p >= 0,
        p + fields_size(fields, n) <= d.len(),
    ensures
        decoded_fields(swap_payload(d, p, fields, n), 0, fields, n, Endianness::Big)
            == decoded_fields(d, p, fields, n, Endianness::Little),
    decreases n,
{
    if n > 0 {
        crate::fit::lemma_fields_size_mono(fields, n - 1, n);
        crate::fit::lemma_fields_size_mono(fields, 0, n - 1);
        let fd = fields[n - 1];
        let off = p + fields_size(fields, n - 1);
        let es = elem_size(fd.base_type);
        let count = fd.size as int / es;
        lemma_fundamental_div_mod(fd.size as int, es);
        // the prefix of the swapped payload decodes like the prefix
        lemma_endianness_record(d, p, fields, n - 1);
        lemma_swap_payload_len(d, p, fields, n);
        lemma_swap_payload_len(d, p, fields, n - 1);
        let swn = swap_payload(d, p, fields, n);
        let sw1 = swap_payload(d, p, fields, n - 1);
        lemma_decoded_prefix(swn, sw1, fields, n - 1);
        // the last field's span decodes equally after the swap
        lemma_swap_payload_span(d, p, fields, n, n - 1);
        lemma_endianness(d.subrange(off, off + fd.size), fd.base_type);
    }
}

/// Decoding the first `n` fields only reads their spans, so a payload
/// extension changes nothing.
pub proof fn lemma_decoded_prefix(
    longer: Seq<u8>,
    shorter: Seq<u8>,
    fields: Seq<FieldDefinition>,
    n: int,
)
    requires
        n >= 0,
        fields_size(fields, n) <= shorter.len(),
        shorter.len() <= longer.len(),
        forall|x: int| 0 <= x < shorter.len() ==> longer[x] == shorter[x],
    ensures
        decoded_fields(longer, 0, fields, n, Endianness::Big) == decoded_fields(
            shorter,
            0,
            fields,
            n,
            Endianness::Big,
        ),
    decreases n,
{
    if n > 0 {
        crate::fit::lemma_fields_size_mono(fields, n - 1, n);
        crate::fit::lemma_fields_size_mono(fields, 0, n - 1);
        lemma_decoded_prefix(longer, shorter, fields, n - 1);
        let fd = fields[n - 1];
        let off = fields_size(fields, n - 1);
        assert(longer.subrange(off, off + fd.size) =~= shorter.subrange(off, off + fd.size));
    }
}

} // verus!
