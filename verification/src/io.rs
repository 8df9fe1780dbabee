use vstd::prelude::*;

use crate::error::ErrorKind;

verus! {

/// Byte order for multi-byte reads, chosen per definition record.
#[derive(Clone, Copy, Debug, PartialEq, Eq, Structural)]
pub enum Endianness {
    Little,
    Big,
}

/// The natural number encoded by `s`, least-significant byte first.
pub open spec fn le_nat(s: Seq<u8>) -> nat
    decreases s.len(),
{
    if s.len() == 0 {
        0
    } else {
        (s[0] + 256 * le_nat(s.drop_first())) as nat
    }
}

/// The natural number encoded by `s` in the given byte order.
pub open spec fn num_of(s: Seq<u8>, en: Endianness) -> nat {
    match en {
        Endianness::Little => le_nat(s),
        Endianness::Big => le_nat(s.reverse()),
    }
}

/// Reinterpret an unsigned 8-bit pattern as two's-complement.
pub open spec fn as_i8(v: u8) -> i8 {
    if v < 0x80 {
        v as i8
    } else {
        (v - 0x100) as i8
    }
}

/// Reinterpret an unsigned 16-bit pattern as two's-complement.
pub open spec fn as_i16(v: u16) -> i16 {
    if v < 0x8000 {
        v as i16
    } else {
        (v - 0x1_0000) as i16
    }
}

/// Reinterpret an unsigned 32-bit pattern as two's-complement.
pub open spec fn as_i32(v: u32) -> i32 {
    if v < 0x8000_0000 {
        v as i32
    } else {
        (v - 0x1_0000_0000) as i32
    }
}

/// Reinterpret an unsigned 64-bit pattern as two's-complement.
pub open spec fn as_i64(v: u64) -> i64 {
    if v < 0x8000_0000_0000_0000 {
        v as i64
    } else {
        (v - 0x1_0000_0000_0000_0000) as i64
    }
}

/// A forward-only cursor over an in-memory byte view of a FIT file.
pub struct Reader {
    pub data: Vec<u8>,
    pub pos: usize,
}

impl Reader {
    /// The cursor never runs past the end of the byte view.
    pub open spec fn wf(self) -> bool {
        self.pos <= self.data@.len()
    }

    /// The next `n` bytes under the cursor.
    pub open spec fn bytes_at(self, n: int) -> Seq<u8> {
        self.data@.subrange(self.pos as int, self.pos + n)
    }

    /// Whether `n` more bytes are available.
    pub open spec fn can_read(self, n: int) -> bool {
        self.pos + n <= self.data@.len()
    }

    pub fn new(data: Vec<u8>) -> (r: Reader)
        ensures
            r.data == data,
            r.pos == 0,
            r.wf(),
    {
        Reader { data, pos: 0 }
    }

    pub fn pos(&self) -> (r: usize)
        ensures
            r == self.pos,
    {
        self.pos
    }

    /// How many bytes remain under the cursor.
    pub fn remaining(&self) -> (r: usize)
        requires
            self.wf(),
        ensures
            r == self.data@.len() - self.pos,
    {
        self.data.len() - self.pos
    }
}

/// Advance the cursor by `s` bytes without interpreting them.
pub fn skip_bytes(map: &mut Reader, s: u8) -> (r: Result<(), ErrorKind>)
    requires
        old(map).wf(),
    ensures
        final(map).data == old(map).data,
        final(map).wf(),
        match r {
            Ok(()) => old(map).can_read(s as int) && final(map).pos == old(map).pos + s,
            Err(e) => e == ErrorKind::UnexpectedEof && !old(map).can_read(s as int)
                && *final(map) == *old(map),
        },
{
    if s as usize <= map.data.len() - map.pos {
        map.pos = map.pos + s as usize;
        Ok(())
    } else {
        Err(ErrorKind::UnexpectedEof)
    }
}

pub fn read_u8(map: &mut Reader) -> (r: Result<u8, ErrorKind>)
    requires
        old(map).wf(),
    ensures
        final(map).data == old(map).data,
        final(map).wf(),
        match r {
            Ok(v) => old(map).can_read(1) && final(map).pos == old(map).pos + 1
                && v == old(map).data@[old(map).pos as int],
            Err(e) => e == ErrorKind::UnexpectedEof && !old(map).can_read(1)
                && *final(map) == *old(map),
        },
{
    if map.pos < map.data.len() {
        let v = map.data[map.pos];
        map.pos = map.pos + 1;
        Ok(v)
    } else {
        Err(ErrorKind::UnexpectedEof)
    }
}

pub fn read_i8(map: &mut Reader) -> (r: Result<i8, ErrorKind>)
    requires
        old(map).wf(),
    ensures
        final(map).data == old(map).data,
        final(map).wf(),
        match r {
            Ok(v) => old(map).can_read(1) && final(map).pos == old(map).pos + 1
                && v == as_i8(old(map).data@[old(map).pos as int]),
            Err(e) => e == ErrorKind::UnexpectedEof && !old(map).can_read(1)
                && *final(map) == *old(map),
        },
{
    let v = read_u8(map)?;
    proof {
        assert(v as i8 == as_i8(v)) by (bit_vector);
    }
    Ok(v as i8)
}

/// Unfolds `le_nat` on a two-byte sequence.
pub proof fn lemma_le_nat2(s: Seq<u8>)
    requires
        s.len() == 2,
    ensures
        le_nat(s) == s[0] + 0x100 * s[1],
{
    let s1 = s.drop_first();
    assert(s1.len() == 1);
    assert(s1.drop_first().len() == 0);
    assert(le_nat(s1.drop_first()) == 0);
    assert(le_nat(s1) == s1[0]);
    assert(s1[0] == s[1]);
}

/// Unfolds `le_nat` on a four-byte sequence.
pub proof fn lemma_le_nat4(s: Seq<u8>)
    requires
        s.len() == 4,
    ensures
        le_nat(s) == s[0] + 0x100 * s[1] + 0x1_0000 * s[2] + 0x100_0000 * s[3],
{
    let s1 = s.drop_first();
    let s2 = s1.drop_first();
    lemma_le_nat2(s2);
    assert(s2[0] == s[2] && s2[1] == s[3]);
    assert(le_nat(s1) == s1[0] + 0x100 * le_nat(s2));
    assert(s1[0] == s[1]);
}

/// Unfolds `le_nat` on an eight-byte sequence.
pub proof fn lemma_le_nat8(s: Seq<u8>)
    requires
        s.len() == 8,
    ensures
        le_nat(s) == s[0] + 0x100 * s[1] + 0x1_0000 * s[2] + 0x100_0000 * s[3]
            + 0x1_0000_0000 * s[4] + 0x100_0000_0000 * s[5] + 0x1_0000_0000_0000 * s[6]
            + 0x100_0000_0000_0000 * s[7],
{
    let s1 = s.drop_first();
    let s2 = s1.drop_first();
    let s3 = s2.drop_first();
    let s4 = s3.drop_first();
    lemma_le_nat4(s4);
    assert(s4[0] == s[4] && s4[1] == s[5] && s4[2] == s[6] && s4[3] == s[7]);
    assert(le_nat(s3) == s3[0] + 0x100 * le_nat(s4));
    assert(le_nat(s2) == s2[0] + 0x100 * le_nat(s3));
    assert(le_nat(s1) == s1[0] + 0x100 * le_nat(s2));
    assert(s1[0] == s[1] && s2[0] == s[2] && s3[0] == s[3]);
}

pub fn read_u16(map: &mut Reader, endianness: Endianness) -> (r: Result<u16, ErrorKind>)
    requires
        old(map).wf(),
    ensures
        final(map).data == old(map).data,
        final(map).wf(),
        match r {
            Ok(v) => old(map).can_read(2) && final(map).pos == old(map).pos + 2
                && v == num_of(old(map).bytes_at(2), endianness),
            Err(e) => e == ErrorKind::UnexpectedEof && !old(map).can_read(2)
                && *final(map) == *old(map),
        },
{
    if map.data.len() - map.pos >= 2 {
        let b0 = map.data[map.pos];
        let b1 = map.data[map.pos + 1];
        map.pos = map.pos + 2;
        proof {
            let s = old(map).bytes_at(2);
            lemma_le_nat2(s);
            lemma_le_nat2(s.reverse());
            assert(s.reverse()[0] == s[1] && s.reverse()[1] == s[0]);
        }
        match endianness {
            Endianness::Little => Ok(b0 as u16 + 0x100 * b1 as u16),
            Endianness::Big => Ok(b1 as u16 + 0x100 * b0 as u16),
        }
    } else {
        Err(ErrorKind::UnexpectedEof)
    }
}

pub fn read_i16(map: &mut Reader, endianness: Endianness) -> (r: Result<i16, ErrorKind>)
    requires
        old(map).wf(),
    ensures
        final(map).data == old(map).data,
        final(map).wf(),
        match r {
            Ok(v) => old(map).can_read(2) && final(map).pos == old(map).pos + 2
                && v == as_i16(num_of(old(map).bytes_at(2), endianness) as u16),
            Err(e) => e == ErrorKind::UnexpectedEof && !old(map).can_read(2)
                && *final(map) == *old(map),
        },
{
    let v = read_u16(map, endianness)?;
    proof {
        assert(v as i16 == as_i16(v)) by (bit_vector);
    }
    Ok(v as i16)
}

pub fn read_u32(map: &mut Reader, endianness: Endianness) -> (r: Result<u32, ErrorKind>)
    requires
        old(map).wf(),
    ensures
        final(map).data == old(map).data,
        final(map).wf(),
        match r {
            Ok(v) => old(map).can_read(4) && final(map).pos == old(map).pos + 4
                && v == num_of(old(map).bytes_at(4), endianness),
            Err(e) => e == ErrorKind::UnexpectedEof && !old(map).can_read(4)
                && *final(map) == *old(map),
        },
{
    if map.data.len() - map.pos >= 4 {
        let b0 = map.data[map.pos] as u32;
        let b1 = map.data[map.pos + 1] as u32;
        let b2 = map.data[map.pos + 2] as u32;
        let b3 = map.data[map.pos + 3] as u32;
        map.pos = map.pos + 4;
        proof {
            let s = old(map).bytes_at(4);
            lemma_le_nat4(s);
            lemma_le_nat4(s.reverse());
            assert(s.reverse()[0] == s[3] && s.reverse()[1] == s[2] && s.reverse()[2] == s[1]
                && s.reverse()[3] == s[0]);
        }
        match endianness {
            Endianness::Little => Ok(
                b0 + 0x100 * b1 + 0x1_0000 * b2 + 0x100_0000 * b3,
            ),
            Endianness::Big => Ok(
                b3 + 0x100 * b2 + 0x1_0000 * b1 + 0x100_0000 * b0,
            ),
        }
    } else {
        Err(ErrorKind::UnexpectedEof)
    }
}

pub fn read_i32(map: &mut Reader, endianness: Endianness) -> (r: Result<i32, ErrorKind>)
    requires
        old(map).wf(),
    ensures
        final(map).data == old(map).data,
        final(map).wf(),
        match r {
            Ok(v) => old(map).can_read(4) && final(map).pos == old(map).pos + 4
                && v == as_i32(num_of(old(map).bytes_at(4), endianness) as u32),
            Err(e) => e == ErrorKind::UnexpectedEof && !old(map).can_read(4)
                && *final(map) == *old(map),
        },
{
    let v = read_u32(map, endianness)?;
    proof {
        assert(v as i32 == as_i32(v)) by (bit_vector);
    }
    Ok(v as i32)
}

pub fn read_u64(map: &mut Reader, endianness: Endianness) -> (r: Result<u64, ErrorKind>)
    requires
        old(map).wf(),
    ensures
        final(map).data == old(map).data,
        final(map).wf(),
        match r {
            Ok(v) => old(map).can_read(8) && final(map).pos == old(map).pos + 8
                && v == num_of(old(map).bytes_at(8), endianness),
            Err(e) => e == ErrorKind::UnexpectedEof && !old(map).can_read(8)
                && *final(map) == *old(map),
        },
{
    if map.data.len() - map.pos >= 8 {
        let b0 = map.data[map.pos] as u64;
        let b1 = map.data[map.pos + 1] as u64;
        let b2 = map.data[map.pos + 2] as u64;
        let b3 = map.data[map.pos + 3] as u64;
        let b4 = map.data[map.pos + 4] as u64;
        let b5 = map.data[map.pos + 5] as u64;
        let b6 = map.data[map.pos + 6] as u64;
        let b7 = map.data[map.pos + 7] as u64;
        map.pos = map.pos + 8;
        proof {
            let s = old(map).bytes_at(8);
            lemma_le_nat8(s);
            lemma_le_nat8(s.reverse());
            assert(s.reverse()[0] == s[7] && s.reverse()[1] == s[6] && s.reverse()[2] == s[5]
                && s.reverse()[3] == s[4] && s.reverse()[4] == s[3] && s.reverse()[5] == s[2]
                && s.reverse()[6] == s[1] && s.reverse()[7] == s[0]);
        }
        match endianness {
            Endianness::Little => Ok(
                b0 + 0x100 * b1 + 0x1_0000 * b2 + 0x100_0000 * b3 + 0x1_0000_0000 * b4
                    + 0x100_0000_0000 * b5 + 0x1_0000_0000_0000 * b6 + 0x100_0000_0000_0000 * b7,
            ),
            Endianness::Big => Ok(
                b7 + 0x100 * b6 + 0x1_0000 * b5 + 0x100_0000 * b4 + 0x1_0000_0000 * b3
                    + 0x100_0000_0000 * b2 + 0x1_0000_0000_0000 * b1 + 0x100_0000_0000_0000 * b0,
            ),
        }
    } else {
        Err(ErrorKind::UnexpectedEof)
    }
}

pub fn read_i64(map: &mut Reader, endianness: Endianness) -> (r: Result<i64, ErrorKind>)
    requires
        old(map).wf(),
    ensures
        final(map).data == old(map).data,
        final(map).wf(),
        match r {
            Ok(v) => old(map).can_read(8) && final(map).pos == old(map).pos + 8
                && v == as_i64(num_of(old(map).bytes_at(8), endianness) as u64),
            Err(e) => e == ErrorKind::UnexpectedEof && !old(map).can_read(8)
                && *final(map) == *old(map),
        },
{
    let v = read_u64(map, endianness)?;
    proof {
        assert(v as i64 == as_i64(v)) by (bit_vector);
    }
    Ok(v as i64)
}

/// Read four bytes verbatim, as the file-header signature check needs.
pub fn arr4(map: &mut Reader) -> (r: Result<[u8; 4], ErrorKind>)
    requires
        old(map).wf(),
    ensures
        final(map).data == old(map).data,
        final(map).wf(),
        match r {
            Ok(v) => old(map).can_read(4) && final(map).pos == old(map).pos + 4
                && v@ == old(map).bytes_at(4),
            Err(e) => e == ErrorKind::UnexpectedEof && !old(map).can_read(4)
                && *final(map) == *old(map),
        },
{
    if map.data.len() - map.pos >= 4 {
        let v = [
            map.data[map.pos],
            map.data[map.pos + 1],
            map.data[map.pos + 2],
            map.data[map.pos + 3],
        ];
        map.pos = map.pos + 4;
        proof {
            assert(v@ =~= old(map).bytes_at(4));
        }
        Ok(v)
    } else {
        Err(ErrorKind::UnexpectedEof)
    }
}

} // verus!
