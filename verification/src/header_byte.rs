use vstd::prelude::*;

use crate::error::ErrorKind;
use crate::io::{read_u8, Reader};

verus! {

/// The decoded shape of the single byte that precedes every record.
///
/// A byte with the top bit set is a compressed-timestamp header: it
/// carries a two-bit local message number and a five-bit time offset.
/// Otherwise bit 6 marks a definition record, bit 5 the presence of
/// developer field definitions, and the low nibble is the local
/// message number.
#[derive(Clone, Copy, Debug, PartialEq)]
pub struct HeaderByte {
    pub compressed_header: bool,
    pub definition: bool,
    pub dev_fields: bool,
    pub local_num: u8,
    pub time_offset: Option<u8>,
}

/// What a header byte decodes to.
pub open spec fn header_of(b: u8) -> HeaderByte {
    if b & 0x80 == 0x80 {
        HeaderByte {
            compressed_header: true,
            definition: false,
            dev_fields: false,
            local_num: (b & 0x60) >> 5,
            time_offset: Some(b & 0x1F),
        }
    } else {
        HeaderByte {
            compressed_header: false,
            definition: b & 0x40 == 0x40,
            dev_fields: b & 0x20 == 0x20,
            local_num: b & 0x0F,
            time_offset: None,
        }
    }
}

/// The local message number of a header byte stays below 16, and a
/// compressed header's stays below 4 with an offset below 32.
pub proof fn lemma_header_bounds(b: u8)
    ensures
        header_of(b).local_num < 16,
        header_of(b).compressed_header ==> header_of(b).local_num < 4,
        match header_of(b).time_offset {
            Some(o) => o < 32,
            None => true,
        },
{
    assert((b & 0x60) >> 5 < 4 && b & 0x1F < 32 && b & 0x0F < 16) by (bit_vector);
}

impl HeaderByte {
    pub fn new(map: &mut Reader) -> (r: Result<HeaderByte, ErrorKind>)
        requires
            old(map).wf(),
        ensures
            final(map).data == old(map).data,
            final(map).wf(),
            match r {
                Ok(h) => old(map).can_read(1) && final(map).pos == old(map).pos + 1
                    && h == header_of(old(map).data@[old(map).pos as int]),
                Err(e) => e == ErrorKind::UnexpectedEof && !old(map).can_read(1)
                    && *final(map) == *old(map),
            },
    {
        let b = read_u8(map)?;
        if b & 0x80 == 0x80 {
            Ok(
                HeaderByte {
                    compressed_header: true,
                    definition: false,
                    dev_fields: false,
                    local_num: (b & 0x60) >> 5,
                    time_offset: Some(b & 0x1F),
                },
            )
        } else {
            Ok(
                HeaderByte {
                    compressed_header: false,
                    definition: b & 0x40 == 0x40,
                    dev_fields: b & 0x20 == 0x20,
                    local_num: b & 0x0F,
                    time_offset: None,
                },
            )
        }
    }

    /// The five-bit time offset, present exactly on compressed headers.
    pub fn compressed_timestamp(self) -> (r: Option<u8>)
        ensures
            r == if self.compressed_header {
                self.time_offset
            } else {
                None::<u8>
            },
    {
        if self.compressed_header {
            self.time_offset
        } else {
            None
        }
    }
}

/// A record header byte kept undecoded, with bit-test accessors.
#[derive(Clone, Copy, Debug, PartialEq, Eq, Structural)]
pub struct RecordHeaderByte {
    pub byte: u8,
}

impl RecordHeaderByte {
    pub fn new(map: &mut Reader) -> (r: Result<RecordHeaderByte, ErrorKind>)
        requires
            old(map).wf(),
        ensures
            final(map).data == old(map).data,
            final(map).wf(),
            match r {
                Ok(h) => old(map).can_read(1) && final(map).pos == old(map).pos + 1
                    && h.byte == old(map).data@[old(map).pos as int],
                Err(e) => e == ErrorKind::UnexpectedEof && !old(map).can_read(1)
                    && *final(map) == *old(map),
            },
    {
        let b = read_u8(map)?;
        Ok(RecordHeaderByte { byte: b })
    }

    pub fn is_definition(&self) -> (r: bool)
        ensures
            r == (self.byte & 0x40 == 0x40),
    {
        self.byte & 0x40 == 0x40
    }

    pub fn has_developer_fields(&self) -> (r: bool)
        ensures
            r == (self.byte & 0x20 == 0x20),
    {
        self.byte & 0x20 == 0x20
    }

    pub fn local_msg_number(&self) -> (r: u8)
        ensures
            r == self.byte & 0x0F,
    {
        self.byte & 0x0F
    }
}

} // verus!
