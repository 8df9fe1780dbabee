use vstd::prelude::*;

use crate::error::ErrorKind;
use crate::io::{arr4, num_of, read_u16, read_u32, read_u8, Endianness, Reader};

verus! {

/// The bytes of the mandatory `".FIT"` signature.
pub open spec fn fit_signature() -> Seq<u8> {
    seq![0x2E, 0x46, 0x49, 0x54]
}

/// Whether a four-byte buffer holds the `".FIT"` signature.
pub fn read_fit_string(buffer: &[u8]) -> (r: bool)
    ensures
        r == (buffer@ == fit_signature()),
{
    let r = buffer.len() == 4 && buffer[0] == 0x2E && buffer[1] == 0x46 && buffer[2] == 0x49
        && buffer[3] == 0x54;
    proof {
        if r {
            assert(buffer@ =~= fit_signature());
        }
    }
    r
}

/// The length in bytes of a file header whose first byte is `b0`: 14
/// when it says so, else the legacy 12 without a header checksum.
pub open spec fn header_len(b0: u8) -> int {
    if b0 == 14 {
        14
    } else {
        12
    }
}

/// Whether a whole, signed file header lies at `p`: all its bytes are
/// present and the signature is `".FIT"`.
pub open spec fn header_ok(d: Seq<u8>, p: int) -> bool {
    &&& p + header_len(d[p]) <= d.len()
    &&& d.subrange(p + 8, p + 12) == fit_signature()
}

/// The file header encoded at `p`, meaningful when `header_ok`.
pub open spec fn header_rec(d: Seq<u8>, p: int) -> FileHeader {
    FileHeader {
        filesize: d[p],
        protocol: d[p + 1],
        profile_version: num_of(d.subrange(p + 2, p + 4), Endianness::Little) as u16,
        num_record_bytes: num_of(d.subrange(p + 4, p + 8), Endianness::Little) as u32,
        fileext: true,
        crc: if d[p] == 14 {
            num_of(d.subrange(p + 12, p + 14), Endianness::Little) as u16
        } else {
            0u16
        },
    }
}

/// The 12- or 14-byte block at the start of every FIT file.
///
/// `num_record_bytes` counts the data records that follow the header,
/// excluding the trailing two-byte file checksum. `fileext` records
/// that the `".FIT"` signature was present; a constructed header always
/// has it, since a missing signature is fatal.
#[derive(Clone, Copy, Debug, PartialEq, Eq, Structural)]
pub struct FileHeader {
    pub filesize: u8,
    pub protocol: u8,
    pub profile_version: u16,
    pub num_record_bytes: u32,
    pub fileext: bool,
    pub crc: u16,
}

impl FileHeader {
    pub fn new(map: &mut Reader) -> (r: Result<FileHeader, ErrorKind>)
        requires
            old(map).wf(),
        ensures
            final(map).data == old(map).data,
            final(map).wf(),
            match r {
                Ok(h) => {
                    let d = old(map).data@;
                    let p = old(map).pos as int;
                    &&& header_ok(d, p)
                    &&& h == header_rec(d, p)
                    &&& old(map).can_read(header_len(d[p]))
                    &&& final(map).pos == p + header_len(d[p])
                    &&& h.filesize == d[p]
                    &&& h.protocol == d[p + 1]
                    &&& h.profile_version == num_of(d.subrange(p + 2, p + 4), Endianness::Little)
                    &&& h.num_record_bytes == num_of(d.subrange(p + 4, p + 8), Endianness::Little)
                    &&& d.subrange(p + 8, p + 12) == fit_signature()
                    &&& h.fileext
                    &&& h.crc == if d[p] == 14 {
                        num_of(d.subrange(p + 12, p + 14), Endianness::Little) as u16
                    } else {
                        0u16
                    }
                },
                Err(e) => {
                    let d = old(map).data@;
                    let p = old(map).pos as int;
                    match e {
                        ErrorKind::UnexpectedEof => !old(map).can_read(1) || !old(map).can_read(
                            header_len(d[p]),
                        ),
                        ErrorKind::InvalidSignature => old(map).can_read(12) && d.subrange(
                            p + 8,
                            p + 12,
                        ) != fit_signature(),
                        _ => false,
                    }
                },
            },
    {
        let filesize = read_u8(map)?;
        let protocol = read_u8(map)?;
        let profile_version = read_u16(map, Endianness::Little)?;
        let num_record_bytes = read_u32(map, Endianness::Little)?;
        let sig = arr4(map)?;
        let fileext = read_fit_string(sig.as_slice());
        if !fileext {
            return Err(ErrorKind::InvalidSignature);
        }
        let crc = if filesize == 14 {
            read_u16(map, Endianness::Little)?
        } else {
            0
        };
        Ok(FileHeader { filesize, protocol, profile_version, num_record_bytes, fileext, crc })
    }

    /// The offset at which the data section ends: header length plus
    /// declared record bytes. The two file-checksum bytes follow it.
    pub fn file_length(&self) -> (r: u64)
        ensures
            r == self.filesize + self.num_record_bytes,
    {
        self.filesize as u64 + self.num_record_bytes as u64
    }
}

} // verus!
