use vstd::prelude::*;

verus! {

/// The fatal ways a FIT stream can fail to decode.
///
/// Anything else (unknown message types, sentinel values, unknown enum
/// codes, malformed strings) is recovered locally and never surfaces.
#[derive(Clone, Copy, Debug, PartialEq, Eq, Structural)]
pub enum ErrorKind {
    /// The stream ended before a read could complete.
    UnexpectedEof,
    /// The file header does not carry the `".FIT"` signature.
    InvalidSignature,
    /// A definition record's endianness byte was neither 0 nor 1.
    InvalidEndianness,
    /// A data record referenced a local message number with no
    /// definition in force.
    MissingDefinition(u8),
}

} // verus!
