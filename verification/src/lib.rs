//! A verified streaming decoder for the ANT+ FIT binary file format.
//!
//! A FIT file is a compact, self-describing, record-oriented stream
//! emitted by fitness devices. The decoder reads a contiguous byte view
//! of such a file and produces a sequence of typed, named messages whose
//! fields have been decoded, scaled and unit-adjusted.
//!
//! The layers, leaves first: [`io`] is the byte cursor with primitive
//! reads in either byte order; [`file_header`], [`header_byte`],
//! [`field_definition`] and [`definition_record`] parse the framing;
//! [`data_field`] decodes one field span into a [`value::Value`],
//! sentinel patterns becoming absent values; [`developer_fields`]
//! carries the in-band schema that `FieldDescription` messages declare;
//! [`sdk`] holds the closed-world profile tables; [`process`] applies
//! the semantic pass (semicircles, epochs, scale and offset, symbol
//! resolution), its exact binary rounding built in [`rounding`]; and
//! [`fit`] drives the record loop. [`laws`] states and proves the
//! decoder's cross-cutting guarantees over the same specifications.

pub mod arrayable;
pub mod base_type;
pub mod data_field;
pub mod definition_record;
pub mod developer_fields;
pub mod error;
pub mod field_definition;
pub mod file_header;
pub mod fit;
pub mod header_byte;
pub mod io;
pub mod laws;
pub mod message;
pub mod process;
pub mod rounding;
pub mod sdk;
pub mod value;
