//! Streaming walker for MCAP containers.
//!
//! An MCAP file is an 8-byte signature followed by length-prefixed records
//! and closed by the same signature. This crate validates the signature
//! ([`read_magic`]), walks the records one preamble at a time
//! ([`McapStream`]), decodes the mandatory header record
//! ([`parse_header_record`]) and skips every other body without
//! interpreting it.
//!
//! The crate performs no I/O. Whoever owns the input feeds it, in pieces
//! of any size, to a [`ByteSource`], and every operation reads from what
//! the source holds. An operation that needs more than the source holds
//! so far returns [`FormatError::Incomplete`] and is called again once
//! more bytes are fed or the end of the input is marked. What an
//! operation has decided, later bytes do not change: the module [`laws`]
//! proves that, together with what holds of offsets and of records that
//! are written out and read back.

pub mod error;
pub mod format;
pub mod header;
pub mod laws;
pub mod magic;
pub mod opcodes;
pub mod parse;
pub mod source;
pub mod stream;
pub mod trusted;
pub mod types;

pub use error::FormatError;
pub use format::Endian;
pub use header::{parse_header_record, Header, HeaderRecord, McapFileHeader};
pub use magic::{read_magic, Magic};
pub use opcodes::OpCode;
pub use source::{refill_len, ByteSource, SCRATCH_LEN};
pub use stream::{index_mcap, McapRecordHeader, McapStream, Record};
pub use types::{McapString, McapStringError};
