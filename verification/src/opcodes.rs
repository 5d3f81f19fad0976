//! Classification of record opcodes.

use vstd::prelude::*;
use vstd::std_specs::convert::FromSpecImpl;

verus! {

/// The kind of a record, as told by its opcode byte.
///
/// The opcode space is open: a byte that names no known kind is kept in
/// `Unknown` and never rejected.
#[derive(Debug, Clone, Copy, PartialEq, Eq, Structural)]
pub enum OpCode {
    Header,
    Footer,
    Schema,
    Channel,
    Message,
    Chunk,
    ChunkIndex,
    Attachment,
    Statistics,
    Metadata,
    MetadataIndex,
    SummaryOffset,
    Summary,
    Unknown(u8),
}

impl OpCode {
    /// The kind that the opcode byte `v` stands for.
    pub open spec fn classify(v: u8) -> OpCode {
        if v == 0x01 {
            OpCode::Header
        } else if v == 0x02 {
            OpCode::Footer
        } else if v == 0x03 {
            OpCode::Schema
        } else if v == 0x04 {
            OpCode::Channel
        } else if v == 0x05 {
            OpCode::Message
        } else if v == 0x06 {
            OpCode::Chunk
        } else if v == 0x07 {
            OpCode::ChunkIndex
        } else if v == 0x08 {
            OpCode::Attachment
        } else if v == 0x09 {
            OpCode::Statistics
        } else if v == 0x0A {
            OpCode::Metadata
        } else if v == 0x0B {
            OpCode::MetadataIndex
        } else if v == 0x0C {
            OpCode::SummaryOffset
        } else if v == 0x0D {
            OpCode::Summary
        } else {
            OpCode::Unknown(v)
        }
    }
}

impl FromSpecImpl<u8> for OpCode {
    open spec fn obeys_from_spec() -> bool {
        true
    }

    open spec fn from_spec(v: u8) -> OpCode {
        OpCode::classify(v)
    }
}

impl From<u8> for OpCode {
    fn from(v: u8) -> (r: OpCode) {
        match v {
            0x01 => OpCode::Header,
            0x02 => OpCode::Footer,
            0x03 => OpCode::Schema,
            0x04 => OpCode::Channel,
            0x05 => OpCode::Message,
            0x06 => OpCode::Chunk,
            0x07 => OpCode::ChunkIndex,
            0x08 => OpCode::Attachment,
            0x09 => OpCode::Statistics,
            0x0A => OpCode::Metadata,
            0x0B => OpCode::MetadataIndex,
            0x0C => OpCode::SummaryOffset,
            0x0D => OpCode::Summary,
            _ => OpCode::Unknown(v),
        }
    }
}

} // verus!
