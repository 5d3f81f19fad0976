//! The record walker.

use vstd::prelude::*;
use crate::error::FormatError;
use crate::format::{le_u64, le_u64_at, magic, signature_from, MAGIC_LEAD, MAGIC_LEN, PREAMBLE_LEN};
use crate::opcodes::OpCode;
use crate::source::{ByteSource, SourceView};

verus! {

/// Describes one record: its kind, the length of its body and where it
/// starts.
#[derive(Debug, Clone, Copy, PartialEq, Eq, Structural)]
pub struct McapRecordHeader {
    /// Kind of the record.
    pub opcode: OpCode,
    /// Number of body bytes that follow the preamble, as encoded.
    pub body_len: u64,
    /// Logical offset of the record's opcode byte.
    pub offset: u64,
}

/// Describes one record with its opcode left as the raw byte.
#[derive(Debug, Clone, Copy, PartialEq, Eq, Structural)]
pub struct Record {
    /// Opcode byte of the record.
    pub opcode: u8,
    /// Number of body bytes that follow the preamble, as encoded.
    pub body_len: u64,
    /// Logical offset of the record's opcode byte.
    pub offset: u64,
}

impl Record {
    /// The same record with its opcode classified.
    pub open spec fn classified(self) -> McapRecordHeader {
        McapRecordHeader {
            opcode: OpCode::classify(self.opcode),
            body_len: self.body_len,
            offset: self.offset,
        }
    }

    /// The same record with its opcode classified.
    pub fn classify(&self) -> (h: McapRecordHeader)
        ensures
            h == self.classified(),
    {
        McapRecordHeader {
            opcode: OpCode::from(self.opcode),
            body_len: self.body_len,
            offset: self.offset,
        }
    }
}

/// What stands at the front of a source where a record may begin.
#[derive(Debug, Clone, Copy, PartialEq, Eq, Structural)]
pub enum Preamble {
    /// The input has ended and nothing is pending.
    End,
    /// Too little is pending to tell, and the input has not ended.
    Pending {
        /// Bytes still needed.
        missing: u64,
    },
    /// The eight bytes of the marker that ends the records.
    EndMarker,
    /// The marker's lead byte, followed by seven bytes that are not its tail.
    BrokenMarker,
    /// The marker's lead byte, and the input ended within the seven after it.
    CutMarker,
    /// The nine bytes of a record preamble.
    Record {
        /// Opcode byte.
        opcode: u8,
        /// Declared body length.
        body_len: u64,
    },
    /// An opcode byte, and the input ended within the eight after it.
    CutRecord,
}

/// Reads the front of `v` as the start of a record.
///
/// The marker's lead byte is never taken for an opcode: what follows it
/// is the marker's tail or an error.
pub open spec fn preamble(v: SourceView) -> Preamble {
    let s = v.pending;
    if s.len() == 0 {
        if v.ended {
            Preamble::End
        } else {
            Preamble::Pending { missing: 1 }
        }
    } else if s[0] == MAGIC_LEAD {
        if s.len() >= MAGIC_LEN {
            if s.subrange(1, 8) == magic().subrange(1, 8) {
                Preamble::EndMarker
            } else {
                Preamble::BrokenMarker
            }
        } else if v.ended {
            Preamble::CutMarker
        } else {
            Preamble::Pending { missing: (MAGIC_LEN - s.len()) as u64 }
        }
    } else {
        if s.len() >= PREAMBLE_LEN {
            Preamble::Record { opcode: s[0], body_len: le_u64(s.subrange(1, 9)) }
        } else if v.ended {
            Preamble::CutRecord
        } else {
            Preamble::Pending { missing: (PREAMBLE_LEN - s.len()) as u64 }
        }
    }
}

impl Preamble {
    /// Number of pending bytes that reading this preamble consumes, out of
    /// `held`.
    pub open spec fn used(self, held: nat) -> nat {
        match self {
            Preamble::End => 0,
            Preamble::Pending { .. } => 0,
            Preamble::EndMarker => MAGIC_LEN as nat,
            Preamble::BrokenMarker => MAGIC_LEN as nat,
            Preamble::CutMarker => held,
            Preamble::Record { .. } => PREAMBLE_LEN as nat,
            Preamble::CutRecord => held,
        }
    }

    /// Number of bytes by which reading this preamble moves the logical
    /// offset: the marker is no record and moves nothing.
    pub open spec fn advance(self) -> nat {
        match self {
            Preamble::Record { .. } => PREAMBLE_LEN as nat,
            Preamble::CutRecord => 1,
            _ => 0,
        }
    }

    /// What `next` returns for this preamble, met at `offset`: a clean end
    /// of the input stands for the marker.
    pub open spec fn lenient(self, offset: u64) -> Result<Option<McapRecordHeader>, FormatError> {
        match self {
            Preamble::End => Ok(None),
            Preamble::Pending { missing } => Err(FormatError::Incomplete { missing }),
            Preamble::EndMarker => Ok(None),
            Preamble::BrokenMarker => Err(FormatError::UnexpectedFooterMagic),
            Preamble::CutMarker => Err(FormatError::UnexpectedEof),
            Preamble::Record { opcode, body_len } => Ok(
                Some(McapRecordHeader { opcode: OpCode::classify(opcode), body_len, offset }),
            ),
            Preamble::CutRecord => Err(FormatError::TruncatedRecord),
        }
    }

    /// What `next_record` returns for this preamble, met at `offset`: only
    /// the marker ends the records.
    pub open spec fn strict(self, offset: u64) -> Result<Option<Record>, FormatError> {
        match self {
            Preamble::End => Err(FormatError::UnexpectedEof),
            Preamble::Pending { missing } => Err(FormatError::Incomplete { missing }),
            Preamble::EndMarker => Ok(None),
            Preamble::BrokenMarker => Err(FormatError::UnexpectedFooterMagic),
            Preamble::CutMarker => Err(FormatError::UnexpectedEof),
            Preamble::Record { opcode, body_len } => Ok(Some(Record { opcode, body_len, offset })),
            Preamble::CutRecord => Err(FormatError::TruncatedRecord),
        }
    }
}

/// Number of bytes that skipping a body of `body_len` bytes consumes from
/// `v`: the whole body, or what is pending of it.
pub open spec fn skipped(v: SourceView, body_len: u64) -> nat {
    if body_len <= v.pending.len() {
        body_len as nat
    } else {
        v.pending.len()
    }
}

/// What skipping a body of `body_len` bytes from `v` comes to.
pub open spec fn skip_result(v: SourceView, body_len: u64) -> Result<(), FormatError> {
    if body_len <= v.pending.len() {
        Ok(())
    } else if v.ended {
        Err(FormatError::TruncatedRecord)
    } else {
        Err(FormatError::Incomplete { missing: (body_len - v.pending.len()) as u64 })
    }
}

/// What a [`McapStream`] stands for: its byte source and its logical
/// offset.
#[verifier::ext_equal]
pub struct StreamView {
    /// The byte source, behind the file signature.
    pub source: SourceView,
    /// Logical offset of the next byte to read.
    pub offset: u64,
}

impl StreamView {
    /// Whether the offset stays within `u64` when the preamble at the
    /// front is read.
    pub open spec fn room_for_preamble(self) -> bool {
        self.offset + preamble(self.source).advance() <= u64::MAX
    }

    /// Whether the offset stays within `u64` when a body of `body_len`
    /// bytes is skipped.
    pub open spec fn room_for_body(self, body_len: u64) -> bool {
        self.offset + skipped(self.source, body_len) <= u64::MAX
    }

    /// The walker with `chunk` fed to its source and then, if `closing`,
    /// the end of the source marked.
    pub open spec fn grown(self, chunk: Seq<u8>, closing: bool) -> StreamView {
        StreamView { source: self.source.grown(chunk, closing), offset: self.offset }
    }

    /// The walker behind the preamble at its front.
    pub open spec fn after_preamble(self) -> StreamView {
        StreamView {
            source: self.source.advanced(preamble(self.source).used(self.source.pending.len())),
            offset: (self.offset + preamble(self.source).advance()) as u64,
        }
    }

    /// The walker behind what it consumes of a body of `body_len` bytes.
    pub open spec fn after_body(self, body_len: u64) -> StreamView {
        StreamView {
            source: self.source.advanced(skipped(self.source, body_len)),
            offset: (self.offset + skipped(self.source, body_len)) as u64,
        }
    }

    /// What walking to the end of the records comes to: every body is
    /// skipped, and only the end marker ends the walk without an error.
    pub open spec fn walk(self) -> Result<(), FormatError>
        decreases self.source.pending.len(),
    {
        match preamble(self.source) {
            Preamble::Record { opcode, body_len } => {
                let body = self.after_preamble();
                match skip_result(body.source, body_len) {
                    Ok(_) => body.after_body(body_len).walk(),
                    Err(e) => Err(e),
                }
            },
            Preamble::EndMarker => Ok(()),
            Preamble::End => Err(FormatError::UnexpectedEof),
            Preamble::Pending { missing } => Err(FormatError::Incomplete { missing }),
            Preamble::BrokenMarker => Err(FormatError::UnexpectedFooterMagic),
            Preamble::CutMarker => Err(FormatError::UnexpectedEof),
            Preamble::CutRecord => Err(FormatError::TruncatedRecord),
        }
    }

    /// The descriptors that such a walk yields, in order, up to the end of
    /// the records or the error that stops it.
    pub open spec fn records(self) -> Seq<Record>
        decreases self.source.pending.len(),
    {
        match preamble(self.source) {
            Preamble::Record { opcode, body_len } => {
                let head = Record { opcode, body_len, offset: self.offset };
                let body = self.after_preamble();
                match skip_result(body.source, body_len) {
                    Ok(_) => seq![head] + body.after_body(body_len).records(),
                    Err(_) => seq![head],
                }
            },
            _ => Seq::empty(),
        }
    }
}

/// Walks the records of a container, one preamble at a time.
///
/// The walker owns its byte source and counts, in `offset`, the bytes of
/// the records it has passed. It starts behind the file signature.
pub struct McapStream {
    /// The byte source, behind the file signature.
    pub reader: ByteSource,
    /// Logical offset, behind the file signature, of the next byte to read.
    pub offset: u64,
}

impl View for McapStream {
    type V = StreamView;

    open spec fn view(&self) -> StreamView {
        StreamView { source: self.reader@, offset: self.offset }
    }
}

impl McapStream {
    /// A walker at offset 0 over `reader`, which stands behind the file
    /// signature.
    pub fn new(reader: ByteSource) -> (s: McapStream)
        ensures
            s.reader == reader,
            s.offset == 0,
    {
        McapStream { reader, offset: 0 }
    }

    /// The byte source itself, for a decoder that reads a record's body in
    /// place. The walker does not count what is read through it: the caller
    /// adds the bytes it consumed to `offset`.
    pub fn reader_mut(&mut self) -> (r: &mut ByteSource)
        ensures
            *r == old(self).reader,
            final(self).reader == *final(r),
            final(self).offset == old(self).offset,
    {
        &mut self.reader
    }

    /// Whether the offset stays within `u64` when the preamble at the
    /// front is read: what `next` and `next_record` ask of their caller.
    pub fn has_room_for_preamble(&self) -> (b: bool)
        ensures
            b == self@.room_for_preamble(),
    {
        let held = self.reader.pending_len();
        if held == 0 || self.reader.byte_at(0) == MAGIC_LEAD {
            true
        } else if held >= PREAMBLE_LEN {
            self.offset <= u64::MAX - PREAMBLE_LEN as u64
        } else if self.reader.is_ended() {
            self.offset <= u64::MAX - 1
        } else {
            true
        }
    }

    /// Whether the offset stays within `u64` when a body of `body_len`
    /// bytes is skipped: what `skip_body` asks of its caller.
    pub fn has_room_for_body(&self, body_len: u64) -> (b: bool)
        ensures
            b == self@.room_for_body(body_len),
    {
        let held = self.reader.pending_len() as u64;
        let reach = if body_len <= held {
            body_len
        } else {
            held
        };
        self.offset <= u64::MAX - reach
    }

    /// Reads what stands at the front of the source, consumes it and moves
    /// the offset past it.
    fn take_preamble(&mut self) -> (p: Preamble)
        requires
            old(self)@.room_for_preamble(),
        ensures
            p == preamble(old(self)@.source),
            final(self)@ == old(self)@.after_preamble(),
    {
        let held = self.reader.pending_len();
        let ended = self.reader.is_ended();
        if held == 0 {
            return if ended {
                Preamble::End
            } else {
                Preamble::Pending { missing: 1 }
            };
        }
        let lead = self.reader.byte_at(0);
        let need: usize = if lead == MAGIC_LEAD {
            MAGIC_LEN
        } else {
            PREAMBLE_LEN
        };
        if held < need {
            if ended {
                self.reader.advance(held);
                if lead == MAGIC_LEAD {
                    return Preamble::CutMarker;
                }
                self.offset = self.offset + 1;
                return Preamble::CutRecord;
            }
            return Preamble::Pending { missing: (need - held) as u64 };
        }
        if lead == MAGIC_LEAD {
            let same = signature_from(&self.reader, 1);
            self.reader.advance(MAGIC_LEN);
            return if same {
                Preamble::EndMarker
            } else {
                Preamble::BrokenMarker
            };
        }
        let body_len = le_u64_at(&self.reader, 1);
        self.reader.advance(PREAMBLE_LEN);
        self.offset = self.offset + PREAMBLE_LEN as u64;
        Preamble::Record { opcode: lead, body_len }
    }

    /// Yields the next record's descriptor, or `None` where the records
    /// end: at the end marker, or at a clean end of the input.
    ///
    /// The descriptor's offset is the walker's offset before the call; the
    /// walker then stands behind the preamble. A preamble that the source
    /// does not yet hold in full gives `Incomplete` and consumes nothing.
    pub fn next(&mut self) -> (r: Result<Option<McapRecordHeader>, FormatError>)
        requires
            old(self)@.room_for_preamble(),
        ensures
            r == preamble(old(self)@.source).lenient(old(self).offset),
            final(self)@ == old(self)@.after_preamble(),
    {
        let start = self.offset;
        match self.take_preamble() {
            Preamble::End => Ok(None),
            Preamble::Pending { missing } => Err(FormatError::Incomplete { missing }),
            Preamble::EndMarker => Ok(None),
            Preamble::BrokenMarker => Err(FormatError::UnexpectedFooterMagic),
            Preamble::CutMarker => Err(FormatError::UnexpectedEof),
            Preamble::Record { opcode, body_len } => Ok(
                Some(McapRecordHeader { opcode: OpCode::from(opcode), body_len, offset: start }),
            ),
            Preamble::CutRecord => Err(FormatError::TruncatedRecord),
        }
    }

    /// Yields the next record with its opcode byte as it stands, or `None`
    /// at the end marker. An input that ends without the marker is an
    /// error here.
    ///
    /// A preamble that the source does not yet hold in full gives
    /// `Incomplete` and consumes nothing.
    pub fn next_record(&mut self) -> (r: Result<Option<Record>, FormatError>)
        requires
            old(self)@.room_for_preamble(),
        ensures
            r == preamble(old(self)@.source).strict(old(self).offset),
            final(self)@ == old(self)@.after_preamble(),
    {
        let start = self.offset;
        match self.take_preamble() {
            Preamble::End => Err(FormatError::UnexpectedEof),
            Preamble::Pending { missing } => Err(FormatError::Incomplete { missing }),
            Preamble::EndMarker => Ok(None),
            Preamble::BrokenMarker => Err(FormatError::UnexpectedFooterMagic),
            Preamble::CutMarker => Err(FormatError::UnexpectedEof),
            Preamble::Record { opcode, body_len } => Ok(
                Some(Record { opcode, body_len, offset: start }),
            ),
            Preamble::CutRecord => Err(FormatError::TruncatedRecord),
        }
    }

    /// Consumes the body that `rec` declares and moves the offset past
    /// what was consumed.
    ///
    /// Where the source holds less than the body, all of it is consumed:
    /// an ended source then gives `TruncatedRecord`, an open one
    /// `Incomplete` with the length of the rest, to be skipped once more
    /// bytes are fed.
    pub fn skip_body(&mut self, rec: &McapRecordHeader) -> (r: Result<(), FormatError>)
        requires
            old(self)@.room_for_body(rec.body_len),
        ensures
            r == skip_result(old(self)@.source, rec.body_len),
            final(self)@ == old(self)@.after_body(rec.body_len),
    {
        let held = self.reader.pending_len();
        let ended = self.reader.is_ended();
        if rec.body_len <= held as u64 {
            self.reader.advance(rec.body_len as usize);
            self.offset = self.offset + rec.body_len;
            Ok(())
        } else {
            self.reader.advance(held);
            self.offset = self.offset + held as u64;
            if ended {
                Err(FormatError::TruncatedRecord)
            } else {
                Err(FormatError::Incomplete { missing: rec.body_len - held as u64 })
            }
        }
    }
}

/// Walks `m` to the end of its records, skipping every body.
///
/// Succeeds where the walk meets the end marker; any other end gives the
/// error that stopped it.
pub fn index_mcap(m: McapStream) -> (r: Result<(), FormatError>)
    requires
        m.offset + m.reader@.pending.len() <= u64::MAX,
    ensures
        r == m@.walk(),
{
    let mut stream = m;
    loop
        invariant
            stream.offset + stream.reader@.pending.len() <= u64::MAX,
            stream@.walk() == m@.walk(),
        decreases stream.reader@.pending.len(),
    {
        match stream.next_record() {
            Err(e) => {
                return Err(e);
            },
            Ok(None) => {
                return Ok(());
            },
            Ok(Some(rec)) => {
                match stream.skip_body(&rec.classify()) {
                    Err(e) => {
                        return Err(e);
                    },
                    Ok(_) => {},
                }
            },
        }
    }
}

} // verus!
