//! The header record, first record of every container.

use vstd::prelude::*;
use crate::error::FormatError;
use crate::format::{le_u32, le_u32_at, le_u64, le_u64_at, Endian, PREAMBLE_LEN};
use crate::parse::{shown, Parse};
use crate::source::ByteSource;
use crate::types::{body_at, outcome, string_at, string_body, string_parse, McapString, Stop};

verus! {

/// Opcode byte of the header record.
pub const HEADER_OPCODE: u8 = 0x01;

/// What a decoded header says, as plain sequences of characters.
pub struct FileHeaderView {
    /// Name of the profile that the records follow.
    pub profile: Seq<char>,
    /// Name of the library that wrote the file.
    pub library: Seq<char>,
}

/// The two mandatory fields of the header record.
#[derive(Debug, PartialEq, Eq)]
pub struct McapFileHeader {
    /// Name of the profile that the records follow.
    pub profile: String,
    /// Name of the library that wrote the file.
    pub library: String,
}

impl View for McapFileHeader {
    type V = FileHeaderView;

    open spec fn view(&self) -> FileHeaderView {
        FileHeaderView { profile: self.profile@, library: self.library@ }
    }
}

/// Decodes a little-endian length-prefixed string from the front of `s`,
/// out of a body that has `budget` bytes left: prefix and string must fit.
pub open spec fn field_parse(s: Seq<u8>, budget: nat) -> Parse<Seq<char>> {
    if budget < 4 {
        Parse::Fault { error: FormatError::MalformedHeader, used: 0 }
    } else if s.len() < 4 {
        Parse::Short { need: 4 }
    } else if 4 + le_u32(s.subrange(0, 4)) > budget {
        Parse::Fault { error: FormatError::MalformedHeader, used: 4 }
    } else {
        string_body(s, le_u32(s.subrange(0, 4)) as nat)
    }
}

/// The length that the first string of a header body `s` declares.
pub open spec fn profile_len(s: Seq<u8>) -> int {
    le_u32(s.subrange(0, 4)) as int
}

/// The length that the second string of a header body `s` declares: its
/// prefix stands behind the first string.
pub open spec fn library_len(s: Seq<u8>) -> int {
    le_u32(s.subrange(4 + profile_len(s), 8 + profile_len(s))) as int
}

/// Decodes the body of a header record, `body_len` bytes long, from the
/// front of `s`: the profile, the library, then bytes that are passed
/// over unread.
pub open spec fn header_parse(s: Seq<u8>, body_len: u64) -> Parse<FileHeaderView> {
    match field_parse(s, body_len as nat) {
        Parse::Value { value: profile, used: n1 } => match field_parse(
            s.skip(n1 as int),
            (body_len - n1) as nat,
        ).after(n1) {
            Parse::Value { value: library, used: n2 } => if s.len() < body_len {
                Parse::Short { need: body_len as nat }
            } else {
                Parse::Value {
                    value: FileHeaderView { profile, library },
                    used: body_len as nat,
                }
            },
            Parse::Fault { error, used } => Parse::Fault { error, used },
            Parse::Short { need } => Parse::Short { need },
        },
        Parse::Fault { error, used } => Parse::Fault { error, used },
        Parse::Short { need } => Parse::Short { need },
    }
}

/// Decodes the little-endian length-prefixed string that stands at the
/// pending index `at`, out of a body that has `budget` bytes left.
/// Nothing is consumed.
fn field_at(reader: &ByteSource, at: usize, budget: u64) -> (f: Result<(String, u64), Stop>)
    requires
        at <= reader@.pending.len(),
    ensures
        outcome(f) == field_parse(reader@.pending.skip(at as int), budget as nat),
        f matches Err(stop) ==> stop.fits(reader@, at as nat),
{
    if budget < 4 {
        return Err(Stop::Fault { error: FormatError::MalformedHeader, used: 0 });
    }
    let held = reader.pending_len() - at;
    if held < 4 {
        return Err(Stop::Short { need: 4 });
    }
    let len = le_u32_at(reader, at);
    if 4 + len as u64 > budget {
        return Err(Stop::Fault { error: FormatError::MalformedHeader, used: 4 });
    }
    body_at(reader, at, len)
}

/// Decodes the body of the header record, `body_len` bytes long, from the
/// front of the source, and consumes it.
///
/// The body holds the profile and the library, each a little-endian
/// length-prefixed string; what follows them in the body is passed over
/// unread. A string that does not fit in what the body has left gives
/// `MalformedHeader`. A body that the source does not yet hold in full
/// gives `Incomplete` and consumes nothing.
pub fn parse_header_record(reader: &mut ByteSource, body_len: u64) -> (r: Result<
    McapFileHeader,
    FormatError,
>)
    ensures
        shown(r) == header_parse(old(reader)@.pending, body_len).result(old(reader)@),
        final(reader)@ == header_parse(old(reader)@.pending, body_len).leaves(old(reader)@),
{
    let held = reader.pending_len();
    proof {
        assert(reader@.pending.skip(0) =~= reader@.pending);
    }
    let (profile, n1) = match field_at(reader, 0, body_len) {
        Ok(found) => found,
        Err(stop) => {
            return Err(stop.settle(reader, 0));
        },
    };
    let (library, _) = match field_at(reader, n1 as usize, body_len - n1) {
        Ok(found) => found,
        Err(stop) => {
            return Err(stop.settle(reader, n1 as usize));
        },
    };
    if (held as u64) < body_len {
        return Err(reader.fall_short(body_len - held as u64));
    }
    reader.advance(body_len as usize);
    Ok(McapFileHeader { profile, library })
}

/// The header record as it stands in the container: preamble and body.
#[derive(Debug, PartialEq, Eq)]
pub struct HeaderRecord {
    /// Opcode byte: that of the header.
    pub opcode: u8,
    /// Length of the body.
    pub content_len: u64,
    /// The body, undecoded.
    pub body: Vec<u8>,
}

/// What a [`HeaderRecord`] holds, its body as a plain sequence.
pub struct HeaderRecordView {
    /// Opcode byte.
    pub opcode: u8,
    /// Length of the body.
    pub content_len: u64,
    /// The body, undecoded.
    pub body: Seq<u8>,
}

impl View for HeaderRecord {
    type V = HeaderRecordView;

    open spec fn view(&self) -> HeaderRecordView {
        HeaderRecordView { opcode: self.opcode, content_len: self.content_len, body: self.body@ }
    }
}

/// Decodes a whole header record from the front of `s`: the preamble,
/// whose opcode must be that of the header, and the body it declares.
pub open spec fn header_record_parse(s: Seq<u8>) -> Parse<HeaderRecordView> {
    if s.len() < PREAMBLE_LEN {
        Parse::Short { need: PREAMBLE_LEN as nat }
    } else if s[0] != HEADER_OPCODE {
        Parse::Fault { error: FormatError::MalformedHeader, used: PREAMBLE_LEN as nat }
    } else if s.len() < PREAMBLE_LEN + le_u64(s.subrange(1, 9)) {
        Parse::Short { need: (PREAMBLE_LEN + le_u64(s.subrange(1, 9))) as nat }
    } else {
        Parse::Value {
            value: HeaderRecordView {
                opcode: s[0],
                content_len: le_u64(s.subrange(1, 9)),
                body: s.subrange(9, 9 + le_u64(s.subrange(1, 9))),
            },
            used: (PREAMBLE_LEN + le_u64(s.subrange(1, 9))) as nat,
        }
    }
}

impl HeaderRecord {
    /// Reads a whole header record from the front of the source and
    /// consumes it.
    ///
    /// A record with another opcode gives `MalformedHeader`. A record that
    /// the source does not yet hold in full gives `Incomplete` and consumes
    /// nothing.
    pub fn read(reader: &mut ByteSource) -> (r: Result<HeaderRecord, FormatError>)
        ensures
            shown(r) == header_record_parse(old(reader)@.pending).result(old(reader)@),
            final(reader)@ == header_record_parse(old(reader)@.pending).leaves(old(reader)@),
    {
        let held = reader.pending_len();
        if held < PREAMBLE_LEN {
            return Err(reader.fall_short((PREAMBLE_LEN - held) as u64));
        }
        let opcode = reader.byte_at(0);
        let content_len = le_u64_at(reader, 1);
        if opcode != HEADER_OPCODE {
            reader.advance(PREAMBLE_LEN);
            return Err(FormatError::MalformedHeader);
        }
        let room: u64 = (held - PREAMBLE_LEN) as u64;
        if room < content_len {
            return Err(reader.fall_short(content_len - room));
        }
        let end: usize = PREAMBLE_LEN + content_len as usize;
        let body = reader.copy_range(PREAMBLE_LEN, end);
        reader.advance(end);
        Ok(HeaderRecord { opcode, content_len, body })
    }
}

/// The body of the header record: profile and library.
#[derive(Debug, PartialEq, Eq)]
pub struct Header {
    /// Name of the profile that the records follow.
    pub profile: McapString,
    /// Name of the library that wrote the file.
    pub library: McapString,
}

impl View for Header {
    type V = FileHeaderView;

    open spec fn view(&self) -> FileHeaderView {
        FileHeaderView { profile: self.profile@, library: self.library@ }
    }
}

/// Decodes two little-endian length-prefixed strings from the front of
/// `s`: the profile, then the library.
pub open spec fn header_fields(s: Seq<u8>) -> Parse<FileHeaderView> {
    match string_parse(s, Endian::Little) {
        Parse::Value { value: profile, used: n1 } => match string_parse(
            s.skip(n1 as int),
            Endian::Little,
        ).after(n1) {
            Parse::Value { value: library, used } => Parse::Value {
                value: FileHeaderView { profile, library },
                used,
            },
            Parse::Fault { error, used } => Parse::Fault { error, used },
            Parse::Short { need } => Parse::Short { need },
        },
        Parse::Fault { error, used } => Parse::Fault { error, used },
        Parse::Short { need } => Parse::Short { need },
    }
}

impl Header {
    /// Reads profile and library from the front of the source and
    /// consumes them.
    ///
    /// Strings that the source does not yet hold in full give `Incomplete`
    /// and consume nothing.
    pub fn read(reader: &mut ByteSource) -> (r: Result<Header, FormatError>)
        ensures
            shown(r) == header_fields(old(reader)@.pending).result(old(reader)@),
            final(reader)@ == header_fields(old(reader)@.pending).leaves(old(reader)@),
    {
        proof {
            reader.lemma_pending_fits();
            assert(reader@.pending.skip(0) =~= reader@.pending);
        }
        let (profile, n1) = match string_at(reader, 0, Endian::Little) {
            Ok(found) => found,
            Err(stop) => {
                return Err(stop.settle(reader, 0));
            },
        };
        let (library, n2) = match string_at(reader, n1 as usize, Endian::Little) {
            Ok(found) => found,
            Err(stop) => {
                return Err(stop.settle(reader, n1 as usize));
            },
        };
        reader.advance(n1 as usize + n2 as usize);
        Ok(Header { profile: McapString(profile), library: McapString(library) })
    }
}

} // verus!
