//! Length-prefixed strings.

use vstd::prelude::*;
use vstd::std_specs::convert::FromSpecImpl;
use vstd::utf8::{decode_utf8, valid_utf8};
use crate::error::FormatError;
use crate::format::{u32_in, Endian};
use crate::parse::{shown, Parse};
use crate::source::{ByteSource, SourceView};
use crate::trusted::read_u32;

verus! {

/// Why a length-prefixed string could not be decoded.
#[derive(Debug, Clone, Copy, PartialEq, Eq, Structural)]
pub enum McapStringError {
    /// The string's bytes are not valid UTF-8.
    InvalidUtf8,
}

impl McapStringError {
    /// A sentence that says what went wrong.
    pub fn message(&self) -> (text: String)
        ensures
            text@ == "MCAP string contains invalid UTF-8"@,
    {
        match self {
            McapStringError::InvalidUtf8 => "MCAP string contains invalid UTF-8".to_string(),
        }
    }
}

impl FromSpecImpl<McapStringError> for FormatError {
    open spec fn obeys_from_spec() -> bool {
        true
    }

    open spec fn from_spec(err: McapStringError) -> FormatError {
        FormatError::InvalidUtf8
    }
}

impl From<McapStringError> for FormatError {
    fn from(err: McapStringError) -> (e: FormatError) {
        match err {
            McapStringError::InvalidUtf8 => FormatError::InvalidUtf8,
        }
    }
}

/// A string as the container stores it: a four-byte length, then that many
/// bytes of UTF-8.
#[derive(Debug, PartialEq, Eq)]
pub struct McapString(pub String);

impl View for McapString {
    type V = Seq<char>;

    open spec fn view(&self) -> Seq<char> {
        self.0@
    }
}

/// Decodes the string whose length prefix, already read as `len`, takes
/// the first four bytes of `s`.
pub open spec fn string_body(s: Seq<u8>, len: nat) -> Parse<Seq<char>> {
    if s.len() < 4 + len {
        Parse::Short { need: 4 + len }
    } else if !valid_utf8(s.subrange(4, 4 + len as int)) {
        Parse::Fault { error: FormatError::InvalidUtf8, used: 4 + len }
    } else {
        Parse::Value { value: decode_utf8(s.subrange(4, 4 + len as int)), used: 4 + len }
    }
}

/// Decodes a length-prefixed string from the front of `s`, its length in
/// the byte order `endian`.
pub open spec fn string_parse(s: Seq<u8>, endian: Endian) -> Parse<Seq<char>> {
    if s.len() < 4 {
        Parse::Short { need: 4 }
    } else {
        string_body(s, u32_in(s.subrange(0, 4), endian) as nat)
    }
}

/// Why decoding at an index of the pending bytes gave no value.
pub(crate) enum Stop {
    /// The bytes are at fault; `used` of them were read to find that out.
    Fault { error: FormatError, used: u64 },
    /// Fewer than `need` bytes stand behind the index.
    Short { need: u64 },
}

impl Stop {
    /// The outcome that this value stands for.
    pub(crate) open spec fn parse<T>(self) -> Parse<T> {
        match self {
            Stop::Fault { error, used } => Parse::Fault { error, used: used as nat },
            Stop::Short { need } => Parse::Short { need: need as nat },
        }
    }

    /// Whether this stop can have come from decoding behind index `at` of
    /// what `v` holds: a fault lies within the pending bytes, and what is
    /// missing lies beyond them.
    pub(crate) open spec fn fits(self, v: SourceView, at: nat) -> bool {
        match self {
            Stop::Fault { used, .. } => at + used <= v.pending.len(),
            Stop::Short { need } => at + need > v.pending.len() >= at,
        }
    }

    /// Carries this stop out on `reader`, where decoding had begun behind
    /// index `at` of the pending bytes, and gives the error to return.
    pub(crate) fn settle(self, reader: &mut ByteSource, at: usize) -> (e: FormatError)
        requires
            self.fits(old(reader)@, at as nat),
        ensures
            Err::<(), FormatError>(e) == self.parse::<()>().after(at as nat).result(old(reader)@),
            final(reader)@ == old(reader)@.advanced(
                self.parse::<()>().after(at as nat).used(old(reader)@),
            ),
    {
        let held = reader.pending_len();
        match self {
            Stop::Fault { error, used } => {
                reader.advance(at + used as usize);
                error
            },
            Stop::Short { need } => reader.fall_short(need - (held - at) as u64),
        }
    }
}

/// The outcome that a string decoded at an index, or the stop in its
/// place, stands for.
pub(crate) open spec fn outcome(f: Result<(String, u64), Stop>) -> Parse<Seq<char>> {
    match f {
        Ok((text, used)) => Parse::Value { value: text@, used: used as nat },
        Err(stop) => stop.parse(),
    }
}

/// Decodes the string of `len` bytes whose length prefix stands at the
/// pending index `at`, and says how many bytes prefix and string take.
/// Nothing is consumed.
pub(crate) fn body_at(reader: &ByteSource, at: usize, len: u32) -> (f: Result<(String, u64), Stop>)
    requires
        at + 4 <= reader@.pending.len(),
    ensures
        outcome(f) == string_body(reader@.pending.skip(at as int), len as nat),
        f matches Err(stop) ==> stop.fits(reader@, at as nat),
{
    let held: u64 = (reader.pending_len() - at) as u64;
    let need: u64 = 4 + len as u64;
    if held < need {
        return Err(Stop::Short { need });
    }
    let bytes = reader.copy_range(at + 4, at + 4 + len as usize);
    assert(bytes@ =~= reader@.pending.skip(at as int).subrange(4, 4 + len));
    match String::from_utf8(bytes) {
        Ok(text) => Ok((text, need)),
        Err(_) => Err(
            Stop::Fault { error: FormatError::from(McapStringError::InvalidUtf8), used: need },
        ),
    }
}

/// Decodes the length-prefixed string that stands at the pending index
/// `at`, its length in the byte order `endian`, and says how many bytes
/// it takes. Nothing is consumed.
pub(crate) fn string_at(reader: &ByteSource, at: usize, endian: Endian) -> (f: Result<
    (String, u64),
    Stop,
>)
    requires
        at <= reader@.pending.len(),
    ensures
        outcome(f) == string_parse(reader@.pending.skip(at as int), endian),
        f matches Err(stop) ==> stop.fits(reader@, at as nat),
{
    let held = reader.pending_len() - at;
    let end = if held < 4 {
        at + held
    } else {
        at + 4
    };
    let prefix = reader.copy_range(at, end);
    match read_u32(prefix.as_slice(), endian) {
        Ok(len) => {
            body_at(reader, at, len)
        },
        Err(_) => Err(Stop::Short { need: 4 }),
    }
}

/// Reads a length-prefixed string from the front of the source, its
/// length in the byte order `endian`, and consumes it.
///
/// A string that the source does not yet hold in full gives `Incomplete`
/// and consumes nothing.
fn read_mcap_string(reader: &mut ByteSource, endian: Endian) -> (r: Result<String, FormatError>)
    ensures
        shown(r) == string_parse(old(reader)@.pending, endian).result(old(reader)@),
        final(reader)@ == string_parse(old(reader)@.pending, endian).leaves(old(reader)@),
{
    proof {
        reader.lemma_pending_fits();
        assert(reader@.pending.skip(0) =~= reader@.pending);
    }
    match string_at(reader, 0, endian) {
        Ok((text, used)) => {
            reader.advance(used as usize);
            Ok(text)
        },
        Err(stop) => Err(stop.settle(reader, 0)),
    }
}

impl McapString {
    /// Reads one string from the front of the source, its length in the
    /// byte order `endian`, and consumes it.
    ///
    /// A string that the source does not yet hold in full gives
    /// `Incomplete` and consumes nothing.
    pub fn read_options(reader: &mut ByteSource, endian: Endian) -> (r: Result<
        McapString,
        FormatError,
    >)
        ensures
            shown(r) == string_parse(old(reader)@.pending, endian).result(old(reader)@),
            final(reader)@ == string_parse(old(reader)@.pending, endian).leaves(old(reader)@),
    {
        match read_mcap_string(reader, endian) {
            Ok(text) => Ok(McapString(text)),
            Err(e) => Err(e),
        }
    }
}

} // verus!
