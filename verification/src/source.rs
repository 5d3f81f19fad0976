//! The byte source that the walker reads from.

use vstd::prelude::*;
use vstd::slice::{slice_subrange, slice_to_vec};
use crate::error::FormatError;
use crate::parse::{shown, Parse};

verus! {

/// What a [`ByteSource`] stands for: the bytes it holds and has not yet
/// given out, and whether the input continues after them.
#[verifier::ext_equal]
pub struct SourceView {
    /// Bytes received and not yet consumed, oldest first.
    pub pending: Seq<u8>,
    /// No byte follows the pending ones.
    pub ended: bool,
}

impl SourceView {
    /// This source with its first `n` pending bytes consumed.
    pub open spec fn advanced(self, n: nat) -> SourceView {
        SourceView { pending: self.pending.skip(n as int), ended: self.ended }
    }

    /// This source with its end marked.
    pub open spec fn finished(self) -> SourceView {
        SourceView { pending: self.pending, ended: true }
    }

    /// This source with `chunk` fed to it and then, if `closing`, its end
    /// marked.
    pub open spec fn grown(self, chunk: Seq<u8>, closing: bool) -> SourceView {
        if closing {
            self.fed(chunk).finished()
        } else {
            self.fed(chunk)
        }
    }

    /// This source with `chunk` fed to it: a source that has ended takes
    /// nothing more.
    pub open spec fn fed(self, chunk: Seq<u8>) -> SourceView {
        if self.ended {
            self
        } else {
            SourceView { pending: self.pending + chunk, ended: false }
        }
    }
}

/// Takes the first `n` bytes of `s`.
pub open spec fn bytes_parse(s: Seq<u8>, n: nat) -> Parse<Seq<u8>> {
    if s.len() < n {
        Parse::Short { need: n }
    } else {
        Parse::Value { value: s.subrange(0, n as int), used: n }
    }
}

/// Most bytes that a driver reads from its input at once.
pub const SCRATCH_LEN: usize = 65536;

/// Number of bytes to read next for a call that reported `missing` bytes:
/// all of them, or as many as fit the scratch buffer.
pub fn refill_len(missing: u64) -> (take: usize)
    ensures
        take == if missing <= SCRATCH_LEN {
            missing as usize
        } else {
            SCRATCH_LEN
        },
{
    if missing <= SCRATCH_LEN as u64 {
        missing as usize
    } else {
        SCRATCH_LEN
    }
}

/// An in-memory window onto a forward-only byte stream.
///
/// The owner of the real input feeds chunks in as they arrive and marks the
/// end of the input; readers consume from the front.
pub struct ByteSource {
    buf: Vec<u8>,
    pos: usize,
    ended: bool,
}

impl View for ByteSource {
    type V = SourceView;

    closed spec fn view(&self) -> SourceView {
        SourceView {
            pending: if self.pos <= self.buf@.len() {
                self.buf@.skip(self.pos as int)
            } else {
                Seq::empty()
            },
            ended: self.ended,
        }
    }
}

impl ByteSource {
    #[verifier::type_invariant]
    spec fn well_formed(self) -> bool {
        self.pos <= self.buf@.len()
    }

    /// The length of what is pending fits in `usize`.
    pub proof fn lemma_pending_fits(self)
        ensures
            self@.pending.len() <= usize::MAX,
    {
        assert(self.buf.len() == self.buf@.len());
    }

    /// An open source that holds nothing yet.
    pub fn new() -> (s: ByteSource)
        ensures
            s@.pending == Seq::<u8>::empty(),
            !s@.ended,
    {
        ByteSource { buf: Vec::new(), pos: 0, ended: false }
    }

    /// A source over a complete input: it holds `data` and has ended.
    pub fn from_vec(data: Vec<u8>) -> (s: ByteSource)
        ensures
            s@.pending == data@,
            s@.ended,
    {
        ByteSource { buf: data, pos: 0, ended: true }
    }

    /// Number of bytes held and not yet consumed.
    pub fn pending_len(&self) -> (n: usize)
        ensures
            n == self@.pending.len(),
    {
        proof {
            use_type_invariant(self);
        }
        self.buf.len() - self.pos
    }

    /// Whether the end of the input has been marked.
    pub fn is_ended(&self) -> (b: bool)
        ensures
            b == self@.ended,
    {
        self.ended
    }

    /// The pending byte at index `i`, if that many are pending.
    pub fn peek(&self, i: usize) -> (b: Option<u8>)
        ensures
            b == if i < self@.pending.len() {
                Some(self@.pending[i as int])
            } else {
                None
            },
    {
        if i < self.pending_len() {
            Some(self.byte_at(i))
        } else {
            None
        }
    }

    /// Reads exactly `n` bytes from the front of the source and consumes
    /// them.
    ///
    /// Where the source has ended with fewer, what it has left is consumed
    /// and the end reported; an open source that holds fewer gives
    /// `Incomplete` and consumes nothing.
    pub fn read_exact(&mut self, n: usize) -> (r: Result<Vec<u8>, FormatError>)
        ensures
            shown(r) == bytes_parse(old(self)@.pending, n as nat).result(old(self)@),
            final(self)@ == bytes_parse(old(self)@.pending, n as nat).leaves(old(self)@),
    {
        let held = self.pending_len();
        if held < n {
            return Err(self.fall_short((n - held) as u64));
        }
        let bytes = self.copy_range(0, n);
        self.advance(n);
        Ok(bytes)
    }

    /// Consumes up to `max` pending bytes and says how many they were.
    pub fn skip(&mut self, max: usize) -> (n: usize)
        ensures
            n == if max <= old(self)@.pending.len() {
                max as nat
            } else {
                old(self)@.pending.len()
            },
            final(self)@ == old(self)@.advanced(n as nat),
    {
        let held = self.pending_len();
        let n = if max <= held {
            max
        } else {
            held
        };
        self.advance(n);
        n
    }

    /// The pending byte at index `i`.
    pub(crate) fn byte_at(&self, i: usize) -> (b: u8)
        requires
            i < self@.pending.len(),
        ensures
            b == self@.pending[i as int],
    {
        proof {
            use_type_invariant(self);
            assert(self.buf.len() == self.buf@.len());
        }
        self.buf[self.pos + i]
    }

    /// A copy of the pending bytes `from..to`.
    pub(crate) fn copy_range(&self, from: usize, to: usize) -> (bytes: Vec<u8>)
        requires
            from <= to <= self@.pending.len(),
        ensures
            bytes@ == self@.pending.subrange(from as int, to as int),
    {
        proof {
            use_type_invariant(self);
            assert(self.buf.len() == self.buf@.len());
        }
        let part = slice_subrange(self.buf.as_slice(), self.pos + from, self.pos + to);
        slice_to_vec(part)
    }

    /// Consumes the first `n` pending bytes.
    pub(crate) fn advance(&mut self, n: usize)
        requires
            n <= old(self)@.pending.len(),
        ensures
            final(self)@ == old(self)@.advanced(n as nat),
    {
        proof {
            use_type_invariant(&*self);
            assert(self.buf.len() == self.buf@.len());
        }
        self.pos = self.pos + n;
    }

    /// Settles a read for which `missing` bytes are missing: an ended
    /// source gives up what it has left and reports the end, an open one
    /// keeps everything and asks for the rest.
    pub(crate) fn fall_short(&mut self, missing: u64) -> (e: FormatError)
        ensures
            e == if old(self)@.ended {
                FormatError::UnexpectedEof
            } else {
                FormatError::Incomplete { missing }
            },
            final(self)@ == old(self)@.advanced(
                if old(self)@.ended {
                    old(self)@.pending.len()
                } else {
                    0
                },
            ),
    {
        if self.is_ended() {
            let held = self.pending_len();
            self.advance(held);
            FormatError::UnexpectedEof
        } else {
            FormatError::Incomplete { missing }
        }
    }

    /// Appends `chunk` behind the pending bytes. A source that has ended
    /// takes nothing more.
    pub fn feed(&mut self, chunk: &[u8])
        ensures
            final(self)@ == old(self)@.fed(chunk@),
    {
        proof {
            use_type_invariant(&*self);
        }
        if !self.ended {
            let held = slice_subrange(self.buf.as_slice(), self.pos, self.buf.len());
            let mut rest = slice_to_vec(held);
            rest.extend_from_slice(chunk);
            self.pos = 0;
            self.buf = rest;
        }
    }

    /// Marks the end of the input: nothing follows the pending bytes.
    pub fn finish(&mut self)
        ensures
            final(self)@ == old(self)@.finished(),
    {
        proof {
            use_type_invariant(&*self);
        }
        self.ended = true;
    }
}

} // verus!
