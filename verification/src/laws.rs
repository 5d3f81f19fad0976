//! What holds of the walker and the decoders on every input.

use vstd::prelude::*;
use vstd::utf8::{decode_utf8, valid_utf8};
use crate::error::FormatError;
use crate::format::{
    le_u64, lemma_le_u64_of_bytes, magic, record_bytes, u32_in, Endian, MAGIC_LEAD, PREAMBLE_LEN,
};
use crate::header::{
    field_parse, header_fields, header_parse, header_record_parse, library_len, profile_len,
    FileHeaderView, HEADER_OPCODE,
};
use crate::magic::signed;
use crate::opcodes::OpCode;
use crate::parse::Parse;
use crate::source::SourceView;
use crate::stream::{preamble, skip_result, skipped, McapRecordHeader, Preamble, Record, StreamView};
use crate::types::string_parse;

verus! {

/// The descriptors of a walk are those that `next_record` yields: the
/// first is what it returns at the front, and the others follow behind
/// the body of the first, for as long as bodies can be skipped.
pub proof fn lemma_records_follow(s: StreamView)
    ensures
        s.records() == match preamble(s.source).strict(s.offset) {
            Ok(Some(rec)) => {
                let body = s.after_preamble();
                if skip_result(body.source, rec.body_len) is Ok {
                    seq![rec] + body.after_body(rec.body_len).records()
                } else {
                    seq![rec]
                }
            },
            _ => Seq::<Record>::empty(),
        },
{
}

/// The first descriptor of a walk carries the offset at which the walk
/// starts.
pub proof fn lemma_first_offset(s: StreamView)
    requires
        s.records().len() > 0,
    ensures
        s.records()[0].offset == s.offset,
{
}

/// Each record starts where the one before it ends: of two descriptors
/// that a walk yields one after the other, the second's offset is the
/// first's plus the nine bytes of its preamble plus its body length.
pub proof fn lemma_consecutive_offsets(s: StreamView, i: int)
    requires
        s.offset + s.source.pending.len() <= u64::MAX,
        0 <= i,
        i + 1 < s.records().len(),
    ensures
        s.records()[i + 1].offset == s.records()[i].offset + PREAMBLE_LEN + s.records()[i].body_len,
    decreases s.source.pending.len(),
{
    match preamble(s.source) {
        Preamble::Record { opcode, body_len } => {
            let rest = s.after_preamble().after_body(body_len);
            if i == 0 {
                lemma_first_offset(rest);
            } else {
                lemma_consecutive_offsets(rest, i - 1);
            }
        },
        _ => {},
    }
}

/// The offset never runs backwards: reading a preamble or skipping a body
/// leaves it where it was or moves it on, by no more than the bytes
/// consumed.
pub proof fn lemma_offset_moves_forward(s: StreamView, body_len: u64)
    requires
        s.offset + s.source.pending.len() <= u64::MAX,
    ensures
        s.offset <= s.after_preamble().offset,
        s.after_preamble().offset - s.offset <= s.source.pending.len()
            - s.after_preamble().source.pending.len(),
        s.offset <= s.after_body(body_len).offset,
        s.after_body(body_len).offset - s.offset == s.source.pending.len() - s.after_body(
            body_len,
        ).source.pending.len(),
{
}

/// `next` and `next_record` tell the same of every input but one: they
/// differ only where the input has ended with nothing pending, which
/// `next` takes for the end of the records and `next_record` for an
/// error.
pub proof fn lemma_lenient_and_strict(v: SourceView, offset: u64)
    ensures
        preamble(v).lenient(offset) == match preamble(v).strict(offset) {
            Ok(Some(rec)) => Ok(Some(rec.classified())),
            Ok(None) => Ok(None),
            Err(e) => if preamble(v) is End {
                Ok(None)
            } else {
                Err(e)
            },
        },
        preamble(v) is End <==> v.ended && v.pending.len() == 0,
{
}

/// A record that is written out and walked again comes back as it was:
/// the walker yields its opcode, the length of its body and the offset at
/// which it stands, and skipping the body leaves the walker in front of
/// what follows the record.
pub proof fn lemma_record_round_trip(
    opcode: u8,
    body: Seq<u8>,
    rest: Seq<u8>,
    ended: bool,
    offset: u64,
)
    requires
        opcode != MAGIC_LEAD,
        offset + PREAMBLE_LEN + body.len() <= u64::MAX,
    ensures
        ({
            let s = StreamView {
                source: SourceView { pending: record_bytes(opcode, body) + rest, ended },
                offset,
            };
            let len = body.len() as u64;
            &&& preamble(s.source) == Preamble::Record { opcode, body_len: len }
            &&& preamble(s.source).strict(offset) == Ok::<Option<Record>, FormatError>(
                Some(Record { opcode, body_len: len, offset }),
            )
            &&& preamble(s.source).lenient(offset) == Ok::<Option<McapRecordHeader>, FormatError>(
                Some(McapRecordHeader { opcode: OpCode::classify(opcode), body_len: len, offset }),
            )
            &&& skip_result(s.after_preamble().source, len) is Ok
            &&& s.after_preamble().after_body(len) == StreamView {
                source: SourceView { pending: rest, ended },
                offset: (offset + PREAMBLE_LEN + body.len()) as u64,
            }
        }),
{
    lemma_le_u64_of_bytes(body.len() as u64);
}

/// A container without records walks to its end at once: where the
/// marker that ends the records stands at the front, the walk succeeds
/// and yields no descriptor.
pub proof fn lemma_marker_ends_walk(rest: Seq<u8>, ended: bool, offset: u64)
    ensures
        ({
            let s = StreamView { source: SourceView { pending: magic() + rest, ended }, offset };
            &&& s.walk() == Ok::<(), FormatError>(())
            &&& s.records() == Seq::<Record>::empty()
            &&& preamble(s.source).lenient(offset) == Ok::<Option<McapRecordHeader>, FormatError>(
                None,
            )
        }),
{
    assert((magic() + rest).subrange(1, 8) =~= magic().subrange(1, 8));
}

/// A body that the input cannot deliver is an error and nothing else:
/// where the input has ended with fewer bytes than the body declares,
/// skipping it consumes what is left and gives `TruncatedRecord`.
pub proof fn lemma_truncated_body(v: SourceView, body_len: u64)
    requires
        v.ended,
        v.pending.len() < body_len,
    ensures
        skip_result(v, body_len) == Err::<(), FormatError>(FormatError::TruncatedRecord),
        skipped(v, body_len) == v.pending.len(),
{
}

/// A header body that is longer than its two strings is accepted, and
/// what follows the strings is passed over: where the body is pending in
/// full, both strings are valid UTF-8 and their lengths with the eight
/// bytes of their prefixes come to no more than the body's length, the
/// header decodes and the whole body is consumed.
pub proof fn lemma_header_trailing_bytes(s: Seq<u8>, body_len: u64)
    requires
        body_len <= s.len(),
        8 + profile_len(s) + library_len(s) <= body_len,
        valid_utf8(s.subrange(4, 4 + profile_len(s))),
        valid_utf8(
            s.subrange(8 + profile_len(s), 8 + profile_len(s) + library_len(s)),
        ),
    ensures
        header_parse(s, body_len) == (Parse::Value {
            value: FileHeaderView {
                profile: decode_utf8(s.subrange(4, 4 + profile_len(s))),
                library: decode_utf8(
                    s.subrange(8 + profile_len(s), 8 + profile_len(s) + library_len(s)),
                ),
            },
            used: body_len as nat,
        }),
{
    let n1 = profile_len(s);
    let n2 = library_len(s);
    assert(s.skip(4 + n1).subrange(4, 4 + n2) =~= s.subrange(8 + n1, 8 + n1 + n2));
}

/// A header body that is shorter than its two strings is refused: where
/// the body is pending in full and the declared lengths with the eight
/// bytes of their prefixes come to more than the body's length, decoding
/// gives `MalformedHeader`. A first string that fits the body must be
/// valid UTF-8 for the second to be looked at.
pub proof fn lemma_header_overdrawn(s: Seq<u8>, body_len: u64)
    requires
        body_len <= s.len(),
        8 + profile_len(s) + library_len(s) > body_len,
        4 + profile_len(s) <= body_len ==> valid_utf8(s.subrange(4, 4 + profile_len(s))),
    ensures
        header_parse(s, body_len) is Fault,
        header_parse(s, body_len)->error == FormatError::MalformedHeader,
{
}

/// A header whose strings fit the body and are not both valid UTF-8 is
/// refused: where the body is pending in full and the declared lengths
/// with the eight bytes of their prefixes come to no more than the body's
/// length, decoding gives `InvalidUtf8` as soon as the bytes of either
/// string are not valid UTF-8.
pub proof fn lemma_header_invalid_utf8(s: Seq<u8>, body_len: u64)
    requires
        body_len <= s.len(),
        8 + profile_len(s) + library_len(s) <= body_len,
        !valid_utf8(s.subrange(4, 4 + profile_len(s))) || !valid_utf8(
            s.subrange(8 + profile_len(s), 8 + profile_len(s) + library_len(s)),
        ),
    ensures
        header_parse(s, body_len) is Fault,
        header_parse(s, body_len)->error == FormatError::InvalidUtf8,
{
    let n1 = profile_len(s);
    let n2 = library_len(s);
    assert(s.skip(4 + n1).subrange(4, 4 + n2) =~= s.subrange(8 + n1, 8 + n1 + n2));
}

/// Feeding never unsettles the signature check: once eight bytes are
/// pending, whatever follows them leaves the verdict as it is.
pub proof fn lemma_signature_settled(v: SourceView, more: Seq<u8>, closing: bool)
    requires
        v.pending.len() >= 8,
    ensures
        signed(v.grown(more, closing)) == signed(v),
{
    assert(v.grown(more, closing).pending.subrange(0, 8) =~= v.pending.subrange(0, 8));
}

/// Feeding never unsettles a preamble: what an open source shows at its
/// front without asking for more, it shows whatever is fed behind it.
pub proof fn lemma_preamble_settled(v: SourceView, more: Seq<u8>, closing: bool)
    requires
        !v.ended,
        !(preamble(v) is Pending),
    ensures
        preamble(v.grown(more, closing)) == preamble(v),
{
    if v.pending[0] == MAGIC_LEAD {
        assert(v.grown(more, closing).pending.subrange(1, 8) =~= v.pending.subrange(1, 8));
    }
}

/// A body can be skipped piece by piece: where an open source holds less
/// than the body, skipping what it holds, feeding it and skipping the rest
/// that was reported missing comes to the same as feeding first and
/// skipping the whole body.
pub proof fn lemma_skip_resumes(s: StreamView, more: Seq<u8>, closing: bool, body_len: u64)
    requires
        !s.source.ended,
        s.source.pending.len() < body_len,
        s.offset + s.source.pending.len() + more.len() <= u64::MAX,
    ensures
        ({
            let missing = (body_len - s.source.pending.len()) as u64;
            let drained = s.after_body(body_len);
            let resumed = StreamView {
                source: drained.source.grown(more, closing),
                offset: drained.offset,
            };
            let whole = StreamView { source: s.source.grown(more, closing), offset: s.offset };
            &&& skip_result(s.source, body_len) == Err::<(), FormatError>(
                FormatError::Incomplete { missing },
            )
            &&& skip_result(resumed.source, missing) == skip_result(whole.source, body_len)
            &&& resumed.after_body(missing) == whole.after_body(body_len)
        }),
{
}

/// Feeding never unsettles a walk: where an open source lets the walk
/// reach its end or a fault, the walk comes to the same whatever is fed
/// behind.
pub proof fn lemma_walk_settled(s: StreamView, more: Seq<u8>, closing: bool)
    requires
        !s.source.ended,
        !(s.walk() matches Err(FormatError::Incomplete { .. })),
    ensures
        s.grown(more, closing).walk() == s.walk(),
    decreases s.source.pending.len(),
{
    let longer = s.grown(more, closing);
    match preamble(s.source) {
        Preamble::Record { opcode, body_len } => {
            lemma_preamble_settled(s.source, more, closing);
            let rest = s.after_preamble().after_body(body_len);
            assert(longer.after_preamble().after_body(body_len) == rest.grown(more, closing));
            lemma_walk_settled(rest, more, closing);
        },
        Preamble::Pending { .. } => {},
        _ => {
            lemma_preamble_settled(s.source, more, closing);
        },
    }
}

/// Feeding takes back no descriptor: what a walk over an open source has
/// yielded, the walk yields first whatever is fed behind.
pub proof fn lemma_records_grow(s: StreamView, more: Seq<u8>, closing: bool)
    requires
        !s.source.ended,
    ensures
        s.records().is_prefix_of(s.grown(more, closing).records()),
    decreases s.source.pending.len(),
{
    let longer = s.grown(more, closing);
    match preamble(s.source) {
        Preamble::Record { opcode, body_len } => {
            lemma_preamble_settled(s.source, more, closing);
            let body = s.after_preamble();
            if skip_result(body.source, body_len) is Ok {
                let rest = body.after_body(body_len);
                assert(longer.after_preamble().after_body(body_len) == rest.grown(more, closing));
                lemma_records_grow(rest, more, closing);
            }
        },
        _ => {},
    }
}

/// Feeding never unsettles a string: what decoding finds in a sequence
/// without running short, it finds in every longer one.
pub proof fn lemma_string_settled(s: Seq<u8>, more: Seq<u8>, endian: Endian)
    requires
        !(string_parse(s, endian) is Short),
    ensures
        string_parse(s + more, endian) == string_parse(s, endian),
{
    let len = u32_in(s.subrange(0, 4), endian) as int;
    assert((s + more).subrange(4, 4 + len) =~= s.subrange(4, 4 + len));
}

/// Feeding never unsettles a header body: what decoding finds in a
/// sequence without running short, it finds in every longer one.
pub proof fn lemma_header_settled(s: Seq<u8>, more: Seq<u8>, body_len: u64)
    requires
        !(header_parse(s, body_len) is Short),
    ensures
        header_parse(s + more, body_len) == header_parse(s, body_len),
{
    lemma_field_settled(s, more, body_len as nat);
    if let Parse::Value { value, used } = field_parse(s, body_len as nat) {
        assert((s + more).skip(used as int) =~= s.skip(used as int) + more);
        lemma_field_settled(s.skip(used as int), more, (body_len - used) as nat);
    }
}

/// Feeding never unsettles a string of a header body.
pub proof fn lemma_field_settled(s: Seq<u8>, more: Seq<u8>, budget: nat)
    requires
        !(field_parse(s, budget) is Short),
    ensures
        field_parse(s + more, budget) == field_parse(s, budget),
{
    if budget >= 4 {
        let len = profile_len(s);
        if 4 + len <= budget {
            assert((s + more).subrange(4, 4 + len) =~= s.subrange(4, 4 + len));
        }
    }
}

/// Feeding never unsettles a whole header record: what decoding finds in
/// a sequence without running short, it finds in every longer one.
pub proof fn lemma_header_record_settled(s: Seq<u8>, more: Seq<u8>)
    requires
        !(header_record_parse(s) is Short),
    ensures
        header_record_parse(s + more) == header_record_parse(s),
{
    let len = le_u64(s.subrange(1, 9));
    if s[0] == HEADER_OPCODE {
        assert((s + more).subrange(9, 9 + len) =~= s.subrange(9, 9 + len));
    }
}

/// Feeding never unsettles the two strings of a header: what decoding
/// finds in a sequence without running short, it finds in every longer
/// one.
pub proof fn lemma_header_fields_settled(s: Seq<u8>, more: Seq<u8>)
    requires
        !(header_fields(s) is Short),
    ensures
        header_fields(s + more) == header_fields(s),
{
    lemma_string_settled(s, more, Endian::Little);
    if let Parse::Value { value, used } = string_parse(s, Endian::Little) {
        assert((s + more).skip(used as int) =~= s.skip(used as int) + more);
        lemma_string_settled(s.skip(used as int), more, Endian::Little);
    }
}

} // verus!
