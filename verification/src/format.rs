//! The byte layout of the container: signature, record preamble and
//! integers.

use vstd::prelude::*;
use crate::source::ByteSource;

verus! {

/// First byte of the signature, and of the marker that ends the records.
pub const MAGIC_LEAD: u8 = 0x89;

/// Length of the signature.
pub const MAGIC_LEN: usize = 8;

/// Length of a record preamble: one opcode byte and an eight-byte length.
pub const PREAMBLE_LEN: usize = 9;

/// The file signature: `0x89 'M' 'C' 'A' 'P' '0' '\r' '\n'`.
pub open spec fn magic() -> Seq<u8> {
    seq![0x89u8, 0x4Du8, 0x43u8, 0x41u8, 0x50u8, 0x30u8, 0x0Du8, 0x0Au8]
}

/// The `u32` that four bytes encode, least significant byte first.
pub open spec fn le_u32(s: Seq<u8>) -> u32
    recommends
        s.len() == 4,
{
    (s[0] as int + s[1] as int * 0x100 + s[2] as int * 0x1_0000 + s[3] as int * 0x100_0000) as u32
}

/// The `u32` that four bytes encode, most significant byte first.
pub open spec fn be_u32(s: Seq<u8>) -> u32
    recommends
        s.len() == 4,
{
    (s[3] as int + s[2] as int * 0x100 + s[1] as int * 0x1_0000 + s[0] as int * 0x100_0000) as u32
}

/// Byte order of a multi-byte integer.
#[derive(Debug, Clone, Copy, PartialEq, Eq, Structural)]
pub enum Endian {
    /// Most significant byte first.
    Big,
    /// Least significant byte first.
    Little,
}

/// The `u32` that four bytes encode in the byte order `endian`.
pub open spec fn u32_in(s: Seq<u8>, endian: Endian) -> u32
    recommends
        s.len() == 4,
{
    match endian {
        Endian::Big => be_u32(s),
        Endian::Little => le_u32(s),
    }
}

/// The `u64` that eight bytes encode, least significant byte first.
pub open spec fn le_u64(s: Seq<u8>) -> u64
    recommends
        s.len() == 8,
{
    (s[0] as int + s[1] as int * 0x100 + s[2] as int * 0x1_0000 + s[3] as int * 0x100_0000
        + s[4] as int * 0x1_0000_0000 + s[5] as int * 0x100_0000_0000 + s[6] as int
        * 0x1_0000_0000_0000 + s[7] as int * 0x100_0000_0000_0000) as u64
}

/// The eight bytes that encode `n`, least significant byte first.
pub open spec fn le_bytes_u64(n: u64) -> Seq<u8> {
    seq![
        (n % 0x100) as u8,
        (n / 0x100 % 0x100) as u8,
        (n / 0x1_0000 % 0x100) as u8,
        (n / 0x100_0000 % 0x100) as u8,
        (n / 0x1_0000_0000 % 0x100) as u8,
        (n / 0x100_0000_0000 % 0x100) as u8,
        (n / 0x1_0000_0000_0000 % 0x100) as u8,
        (n / 0x100_0000_0000_0000 % 0x100) as u8,
    ]
}

/// The bytes of a record: its opcode, the length of its body in eight
/// little-endian bytes, and the body.
pub open spec fn record_bytes(opcode: u8, body: Seq<u8>) -> Seq<u8> {
    seq![opcode] + le_bytes_u64(body.len() as u64) + body
}

/// Decoding undoes encoding: the eight bytes that encode `n` decode to `n`.
pub proof fn lemma_le_u64_of_bytes(n: u64)
    ensures
        le_bytes_u64(n).len() == 8,
        le_u64(le_bytes_u64(n)) == n,
{
    assert(n == (n % 0x100) + (n / 0x100 % 0x100) * 0x100 + (n / 0x1_0000 % 0x100) * 0x1_0000 + (n
        / 0x100_0000 % 0x100) * 0x100_0000 + (n / 0x1_0000_0000 % 0x100) * 0x1_0000_0000 + (n
        / 0x100_0000_0000 % 0x100) * 0x100_0000_0000 + (n / 0x1_0000_0000_0000 % 0x100)
        * 0x1_0000_0000_0000 + (n / 0x100_0000_0000_0000 % 0x100) * 0x100_0000_0000_0000)
        by (bit_vector);
}

/// The signature's byte at index `i`.
pub(crate) fn magic_byte(i: usize) -> (b: u8)
    requires
        i < MAGIC_LEN,
    ensures
        b == magic()[i as int],
{
    if i == 0 {
        0x89
    } else if i == 1 {
        0x4D
    } else if i == 2 {
        0x43
    } else if i == 3 {
        0x41
    } else if i == 4 {
        0x50
    } else if i == 5 {
        0x30
    } else if i == 6 {
        0x0D
    } else {
        0x0A
    }
}

/// Whether the pending bytes `from..8` of `src` are those of the signature.
pub(crate) fn signature_from(src: &ByteSource, from: usize) -> (same: bool)
    requires
        from <= MAGIC_LEN <= src@.pending.len(),
    ensures
        same <==> src@.pending.subrange(from as int, 8) == magic().subrange(from as int, 8),
{
    let mut i: usize = from;
    while i < MAGIC_LEN
        invariant
            from <= i <= MAGIC_LEN <= src@.pending.len(),
            forall|j: int| from <= j < i ==> src@.pending[j] == magic()[j],
        decreases MAGIC_LEN - i,
    {
        if src.byte_at(i) != magic_byte(i) {
            assert(src@.pending.subrange(from as int, 8)[i - from] != magic().subrange(
                from as int,
                8,
            )[i - from]);
            return false;
        }
        i += 1;
    }
    assert(src@.pending.subrange(from as int, 8) =~= magic().subrange(from as int, 8));
    true
}

/// Decodes the little-endian `u32` at the pending bytes `at..at + 4`.
pub(crate) fn le_u32_at(src: &ByteSource, at: usize) -> (v: u32)
    requires
        at + 4 <= src@.pending.len(),
    ensures
        v == le_u32(src@.pending.subrange(at as int, at + 4)),
{
    proof {
        src.lemma_pending_fits();
    }
    let b0: u32 = src.byte_at(at) as u32;
    let b1: u32 = src.byte_at(at + 1) as u32;
    let b2: u32 = src.byte_at(at + 2) as u32;
    let b3: u32 = src.byte_at(at + 3) as u32;
    b0 + b1 * 0x100 + b2 * 0x1_0000 + b3 * 0x100_0000
}

/// Decodes the little-endian `u64` at the pending bytes `at..at + 8`.
pub(crate) fn le_u64_at(src: &ByteSource, at: usize) -> (v: u64)
    requires
        at + 8 <= src@.pending.len(),
    ensures
        v == le_u64(src@.pending.subrange(at as int, at + 8)),
{
    proof {
        src.lemma_pending_fits();
    }
    let b0: u64 = src.byte_at(at) as u64;
    let b1: u64 = src.byte_at(at + 1) as u64;
    let b2: u64 = src.byte_at(at + 2) as u64;
    let b3: u64 = src.byte_at(at + 3) as u64;
    let b4: u64 = src.byte_at(at + 4) as u64;
    let b5: u64 = src.byte_at(at + 5) as u64;
    let b6: u64 = src.byte_at(at + 6) as u64;
    let b7: u64 = src.byte_at(at + 7) as u64;
    b0 + b1 * 0x100 + b2 * 0x1_0000 + b3 * 0x100_0000 + b4 * 0x1_0000_0000 + b5
        * 0x100_0000_0000 + b6 * 0x1_0000_0000_0000 + b7 * 0x100_0000_0000_0000
}

} // verus!
