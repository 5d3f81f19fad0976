//! Validation of the file signature.

use vstd::prelude::*;
use crate::error::FormatError;
use crate::format::{magic, signature_from, MAGIC_LEN};
use crate::source::{ByteSource, SourceView};

verus! {

/// The major version that the signature names: the ASCII digit `0`.
pub const MAJOR_VERSION: u8 = 0x30;

/// The file signature, once it has been read and found valid.
#[derive(Debug, Clone, Copy, PartialEq, Eq, Structural)]
pub struct Magic {
    /// The major version that the signature names.
    pub major_version: u8,
}

/// Whether `v` holds eight bytes or more and its first eight are the file
/// signature.
pub open spec fn signed(v: SourceView) -> bool {
    v.pending.len() >= MAGIC_LEN && v.pending.subrange(0, 8) == magic()
}

/// Whether `e` is the error that checking the signature of `v` gives,
/// where `v` does not begin with the signature: eight other bytes are
/// reported as they stand, fewer are an unexpected end where the input
/// has ended and otherwise a call for the bytes that are missing.
pub open spec fn unsigned_as(v: SourceView, e: FormatError) -> bool {
    match e {
        FormatError::InvalidMagic { observed } => {
            &&& v.pending.len() >= MAGIC_LEN
            &&& observed@ == v.pending.subrange(0, 8)
        },
        FormatError::UnexpectedEof => v.pending.len() < MAGIC_LEN && v.ended,
        FormatError::Incomplete { missing } => {
            &&& v.pending.len() < MAGIC_LEN
            &&& !v.ended
            &&& missing == MAGIC_LEN - v.pending.len()
        },
        _ => false,
    }
}

/// Number of bytes that checking the signature consumes from `v`: the
/// eight bytes compared, whatever they are; all that an ended source has
/// left of them; nothing while more has to come.
pub open spec fn magic_used(v: SourceView) -> nat {
    if v.pending.len() >= MAGIC_LEN {
        MAGIC_LEN as nat
    } else if v.ended {
        v.pending.len()
    } else {
        0
    }
}

/// Checks that the source begins with the file signature and consumes it.
///
/// Exactly the signature is accepted. Eight bytes that differ from it are
/// consumed all the same and reported in `InvalidMagic`.
pub fn read_magic(reader: &mut ByteSource) -> (r: Result<(), FormatError>)
    ensures
        match r {
            Ok(_) => signed(old(reader)@),
            Err(e) => !signed(old(reader)@) && unsigned_as(old(reader)@, e),
        },
        final(reader)@ == old(reader)@.advanced(magic_used(old(reader)@)),
{
    let held = reader.pending_len();
    if held < MAGIC_LEN {
        return Err(reader.fall_short((MAGIC_LEN - held) as u64));
    }
    let same = signature_from(reader, 0);
    assert(magic().subrange(0, 8) =~= magic());
    if same {
        reader.advance(MAGIC_LEN);
        Ok(())
    } else {
        let observed = reader.copy_range(0, MAGIC_LEN);
        reader.advance(MAGIC_LEN);
        Err(FormatError::InvalidMagic { observed })
    }
}

impl Magic {
    /// Reads the file signature from the front of the source, as
    /// [`read_magic`] does, and names the version it stands for.
    pub fn read(reader: &mut ByteSource) -> (r: Result<Magic, FormatError>)
        ensures
            match r {
                Ok(m) => signed(old(reader)@) && m.major_version == MAJOR_VERSION,
                Err(e) => !signed(old(reader)@) && unsigned_as(old(reader)@, e),
            },
            final(reader)@ == old(reader)@.advanced(magic_used(old(reader)@)),
    {
        match read_magic(reader) {
            Ok(_) => Ok(Magic { major_version: MAJOR_VERSION }),
            Err(e) => Err(e),
        }
    }
}

} // verus!
