//! The ways in which reading a container can fail.

use vstd::prelude::*;

verus! {

/// Why an operation on a byte source did not succeed.
///
/// Every variant but [`FormatError::Incomplete`] is a fault of the data
/// and ends the walk: nothing can be read from the source after it.
#[derive(Debug, PartialEq, Eq)]
pub enum FormatError {
    /// The input ended inside a mandatory field.
    UnexpectedEof,
    /// The first eight bytes are not the file signature.
    InvalidMagic {
        /// The eight bytes found in its place.
        observed: Vec<u8>,
    },
    /// A record began with the signature's lead byte and the seven bytes
    /// after it are not the signature's tail.
    UnexpectedFooterMagic,
    /// The input ended before a record's declared length was read.
    TruncatedRecord,
    /// A header string declares more bytes than the header body has left,
    /// or the record read as the header has another opcode.
    MalformedHeader,
    /// A header string is not valid UTF-8.
    InvalidUtf8,
    /// The source holds too little to decide and has not ended. Feed at
    /// least `missing` more bytes, or mark the end, and call again.
    Incomplete {
        /// Bytes still needed before the call can get further.
        missing: u64,
    },
}

} // verus!
