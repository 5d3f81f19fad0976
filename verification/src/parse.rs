//! What decoding from the front of a byte source can come to.

use vstd::prelude::*;
use crate::error::FormatError;
use crate::source::SourceView;

verus! {

/// What decoding a value from the front of a byte sequence comes to.
pub enum Parse<T> {
    /// A value, decoded from the first `used` bytes.
    Value { value: T, used: nat },
    /// The bytes are at fault; `used` of them were read to find that out.
    Fault { error: FormatError, used: nat },
    /// The sequence is too short to tell; `need` bytes would get further.
    Short { need: nat },
}

impl<T> Parse<T> {
    /// The result for a reader of the source `v`: a sequence that is too
    /// short is an unexpected end where the input has ended, and otherwise
    /// a call for the bytes that are missing.
    pub open spec fn result(self, v: SourceView) -> Result<T, FormatError> {
        match self {
            Parse::Value { value, .. } => Ok(value),
            Parse::Fault { error, .. } => Err(error),
            Parse::Short { need } => if v.ended {
                Err(FormatError::UnexpectedEof)
            } else {
                Err(FormatError::Incomplete { missing: (need - v.pending.len()) as u64 })
            },
        }
    }

    /// The same outcome for a sequence that has `n` more bytes in front,
    /// already read.
    pub open spec fn after(self, n: nat) -> Parse<T> {
        match self {
            Parse::Value { value, used } => Parse::Value { value, used: n + used },
            Parse::Fault { error, used } => Parse::Fault { error, used: n + used },
            Parse::Short { need } => Parse::Short { need: n + need },
        }
    }

    /// Number of bytes that the reader consumes from `v`: those read; all
    /// that is left where the input ended too early; none while bytes are
    /// missing.
    pub open spec fn used(self, v: SourceView) -> nat {
        match self {
            Parse::Value { used, .. } => used,
            Parse::Fault { used, .. } => used,
            Parse::Short { .. } => if v.ended {
                v.pending.len()
            } else {
                0
            },
        }
    }
}

impl<T> Parse<T> {
    /// The source `v` as the reader leaves it.
    pub open spec fn leaves(self, v: SourceView) -> SourceView {
        v.advanced(self.used(v))
    }
}

/// A result with the value it holds, if any, taken by its view.
pub open spec fn shown<T: View>(r: Result<T, FormatError>) -> Result<T::V, FormatError> {
    match r {
        Ok(value) => Ok(value@),
        Err(e) => Err(e),
    }
}

} // verus!
