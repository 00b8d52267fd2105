use vstd::prelude::*;

verus! {

/// Why a read or a decode step gave no value.
#[derive(Clone, Copy, Debug, PartialEq, Eq, Structural)]
pub enum LoadError {
    /// A read asked for bytes at or past the end of the buffer.
    EndOfInput,
    /// The buffer ended before the file header was complete.
    TruncatedHeader,
    /// The buffer ended before a table record was complete.
    TruncatedRecord,
    /// The endianness selector is neither little (1) nor big (2).
    UnsupportedEndianness,
    /// The word-size class is neither 32-bit (1) nor 64-bit (2).
    UnsupportedWordSize,
}

} // verus!
