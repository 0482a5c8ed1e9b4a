use vstd::prelude::*;

verus! {

/// Why a chunk type, a chunk or a whole file was rejected.
#[derive(Debug, Clone, Copy, PartialEq, Eq, Structural)]
pub enum ChunkError {
    /// A chunk type given as text is not exactly four ASCII letters.
    FormatError,
    /// The four bytes of a chunk type are not all ASCII letters.
    TypeCodeError,
    /// The length a chunk declares is not the number of data bytes present.
    LengthMismatch,
    /// The CRC stored in a chunk is not the CRC of its type and data.
    ChecksumMismatch,
    /// The input ends before the record it started is complete.
    TruncatedInput,
    /// The input does not start with the PNG signature.
    SignatureMismatch,
}

} // verus!
