use vstd::prelude::*;

verus! {

/// Every way an operation of this library can fail.
#[derive(Debug, Clone, Copy, PartialEq, Eq, Structural)]
pub enum PngError {
    /// The buffer is too short, a declared length does not fit, or a chunk
    /// type name is not exactly four characters long.
    InvalidFormat,
    /// The buffer does not start with the PNG signature.
    InvalidSignature,
    /// The stored checksum differs from the one computed over type and payload.
    ChecksumMismatch { stored: u32, computed: u32 },
    /// A chunk type name holds a character that is not an ASCII letter.
    InvalidCharacters,
    /// A payload is not valid UTF-8 text.
    InvalidUtf8,
    /// No chunk of the requested type is present.
    ChunkNotFound,
}

} // verus!
