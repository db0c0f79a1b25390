use vstd::prelude::*;

verus! {

/// Everything that encoding or decoding a chunk can report.
#[derive(Debug, Clone, Copy, PartialEq, Eq, Structural)]
pub enum Error {
    /// Fewer than four bytes are available where a chunk header must stand.
    ErrChunkHeaderTooSmall,
    /// The header declares a total length below the four bytes of the header itself.
    ErrChunkHeaderInvalidLength,
    /// The header declares more bytes than the buffer holds.
    ErrChunkHeaderNotEnoughSpace,
    /// The value is too long for the total length to fit the 16-bit length field.
    ErrChunkLengthOverflow,
    /// The CookieEcho decoder was handed a chunk of another type.
    ErrChunkTypeNotCookieEcho,
    /// The ShutdownComplete decoder was handed a chunk of another type.
    ErrChunkTypeNotShutdownComplete,
    /// The type tag belongs to no chunk kind that can be decoded.
    ErrUnmarshalUnknownChunkType,
}

} // verus!
