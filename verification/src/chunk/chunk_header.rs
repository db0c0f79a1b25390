use crate::buffer::{byte_at, octets, octets_mut, put_u16, put_u8};
use crate::error::Error;
use bytes::{Bytes, BytesMut};
use vstd::prelude::*;

verus! {

/// Number of bytes that the header of every chunk takes on the wire.
pub const CHUNK_HEADER_SIZE: usize = 4;

/// Longest value whose chunk still has a total length that fits 16 bits.
pub const MAX_VALUE_LENGTH: usize = 65531;

/// The prefix shared by all chunks: type tag, flags, and the length of the
/// value that follows. On the wire the length field counts the header too,
/// so it holds `value_length + 4`.
#[derive(Debug, Clone, Copy, PartialEq, Eq, Structural)]
pub struct ChunkHeader {
    pub typ: u8,
    pub flags: u8,
    pub value_length: usize,
}

impl ChunkHeader {
    /// The total length that the header declares: header and value, unpadded.
    pub open spec fn length(&self) -> int {
        self.value_length + CHUNK_HEADER_SIZE
    }

    /// Whether the declared total length fits the 16-bit length field.
    pub open spec fn encodable(&self) -> bool {
        self.value_length <= MAX_VALUE_LENGTH
    }

    /// The four bytes of the header: tag, flags, then the total length with
    /// its high byte first.
    pub open spec fn wire(&self) -> Seq<u8> {
        seq![self.typ, self.flags, (self.length() / 256) as u8, (self.length() % 256) as u8]
    }

    /// What the first four bytes of `raw` say. Too few bytes are a truncation;
    /// a declared total below the size of the header itself is invalid. How
    /// the declared length relates to the rest of `raw` is not looked at.
    pub open spec fn parse(raw: Seq<u8>) -> Result<ChunkHeader, Error> {
        if raw.len() < CHUNK_HEADER_SIZE {
            Err(Error::ErrChunkHeaderTooSmall)
        } else if raw[2] * 256 + raw[3] < CHUNK_HEADER_SIZE {
            Err(Error::ErrChunkHeaderInvalidLength)
        } else {
            Ok(
                ChunkHeader {
                    typ: raw[0],
                    flags: raw[1],
                    value_length: (raw[2] * 256 + raw[3] - CHUNK_HEADER_SIZE) as usize,
                },
            )
        }
    }

    /// Length of the value that follows the header.
    pub fn value_length(&self) -> (n: usize)
        ensures
            n == self.value_length,
            n + CHUNK_HEADER_SIZE == self.length(),
    {
        self.value_length
    }

    /// Appends the four header bytes to `buf` and returns the buffer's new
    /// length. A value too long for the length field is refused, and the
    /// buffer is then left as it was.
    pub fn marshal_to(&self, buf: &mut BytesMut) -> (r: Result<usize, Error>)
        requires
            octets_mut(*old(buf)).len() + CHUNK_HEADER_SIZE <= isize::MAX,
        ensures
            self.encodable() ==> r == Ok::<usize, Error>(octets_mut(*final(buf)).len() as usize)
                && octets_mut(*final(buf)) == octets_mut(*old(buf)) + self.wire(),
            !self.encodable() ==> r == Err::<usize, Error>(Error::ErrChunkLengthOverflow)
                && octets_mut(*final(buf)) == octets_mut(*old(buf)),
    {
        if self.value_length > MAX_VALUE_LENGTH {
            return Err(Error::ErrChunkLengthOverflow);
        }
        let length: u16 = (self.value_length + CHUNK_HEADER_SIZE) as u16;
        put_u8(buf, self.typ);
        put_u8(buf, self.flags);
        put_u16(buf, length);
        assert(octets_mut(*buf) =~= octets_mut(*old(buf)) + self.wire());
        Ok(buf.len())
    }

    /// Reads a header from the first four bytes of `raw`.
    pub fn unmarshal(raw: &Bytes) -> (r: Result<ChunkHeader, Error>)
        ensures
            r == Self::parse(octets(*raw)),
    {
        if raw.len() < CHUNK_HEADER_SIZE {
            return Err(Error::ErrChunkHeaderTooSmall);
        }
        let typ: u8 = byte_at(raw, 0);
        let flags: u8 = byte_at(raw, 1);
        let high: u8 = byte_at(raw, 2);
        let low: u8 = byte_at(raw, 3);
        let length: usize = (high as usize) * 256 + (low as usize);
        if length < CHUNK_HEADER_SIZE {
            return Err(Error::ErrChunkHeaderInvalidLength);
        }
        Ok(ChunkHeader { typ, flags, value_length: length - CHUNK_HEADER_SIZE })
    }
}

/// Every header that can be encoded is read back unchanged from its own four
/// bytes, whatever follows them, and never carries a value longer than the
/// length field allows.
pub proof fn lemma_header_round_trip(h: ChunkHeader, rest: Seq<u8>)
    requires
        h.encodable(),
    ensures
        h.wire().len() == CHUNK_HEADER_SIZE,
        ChunkHeader::parse(h.wire() + rest) == Ok::<ChunkHeader, Error>(h),
{
    let raw = h.wire() + rest;
    assert(raw[0] == h.typ);
    assert(raw[1] == h.flags);
    assert(raw[2] == (h.length() / 256) as u8);
    assert(raw[3] == (h.length() % 256) as u8);
}

/// A header that was read from the wire always declares a value that fits
/// the length field, and stands for exactly the first four bytes read.
pub proof fn lemma_parsed_header(raw: Seq<u8>)
    requires
        ChunkHeader::parse(raw) is Ok,
    ensures
        ChunkHeader::parse(raw).unwrap().encodable(),
        ChunkHeader::parse(raw).unwrap().wire() == raw.subrange(0, CHUNK_HEADER_SIZE as int),
{
    let h = ChunkHeader::parse(raw).unwrap();
    assert(h.wire() =~= raw.subrange(0, CHUNK_HEADER_SIZE as int));
}

/// A header is read from every buffer of four bytes or more whose length
/// field is at least four, and from no other: a shorter buffer is reported
/// as truncated before anything in it is looked at.
pub proof fn lemma_header_gates(raw: Seq<u8>)
    ensures
        raw.len() < CHUNK_HEADER_SIZE <==> ChunkHeader::parse(raw) == Err::<ChunkHeader, Error>(
            Error::ErrChunkHeaderTooSmall,
        ),
        raw.len() >= CHUNK_HEADER_SIZE && raw[2] * 256 + raw[3] < CHUNK_HEADER_SIZE
            <==> ChunkHeader::parse(raw) == Err::<ChunkHeader, Error>(
            Error::ErrChunkHeaderInvalidLength,
        ),
        raw.len() >= CHUNK_HEADER_SIZE && raw[2] * 256 + raw[3] >= CHUNK_HEADER_SIZE
            <==> ChunkHeader::parse(raw) is Ok,
        ChunkHeader::parse(raw) is Ok ==> ChunkHeader::parse(raw).unwrap().typ == raw[0]
            && ChunkHeader::parse(raw).unwrap().flags == raw[1]
            && ChunkHeader::parse(raw).unwrap().length() == raw[2] * 256 + raw[3],
{
}

} // verus!
