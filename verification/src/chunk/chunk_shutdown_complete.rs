use crate::buffer::octets_mut;
use crate::chunk::chunk_header::{lemma_header_round_trip, ChunkHeader, CHUNK_HEADER_SIZE};
use crate::chunk::chunk_type::CT_SHUTDOWN_COMPLETE;
use crate::chunk::Chunk;
use crate::error::Error;
use bytes::{Bytes, BytesMut};
use vstd::prelude::*;

verus! {

/// A ShutdownComplete chunk: a header and nothing after it. The flags byte
/// of the header, whose lowest bit is the T bit, is kept as it stands on the
/// wire and given no meaning here.
///
/// ```text
///  0                   1                   2                   3
///  0 1 2 3 4 5 6 7 8 9 0 1 2 3 4 5 6 7 8 9 0 1 2 3 4 5 6 7 8 9 0 1
/// +-+-+-+-+-+-+-+-+-+-+-+-+-+-+-+-+-+-+-+-+-+-+-+-+-+-+-+-+-+-+-+-+
/// |   Type = 14   |Reserved     |T|      Length = 4               |
/// +-+-+-+-+-+-+-+-+-+-+-+-+-+-+-+-+-+-+-+-+-+-+-+-+-+-+-+-+-+-+-+-+
/// ```
#[derive(Debug)]
pub struct ChunkShutdownComplete {
    pub flags: u8,
}

impl Clone for ChunkShutdownComplete {
    fn clone(&self) -> (c: Self)
        ensures
            c@ == self@,
    {
        ChunkShutdownComplete { flags: self.flags }
    }
}

impl View for ChunkShutdownComplete {
    type V = u8;

    /// The flags byte.
    open spec fn view(&self) -> u8 {
        self.flags
    }
}

impl Default for ChunkShutdownComplete {
    fn default() -> (c: Self)
        ensures
            c@ == 0,
    {
        ChunkShutdownComplete { flags: 0 }
    }
}

impl Chunk for ChunkShutdownComplete {
    open spec fn header_of(v: u8) -> ChunkHeader {
        ChunkHeader { typ: CT_SHUTDOWN_COMPLETE, flags: v, value_length: 0 }
    }

    open spec fn value_of(v: u8) -> Seq<u8> {
        Seq::empty()
    }

    /// The header must be there and carry the tag of this kind; its flags
    /// byte is the content. What length the header declares, and what
    /// follows it, is not looked at.
    open spec fn parse(raw: Seq<u8>) -> Result<u8, Error> {
        match ChunkHeader::parse(raw) {
            Err(e) => Err(e),
            Ok(h) => if h.typ != CT_SHUTDOWN_COMPLETE {
                Err(Error::ErrChunkTypeNotShutdownComplete)
            } else {
                Ok(h.flags)
            },
        }
    }

    open spec fn check_of(v: u8) -> Result<(), Error> {
        Ok(())
    }

    proof fn lemma_header_length(v: u8) {
    }

    proof fn lemma_round_trip(v: u8) {
        lemma_header_round_trip(Self::header_of(v), Self::value_of(v));
    }

    fn header(&self) -> (h: ChunkHeader) {
        ChunkHeader { typ: CT_SHUTDOWN_COMPLETE, flags: self.flags, value_length: self.value_length() }
    }

    fn unmarshal(raw: &Bytes) -> (r: Result<Self, Error>) {
        let header = ChunkHeader::unmarshal(raw)?;

        if header.typ != CT_SHUTDOWN_COMPLETE {
            return Err(Error::ErrChunkTypeNotShutdownComplete);
        }
        Ok(ChunkShutdownComplete { flags: header.flags })
    }

    fn marshal_to(&self, buf: &mut BytesMut) -> (r: Result<usize, Error>) {
        self.header().marshal_to(buf)?;
        assert(octets_mut(*buf) =~= octets_mut(*old(buf)) + (Self::header_of(self@).wire()
            + Self::value_of(self@)));
        assert(octets_mut(*buf).subrange(0, octets_mut(*old(buf)).len() as int) =~= octets_mut(
            *old(buf),
        ));
        assert(octets_mut(*buf).subrange(
            octets_mut(*old(buf)).len() + CHUNK_HEADER_SIZE,
            octets_mut(*buf).len() as int,
        ) =~= Self::value_of(self@));
        Ok(buf.len())
    }

    fn check(&self) -> (r: Result<(), Error>) {
        Ok(())
    }

    fn value_length(&self) -> (n: usize) {
        0
    }
}

/// A buffer shorter than a header is reported as truncated, whatever its
/// first byte says.
pub proof fn lemma_shutdown_complete_header_gate(raw: Seq<u8>)
    requires
        raw.len() < CHUNK_HEADER_SIZE,
    ensures
        ChunkShutdownComplete::parse(raw) == Err::<u8, Error>(Error::ErrChunkHeaderTooSmall),
{
}

/// Once the header is read, a tag of another kind is always answered with
/// the error of this kind, and the right tag always with success: the chunk
/// then holds the second byte of the buffer as its flags.
pub proof fn lemma_shutdown_complete_type_gate(raw: Seq<u8>)
    requires
        ChunkHeader::parse(raw) is Ok,
    ensures
        raw[0] != CT_SHUTDOWN_COMPLETE ==> ChunkShutdownComplete::parse(raw) == Err::<u8, Error>(
            Error::ErrChunkTypeNotShutdownComplete,
        ),
        raw[0] == CT_SHUTDOWN_COMPLETE ==> ChunkShutdownComplete::parse(raw) == Ok::<u8, Error>(
            raw[1],
        ),
{
}

/// On the wire a ShutdownComplete is its tag, its flags byte, and the
/// length four: it has no value, so nothing follows the header.
pub proof fn lemma_shutdown_complete_wire(flags: u8)
    ensures
        ChunkShutdownComplete::value_of(flags).len() == 0,
        ChunkShutdownComplete::header_of(flags).wire() + ChunkShutdownComplete::value_of(flags)
            == seq![CT_SHUTDOWN_COMPLETE, flags, 0u8, 4u8],
{
    assert(ChunkShutdownComplete::header_of(flags).wire() + ChunkShutdownComplete::value_of(flags)
        =~= seq![CT_SHUTDOWN_COMPLETE, flags, 0u8, 4u8]);
}

} // verus!
