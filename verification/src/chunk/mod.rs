pub mod chunk_cookie_echo;
pub mod chunk_header;
pub mod chunk_kind;
pub mod chunk_shutdown_complete;
pub mod chunk_type;

use crate::buffer::{octets, octets_mut};
use crate::error::Error;
use bytes::{Bytes, BytesMut};
use chunk_header::{ChunkHeader, CHUNK_HEADER_SIZE, MAX_VALUE_LENGTH};
use vstd::prelude::*;

verus! {

/// What every chunk kind offers. The view of a chunk is its content as a
/// mathematical value; the four spec functions say, over that content, what
/// the chunk looks like on the wire and what a buffer decodes to, and the
/// executable methods are held to them.
pub trait Chunk: View + Sized {
    /// The header of a chunk with content `v`.
    spec fn header_of(v: Self::V) -> ChunkHeader;

    /// The bytes that follow the header for content `v`.
    spec fn value_of(v: Self::V) -> Seq<u8>;

    /// The content that `raw` decodes to, or the reason why it does not.
    spec fn parse(raw: Seq<u8>) -> Result<Self::V, Error>;

    /// The verdict of the semantic check on content `v`.
    spec fn check_of(v: Self::V) -> Result<(), Error>;

    /// The header is computed from the content: its length is the length of
    /// the value, as long as that can be encoded at all.
    proof fn lemma_header_length(v: Self::V)
        requires
            Self::value_of(v).len() <= MAX_VALUE_LENGTH,
        ensures
            Self::header_of(v).value_length == Self::value_of(v).len(),
            Self::header_of(v).length() == CHUNK_HEADER_SIZE + Self::value_of(v).len(),
    ;

    /// Decoding the encoding of an encodable content gives that content back.
    proof fn lemma_round_trip(v: Self::V)
        requires
            Self::value_of(v).len() <= MAX_VALUE_LENGTH,
        ensures
            Self::parse(Self::header_of(v).wire() + Self::value_of(v)) == Ok::<Self::V, Error>(v),
    ;

    /// The header that this chunk is sent with.
    fn header(&self) -> (h: ChunkHeader)
        ensures
            h == Self::header_of(self@),
            h.value_length == Self::value_of(self@).len(),
            h.length() == CHUNK_HEADER_SIZE + Self::value_of(self@).len(),
    ;

    /// Decodes a chunk of this kind from `raw`, which starts with its header.
    fn unmarshal(raw: &Bytes) -> (r: Result<Self, Error>)
        ensures
            match r {
                Ok(c) => Self::parse(octets(*raw)) == Ok::<Self::V, Error>(c@),
                Err(e) => Self::parse(octets(*raw)) == Err::<Self::V, Error>(e),
            },
    ;

    /// Appends header and value to `buf` and returns the buffer's new length.
    /// What was in the buffer stays; four bytes of header follow it, and
    /// after them exactly the bytes of the value, `value_length()` of them.
    /// A value too long for the length field is refused, and the buffer is
    /// then left as it was.
    fn marshal_to(&self, buf: &mut BytesMut) -> (r: Result<usize, Error>)
        requires
            octets_mut(*old(buf)).len() + CHUNK_HEADER_SIZE + Self::value_of(self@).len()
                <= isize::MAX,
        ensures
            Self::value_of(self@).len() <= MAX_VALUE_LENGTH ==> {
                &&& r == Ok::<usize, Error>(octets_mut(*final(buf)).len() as usize)
                &&& octets_mut(*final(buf)) == octets_mut(*old(buf)) + (Self::header_of(
                    self@,
                ).wire() + Self::value_of(self@))
                &&& octets_mut(*final(buf)).len() == octets_mut(*old(buf)).len()
                    + CHUNK_HEADER_SIZE + Self::value_of(self@).len()
                &&& octets_mut(*final(buf)).subrange(0, octets_mut(*old(buf)).len() as int)
                    == octets_mut(*old(buf))
                &&& octets_mut(*final(buf)).subrange(
                    octets_mut(*old(buf)).len() + CHUNK_HEADER_SIZE,
                    octets_mut(*final(buf)).len() as int,
                ) == Self::value_of(self@)
            },
            Self::value_of(self@).len() > MAX_VALUE_LENGTH ==> r == Err::<usize, Error>(
                Error::ErrChunkLengthOverflow,
            ) && octets_mut(*final(buf)) == octets_mut(*old(buf)),
    ;

    /// Whether the content meets the constraints of its kind.
    fn check(&self) -> (r: Result<(), Error>)
        ensures
            r == Self::check_of(self@),
    ;

    /// Number of bytes that the value takes on the wire.
    fn value_length(&self) -> (n: usize)
        ensures
            n == Self::value_of(self@).len(),
    ;

    /// The chunk as a buffer of its own: header, then value.
    fn marshal(&self) -> (r: Result<Bytes, Error>)
        ensures
            match r {
                Ok(b) => {
                    &&& Self::value_of(self@).len() <= MAX_VALUE_LENGTH
                    &&& octets(b) == Self::header_of(self@).wire() + Self::value_of(self@)
                    &&& octets(b).len() == CHUNK_HEADER_SIZE + Self::value_of(self@).len()
                    &&& octets(b).subrange(CHUNK_HEADER_SIZE as int, octets(b).len() as int)
                        == Self::value_of(self@)
                },
                Err(e) => Self::value_of(self@).len() > MAX_VALUE_LENGTH && e
                    == Error::ErrChunkLengthOverflow,
            },
    {
        let value_length = self.value_length();
        if value_length > MAX_VALUE_LENGTH {
            return Err(Error::ErrChunkLengthOverflow);
        }
        let capacity = CHUNK_HEADER_SIZE + value_length;
        let mut buf = BytesMut::with_capacity(capacity);
        self.marshal_to(&mut buf)?;
        assert(octets_mut(buf) =~= Self::header_of(self@).wire() + Self::value_of(self@));
        assert(octets_mut(buf).subrange(CHUNK_HEADER_SIZE as int, octets_mut(buf).len() as int)
            =~= Self::value_of(self@));
        Ok(buf.freeze())
    }
}

/// A chunk with content `v` on the wire: its header, then its value, no
/// padding. The contracts of [`Chunk`] spell this sum out.
pub open spec fn wire_of<C: Chunk>(v: C::V) -> Seq<u8> {
    C::header_of(v).wire() + C::value_of(v)
}

/// For every kind, the wire form of an encodable content is four bytes
/// longer than its value, and that total is what its header declares.
pub proof fn lemma_wire_length<C: Chunk>(v: C::V)
    requires
        C::value_of(v).len() <= MAX_VALUE_LENGTH,
    ensures
        wire_of::<C>(v).len() == CHUNK_HEADER_SIZE + C::value_of(v).len(),
        C::header_of(v).length() == wire_of::<C>(v).len(),
        C::header_of(v).encodable(),
{
    C::lemma_header_length(v);
}

} // verus!
