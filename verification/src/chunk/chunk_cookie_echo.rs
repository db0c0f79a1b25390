use crate::buffer::{octets, octets_mut, put_octets, slice_of};
use crate::chunk::chunk_header::{
    lemma_header_round_trip, ChunkHeader, CHUNK_HEADER_SIZE, MAX_VALUE_LENGTH,
};
use crate::chunk::chunk_type::CT_COOKIE_ECHO;
use crate::chunk::Chunk;
use crate::error::Error;
use bytes::{Bytes, BytesMut};
use vstd::prelude::*;

verus! {

/// A CookieEcho chunk: the state cookie of the handshake, carried as it is.
///
/// ```text
///  0                   1                   2                   3
///  0 1 2 3 4 5 6 7 8 9 0 1 2 3 4 5 6 7 8 9 0 1 2 3 4 5 6 7 8 9 0 1
/// +-+-+-+-+-+-+-+-+-+-+-+-+-+-+-+-+-+-+-+-+-+-+-+-+-+-+-+-+-+-+-+-+
/// |   Type = 10   |Chunk  Flags   |         Length                |
/// +-+-+-+-+-+-+-+-+-+-+-+-+-+-+-+-+-+-+-+-+-+-+-+-+-+-+-+-+-+-+-+-+
/// |                     Cookie                                    |
/// |                                                               |
/// +-+-+-+-+-+-+-+-+-+-+-+-+-+-+-+-+-+-+-+-+-+-+-+-+-+-+-+-+-+-+-+-+
/// ```
#[derive(Debug)]
pub struct ChunkCookieEcho {
    pub cookie: Bytes,
}

impl Clone for ChunkCookieEcho {
    fn clone(&self) -> (c: Self)
        ensures
            c@ == self@,
    {
        ChunkCookieEcho { cookie: self.cookie.clone() }
    }
}

impl View for ChunkCookieEcho {
    type V = Seq<u8>;

    /// The cookie, byte for byte.
    open spec fn view(&self) -> Seq<u8> {
        octets(self.cookie)
    }
}

impl Default for ChunkCookieEcho {
    fn default() -> (c: Self)
        ensures
            c@ == Seq::<u8>::empty(),
    {
        ChunkCookieEcho { cookie: Bytes::new() }
    }
}

impl Chunk for ChunkCookieEcho {
    open spec fn header_of(v: Seq<u8>) -> ChunkHeader {
        ChunkHeader { typ: CT_COOKIE_ECHO, flags: 0, value_length: v.len() as usize }
    }

    open spec fn value_of(v: Seq<u8>) -> Seq<u8> {
        v
    }

    /// Three gates in order: the header must be there, it must carry the tag
    /// of this kind, and `raw` must hold all the bytes that it declares. The
    /// cookie is then everything that the declared length covers after the
    /// header.
    open spec fn parse(raw: Seq<u8>) -> Result<Seq<u8>, Error> {
        match ChunkHeader::parse(raw) {
            Err(e) => Err(e),
            Ok(h) => if h.typ != CT_COOKIE_ECHO {
                Err(Error::ErrChunkTypeNotCookieEcho)
            } else if raw.len() < h.length() {
                Err(Error::ErrChunkHeaderNotEnoughSpace)
            } else {
                Ok(raw.subrange(CHUNK_HEADER_SIZE as int, h.length()))
            },
        }
    }

    open spec fn check_of(v: Seq<u8>) -> Result<(), Error> {
        Ok(())
    }

    proof fn lemma_header_length(v: Seq<u8>) {
    }

    proof fn lemma_round_trip(v: Seq<u8>) {
        let h = Self::header_of(v);
        lemma_header_round_trip(h, v);
        let raw = h.wire() + v;
        assert(raw.subrange(CHUNK_HEADER_SIZE as int, h.length()) =~= v);
    }

    fn header(&self) -> (h: ChunkHeader) {
        ChunkHeader { typ: CT_COOKIE_ECHO, flags: 0, value_length: self.value_length() }
    }

    fn unmarshal(raw: &Bytes) -> (r: Result<Self, Error>) {
        let header = ChunkHeader::unmarshal(raw)?;

        if header.typ != CT_COOKIE_ECHO {
            return Err(Error::ErrChunkTypeNotCookieEcho);
        }
        if raw.len() - CHUNK_HEADER_SIZE < header.value_length() {
            return Err(Error::ErrChunkHeaderNotEnoughSpace);
        }
        let cookie = slice_of(raw, CHUNK_HEADER_SIZE, CHUNK_HEADER_SIZE + header.value_length());
        Ok(ChunkCookieEcho { cookie })
    }

    fn marshal_to(&self, buf: &mut BytesMut) -> (r: Result<usize, Error>) {
        self.header().marshal_to(buf)?;
        put_octets(buf, &self.cookie);
        assert(octets_mut(*buf) =~= octets_mut(*old(buf)) + (Self::header_of(self@).wire()
            + Self::value_of(self@)));
        assert(octets_mut(*buf).subrange(0, octets_mut(*old(buf)).len() as int) =~= octets_mut(
            *old(buf),
        ));
        assert(octets_mut(*buf).subrange(
            octets_mut(*old(buf)).len() + CHUNK_HEADER_SIZE,
            octets_mut(*buf).len() as int,
        ) =~= Self::value_of(self@));
        Ok(buf.len())
    }

    fn check(&self) -> (r: Result<(), Error>) {
        Ok(())
    }

    fn value_length(&self) -> (n: usize) {
        self.cookie.len()
    }
}

/// A buffer shorter than a header is reported as truncated, whatever its
/// first byte says.
pub proof fn lemma_cookie_echo_header_gate(raw: Seq<u8>)
    requires
        raw.len() < CHUNK_HEADER_SIZE,
    ensures
        ChunkCookieEcho::parse(raw) == Err::<Seq<u8>, Error>(Error::ErrChunkHeaderTooSmall),
{
}

/// Once the header is read, a tag of another kind is always answered with
/// the error of this kind, whatever the length field and the rest say.
pub proof fn lemma_cookie_echo_type_gate(raw: Seq<u8>)
    requires
        ChunkHeader::parse(raw) is Ok,
        raw[0] != CT_COOKIE_ECHO,
    ensures
        ChunkCookieEcho::parse(raw) == Err::<Seq<u8>, Error>(Error::ErrChunkTypeNotCookieEcho),
{
}

/// With the right tag, a buffer that holds fewer bytes than the header
/// declares is reported as truncated; one that holds them all decodes to the
/// declared bytes after the header, and nothing beyond them.
pub proof fn lemma_cookie_echo_length_gate(raw: Seq<u8>)
    requires
        ChunkHeader::parse(raw) is Ok,
        raw[0] == CT_COOKIE_ECHO,
    ensures
        raw.len() < raw[2] * 256 + raw[3] ==> ChunkCookieEcho::parse(raw) == Err::<Seq<u8>, Error>(
            Error::ErrChunkHeaderNotEnoughSpace,
        ),
        raw.len() >= raw[2] * 256 + raw[3] ==> ChunkCookieEcho::parse(raw) == Ok::<Seq<u8>, Error>(
            raw.subrange(CHUNK_HEADER_SIZE as int, raw[2] * 256 + raw[3]),
        ),
{
}

/// On the wire a CookieEcho is its tag, a zero flags byte, the length of
/// the cookie plus four with the high byte first, and then the cookie.
pub proof fn lemma_cookie_echo_wire(cookie: Seq<u8>)
    requires
        cookie.len() <= MAX_VALUE_LENGTH,
    ensures
        ChunkCookieEcho::value_of(cookie) == cookie,
        ChunkCookieEcho::header_of(cookie).wire() + ChunkCookieEcho::value_of(cookie) == seq![
            CT_COOKIE_ECHO,
            0u8,
            ((cookie.len() + CHUNK_HEADER_SIZE) / 256) as u8,
            ((cookie.len() + CHUNK_HEADER_SIZE) % 256) as u8,
        ] + cookie,
{
}

} // verus!
