use crate::buffer::byte_at;
use crate::chunk::chunk_cookie_echo::ChunkCookieEcho;
use crate::chunk::chunk_header::ChunkHeader;
use crate::chunk::chunk_shutdown_complete::ChunkShutdownComplete;
use crate::chunk::chunk_type::{CT_COOKIE_ECHO, CT_SHUTDOWN_COMPLETE};
use crate::chunk::Chunk;
use crate::error::Error;
use bytes::{Bytes, BytesMut};
use vstd::prelude::*;

verus! {

/// A chunk of any kind that this library can decode.
#[derive(Debug)]
pub enum ChunkKind {
    CookieEcho(ChunkCookieEcho),
    ShutdownComplete(ChunkShutdownComplete),
}

/// The content of a [`ChunkKind`]: which kind it is, and what it holds (the
/// cookie of a CookieEcho, the flags byte of a ShutdownComplete).
pub enum ChunkContent {
    CookieEcho(Seq<u8>),
    ShutdownComplete(u8),
}

impl View for ChunkKind {
    type V = ChunkContent;

    open spec fn view(&self) -> ChunkContent {
        match self {
            ChunkKind::CookieEcho(c) => ChunkContent::CookieEcho(c@),
            ChunkKind::ShutdownComplete(c) => ChunkContent::ShutdownComplete(c@),
        }
    }
}

impl Clone for ChunkKind {
    fn clone(&self) -> (c: Self)
        ensures
            c@ == self@,
    {
        match self {
            ChunkKind::CookieEcho(c) => ChunkKind::CookieEcho(c.clone()),
            ChunkKind::ShutdownComplete(c) => ChunkKind::ShutdownComplete(c.clone()),
        }
    }
}

impl Chunk for ChunkKind {
    open spec fn header_of(v: ChunkContent) -> ChunkHeader {
        match v {
            ChunkContent::CookieEcho(cookie) => ChunkCookieEcho::header_of(cookie),
            ChunkContent::ShutdownComplete(flags) => ChunkShutdownComplete::header_of(flags),
        }
    }

    open spec fn value_of(v: ChunkContent) -> Seq<u8> {
        match v {
            ChunkContent::CookieEcho(cookie) => ChunkCookieEcho::value_of(cookie),
            ChunkContent::ShutdownComplete(flags) => ChunkShutdownComplete::value_of(flags),
        }
    }

    /// The first byte alone picks the decoder, which then sees all of `raw`.
    /// A tag that no decoder answers to is reported as such, whatever else
    /// `raw` holds.
    open spec fn parse(raw: Seq<u8>) -> Result<ChunkContent, Error> {
        if raw.len() == 0 {
            Err(Error::ErrChunkHeaderTooSmall)
        } else if raw[0] == CT_COOKIE_ECHO {
            match ChunkCookieEcho::parse(raw) {
                Ok(cookie) => Ok(ChunkContent::CookieEcho(cookie)),
                Err(e) => Err(e),
            }
        } else if raw[0] == CT_SHUTDOWN_COMPLETE {
            match ChunkShutdownComplete::parse(raw) {
                Ok(flags) => Ok(ChunkContent::ShutdownComplete(flags)),
                Err(e) => Err(e),
            }
        } else {
            Err(Error::ErrUnmarshalUnknownChunkType)
        }
    }

    open spec fn check_of(v: ChunkContent) -> Result<(), Error> {
        match v {
            ChunkContent::CookieEcho(cookie) => ChunkCookieEcho::check_of(cookie),
            ChunkContent::ShutdownComplete(flags) => ChunkShutdownComplete::check_of(flags),
        }
    }

    proof fn lemma_header_length(v: ChunkContent) {
        match v {
            ChunkContent::CookieEcho(cookie) => ChunkCookieEcho::lemma_header_length(cookie),
            ChunkContent::ShutdownComplete(flags) => ChunkShutdownComplete::lemma_header_length(flags),
        }
    }

    proof fn lemma_round_trip(v: ChunkContent) {
        let raw = Self::header_of(v).wire() + Self::value_of(v);
        assert(raw[0] == Self::header_of(v).typ);
        match v {
            ChunkContent::CookieEcho(cookie) => ChunkCookieEcho::lemma_round_trip(cookie),
            ChunkContent::ShutdownComplete(flags) => ChunkShutdownComplete::lemma_round_trip(flags),
        }
    }

    fn header(&self) -> (h: ChunkHeader) {
        match self {
            ChunkKind::CookieEcho(c) => c.header(),
            ChunkKind::ShutdownComplete(c) => c.header(),
        }
    }

    fn unmarshal(raw: &Bytes) -> (r: Result<Self, Error>) {
        if raw.len() == 0 {
            return Err(Error::ErrChunkHeaderTooSmall);
        }
        let typ: u8 = byte_at(raw, 0);
        if typ == CT_COOKIE_ECHO {
            Ok(ChunkKind::CookieEcho(ChunkCookieEcho::unmarshal(raw)?))
        } else if typ == CT_SHUTDOWN_COMPLETE {
            Ok(ChunkKind::ShutdownComplete(ChunkShutdownComplete::unmarshal(raw)?))
        } else {
            Err(Error::ErrUnmarshalUnknownChunkType)
        }
    }

    fn marshal_to(&self, buf: &mut BytesMut) -> (r: Result<usize, Error>) {
        match self {
            ChunkKind::CookieEcho(c) => c.marshal_to(buf),
            ChunkKind::ShutdownComplete(c) => c.marshal_to(buf),
        }
    }

    fn check(&self) -> (r: Result<(), Error>) {
        match self {
            ChunkKind::CookieEcho(c) => c.check(),
            ChunkKind::ShutdownComplete(c) => c.check(),
        }
    }

    fn value_length(&self) -> (n: usize) {
        match self {
            ChunkKind::CookieEcho(c) => c.value_length(),
            ChunkKind::ShutdownComplete(c) => c.value_length(),
        }
    }
}

/// A buffer that starts with the tag of a known kind decodes through the
/// dispatch exactly as through the decoder of that kind, error for error. A
/// first byte that is the tag of no known kind is reported as unrecognised,
/// even where the buffer is too short for a header.
pub proof fn lemma_dispatch(raw: Seq<u8>)
    requires
        raw.len() > 0,
    ensures
        raw[0] == CT_COOKIE_ECHO ==> match ChunkCookieEcho::parse(raw) {
            Ok(cookie) => ChunkKind::parse(raw) == Ok::<ChunkContent, Error>(
                ChunkContent::CookieEcho(cookie),
            ),
            Err(e) => ChunkKind::parse(raw) == Err::<ChunkContent, Error>(e),
        },
        raw[0] == CT_SHUTDOWN_COMPLETE ==> match ChunkShutdownComplete::parse(raw) {
            Ok(flags) => ChunkKind::parse(raw) == Ok::<ChunkContent, Error>(
                ChunkContent::ShutdownComplete(flags),
            ),
            Err(e) => ChunkKind::parse(raw) == Err::<ChunkContent, Error>(e),
        },
        raw[0] != CT_COOKIE_ECHO && raw[0] != CT_SHUTDOWN_COMPLETE ==> ChunkKind::parse(raw)
            == Err::<ChunkContent, Error>(Error::ErrUnmarshalUnknownChunkType),
{
}

} // verus!
