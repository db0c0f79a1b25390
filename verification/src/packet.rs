//! Chunks in sequence: each chunk is followed by zero bytes up to the next
//! multiple of four, and the next chunk starts there.

use crate::buffer::{octets, octets_mut, put_u8, slice_of};
use crate::chunk::chunk_header::{
    lemma_header_round_trip, ChunkHeader, CHUNK_HEADER_SIZE, MAX_VALUE_LENGTH,
};
use crate::chunk::chunk_kind::{ChunkContent, ChunkKind};
use crate::chunk::{wire_of, Chunk};
use crate::error::Error;
use bytes::{Bytes, BytesMut};
use vstd::prelude::*;

verus! {

/// Size of the unit that every chunk is padded to.
pub const PADDING_MULTIPLE: usize = 4;

/// Number of pad bytes that follow `len` bytes to reach a multiple of four.
pub open spec fn padding_size(len: int) -> int {
    (PADDING_MULTIPLE - len % (PADDING_MULTIPLE as int)) % (PADDING_MULTIPLE as int)
}

/// `n` zero bytes.
pub open spec fn zeros(n: int) -> Seq<u8> {
    Seq::new(n as nat, |i: int| 0u8)
}

/// A chunk on the wire together with the padding after it.
pub open spec fn padded_wire(v: ChunkContent) -> Seq<u8> {
    wire_of::<ChunkKind>(v) + zeros(padding_size(wire_of::<ChunkKind>(v).len() as int))
}

/// A sequence of chunks on the wire: one after the other, each one padded.
pub open spec fn chunks_wire(vs: Seq<ChunkContent>) -> Seq<u8>
    decreases vs.len(),
{
    if vs.len() == 0 {
        Seq::empty()
    } else {
        padded_wire(vs[0]) + chunks_wire(vs.subrange(1, vs.len() as int))
    }
}

/// Whether each of the chunks has a value short enough to be encoded.
pub open spec fn all_encodable(vs: Seq<ChunkContent>) -> bool {
    forall|i: int| 0 <= i < vs.len() ==> (#[trigger] ChunkKind::value_of(vs[i])).len() <= MAX_VALUE_LENGTH
}

/// The contents of a list of chunks, in order.
pub open spec fn contents(chunks: Seq<ChunkKind>) -> Seq<ChunkContent> {
    chunks.map_values(|c: ChunkKind| c@)
}

/// `first`, followed by what `rest` decoded to; the error of `rest` if it has one.
pub open spec fn followed_by(first: Seq<ChunkContent>, rest: Result<Seq<ChunkContent>, Error>)
    -> Result<Seq<ChunkContent>, Error> {
    match rest {
        Ok(more) => Ok(first + more),
        Err(e) => Err(e),
    }
}

/// The chunks that `raw` holds from its first byte to its last. At each
/// chunk the header is read; the declared length, padded, must lie within
/// `raw`; the declared bytes are decoded by the kind that the tag names; and
/// the next chunk starts after the padding, whatever the pad bytes hold.
pub open spec fn parse_chunks(raw: Seq<u8>) -> Result<Seq<ChunkContent>, Error>
    decreases raw.len(),
{
    if raw.len() == 0 {
        Ok(Seq::empty())
    } else {
        match ChunkHeader::parse(raw) {
            Err(e) => Err(e),
            Ok(h) => {
                let end = h.length() + padding_size(h.length());
                if raw.len() < end {
                    Err(Error::ErrChunkHeaderNotEnoughSpace)
                } else {
                    match ChunkKind::parse(raw.subrange(0, h.length())) {
                        Err(e) => Err(e),
                        Ok(c) => followed_by(seq![c], parse_chunks(raw.subrange(end, raw.len() as int))),
                    }
                }
            },
        }
    }
}

/// Number of zero bytes to write after `len` bytes so that what follows
/// starts at a multiple of four.
pub fn get_padding_size(len: usize) -> (n: usize)
    ensures
        n == padding_size(len as int),
        n < PADDING_MULTIPLE,
        (len + n) % (PADDING_MULTIPLE as int) == 0,
{
    (PADDING_MULTIPLE - len % PADDING_MULTIPLE) % PADDING_MULTIPLE
}

/// The padding after `len` bytes is shorter than four bytes and brings the
/// total to a multiple of four; after a multiple of four there is none.
pub proof fn lemma_padding_size(len: int)
    requires
        0 <= len,
    ensures
        0 <= padding_size(len) < PADDING_MULTIPLE,
        (len + padding_size(len)) % (PADDING_MULTIPLE as int) == 0,
        len % (PADDING_MULTIPLE as int) == 0 <==> padding_size(len) == 0,
{
}

/// A chunk that starts at a multiple of four, followed by its padding, ends
/// at a multiple of four: the header of the next chunk is aligned.
pub proof fn lemma_padding_keeps_alignment(start: int, len: int)
    requires
        0 <= start,
        0 <= len,
        start % (PADDING_MULTIPLE as int) == 0,
    ensures
        (start + len + padding_size(len)) % (PADDING_MULTIPLE as int) == 0,
{
}

/// A padded chunk takes its header, its value and its padding, and nothing else.
pub proof fn lemma_padded_wire_len(v: ChunkContent)
    ensures
        wire_of::<ChunkKind>(v).len() == CHUNK_HEADER_SIZE + ChunkKind::value_of(v).len(),
        padded_wire(v).len() == wire_of::<ChunkKind>(v).len() + padding_size(
            wire_of::<ChunkKind>(v).len() as int,
        ),
        (padded_wire(v).len() as int) % (PADDING_MULTIPLE as int) == 0,
{
    lemma_padding_size(wire_of::<ChunkKind>(v).len() as int);
}

/// Adding a chunk at the end of a sequence adds its padded bytes at the end
/// of the wire form.
pub proof fn lemma_chunks_wire_push(vs: Seq<ChunkContent>, v: ChunkContent)
    ensures
        chunks_wire(vs.push(v)) == chunks_wire(vs) + padded_wire(v),
    decreases vs.len(),
{
    let all = vs.push(v);
    if vs.len() == 0 {
        assert(all.subrange(1, all.len() as int) =~= Seq::<ChunkContent>::empty());
        assert(chunks_wire(all.subrange(1, all.len() as int)) =~= Seq::<u8>::empty());
        assert(chunks_wire(vs) =~= Seq::<u8>::empty());
        assert(chunks_wire(all) =~= chunks_wire(vs) + padded_wire(v));
    } else {
        let tail = vs.subrange(1, vs.len() as int);
        lemma_chunks_wire_push(tail, v);
        assert(all.subrange(1, all.len() as int) =~= tail.push(v));
        assert(all[0] == vs[0]);
        assert(chunks_wire(all) =~= chunks_wire(vs) + padded_wire(v));
    }
}

/// The wire form of any sequence of chunks is a whole number of four-byte
/// units.
pub proof fn lemma_chunks_wire_aligned(vs: Seq<ChunkContent>)
    ensures
        (chunks_wire(vs).len() as int) % (PADDING_MULTIPLE as int) == 0,
    decreases vs.len(),
{
    if vs.len() > 0 {
        lemma_padded_wire_len(vs[0]);
        lemma_chunks_wire_aligned(vs.subrange(1, vs.len() as int));
    }
}

/// Two chunks back to back: between them stand exactly the pad bytes that
/// bring the first to a multiple of four, all zero, and none where the first
/// already ends on one.
pub proof fn lemma_two_chunks_wire(a: ChunkContent, b: ChunkContent)
    ensures
        chunks_wire(seq![a, b]) == wire_of::<ChunkKind>(a) + zeros(
            padding_size(wire_of::<ChunkKind>(a).len() as int),
        ) + padded_wire(b),
        (wire_of::<ChunkKind>(a).len() as int) % (PADDING_MULTIPLE as int) == 0 ==> chunks_wire(seq![a, b])
            == wire_of::<ChunkKind>(a) + padded_wire(b),
{
    let one = Seq::<ChunkContent>::empty().push(a);
    lemma_chunks_wire_push(Seq::<ChunkContent>::empty(), a);
    lemma_chunks_wire_push(one, b);
    assert(one.push(b) =~= seq![a, b]);
    assert(chunks_wire(Seq::<ChunkContent>::empty()) =~= Seq::<u8>::empty());
    assert(chunks_wire(one) =~= padded_wire(a));
    lemma_padding_size(wire_of::<ChunkKind>(a).len() as int);
    if (wire_of::<ChunkKind>(a).len() as int) % (PADDING_MULTIPLE as int) == 0 {
        assert(padded_wire(a) =~= wire_of::<ChunkKind>(a));
    }
}

/// Decoding the wire form of a sequence of encodable chunks gives the same
/// chunks back, in order, whatever padding stands between them.
pub proof fn lemma_chunks_round_trip(vs: Seq<ChunkContent>)
    requires
        all_encodable(vs),
    ensures
        parse_chunks(chunks_wire(vs)) == Ok::<Seq<ChunkContent>, Error>(vs),
    decreases vs.len(),
{
    if vs.len() == 0 {
        assert(vs =~= Seq::<ChunkContent>::empty());
    } else {
        let v = vs[0];
        let tail = vs.subrange(1, vs.len() as int);
        let raw = chunks_wire(vs);
        let h = ChunkKind::header_of(v);
        let value = ChunkKind::value_of(v);
        let pad = zeros(padding_size(wire_of::<ChunkKind>(v).len() as int));
        assert(value.len() <= MAX_VALUE_LENGTH);
        assert(forall|i: int| 0 <= i < tail.len() ==> tail[i] == vs[i + 1]);
        assert(all_encodable(tail));
        lemma_chunks_round_trip(tail);
        ChunkKind::lemma_header_length(v);
        ChunkKind::lemma_round_trip(v);
        lemma_padded_wire_len(v);
        lemma_header_round_trip(h, value + pad + chunks_wire(tail));
        assert(raw =~= h.wire() + (value + pad + chunks_wire(tail)));
        let end = h.length() + padding_size(h.length());
        assert(raw.subrange(0, h.length()) =~= wire_of::<ChunkKind>(v));
        assert(raw.subrange(end, raw.len() as int) =~= chunks_wire(tail));
        assert(seq![v] + tail =~= vs);
    }
}

/// The wire form of the first chunks of a sequence is never longer than
/// that of the whole sequence.
pub proof fn lemma_chunks_wire_prefix(vs: Seq<ChunkContent>, n: int)
    requires
        0 <= n <= vs.len(),
    ensures
        chunks_wire(vs.take(n)).len() <= chunks_wire(vs).len(),
    decreases vs.len() - n,
{
    if n == vs.len() {
        assert(vs.take(n) =~= vs);
    } else {
        lemma_chunks_wire_prefix(vs, n + 1);
        assert(vs.take(n + 1) =~= vs.take(n).push(vs[n]));
        lemma_chunks_wire_push(vs.take(n), vs[n]);
    }
}

/// Number of bytes that the chunks take on the wire, padding included, if
/// that is at most `limit`; `None` if it is more.
pub fn chunks_length(chunks: &Vec<ChunkKind>, limit: usize) -> (r: Option<usize>)
    ensures
        match r {
            Some(n) => n == chunks_wire(contents(chunks@)).len() && n <= limit,
            None => chunks_wire(contents(chunks@)).len() > limit,
        },
{
    let ghost vs = contents(chunks@);
    let mut total: usize = 0;
    let mut i: usize = 0;
    assert(vs.take(0) =~= Seq::<ChunkContent>::empty());
    while i < chunks.len()
        invariant
            i <= chunks.len(),
            vs == contents(chunks@),
            total == chunks_wire(vs.take(i as int)).len(),
            total <= limit,
        decreases chunks.len() - i,
    {
        let value_length = chunks[i].value_length();
        proof {
            assert(vs.take(i + 1) =~= vs.take(i as int).push(vs[i as int]));
            lemma_chunks_wire_push(vs.take(i as int), vs[i as int]);
            lemma_padded_wire_len(vs[i as int]);
            lemma_chunks_wire_prefix(vs, i + 1);
        }
        let room = limit - total;
        if value_length > room || room - value_length < CHUNK_HEADER_SIZE {
            return None;
        }
        let length = CHUNK_HEADER_SIZE + value_length;
        let padding = get_padding_size(length);
        if room - length < padding {
            return None;
        }
        total = total + length + padding;
        i = i + 1;
    }
    assert(vs.take(i as int) =~= vs);
    Some(total)
}

/// Appends `n` zero bytes to `buf`.
fn put_padding(buf: &mut BytesMut, n: usize)
    requires
        octets_mut(*old(buf)).len() + n <= isize::MAX,
    ensures
        octets_mut(*final(buf)) == octets_mut(*old(buf)) + zeros(n as int),
{
    let ghost start = octets_mut(*buf);
    let mut k: usize = 0;
    while k < n
        invariant
            k <= n,
            start.len() + n <= isize::MAX,
            octets_mut(*buf) == start + zeros(k as int),
        decreases n - k,
    {
        put_u8(buf, 0);
        k = k + 1;
        assert(octets_mut(*buf) =~= start + zeros(k as int));
    }
}

/// Appends each chunk to `buf`, every one followed by its padding, and
/// returns the buffer's new length. If any chunk has a value too long to be
/// encoded, nothing is written at all. The buffer must have room for what is
/// to be written; [`chunks_length`] tells how much that is.
pub fn marshal_chunks(chunks: &Vec<ChunkKind>, buf: &mut BytesMut) -> (r: Result<usize, Error>)
    requires
        octets_mut(*old(buf)).len() + chunks_wire(contents(chunks@)).len() <= isize::MAX,
    ensures
        all_encodable(contents(chunks@)) ==> {
            &&& r == Ok::<usize, Error>(octets_mut(*final(buf)).len() as usize)
            &&& octets_mut(*final(buf)) == octets_mut(*old(buf)) + chunks_wire(contents(chunks@))
            &&& (octets_mut(*final(buf)).len() - octets_mut(*old(buf)).len()) % (
            PADDING_MULTIPLE as int) == 0
        },
        !all_encodable(contents(chunks@)) ==> r == Err::<usize, Error>(
            Error::ErrChunkLengthOverflow,
        ) && octets_mut(*final(buf)) == octets_mut(*old(buf)),
{
    let ghost start = octets_mut(*buf);
    let ghost vs = contents(chunks@);
    let mut i: usize = 0;
    while i < chunks.len()
        invariant
            i <= chunks.len(),
            vs == contents(chunks@),
            octets_mut(*buf) == start,
            forall|j: int| 0 <= j < i ==> (#[trigger] ChunkKind::value_of(vs[j])).len() <= MAX_VALUE_LENGTH,
        decreases chunks.len() - i,
    {
        if chunks[i].value_length() > MAX_VALUE_LENGTH {
            assert(ChunkKind::value_of(vs[i as int]).len() > MAX_VALUE_LENGTH);
            return Err(Error::ErrChunkLengthOverflow);
        }
        i = i + 1;
    }
    assert(all_encodable(vs));
    assert(vs.take(0) =~= Seq::<ChunkContent>::empty());
    assert(octets_mut(*buf) =~= start + chunks_wire(vs.take(0)));
    assert(vs.skip(0) =~= vs);
    i = 0;
    while i < chunks.len()
        invariant
            i <= chunks.len(),
            vs == contents(chunks@),
            all_encodable(vs),
            octets_mut(*buf) == start + chunks_wire(vs.take(i as int)),
            octets_mut(*buf).len() + chunks_wire(vs.skip(i as int)).len() <= isize::MAX,
        decreases chunks.len() - i,
    {
        let chunk = &chunks[i];
        proof {
            let rest = vs.skip(i as int);
            assert(rest[0] == vs[i as int]);
            assert(rest.subrange(1, rest.len() as int) =~= vs.skip(i + 1));
            assert(vs.take(i + 1) =~= vs.take(i as int).push(vs[i as int]));
            lemma_chunks_wire_push(vs.take(i as int), vs[i as int]);
            lemma_padded_wire_len(vs[i as int]);
            assert(ChunkKind::value_of(vs[i as int]).len() <= MAX_VALUE_LENGTH);
        }
        let ghost before = octets_mut(*buf);
        match chunk.marshal_to(buf) {
            Ok(_) => {},
            Err(e) => {
                return Err(e);
            },
        }
        let padding = get_padding_size(CHUNK_HEADER_SIZE + chunk.value_length());
        put_padding(buf, padding);
        assert(octets_mut(*buf) =~= before + padded_wire(vs[i as int]));
        i = i + 1;
    }
    assert(vs.take(i as int) =~= vs);
    proof {
        lemma_chunks_wire_aligned(vs);
    }
    Ok(buf.len())
}

/// Splits `raw` into chunks and decodes each by the kind that its tag names.
/// All of `raw` must be taken up by chunks and their padding.
pub fn unmarshal_chunks(raw: &Bytes) -> (r: Result<Vec<ChunkKind>, Error>)
    ensures
        match r {
            Ok(chunks) => parse_chunks(octets(*raw)) == Ok::<Seq<ChunkContent>, Error>(
                contents(chunks@),
            ),
            Err(e) => parse_chunks(octets(*raw)) == Err::<Seq<ChunkContent>, Error>(e),
        },
{
    let ghost full = octets(*raw);
    let total = raw.len();
    let mut chunks: Vec<ChunkKind> = Vec::new();
    let mut offset: usize = 0;
    assert(contents(chunks@) =~= Seq::<ChunkContent>::empty());
    assert(full.subrange(0, total as int) =~= full);
    assert(parse_chunks(full) == followed_by(
        Seq::<ChunkContent>::empty(),
        parse_chunks(full),
    )) by {
        match parse_chunks(full) {
            Ok(more) => assert(Seq::<ChunkContent>::empty() + more =~= more),
            Err(_) => {},
        }
    }
    while offset < total
        invariant
            offset <= total,
            total == full.len(),
            full == octets(*raw),
            parse_chunks(full) == followed_by(
                contents(chunks@),
                parse_chunks(full.subrange(offset as int, total as int)),
            ),
        decreases total - offset,
    {
        let ghost tail = full.subrange(offset as int, total as int);
        let ghost done = contents(chunks@);
        let rest = slice_of(raw, offset, total);
        let header = match ChunkHeader::unmarshal(&rest) {
            Ok(h) => h,
            Err(e) => {
                return Err(e);
            },
        };
        let length = CHUNK_HEADER_SIZE + header.value_length();
        let padded = length + get_padding_size(length);
        if total - offset < padded {
            return Err(Error::ErrChunkHeaderNotEnoughSpace);
        }
        let region = slice_of(&rest, 0, length);
        let chunk = match ChunkKind::unmarshal(&region) {
            Ok(c) => c,
            Err(e) => {
                return Err(e);
            },
        };
        proof {
            let next = tail.subrange(padded as int, tail.len() as int);
            assert(next =~= full.subrange(offset + padded, total as int));
            assert(contents(chunks@.push(chunk)) =~= done.push(chunk@));
            match parse_chunks(next) {
                Ok(more) => assert(done + (seq![chunk@] + more) =~= done.push(chunk@) + more),
                Err(_) => {},
            }
        }
        chunks.push(chunk);
        offset = offset + padded;
    }
    proof {
        assert(full.subrange(offset as int, total as int) =~= Seq::<u8>::empty());
        assert(contents(chunks@) + Seq::<ChunkContent>::empty() =~= contents(chunks@));
    }
    Ok(chunks)
}

/// Where fewer than four bytes are left for a chunk, or fewer than its
/// header declares with padding, decoding stops with a truncation error.
pub proof fn lemma_chunks_truncation(raw: Seq<u8>)
    requires
        raw.len() > 0,
    ensures
        raw.len() < CHUNK_HEADER_SIZE ==> parse_chunks(raw) == Err::<Seq<ChunkContent>, Error>(
            Error::ErrChunkHeaderTooSmall,
        ),
        ChunkHeader::parse(raw) is Ok && raw.len() < ChunkHeader::parse(raw).unwrap().length()
            + padding_size(ChunkHeader::parse(raw).unwrap().length()) ==> parse_chunks(raw) == Err::<
            Seq<ChunkContent>,
            Error,
        >(Error::ErrChunkHeaderNotEnoughSpace),
{
}

} // verus!
