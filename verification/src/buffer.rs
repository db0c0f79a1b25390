//! The byte buffers of the `bytes` crate as this library sees them.
//!
//! Nothing in this file is proved. Each item states, over the byte sequence
//! that a buffer holds, what the `bytes` crate does; the rest of the library
//! is verified against these statements.

use bytes::{BufMut, Bytes, BytesMut};
use vstd::prelude::*;

verus! {

/// `bytes::Bytes`, an immutable shared byte buffer, carried as an opaque value.
#[verifier::external_type_specification]
#[verifier::external_body]
pub struct ExBytes(Bytes);

/// `bytes::BytesMut`, a growable byte buffer, carried as an opaque value.
#[verifier::external_type_specification]
#[verifier::external_body]
pub struct ExBytesMut(BytesMut);

/// The bytes that a `Bytes` holds, first to last.
pub uninterp spec fn octets(b: Bytes) -> Seq<u8>;

/// The bytes that a `BytesMut` holds, first to last.
pub uninterp spec fn octets_mut(b: BytesMut) -> Seq<u8>;

/// `Bytes::new`: a buffer that holds no bytes.
pub assume_specification[ Bytes::new ]() -> (b: Bytes)
    ensures
        octets(b) == Seq::<u8>::empty(),
;

/// `Clone` for `Bytes`: another handle on the same bytes.
pub assume_specification[ <Bytes as Clone>::clone ](b: &Bytes) -> (copy: Bytes)
    ensures
        octets(copy) == octets(*b),
;

/// `Bytes::len`: the number of bytes held.
pub assume_specification[ Bytes::len ](b: &Bytes) -> (n: usize)
    ensures
        n == octets(*b).len(),
;

/// `BytesMut::len`: the number of bytes held.
pub assume_specification[ BytesMut::len ](b: &BytesMut) -> (n: usize)
    ensures
        n == octets_mut(*b).len(),
;

/// `BytesMut::with_capacity`: a fresh buffer that holds no bytes, whatever
/// room was asked for. The allocation behind it panics above `isize::MAX`.
pub assume_specification[ BytesMut::with_capacity ](capacity: usize) -> (b: BytesMut)
    requires
        capacity <= isize::MAX,
    ensures
        octets_mut(b) == Seq::<u8>::empty(),
;

/// `BytesMut::freeze`: the same bytes, now immutable.
pub assume_specification[ BytesMut::freeze ](b: BytesMut) -> (frozen: Bytes)
    ensures
        octets(frozen) == octets_mut(b),
;

/// Indexing a `Bytes` through its deref to a slice: the byte at position `i`.
/// Out of bounds it panics, so `i` must lie inside.
#[verifier::external_body]
pub(crate) fn byte_at(raw: &Bytes, i: usize) -> (b: u8)
    requires
        i < octets(*raw).len(),
    ensures
        b == octets(*raw)[i as int],
{
    raw[i]
}

/// `Bytes::slice` on the range `begin..end`: a buffer of the bytes at those
/// positions, in order. It panics unless `begin <= end <= len`.
#[verifier::external_body]
pub(crate) fn slice_of(raw: &Bytes, begin: usize, end: usize) -> (part: Bytes)
    requires
        begin <= end <= octets(*raw).len(),
    ensures
        octets(part) == octets(*raw).subrange(begin as int, end as int),
{
    raw.slice(begin..end)
}

/// `BufMut::put_u8` on a `BytesMut`: one byte is appended. The buffer grows
/// as needed, and panics only if it would pass `isize::MAX` bytes.
#[verifier::external_body]
pub(crate) fn put_u8(buf: &mut BytesMut, n: u8)
    requires
        octets_mut(*old(buf)).len() + 1 <= isize::MAX,
    ensures
        octets_mut(*final(buf)) == octets_mut(*old(buf)).push(n),
{
    buf.put_u8(n)
}

/// `BufMut::put_u16` on a `BytesMut`: the two bytes of `n` are appended in
/// big-endian order, high byte first.
#[verifier::external_body]
pub(crate) fn put_u16(buf: &mut BytesMut, n: u16)
    requires
        octets_mut(*old(buf)).len() + 2 <= isize::MAX,
    ensures
        octets_mut(*final(buf)) == octets_mut(*old(buf)).push((n / 256) as u8).push((n % 256) as u8),
{
    buf.put_u16(n)
}

/// `BytesMut::extend_from_slice` with the contents of a `Bytes`: all of its
/// bytes are appended, in order.
#[verifier::external_body]
pub(crate) fn put_octets(buf: &mut BytesMut, src: &Bytes)
    requires
        octets_mut(*old(buf)).len() + octets(*src).len() <= isize::MAX,
    ensures
        octets_mut(*final(buf)) == octets_mut(*old(buf)) + octets(*src),
{
    buf.extend_from_slice(src)
}

} // verus!
