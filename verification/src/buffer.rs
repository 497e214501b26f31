//! Byte buffers of the `bytes` crate, seen as byte sequences.

use bytes::{Buf, BufMut, Bytes, BytesMut};
use vstd::prelude::*;

use crate::wire::{be16, be32, be64, be_i16, be_i32};

verus! {

/// The growable buffer `bytes::BytesMut`.
#[verifier::external_type_specification]
#[verifier::external_body]
pub struct ExBytesMut(bytes::BytesMut);

/// The frozen buffer `bytes::Bytes`.
#[verifier::external_type_specification]
#[verifier::external_body]
pub struct ExBytes(bytes::Bytes);

/// The bytes that a growable buffer holds, in order.
pub uninterp spec fn buffered(buffer: BytesMut) -> Seq<u8>;

/// The bytes that a frozen buffer holds, in order.
pub uninterp spec fn frozen(buffer: Bytes) -> Seq<u8>;

/// `BytesMut::with_capacity`: an empty buffer. Asking for more than `isize::MAX`
/// bytes panics.
#[verifier::external_body]
pub(crate) fn with_capacity(capacity: usize) -> (buffer: BytesMut)
    requires
        capacity <= isize::MAX,
    ensures
        buffered(buffer) == Seq::<u8>::empty(),
{
    BytesMut::with_capacity(capacity)
}

/// `BytesMut::len`: how many bytes the buffer holds.
#[verifier::external_body]
pub(crate) fn length(buffer: &BytesMut) -> (len: usize)
    ensures
        len == buffered(*buffer).len(),
{
    buffer.len()
}

/// `<BytesMut as Deref>::deref`: the buffer's bytes as a slice.
#[verifier::external_body]
pub(crate) fn contents(buffer: &BytesMut) -> (bytes: &[u8])
    ensures
        bytes@ == buffered(*buffer),
{
    buffer
}

/// `BytesMut::extend_from_slice`: appends `data`. Growing past `isize::MAX` bytes
/// panics.
#[verifier::external_body]
pub(crate) fn extend(buffer: &mut BytesMut, data: &[u8])
    requires
        buffered(*old(buffer)).len() + data@.len() <= isize::MAX,
    ensures
        buffered(*final(buffer)) == buffered(*old(buffer)) + data@,
{
    buffer.extend_from_slice(data);
}

/// `BufMut::put_u8` on a `BytesMut`: appends one byte.
#[verifier::external_body]
pub(crate) fn put_u8(buffer: &mut BytesMut, n: u8)
    requires
        buffered(*old(buffer)).len() + 1 <= isize::MAX,
    ensures
        buffered(*final(buffer)) == buffered(*old(buffer)) + seq![n],
{
    buffer.put_u8(n);
}

/// `BufMut::put_u16` on a `BytesMut`: appends `n` in big-endian order.
#[verifier::external_body]
pub(crate) fn put_u16(buffer: &mut BytesMut, n: u16)
    requires
        buffered(*old(buffer)).len() + 2 <= isize::MAX,
    ensures
        buffered(*final(buffer)) == buffered(*old(buffer)) + be16(n),
{
    buffer.put_u16(n);
}

/// `BufMut::put_u32` on a `BytesMut`: appends `n` in big-endian order.
#[verifier::external_body]
pub(crate) fn put_u32(buffer: &mut BytesMut, n: u32)
    requires
        buffered(*old(buffer)).len() + 4 <= isize::MAX,
    ensures
        buffered(*final(buffer)) == buffered(*old(buffer)) + be32(n),
{
    buffer.put_u32(n);
}

/// `BufMut::put_u64` on a `BytesMut`: appends `n` in big-endian order.
#[verifier::external_body]
pub(crate) fn put_u64(buffer: &mut BytesMut, n: u64)
    requires
        buffered(*old(buffer)).len() + 8 <= isize::MAX,
    ensures
        buffered(*final(buffer)) == buffered(*old(buffer)) + be64(n),
{
    buffer.put_u64(n);
}

/// `BufMut::put_i16` on a `BytesMut`: appends the two's complement of `n` in
/// big-endian order.
#[verifier::external_body]
pub(crate) fn put_i16(buffer: &mut BytesMut, n: i16)
    requires
        buffered(*old(buffer)).len() + 2 <= isize::MAX,
    ensures
        buffered(*final(buffer)) == buffered(*old(buffer)) + be_i16(n),
{
    buffer.put_i16(n);
}

/// `BufMut::put_i32` on a `BytesMut`: appends the two's complement of `n` in
/// big-endian order.
#[verifier::external_body]
pub(crate) fn put_i32(buffer: &mut BytesMut, n: i32)
    requires
        buffered(*old(buffer)).len() + 4 <= isize::MAX,
    ensures
        buffered(*final(buffer)) == buffered(*old(buffer)) + be_i32(n),
{
    buffer.put_i32(n);
}

/// `<BytesMut as Buf>::advance`: drops the first `count` bytes. Advancing past the
/// end panics.
#[verifier::external_body]
pub(crate) fn advance(buffer: &mut BytesMut, count: usize)
    requires
        count <= buffered(*old(buffer)).len(),
    ensures
        buffered(*final(buffer)) == buffered(*old(buffer)).skip(count as int),
{
    buffer.advance(count);
}

/// `BytesMut::clear`: drops every byte.
#[verifier::external_body]
pub(crate) fn clear(buffer: &mut BytesMut)
    ensures
        buffered(*final(buffer)) == Seq::<u8>::empty(),
{
    buffer.clear();
}

/// `BytesMut::freeze`: the same bytes, no longer growable.
#[verifier::external_body]
pub(crate) fn freeze(buffer: BytesMut) -> (bytes: Bytes)
    ensures
        frozen(bytes) == buffered(buffer),
{
    buffer.freeze()
}

/// `<Bytes as Deref>::deref`: the frozen bytes as a slice.
#[verifier::external_body]
pub(crate) fn frozen_contents(bytes: &Bytes) -> (slice: &[u8])
    ensures
        slice@ == frozen(*bytes),
{
    bytes
}

} // verus!
