//! The byte buffers of the `bytes` crate and what the library relies on of them.

use bytes::{Bytes, BytesMut};
use vstd::prelude::*;

verus! {

/// `bytes::BytesMut`, a buffer that grows at its end and is consumed from its front.
#[verifier::external_type_specification]
#[verifier::external_body]
pub struct ExBytesMut(bytes::BytesMut);

/// `bytes::Bytes`, a byte string that no longer changes.
#[verifier::external_type_specification]
#[verifier::external_body]
pub struct ExBytes(bytes::Bytes);

/// The bytes that a `BytesMut` holds, in order.
pub uninterp spec fn buffer_contents(buffer: BytesMut) -> Seq<u8>;

/// The bytes that a `Bytes` holds, in order.
pub uninterp spec fn bytes_contents(bytes: Bytes) -> Seq<u8>;

/// Calls `BytesMut::with_capacity`: the new buffer holds nothing. It allocates
/// `capacity` bytes at once, and panics beyond `isize::MAX` bytes, the most that one
/// allocation can be. Not stated: the allocator may be out of memory.
#[verifier::external_body]
pub(crate) fn buffer_with_capacity(capacity: usize) -> (buffer: BytesMut)
    requires
        capacity <= isize::MAX,
    ensures
        buffer_contents(buffer) == Seq::<u8>::empty(),
{
    BytesMut::with_capacity(capacity)
}

/// Calls `BytesMut::len`: the number of bytes held.
#[verifier::external_body]
pub(crate) fn buffer_len(buffer: &BytesMut) -> (len: usize)
    ensures
        len == buffer_contents(*buffer).len(),
{
    buffer.len()
}

/// Calls `BytesMut::is_empty`: whether no byte is held.
#[verifier::external_body]
pub(crate) fn buffer_is_empty(buffer: &BytesMut) -> (empty: bool)
    ensures
        empty == (buffer_contents(*buffer).len() == 0),
{
    buffer.is_empty()
}

/// Calls `BytesMut::as_ref`: the held bytes as a slice.
#[verifier::external_body]
pub(crate) fn buffer_as_slice(buffer: &BytesMut) -> (slice: &[u8])
    ensures
        slice@ == buffer_contents(*buffer),
{
    buffer.as_ref()
}

/// Calls `BytesMut::extend_from_slice`: the slice is appended and nothing else
/// changes. What is held afterwards has to stay within `isize::MAX` bytes, the most
/// that one allocation can be. Not stated: where the buffer has to grow, it asks for room
/// ahead of need and behind what was consumed before, so that it depends on the room
/// allocated so far, and on the allocator, whether that much can be had.
#[verifier::external_body]
pub(crate) fn buffer_extend(buffer: &mut BytesMut, extend: &[u8])
    requires
        buffer_contents(*old(buffer)).len() + extend@.len() <= isize::MAX,
    ensures
        buffer_contents(*final(buffer)) == buffer_contents(*old(buffer)) + extend@,
{
    buffer.extend_from_slice(extend)
}

/// Calls `BytesMut::split_to`: the first `at` bytes leave the buffer and are handed
/// out, the others stay. It panics where fewer than `at` bytes are held.
#[verifier::external_body]
pub(crate) fn buffer_split_to(buffer: &mut BytesMut, at: usize) -> (front: BytesMut)
    requires
        at <= buffer_contents(*old(buffer)).len(),
    ensures
        buffer_contents(front) == buffer_contents(*old(buffer)).take(at as int),
        buffer_contents(*final(buffer)) == buffer_contents(*old(buffer)).skip(at as int),
{
    buffer.split_to(at)
}

/// Calls `BytesMut::freeze`: the same bytes as an immutable byte string.
#[verifier::external_body]
pub(crate) fn buffer_freeze(buffer: BytesMut) -> (bytes: Bytes)
    ensures
        bytes_contents(bytes) == buffer_contents(buffer),
{
    buffer.freeze()
}

} // verus!
