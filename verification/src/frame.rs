//! Frames: a length of eight bytes, least significant byte first, then that many bytes.

use vstd::prelude::*;

verus! {

/// The number of bytes that announce the length of what follows.
pub const HEADER_LEN: usize = 8;

/// Enough bytes for the length of a frame are there.
pub open spec fn has_header(buffer: Seq<u8>) -> bool {
    buffer.len() >= HEADER_LEN
}

/// The length that the first frame announces, as the machine can address it.
pub open spec fn payload_len(buffer: Seq<u8>) -> usize {
    vstd::bytes::spec_u64_from_le_bytes(buffer.take(HEADER_LEN as int)) as usize
}

/// The first frame announces more bytes than any buffer can hold.
pub open spec fn oversized(buffer: Seq<u8>) -> bool {
    has_header(buffer) && HEADER_LEN + payload_len(buffer) > usize::MAX
}

/// The first frame is there as a whole.
pub open spec fn has_frame(buffer: Seq<u8>) -> bool {
    has_header(buffer) && HEADER_LEN + payload_len(buffer) <= buffer.len()
}

/// What the first frame carries.
pub open spec fn payload(buffer: Seq<u8>) -> Seq<u8> {
    buffer.subrange(HEADER_LEN as int, HEADER_LEN + payload_len(buffer))
}

/// What is left behind the first frame.
pub open spec fn after_frame(buffer: Seq<u8>) -> Seq<u8> {
    buffer.skip(HEADER_LEN + payload_len(buffer))
}

/// What is left behind the first `n` frames.
pub open spec fn after_frames(buffer: Seq<u8>, n: nat) -> Seq<u8>
    decreases n,
{
    if n == 0 {
        buffer
    } else {
        after_frame(after_frames(buffer, (n - 1) as nat))
    }
}

/// The frame that announces `len` bytes and carries `bytes`.
pub open spec fn frame(bytes: Seq<u8>, len: u64) -> Seq<u8> {
    vstd::bytes::spec_u64_to_le_bytes(len) + bytes
}

/// The frames of all `encoded` messages, one behind the other.
pub open spec fn frames(encoded: Seq<(Vec<u8>, u64)>) -> Seq<u8>
    decreases encoded.len(),
{
    if encoded.len() == 0 {
        Seq::empty()
    } else {
        frames(encoded.drop_last()) + frame(encoded.last().0@, encoded.last().1)
    }
}

} // verus!
