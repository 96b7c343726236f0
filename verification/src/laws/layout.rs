//! How messages lie in a row of bytes.

use crate::connection_state::{ReadView, WriteView};
use crate::encoder::{SansDecoder, SansEncoder};
use crate::frame;
use crate::message::Message;
use vstd::prelude::*;

verus! {

/// The bytes of all parts, one behind the other: of each its length as eight bytes, least
/// significant byte first, and then its payload.
pub open spec fn laid_out(parts: Seq<(u64, Seq<u8>)>) -> Seq<u8>
    decreases parts.len(),
{
    if parts.len() == 0 {
        Seq::empty()
    } else {
        laid_out(parts.drop_last()) + vstd::bytes::spec_u64_to_le_bytes(parts.last().0)
            + parts.last().1
    }
}

/// The length that the first eight bytes announce, as the machine can address it.
pub open spec fn announced(buffer: Seq<u8>) -> usize {
    vstd::bytes::spec_u64_from_le_bytes(buffer.take(8)) as usize
}

/// `decode` of `decoder` may answer `bytes` with `result`.
pub open spec fn may_read_as<T, Decoder: SansDecoder<T>>(
    decoder: Decoder,
    bytes: Seq<u8>,
    result: Result<Message<T>, Decoder::Error>,
) -> bool {
    exists|slice: &[u8]|
        slice@ == bytes && #[trigger] call_ensures(Decoder::decode, (&decoder, slice), result)
}

/// `buffer` starts with one part for each of `messages`, which carries as many bytes as it
/// announces and may be read as that message. `rest` is what comes behind the parts.
pub open spec fn is_cut_into<T, Decoder: SansDecoder<T>>(
    decoder: Decoder,
    buffer: Seq<u8>,
    messages: Seq<Message<T>>,
    rest: Seq<u8>,
) -> bool {
    exists|parts: Seq<(u64, Seq<u8>)>|
        {
            &&& buffer == #[trigger] laid_out(parts) + rest
            &&& parts.len() == messages.len()
            &&& forall|i: int|
                0 <= i < parts.len() ==> {
                    &&& (#[trigger] parts[i]).0 as usize == parts[i].1.len()
                    &&& may_read_as(decoder, parts[i].1, Ok(messages[i]))
                }
        }
}

/// The parts that the answers of an encoder make: the announced lengths and the bytes.
pub open spec fn parts_of(answers: Seq<(Vec<u8>, u64)>) -> Seq<(u64, Seq<u8>)> {
    Seq::new(answers.len(), |i: int| (answers[i].1, answers[i].0@))
}

/// `encode` of `encoder` may answer the first of `messages` with `answers`, one each.
pub open spec fn may_be_answers<T, Encoder: SansEncoder<T>>(
    encoder: Encoder,
    messages: Seq<Message<T>>,
    answers: Seq<(Vec<u8>, u64)>,
) -> bool {
    &&& answers.len() <= messages.len()
    &&& forall|i: int|
        0 <= i < answers.len() ==> call_ensures(
            Encoder::encode,
            (&encoder, &messages[i]),
            Ok(#[trigger] answers[i]),
        )
}

/// Parts laid out one after the other are all of them laid out.
pub proof fn laid_out_in_two(first: Seq<(u64, Seq<u8>)>, second: Seq<(u64, Seq<u8>)>)
    ensures
        laid_out(first + second) == laid_out(first) + laid_out(second),
    decreases second.len(),
{
    if second.len() == 0 {
        assert(first + second == first);
        assert(laid_out(first) + laid_out(second) == laid_out(first));
    } else {
        assert((first + second).drop_last() == first + second.drop_last());
        assert((first + second).last() == second.last());
        laid_out_in_two(first, second.drop_last());
        assert(laid_out(first + second) == laid_out(first) + laid_out(second));
    }
}

pub(crate) proof fn lemma_frames_are_laid_out(answers: Seq<(Vec<u8>, u64)>)
    ensures
        frame::frames(answers) == laid_out(parts_of(answers)),
    decreases answers.len(),
{
    let parts = parts_of(answers);
    if answers.len() > 0 {
        lemma_frames_are_laid_out(answers.drop_last());
        assert(parts.drop_last() == parts_of(answers.drop_last()));
        assert(frame::frames(answers) == laid_out(parts));
    }
}

pub(crate) proof fn lemma_answers<T, Encoder: SansEncoder<T>>(
    state: WriteView<T, Encoder>,
    answers: Seq<(Vec<u8>, u64)>,
)
    requires
        state.encodes_as(answers),
    ensures
        may_be_answers(state.encoder, state.queue, answers),
        frame::frames(answers) == laid_out(parts_of(answers)),
        answers.len() > 0 ==> frame::frames(answers.drop_last()) == laid_out(
            parts_of(answers.drop_last()),
        ),
{
    lemma_frames_are_laid_out(answers);
    if answers.len() > 0 {
        lemma_frames_are_laid_out(answers.drop_last());
    }
    assert forall|i: int| 0 <= i < answers.len() implies call_ensures(
        Encoder::encode,
        (&state.encoder, &state.queue[i]),
        Ok(#[trigger] answers[i]),
    ) by {}
}

/// What decoding takes from the buffer is the parts of the decoded messages.
pub(crate) proof fn lemma_decoding_cuts<T, Decoder: SansDecoder<T>>(
    before: ReadView<T, Decoder>,
    after: ReadView<T, Decoder>,
)
    requires
        before.decodes_to(after),
    ensures
        after.queue == before.queue + after.queue.skip(before.queue.len() as int),
        is_cut_into(
            before.decoder,
            before.buffer,
            after.queue.skip(before.queue.len() as int),
            after.buffer,
        ),
{
    let count = (after.queue.len() - before.queue.len()) as nat;
    let messages = after.queue.skip(before.queue.len() as int);
    let parts = parts_in(before.buffer, count);
    assert(after.queue == before.queue + messages);
    lemma_parts(before, after, count);
    assert forall|i: int| 0 <= i < parts.len() implies {
        &&& (#[trigger] parts[i]).0 as usize == parts[i].1.len()
        &&& may_read_as(before.decoder, parts[i].1, Ok(messages[i]))
    } by {
        assert(before.decodes_frame(i as nat, after));
        assert(messages[i] == after.queue[before.queue.len() + i]);
    }
    assert(before.buffer == laid_out(parts) + after.buffer);
}

/// The first `count` parts of `buffer`.
spec fn parts_in(buffer: Seq<u8>, count: nat) -> Seq<(u64, Seq<u8>)> {
    Seq::new(
        count,
        |i: int|
            (
                vstd::bytes::spec_u64_from_le_bytes(
                    frame::after_frames(buffer, i as nat).take(frame::HEADER_LEN as int),
                ),
                frame::payload(frame::after_frames(buffer, i as nat)),
            ),
    )
}

proof fn lemma_parts<T, Decoder: SansDecoder<T>>(
    before: ReadView<T, Decoder>,
    after: ReadView<T, Decoder>,
    n: nat,
)
    requires
        before.decodes_to(after),
        n <= after.queue.len() - before.queue.len(),
    ensures
        before.buffer == laid_out(parts_in(before.buffer, n)) + frame::after_frames(
            before.buffer,
            n,
        ),
    decreases n,
{
    let parts = parts_in(before.buffer, n);
    if n == 0 {
        assert(laid_out(parts) + before.buffer == before.buffer);
    } else {
        let m = (n - 1) as nat;
        lemma_parts(before, after, m);
        assert(parts.drop_last() == parts_in(before.buffer, m));
        assert(before.decodes_frame(m, after));
        let rest = frame::after_frames(before.buffer, m);
        vstd::bytes::lemma_auto_spec_u64_to_from_le_bytes();
        let header = rest.take(frame::HEADER_LEN as int);
        assert(vstd::bytes::spec_u64_to_le_bytes(parts.last().0) == header);
        assert(rest == header + frame::payload(rest) + frame::after_frame(rest));
        assert(before.buffer == laid_out(parts) + frame::after_frame(rest));
    }
}

} // verus!
