//! What each call on one half of a connection does, in terms of what is held before and after it.

use crate::buffer;
use crate::connection_state::{ConnectionReadState, ConnectionWriteState};
use crate::encoder::{SansDecoder, SansEncoder};
use crate::laws::layout;
use crate::message::Message;
use bytes::Bytes;
use vstd::prelude::*;

verus! {

/// `consume_item` hands out the oldest message wherever there is one, and leaves the others
/// in order.
pub proof fn consume_item_hands_out_the_oldest<In, Decoder: SansDecoder<In>>(
    state: &mut ConnectionReadState<In, Decoder>,
    item: Option<Message<In>>,
)
    requires
        call_ensures(ConnectionReadState::<In, Decoder>::consume_item, (state,), item),
    ensures
        ({
            let before = old(state)@;
            let after = final(state)@;
            &&& item is None <==> before.queue.len() == 0
            &&& match item {
                Some(item) => seq![item] + after.queue == before.queue,
                None => after.queue == before.queue,
            }
            &&& after.buffer == before.buffer
            &&& after.queue_size == before.queue_size
            &&& after.buffer_size == before.buffer_size
            &&& after.decoder == before.decoder
        }),
{
    let before = old(state)@;
    if let Some(item) = item {
        assert(seq![item] + before.queue.skip(1) == before.queue);
    }
}

/// `feed_bytes` takes all bytes where fewer than the buffer size are held, and none
/// otherwise. What it takes joins the end of the buffer, and it tells how many they are.
pub proof fn feed_bytes_appends<In, Decoder: SansDecoder<In>>(
    state: &mut ConnectionReadState<In, Decoder>,
    bytes: &[u8],
    fed: usize,
)
    requires
        call_ensures(ConnectionReadState::<In, Decoder>::feed_bytes, (state, bytes), fed),
    ensures
        ({
            let before = old(state)@;
            let after = final(state)@;
            &&& before.buffer.len() < before.buffer_size ==> fed == bytes@.len()
            &&& before.buffer.len() >= before.buffer_size ==> fed == 0
            &&& after.buffer == before.buffer + bytes@.take(fed as int)
            &&& after.queue == before.queue
            &&& after.queue_size == before.queue_size
            &&& after.buffer_size == before.buffer_size
            &&& after.decoder == before.decoder
        }),
{
}

/// `try_feed_bytes` appends as `feed_bytes` does. It answers `None`, and nothing changes,
/// only where the bytes would be taken and would exceed what can be allocated.
pub proof fn try_feed_bytes_appends<In, Decoder: SansDecoder<In>>(
    state: &mut ConnectionReadState<In, Decoder>,
    bytes: &[u8],
    fed: Option<usize>,
)
    requires
        call_ensures(ConnectionReadState::<In, Decoder>::try_feed_bytes, (state, bytes), fed),
    ensures
        ({
            let before = old(state)@;
            let after = final(state)@;
            &&& fed is None <==> before.buffer.len() < before.buffer_size && before.buffer.len()
                + bytes@.len() > isize::MAX
            &&& match fed {
                Some(fed) => {
                    &&& before.buffer.len() < before.buffer_size ==> fed == bytes@.len()
                    &&& before.buffer.len() >= before.buffer_size ==> fed == 0
                    &&& after.buffer == before.buffer + bytes@.take(fed as int)
                },
                None => after.buffer == before.buffer,
            }
            &&& after.queue == before.queue
            &&& after.queue_size == before.queue_size
            &&& after.buffer_size == before.buffer_size
            &&& after.decoder == before.decoder
        }),
{
}

/// `process` decodes messages from the front of the buffer, in order, to the end of
/// the queue, and never beyond the queue size. With `Ok`, the queue is full or what is left
/// does not hold a whole message. With `Err`, the queue has room, and what is left starts
/// with a whole message that the decoder refuses with that error, and keeps it.
pub proof fn process_decodes_what_it_can<In, Decoder: SansDecoder<In>>(
    state: &mut ConnectionReadState<In, Decoder>,
    result: Result<(), Decoder::Error>,
)
    requires
        call_ensures(ConnectionReadState::<In, Decoder>::process, (state,), result),
    ensures
        ({
            let before = old(state)@;
            let after = final(state)@;
            let decoded = after.queue.skip(before.queue.len() as int);
            &&& after.queue == before.queue + decoded
            &&& layout::is_cut_into(before.decoder, before.buffer, decoded, after.buffer)
            &&& decoded.len() > 0 ==> after.queue.len() <= before.queue_size
            &&& match result {
                Ok(()) => {
                    ||| after.queue.len() >= before.queue_size
                    ||| after.buffer.len() < 8
                    ||| {
                        &&& after.buffer.len() < 8 + layout::announced(after.buffer)
                        &&& 8 + layout::announced(after.buffer) <= usize::MAX
                    }
                },
                Err(error) => {
                    &&& after.queue.len() < before.queue_size
                    &&& after.buffer.len() >= 8 + layout::announced(after.buffer)
                    &&& layout::may_read_as(
                        before.decoder,
                        after.buffer.subrange(8, 8 + layout::announced(after.buffer)),
                        Err(error),
                    )
                },
            }
            &&& after.queue_size == before.queue_size
            &&& after.buffer_size == before.buffer_size
            &&& after.decoder == before.decoder
        }),
{
    layout::lemma_decoding_cuts(old(state)@, final(state)@);
}

/// `try_process` decodes messages from the front of the buffer, in order, to the end of
/// the queue, and never beyond the queue size. With `Ok`, the queue is full or what is left
/// does not hold a whole message. With `Err`, the queue has room, and what is left starts
/// with a whole message that the decoder refuses with that error, and keeps it. With
/// `None`, the queue has room and the next message announces more bytes than any buffer
/// can hold.
pub proof fn try_process_decodes_what_it_can<In, Decoder: SansDecoder<In>>(
    state: &mut ConnectionReadState<In, Decoder>,
    result: Option<Result<(), Decoder::Error>>,
)
    requires
        call_ensures(ConnectionReadState::<In, Decoder>::try_process, (state,), result),
    ensures
        ({
            let before = old(state)@;
            let after = final(state)@;
            let decoded = after.queue.skip(before.queue.len() as int);
            &&& after.queue == before.queue + decoded
            &&& layout::is_cut_into(before.decoder, before.buffer, decoded, after.buffer)
            &&& decoded.len() > 0 ==> after.queue.len() <= before.queue_size
            &&& match result {
                Some(Ok(())) => {
                    ||| after.queue.len() >= before.queue_size
                    ||| after.buffer.len() < 8
                    ||| {
                        &&& after.buffer.len() < 8 + layout::announced(after.buffer)
                        &&& 8 + layout::announced(after.buffer) <= usize::MAX
                    }
                },
                Some(Err(error)) => {
                    &&& after.queue.len() < before.queue_size
                    &&& after.buffer.len() >= 8 + layout::announced(after.buffer)
                    &&& layout::may_read_as(
                        before.decoder,
                        after.buffer.subrange(8, 8 + layout::announced(after.buffer)),
                        Err(error),
                    )
                },
                None => {
                    &&& after.queue.len() < before.queue_size
                    &&& after.buffer.len() >= 8
                    &&& 8 + layout::announced(after.buffer) > usize::MAX
                },
            }
            &&& after.queue_size == before.queue_size
            &&& after.buffer_size == before.buffer_size
            &&& after.decoder == before.decoder
        }),
{
    layout::lemma_decoding_cuts(old(state)@, final(state)@);
}

/// `available_space` and the queued messages make up the queue size, and
/// `write_queue_empty` tells whether none is queued.
pub proof fn space_and_queue_make_up_the_size<Out, Encoder: SansEncoder<Out>>(
    state: &ConnectionWriteState<Out, Encoder>,
    space: usize,
    empty: bool,
)
    ensures
        call_ensures(ConnectionWriteState::<Out, Encoder>::available_space, (state,), space) ==> space
            + state@.queue.len() == state@.queue_size,
        call_ensures(ConnectionWriteState::<Out, Encoder>::write_queue_empty, (state,), empty) ==> (empty
            <==> state@.queue.len() == 0),
{
}

/// `feed_item` queues the message behind the others wherever fewer than the queue size are
/// queued, and hands it back unchanged otherwise.
pub proof fn feed_item_queues_where_there_is_room<Out, Encoder: SansEncoder<Out>>(
    state: &mut ConnectionWriteState<Out, Encoder>,
    item: Message<Out>,
    refused: Option<Message<Out>>,
)
    requires
        call_ensures(ConnectionWriteState::<Out, Encoder>::feed_item, (state, item), refused),
    ensures
        ({
            let before = old(state)@;
            let after = final(state)@;
            &&& refused is None <==> before.queue.len() < before.queue_size
            &&& match refused {
                None => after.queue == before.queue + seq![item],
                Some(back) => back == item && after.queue == before.queue,
            }
            &&& after.buffer == before.buffer
            &&& after.queue_size == before.queue_size
            &&& after.buffer_size == before.buffer_size
            &&& after.encoder == before.encoder
        }),
{
    assert(old(state)@.queue.push(item) == old(state)@.queue + seq![item]);
}

/// `consume_bytes` hands out bytes wherever there are some: as many as are asked for, or
/// all where there are fewer. They and what is left are what was held, in order.
pub proof fn consume_bytes_takes_from_the_front<Out, Encoder: SansEncoder<Out>>(
    state: &mut ConnectionWriteState<Out, Encoder>,
    len: usize,
    bytes: Option<Bytes>,
)
    requires
        call_ensures(ConnectionWriteState::<Out, Encoder>::consume_bytes, (state, len), bytes),
    ensures
        ({
            let before = old(state)@;
            let after = final(state)@;
            &&& bytes is None <==> before.buffer.len() == 0
            &&& match bytes {
                Some(bytes) => {
                    let taken = buffer::bytes_contents(bytes);
                    &&& taken + after.buffer == before.buffer
                    &&& taken.len() <= len
                    &&& taken.len() < len ==> after.buffer.len() == 0
                },
                None => after.buffer == before.buffer,
            }
            &&& after.queue == before.queue
            &&& after.queue_size == before.queue_size
            &&& after.buffer_size == before.buffer_size
            &&& after.encoder == before.encoder
        }),
{
    if let Some(bytes) = bytes {
        assert(buffer::bytes_contents(bytes) + final(state)@.buffer == old(state)@.buffer);
    }
}

/// `consume_all` hands out all bytes wherever there are some, and leaves none.
pub proof fn consume_all_takes_everything<Out, Encoder: SansEncoder<Out>>(
    state: &mut ConnectionWriteState<Out, Encoder>,
    bytes: Option<Bytes>,
)
    requires
        call_ensures(ConnectionWriteState::<Out, Encoder>::consume_all, (state,), bytes),
    ensures
        ({
            let before = old(state)@;
            let after = final(state)@;
            &&& bytes is None <==> before.buffer.len() == 0
            &&& bytes matches Some(bytes) ==> buffer::bytes_contents(bytes) == before.buffer
            &&& after.buffer.len() == 0
            &&& after.queue == before.queue
            &&& after.queue_size == before.queue_size
            &&& after.buffer_size == before.buffer_size
            &&& after.encoder == before.encoder
        }),
{
    if let Some(bytes) = bytes {
        assert(buffer::bytes_contents(bytes) == old(state)@.buffer);
    }
}

/// `process` asks the encoder for each queued message, oldest first, and appends the
/// answers to the buffer: the announced length and the bytes of each. With `Ok`, every
/// queued message was answered and its bytes are there, and none is queued any more. With
/// `Err`, the encoder refused the first message that was not answered, which alone is lost;
/// those behind it stay queued.
pub proof fn process_encodes_every_message<Out, Encoder: SansEncoder<Out>>(
    state: &mut ConnectionWriteState<Out, Encoder>,
    result: Result<(), Encoder::Error>,
)
    requires
        call_ensures(ConnectionWriteState::<Out, Encoder>::process, (state,), result),
    ensures
        ({
            let before = old(state)@;
            let after = final(state)@;
            &&& exists|answers: Seq<(Vec<u8>, u64)>|
                {
                    &&& #[trigger] layout::may_be_answers(before.encoder, before.queue, answers)
                    &&& match result {
                        Ok(()) => {
                            &&& answers.len() == before.queue.len()
                            &&& after.queue.len() == 0
                            &&& after.buffer == before.buffer + layout::laid_out(
                                layout::parts_of(answers),
                            )
                        },
                        Err(error) => {
                            &&& answers.len() < before.queue.len()
                            &&& call_ensures(
                                Encoder::encode,
                                (&before.encoder, &before.queue[answers.len() as int]),
                                Err(error),
                            )
                            &&& before.queue == before.queue.take(answers.len() as int + 1)
                                + after.queue
                            &&& after.buffer == before.buffer + layout::laid_out(
                                layout::parts_of(answers),
                            )
                        },
                    }
                }
            &&& after.queue_size == before.queue_size
            &&& after.buffer_size == before.buffer_size
            &&& after.encoder == before.encoder
        }),
{
    let before = old(state)@;
    let after = final(state)@;
    let answers = choose|answers: Seq<(Vec<u8>, u64)>| #[trigger]
        before.encodes_to(after, answers, Some(result));
    layout::lemma_answers(before, answers);
    if result matches Err(error) {
        assert(before.queue == before.queue.take(answers.len() as int + 1) + after.queue);
    }
    assert(layout::may_be_answers(before.encoder, before.queue, answers));
}

/// `try_process` asks the encoder for each queued message, oldest first, and appends the
/// answers to the buffer: the announced length and the bytes of each. With `Ok`, every
/// queued message was answered and its bytes are there, and none is queued any more. With
/// `Err`, the encoder refused the first message that was not answered, which alone is lost;
/// those behind it stay queued. With
/// `None`, the bytes of the last answered message would exceed what can be allocated, and
/// that message is the only one lost.
pub proof fn try_process_encodes_every_message<Out, Encoder: SansEncoder<Out>>(
    state: &mut ConnectionWriteState<Out, Encoder>,
    result: Option<Result<(), Encoder::Error>>,
)
    requires
        call_ensures(ConnectionWriteState::<Out, Encoder>::try_process, (state,), result),
    ensures
        ({
            let before = old(state)@;
            let after = final(state)@;
            &&& exists|answers: Seq<(Vec<u8>, u64)>|
                {
                    &&& #[trigger] layout::may_be_answers(before.encoder, before.queue, answers)
                    &&& match result {
                        Some(Ok(())) => {
                            &&& answers.len() == before.queue.len()
                            &&& after.queue.len() == 0
                            &&& after.buffer == before.buffer + layout::laid_out(
                                layout::parts_of(answers),
                            )
                        },
                        Some(Err(error)) => {
                            &&& answers.len() < before.queue.len()
                            &&& call_ensures(
                                Encoder::encode,
                                (&before.encoder, &before.queue[answers.len() as int]),
                                Err(error),
                            )
                            &&& before.queue == before.queue.take(answers.len() as int + 1)
                                + after.queue
                            &&& after.buffer == before.buffer + layout::laid_out(
                                layout::parts_of(answers),
                            )
                        },
                        None => {
                            &&& answers.len() > 0
                            &&& before.buffer.len() + layout::laid_out(
                                layout::parts_of(answers),
                            ).len() > isize::MAX
                            &&& after.queue == before.queue.skip(answers.len() as int)
                            &&& after.buffer == before.buffer + layout::laid_out(
                                layout::parts_of(answers.drop_last()),
                            )
                        },
                    }
                }
            &&& after.queue_size == before.queue_size
            &&& after.buffer_size == before.buffer_size
            &&& after.encoder == before.encoder
        }),
{
    let before = old(state)@;
    let after = final(state)@;
    let answers = choose|answers: Seq<(Vec<u8>, u64)>| #[trigger]
        before.encodes_to(after, answers, result);
    layout::lemma_answers(before, answers);
    if result matches Some(Err(error)) {
        assert(before.queue == before.queue.take(answers.len() as int + 1) + after.queue);
    }
    assert(layout::may_be_answers(before.encoder, before.queue, answers));
}

} // verus!
