//! What holds of the two halves of a connection, and of two peers.

use crate::buffer;
use crate::connection_state::{
    ReadConnectionConfig, ReadView, WriteConnectionConfig, WriteView,
};
use crate::encoder;
use crate::encoder::{SansDecoder, SansEncoder};
use crate::frame;
use crate::message::Message;
use bytes::Bytes;
use vstd::prelude::*;

verus! {

/// Every encoded message is announced with its true length.
pub open spec fn truly_announced(encoded: Seq<(Vec<u8>, u64)>) -> bool {
    forall|i: int| 0 <= i < encoded.len() ==> (#[trigger] encoded[i]).1 == encoded[i].0@.len()
}

/// The frames of messages encoded one after the other are the frames of all of them.
pub proof fn frames_of_both(first: Seq<(Vec<u8>, u64)>, second: Seq<(Vec<u8>, u64)>)
    ensures
        frame::frames(first + second) == frame::frames(first) + frame::frames(second),
    decreases second.len(),
{
    if second.len() == 0 {
        assert(first + second == first);
    } else {
        assert((first + second).drop_last() == first + second.drop_last());
        assert((first + second).last() == second.last());
        frames_of_both(first, second.drop_last());
        assert(frame::frames(first + second) == frame::frames(first) + frame::frames(second));
    }
}

/// The announced length alone decides what a frame carries: as many bytes are taken as
/// are announced, be they fewer or more than the frame was made of, and the others are
/// left. The frame is there as soon as so many bytes are.
pub proof fn announced_length_decides(bytes: Seq<u8>, len: u64, tail: Seq<u8>)
    requires
        len <= usize::MAX,
    ensures
        ({
            let whole = frame::frame(bytes, len) + tail;
            &&& frame::has_header(whole)
            &&& frame::payload_len(whole) == len
            &&& frame::has_frame(whole) <==> len <= (bytes + tail).len()
            &&& frame::has_frame(whole) ==> frame::payload(whole) == (bytes + tail).take(len as int)
            &&& frame::has_frame(whole) ==> frame::after_frame(whole) == (bytes + tail).skip(
                len as int,
            )
        }),
{
    vstd::bytes::lemma_auto_spec_u64_to_from_le_bytes();
    let header = vstd::bytes::spec_u64_to_le_bytes(len);
    let whole = frame::frame(bytes, len) + tail;
    assert(whole == header + (bytes + tail));
    assert(whole.take(frame::HEADER_LEN as int) == header);
    if frame::has_frame(whole) {
        assert(frame::payload(whole) == (bytes + tail).take(len as int));
        assert(frame::after_frame(whole) == (bytes + tail).skip(len as int));
    }
}

/// A frame that announces its true length reads back as the bytes that it was made of,
/// and what comes behind it is left.
pub proof fn frame_reads_back(encoded: (Vec<u8>, u64), tail: Seq<u8>)
    requires
        encoded.1 == encoded.0@.len(),
    ensures
        frame::has_frame(frame::frame(encoded.0@, encoded.1) + tail),
        frame::payload(frame::frame(encoded.0@, encoded.1) + tail) == encoded.0@,
        frame::after_frame(frame::frame(encoded.0@, encoded.1) + tail) == tail,
{
    assert(encoded.0.len() == encoded.0@.len());
    announced_length_decides(encoded.0@, encoded.1, tail);
    assert((encoded.0@ + tail).take(encoded.1 as int) == encoded.0@);
    assert((encoded.0@ + tail).skip(encoded.1 as int) == tail);
}

/// Frames that announce their true lengths read back one by one, in order, as the bytes
/// that they were made of, and what comes behind them is left.
pub proof fn frames_read_back(encoded: Seq<(Vec<u8>, u64)>, tail: Seq<u8>, i: nat)
    requires
        truly_announced(encoded),
        i <= encoded.len(),
    ensures
        frame::after_frames(frame::frames(encoded) + tail, i) == frame::frames(
            encoded.skip(i as int),
        ) + tail,
        i < encoded.len() ==> frame::has_frame(
            frame::after_frames(frame::frames(encoded) + tail, i),
        ) && frame::payload(frame::after_frames(frame::frames(encoded) + tail, i))
            == encoded[i as int].0@,
    decreases i,
{
    if i == 0 {
        assert(encoded.skip(0) == encoded);
    } else {
        frames_read_back(encoded, tail, (i - 1) as nat);
        lemma_first_frame(encoded, tail, (i - 1) as nat);
    }
    if i < encoded.len() {
        lemma_first_frame(encoded, tail, i);
    }
}

/// The frames from number `i` on are frame `i` and those behind it.
proof fn lemma_frames_split(encoded: Seq<(Vec<u8>, u64)>, tail: Seq<u8>, i: int)
    requires
        0 <= i < encoded.len(),
    ensures
        frame::frames(encoded.skip(i)) + tail == frame::frame(encoded[i].0@, encoded[i].1) + (
        frame::frames(encoded.skip(i + 1)) + tail),
{
    let first = seq![encoded[i]];
    let rest = encoded.skip(i + 1);
    assert(encoded.skip(i) == first + rest);
    frames_of_both(first, rest);
    assert(first.drop_last() == Seq::<(Vec<u8>, u64)>::empty());
    reveal_with_fuel(frame::frames, 2);
    let head = frame::frame(encoded[i].0@, encoded[i].1);
    assert(frame::frames(first) == head);
    assert(frame::frames(encoded.skip(i)) + tail == head + (frame::frames(rest) + tail));
}

/// The frames from number `i` on start with frame `i`.
proof fn lemma_first_frame(encoded: Seq<(Vec<u8>, u64)>, tail: Seq<u8>, i: nat)
    requires
        truly_announced(encoded),
        i < encoded.len(),
    ensures
        frame::has_frame(frame::frames(encoded.skip(i as int)) + tail),
        frame::payload(frame::frames(encoded.skip(i as int)) + tail) == encoded[i as int].0@,
        frame::after_frame(frame::frames(encoded.skip(i as int)) + tail) == frame::frames(
            encoded.skip((i + 1) as int),
        ) + tail,
{
    lemma_frames_split(encoded, tail, i as int);
    frame_reads_back(encoded[i as int], frame::frames(encoded.skip((i + 1) as int)) + tail);
}

/// `encoded` may be the answers of `encoder` to `items`, and `decoder` reads each of
/// them back as its item and as nothing else.
pub open spec fn reads_back<T, Encoder: SansEncoder<T>, Decoder: SansDecoder<T>>(
    encoder: Encoder,
    decoder: Decoder,
    items: Seq<Message<T>>,
    encoded: Seq<(Vec<u8>, u64)>,
) -> bool {
    &&& items.len() == encoded.len()
    &&& forall|i: int|
        #![trigger encoded[i]]
        0 <= i < items.len() ==> {
            &&& encoder::may_encode(encoder, items[i], Ok(encoded[i]))
            &&& only_decodes(decoder, encoded[i].0@, items[i])
        }
}

/// `decoder` reads `bytes` as `item` and as nothing else.
pub open spec fn only_decodes<T, Decoder: SansDecoder<T>>(
    decoder: Decoder,
    bytes: Seq<u8>,
    item: Message<T>,
) -> bool {
    forall|result: Result<Message<T>, Decoder::Error>| #[trigger]
        encoder::may_decode(decoder, bytes, result) ==> result == Ok::<
            Message<T>,
            Decoder::Error,
        >(item)
}

/// What a read half decodes from the frames of sent messages is those messages, none
/// lost and none twice, in the order in which they were sent. It never fails on them.
/// Once it is settled, all of them are decoded, or its queue is full. An incomplete
/// frame behind them stays in the buffer.
pub proof fn sent_messages_are_received<T, Encoder: SansEncoder<T>, Decoder: SansDecoder<T>>(
    encoder: Encoder,
    items: Seq<Message<T>>,
    encoded: Seq<(Vec<u8>, u64)>,
    tail: Seq<u8>,
    before: ReadView<T, Decoder>,
    after: ReadView<T, Decoder>,
)
    requires
        reads_back(encoder, before.decoder, items, encoded),
        truly_announced(encoded),
        !frame::has_frame(tail),
        before.buffer == frame::frames(encoded) + tail,
        before.decodes_to(after),
    ensures
        ({
            let count = after.queue.len() - before.queue.len();
            &&& count <= items.len()
            &&& after.queue == before.queue + items.take(count)
            &&& after.buffer == frame::frames(encoded.skip(count)) + tail
            &&& after.is_settled() ==> count == items.len() || !after.has_room()
            &&& forall|error: Decoder::Error| !after.fails_with(error)
        }),
{
    let count = (after.queue.len() - before.queue.len()) as nat;
    if count > items.len() {
        assert(before.decodes_frame(items.len(), after));
        frames_read_back(encoded, tail, items.len());
        assert(frame::frames(encoded.skip(items.len() as int)) + tail == tail);
        assert(false);
    }
    frames_read_back(encoded, tail, count);
    assert forall|i: int| 0 <= i < after.queue.len() implies after.queue[i] == (before.queue
        + items.take(count as int))[i] by {
        if i >= before.queue.len() {
            let j = (i - before.queue.len()) as nat;
            assert(before.decodes_frame(j, after));
            frames_read_back(encoded, tail, j);
            assert(only_decodes(before.decoder, encoded[j as int].0@, items[j as int]));
        }
    }
    assert(after.queue == before.queue + items.take(count as int));
    assert forall|error: Decoder::Error| !after.fails_with(error) by {
        if after.fails_with(error) {
            if count < items.len() {
                assert(only_decodes(before.decoder, encoded[count as int].0@, items[count as int]));
            } else {
                assert(frame::frames(encoded.skip(count as int)) + tail == tail);
            }
        }
    }
}

/// The messages that a write half encodes reach a read half that is handed the encoded
/// bytes, all of them and in order, where the read half decodes what the write half
/// encodes and has room for them.
pub proof fn written_messages_are_read<T, Encoder: SansEncoder<T>, Decoder: SansDecoder<T>>(
    writer: WriteView<T, Encoder>,
    written: WriteView<T, Encoder>,
    encoded: Seq<(Vec<u8>, u64)>,
    reader: ReadView<T, Decoder>,
    read: ReadView<T, Decoder>,
)
    requires
        writer.buffer.len() == 0,
        writer.encodes_to(written, encoded, Some(Ok(()))),
        truly_announced(encoded),
        reads_back(writer.encoder, reader.decoder, writer.queue, encoded),
        reader.buffer.len() == 0,
        reader.queue.len() + writer.queue.len() <= reader.queue_size,
        reader.after_taking(written.buffer).decodes_to(read),
        read.is_settled() || exists|error: Decoder::Error| read.fails_with(error),
        0 < reader.buffer_size,
    ensures
        read.queue == reader.queue + writer.queue,
        read.buffer.len() == 0,
{
    let tail = Seq::<u8>::empty();
    let fed = reader.after_taking(written.buffer);
    assert(written.buffer.take(written.buffer.len() as int) == written.buffer);
    assert(fed.buffer == frame::frames(encoded) + tail);
    sent_messages_are_received(writer.encoder, writer.queue, encoded, tail, fed, read);
    let count = read.queue.len() - reader.queue.len();
    assert(count == writer.queue.len());
    assert(writer.queue.take(count) == writer.queue);
    assert(frame::frames(encoded.skip(count)) + tail == tail);
}

/// Bytes that arrive later leave what was decoded before as it is.
pub proof fn later_bytes_change_nothing<In, Decoder: SansDecoder<In>>(
    before: ReadView<In, Decoder>,
    after: ReadView<In, Decoder>,
    more: Seq<u8>,
)
    requires
        before.decodes_to(after),
    ensures
        (ReadView { buffer: before.buffer + more, ..before }).decodes_to(
            (ReadView { buffer: after.buffer + more, ..after }),
        ),
{
    let long_before = ReadView { buffer: before.buffer + more, ..before };
    let long_after = ReadView { buffer: after.buffer + more, ..after };
    let count = (after.queue.len() - before.queue.len()) as nat;
    assert forall|i: nat| i < count implies #[trigger] long_before.decodes_frame(
        i,
        long_after,
    ) by {
        lemma_frames_with_more(before, after, more, i);
        lemma_frame_with_more(frame::after_frames(before.buffer, i), more);
        assert(before.decodes_frame(i, after));
    }
    lemma_frames_with_more(before, after, more, count);
}

/// A whole frame stays what it is with more bytes behind it.
proof fn lemma_frame_with_more(buffer: Seq<u8>, more: Seq<u8>)
    requires
        frame::has_frame(buffer),
    ensures
        frame::has_frame(buffer + more),
        frame::payload(buffer + more) == frame::payload(buffer),
        frame::after_frame(buffer + more) == frame::after_frame(buffer) + more,
{
    assert((buffer + more).take(frame::HEADER_LEN as int) == buffer.take(frame::HEADER_LEN as int));
    assert(frame::payload(buffer + more) == frame::payload(buffer));
    assert(frame::after_frame(buffer + more) == frame::after_frame(buffer) + more);
}

proof fn lemma_frames_with_more<In, Decoder: SansDecoder<In>>(
    before: ReadView<In, Decoder>,
    after: ReadView<In, Decoder>,
    more: Seq<u8>,
    i: nat,
)
    requires
        before.decodes_to(after),
        i <= after.queue.len() - before.queue.len(),
    ensures
        frame::after_frames(before.buffer + more, i) == frame::after_frames(before.buffer, i)
            + more,
        i < after.queue.len() - before.queue.len() ==> frame::has_frame(
            frame::after_frames(before.buffer, i),
        ),
    decreases i,
{
    if i > 0 {
        lemma_frames_with_more(before, after, more, (i - 1) as nat);
        lemma_frame_with_more(frame::after_frames(before.buffer, (i - 1) as nat), more);
    }
    if i < after.queue.len() - before.queue.len() {
        assert(before.decodes_frame(i, after));
    }
}

/// Decoding in two goes is decoding in one.
pub proof fn decoding_continues<In, Decoder: SansDecoder<In>>(
    first: ReadView<In, Decoder>,
    second: ReadView<In, Decoder>,
    third: ReadView<In, Decoder>,
)
    requires
        first.decodes_to(second),
        second.decodes_to(third),
    ensures
        first.decodes_to(third),
{
    let mid = (second.queue.len() - first.queue.len()) as nat;
    let count = (third.queue.len() - first.queue.len()) as nat;
    lemma_after_frames_add(first.buffer, mid, (count - mid) as nat);
    assert forall|i: nat| i < count implies #[trigger] first.decodes_frame(i, third) by {
        if i < mid {
            assert(first.decodes_frame(i, second));
        } else {
            assert(second.decodes_frame((i - mid) as nat, third));
            lemma_after_frames_add(first.buffer, mid, (i - mid) as nat);
        }
    }
}

proof fn lemma_after_frames_add(buffer: Seq<u8>, n: nat, m: nat)
    ensures
        frame::after_frames(buffer, n + m) == frame::after_frames(
            frame::after_frames(buffer, n),
            m,
        ),
    decreases m,
{
    if m > 0 {
        lemma_after_frames_add(buffer, n, (m - 1) as nat);
    }
}

/// Where nothing more can be decoded, decoding again changes nothing.
pub proof fn settled_stays<In, Decoder: SansDecoder<In>>(
    before: ReadView<In, Decoder>,
    after: ReadView<In, Decoder>,
)
    requires
        before.is_settled(),
        before.decodes_to(after),
    ensures
        after == before,
{
    if after.queue.len() > before.queue.len() {
        assert(before.decodes_frame(0, after));
    }
    assert(after.queue == before.queue);
}

/// A settled read half whose queue has room takes further bytes, as long as its buffer
/// has the size of a whole frame: of eight bytes while the length is incomplete, of the
/// announced length and those eight bytes from then on.
pub proof fn fitting_frames_are_awaited<In, Decoder: SansDecoder<In>>(
    state: ReadView<In, Decoder>,
    bytes: Seq<u8>,
)
    requires
        state.is_settled(),
        state.has_room(),
        frame::HEADER_LEN <= state.buffer_size,
        frame::has_header(state.buffer) ==> frame::HEADER_LEN + frame::payload_len(state.buffer)
            <= state.buffer_size,
    ensures
        state.takes(bytes) == bytes.len(),
{
}

/// Bytes leave the write half in the order in which they were encoded, and none is lost.
pub proof fn consumed_in_order<Out, Encoder>(
    before: WriteView<Out, Encoder>,
    after: WriteView<Out, Encoder>,
    len: nat,
    bytes: Bytes,
)
    requires
        before.consumes_to(after, len, Some(bytes)),
    ensures
        buffer::bytes_contents(bytes) + after.buffer == before.buffer,
        buffer::bytes_contents(bytes).len() <= len,
{
    assert(buffer::bytes_contents(bytes) + after.buffer == before.buffer);
}

/// A message is queued where there is space for one, and refused otherwise. Queuing it
/// takes up one place.
pub proof fn space_is_for_messages<Out, Encoder>(
    before: WriteView<Out, Encoder>,
    after: WriteView<Out, Encoder>,
    item: Message<Out>,
    refused: Option<Message<Out>>,
)
    requires
        before.wf(),
        before.queues_to(after, item, refused),
    ensures
        refused is None <==> before.queue_size - before.queue.len() > 0,
        refused is None ==> after.queue_size - after.queue.len() == before.queue_size
            - before.queue.len() - 1,
{
}

/// The read half `state` has been fed the bytes `fed`, in whatever pieces, and has handed
/// out the messages `handed_out`: these and the queued ones are what the frames at the
/// front of `fed` decode to, one message for each frame, and the buffer holds the rest.
pub open spec fn has_received<In, Decoder: SansDecoder<In>>(
    fed: Seq<u8>,
    handed_out: Seq<Message<In>>,
    state: ReadView<In, Decoder>,
) -> bool {
    let messages = handed_out + state.queue;
    &&& state.buffer == frame::after_frames(fed, messages.len())
    &&& forall|i: nat| i < messages.len() ==> #[trigger] decodes_frame_of(fed, i, messages, state)
}

/// Frame number `i` of `fed` is there and may be read as message number `i`.
pub open spec fn decodes_frame_of<In, Decoder: SansDecoder<In>>(
    fed: Seq<u8>,
    i: nat,
    messages: Seq<Message<In>>,
    state: ReadView<In, Decoder>,
) -> bool {
    let rest = frame::after_frames(fed, i);
    &&& frame::has_frame(rest)
    &&& encoder::may_decode(state.decoder, frame::payload(rest), Ok(messages[i as int]))
}

/// A read half that starts has been fed nothing and has handed out nothing.
pub proof fn receiving_starts<In, Decoder: SansDecoder<In>>(config: ReadConnectionConfig<Decoder>)
    ensures
        has_received(Seq::empty(), Seq::empty(), config.initial::<In>()),
{
}

/// Feeding, decoding and handing out, in any order and any number of times, keep account
/// of every byte and every message.
pub proof fn receiving_continues<In, Decoder: SansDecoder<In>>(
    fed: Seq<u8>,
    handed_out: Seq<Message<In>>,
    before: ReadView<In, Decoder>,
    after: ReadView<In, Decoder>,
    bytes: Seq<u8>,
    item: Message<In>,
)
    requires
        has_received(fed, handed_out, before),
    ensures
        has_received(
            fed + bytes.take(before.takes(bytes) as int),
            handed_out,
            before.after_taking(bytes),
        ),
        before.decodes_to(after) ==> has_received(fed, handed_out, after),
        before.pops_to(after, Some(item)) ==> has_received(fed, handed_out.push(item), after),
{
    let messages = handed_out + before.queue;
    let more = bytes.take(before.takes(bytes) as int);
    let longer = before.after_taking(bytes);
    assert forall|i: nat| i < messages.len() implies #[trigger] decodes_frame_of(
        fed + more,
        i,
        messages,
        longer,
    ) by {
        lemma_received_with_more(fed, handed_out, before, more, i);
        assert(decodes_frame_of(fed, i, messages, before));
        lemma_frame_with_more(frame::after_frames(fed, i), more);
    }
    lemma_received_with_more(fed, handed_out, before, more, messages.len());

    if before.decodes_to(after) {
        let grown = handed_out + after.queue;
        let count = (after.queue.len() - before.queue.len()) as nat;
        lemma_after_frames_add(fed, messages.len(), count);
        assert(grown.len() == messages.len() + count);
        assert forall|i: nat| i < grown.len() implies #[trigger] decodes_frame_of(
            fed,
            i,
            grown,
            after,
        ) by {
            if i < messages.len() {
                assert(decodes_frame_of(fed, i, messages, before));
                assert(grown[i as int] == messages[i as int]);
            } else {
                let j = (i - messages.len()) as nat;
                assert(before.decodes_frame(j, after));
                lemma_after_frames_add(fed, messages.len(), j);
            }
        }
    }
    if before.pops_to(after, Some(item)) {
        assert(handed_out.push(item) + after.queue == messages);
        assert forall|i: nat| i < messages.len() implies #[trigger] decodes_frame_of(
            fed,
            i,
            messages,
            after,
        ) by {
            assert(decodes_frame_of(fed, i, messages, before));
        }
    }
}

proof fn lemma_received_with_more<In, Decoder: SansDecoder<In>>(
    fed: Seq<u8>,
    handed_out: Seq<Message<In>>,
    state: ReadView<In, Decoder>,
    more: Seq<u8>,
    i: nat,
)
    requires
        has_received(fed, handed_out, state),
        i <= handed_out.len() + state.queue.len(),
    ensures
        frame::after_frames(fed + more, i) == frame::after_frames(fed, i) + more,
    decreases i,
{
    if i > 0 {
        let last = (i - 1) as nat;
        lemma_received_with_more(fed, handed_out, state, more, last);
        assert(decodes_frame_of(fed, last, handed_out + state.queue, state));
        lemma_frame_with_more(frame::after_frames(fed, last), more);
    }
}

/// The write half `state` has encoded `messages` as `encoded` and has handed out the
/// bytes `handed_out`: these and the buffered ones are the frames of `encoded`.
pub open spec fn has_written<Out, Encoder: SansEncoder<Out>>(
    messages: Seq<Message<Out>>,
    encoded: Seq<(Vec<u8>, u64)>,
    handed_out: Seq<u8>,
    state: WriteView<Out, Encoder>,
) -> bool {
    &&& handed_out + state.buffer == frame::frames(encoded)
    &&& messages.len() == encoded.len()
    &&& forall|i: int|
        0 <= i < encoded.len() ==> encoder::may_encode(
            state.encoder,
            messages[i],
            Ok(#[trigger] encoded[i]),
        )
}

/// A write half that starts has encoded nothing and has handed out nothing.
pub proof fn writing_starts<Out, Encoder: SansEncoder<Out>>(config: WriteConnectionConfig<Encoder>)
    ensures
        has_written(Seq::empty(), Seq::empty(), Seq::empty(), config.initial::<Out>()),
{
    assert(Seq::<u8>::empty() + Seq::<u8>::empty() == Seq::<u8>::empty());
}

/// Queuing, encoding and handing out, in any order and any number of times, keep account
/// of every message and every byte. Where the encoder refuses a message, those before it
/// are encoded.
pub proof fn writing_continues<Out, Encoder: SansEncoder<Out>>(
    messages: Seq<Message<Out>>,
    encoded: Seq<(Vec<u8>, u64)>,
    handed_out: Seq<u8>,
    before: WriteView<Out, Encoder>,
    after: WriteView<Out, Encoder>,
    item: Message<Out>,
    refused: Option<Message<Out>>,
    more: Seq<(Vec<u8>, u64)>,
    result: Result<(), Encoder::Error>,
    len: nat,
    bytes: Bytes,
)
    requires
        has_written(messages, encoded, handed_out, before),
    ensures
        before.queues_to(after, item, refused) ==> has_written(
            messages,
            encoded,
            handed_out,
            after,
        ),
        before.encodes_to(after, more, Some(result)) ==> has_written(
            messages + before.queue.take(more.len() as int),
            encoded + more,
            handed_out,
            after,
        ),
        before.consumes_to(after, len, Some(bytes)) ==> has_written(
            messages,
            encoded,
            handed_out + buffer::bytes_contents(bytes),
            after,
        ),
{
    if before.encodes_to(after, more, Some(result)) {
        frames_of_both(encoded, more);
        assert(handed_out + after.buffer == frame::frames(encoded + more));
        let taken = before.queue.take(more.len() as int);
        assert forall|i: int| 0 <= i < (encoded + more).len() implies encoder::may_encode(
            after.encoder,
            (messages + taken)[i],
            Ok(#[trigger] (encoded + more)[i]),
        ) by {
            if i < encoded.len() {
                assert(encoder::may_encode(before.encoder, messages[i], Ok(encoded[i])));
            } else {
                let j = i - encoded.len();
                assert(encoder::may_encode(before.encoder, before.queue[j], Ok(more[j])));
            }
        }
    }
    if before.consumes_to(after, len, Some(bytes)) {
        consumed_in_order(before, after, len, bytes);
        assert(handed_out + buffer::bytes_contents(bytes) + after.buffer == handed_out
            + before.buffer);
    }
}

/// `decoder` reads each of `encoded` as its item and as nothing else.
pub open spec fn decodes_each<T, Decoder: SansDecoder<T>>(
    decoder: Decoder,
    items: Seq<Message<T>>,
    encoded: Seq<(Vec<u8>, u64)>,
) -> bool {
    &&& items.len() == encoded.len()
    &&& forall|i: int|
        #![trigger encoded[i]]
        0 <= i < items.len() ==> only_decodes(decoder, encoded[i].0@, items[i])
}

/// Where the first bytes of the frames of `items` and of an incomplete frame `tail` have
/// arrived, in whatever pieces, the messages that are decoded are the first of `items`,
/// and the buffer holds what has arrived of the frames behind them. Decoding never fails.
/// Once all bytes have arrived and nothing more can be decoded, all messages are there
/// and the buffer holds `tail`, unless the queue is full.
pub proof fn arrived_messages_are_decoded<T, Decoder: SansDecoder<T>>(
    items: Seq<Message<T>>,
    encoded: Seq<(Vec<u8>, u64)>,
    tail: Seq<u8>,
    fed: Seq<u8>,
    received: Seq<Message<T>>,
    reader: ReadView<T, Decoder>,
)
    requires
        truly_announced(encoded),
        decodes_each(reader.decoder, items, encoded),
        !frame::has_frame(tail),
        has_received(fed, received, reader),
        fed.is_prefix_of(frame::frames(encoded) + tail),
    ensures
        ({
            let source = frame::frames(encoded) + tail;
            let all = received + reader.queue;
            &&& all.is_prefix_of(items)
            &&& reader.buffer + source.skip(fed.len() as int) == frame::frames(
                encoded.skip(all.len() as int),
            ) + tail
            &&& forall|error: Decoder::Error| !reader.fails_with(error)
            &&& fed == source && reader.is_settled() && reader.has_room() ==> all == items
                && reader.buffer == tail
        }),
{
    let source = frame::frames(encoded) + tail;
    let all = received + reader.queue;
    let missing = source.skip(fed.len() as int);
    assert(fed + missing == source);
    if all.len() > items.len() {
        let n = items.len();
        assert(decodes_frame_of(fed, n, all, reader));
        lemma_received_with_more(fed, received, reader, missing, n);
        frames_read_back(encoded, tail, n);
        assert(frame::frames(encoded.skip(n as int)) + tail == tail);
        lemma_frame_with_more(frame::after_frames(fed, n), missing);
        assert(false);
    }
    assert forall|i: int| 0 <= i < all.len() implies all[i] == items[i] by {
        assert(decodes_frame_of(fed, i as nat, all, reader));
        lemma_received_with_more(fed, received, reader, missing, i as nat);
        lemma_frame_with_more(frame::after_frames(fed, i as nat), missing);
        frames_read_back(encoded, tail, i as nat);
        assert(only_decodes(reader.decoder, encoded[i].0@, items[i]));
    }
    lemma_received_with_more(fed, received, reader, missing, all.len());
    frames_read_back(encoded, tail, all.len());
    assert forall|error: Decoder::Error| !reader.fails_with(error) by {
        if reader.fails_with(error) {
            lemma_frame_with_more(reader.buffer, missing);
            if all.len() < items.len() {
                assert(only_decodes(
                    reader.decoder,
                    encoded[all.len() as int].0@,
                    items[all.len() as int],
                ));
            } else {
                assert(frame::frames(encoded.skip(all.len() as int)) + tail == tail);
            }
        }
    }
    if fed == source && reader.is_settled() && reader.has_room() {
        assert(reader.buffer + missing == reader.buffer);
        assert(all.len() == items.len());
        assert(all == items);
        assert(frame::frames(encoded.skip(all.len() as int)) + tail == tail);
    }
}

/// A buffer of `size` bytes has room for each of the frames, and for an incomplete frame
/// `tail` behind them, which announces no more bytes than any buffer can hold.
pub open spec fn all_fit(encoded: Seq<(Vec<u8>, u64)>, tail: Seq<u8>, size: nat) -> bool {
    &&& forall|i: int|
        0 <= i < encoded.len() ==> frame::HEADER_LEN + (#[trigger] encoded[i]).0@.len() <= size
    &&& tail.len() <= size
    &&& !frame::oversized(tail)
}

/// Where all frames fit the buffer, no announced length is beyond what a buffer can hold,
/// and a read half that has decoded what it can and has room in its queue takes the bytes
/// that are still to come.
pub proof fn fitting_frames_keep_arriving<T, Decoder: SansDecoder<T>>(
    items: Seq<Message<T>>,
    encoded: Seq<(Vec<u8>, u64)>,
    tail: Seq<u8>,
    fed: Seq<u8>,
    received: Seq<Message<T>>,
    reader: ReadView<T, Decoder>,
    bytes: Seq<u8>,
)
    requires
        reader.wf(),
        truly_announced(encoded),
        decodes_each(reader.decoder, items, encoded),
        !frame::has_frame(tail),
        all_fit(encoded, tail, reader.buffer_size),
        has_received(fed, received, reader),
        fed.is_prefix_of(frame::frames(encoded) + tail),
    ensures
        !frame::oversized(reader.buffer),
        reader.is_settled() && reader.has_room() && fed != frame::frames(encoded) + tail
            ==> reader.takes(bytes) == bytes.len(),
{
    let source = frame::frames(encoded) + tail;
    let all = received + reader.queue;
    let n = all.len() as int;
    let missing = source.skip(fed.len() as int);
    arrived_messages_are_decoded(items, encoded, tail, fed, received, reader);
    let rest = frame::frames(encoded.skip(n)) + tail;
    if frame::has_header(reader.buffer) {
        assert((reader.buffer + missing).take(frame::HEADER_LEN as int) == reader.buffer.take(
            frame::HEADER_LEN as int,
        ));
    }
    if fed != source {
        assert(missing.len() > 0) by {
            if missing.len() == 0 {
                assert(fed == source);
            }
        }
    }
    if n < encoded.len() {
        let behind = frame::frames(encoded.skip(n + 1)) + tail;
        lemma_first_frame(encoded, tail, n as nat);
        lemma_frames_split(encoded, tail, n);
        assert(encoded[n].0.len() == encoded[n].0@.len());
        announced_length_decides(encoded[n].0@, encoded[n].1, behind);
        assert(frame::HEADER_LEN + encoded[n].0@.len() <= reader.buffer_size);
    } else {
        assert(rest == tail);
    }
}

/// Whatever pieces the bytes of one peer arrive in at the other, the messages that the
/// other decodes are those that were sent, none lost, none twice and in order, provided
/// that each is announced with its true length and decodes to nothing but itself. Once
/// all bytes have arrived and nothing more can be decoded, all messages are there unless
/// the queue is full.
pub proof fn messages_arrive_in_order<T, Encoder: SansEncoder<T>, Decoder: SansDecoder<T>>(
    messages: Seq<Message<T>>,
    encoded: Seq<(Vec<u8>, u64)>,
    sent: Seq<u8>,
    writer: WriteView<T, Encoder>,
    fed: Seq<u8>,
    received: Seq<Message<T>>,
    reader: ReadView<T, Decoder>,
)
    requires
        has_written(messages, encoded, sent, writer),
        has_received(fed, received, reader),
        fed.is_prefix_of(sent),
        truly_announced(encoded),
        reads_back(writer.encoder, reader.decoder, messages, encoded),
    ensures
        (received + reader.queue).is_prefix_of(messages),
        fed == sent && writer.buffer.len() == 0 && reader.is_settled() && reader.has_room()
            ==> received + reader.queue == messages,
        forall|error: Decoder::Error| !reader.fails_with(error),
{
    let whole = frame::frames(encoded);
    let none = Seq::<u8>::empty();
    assert(whole + none == whole);
    assert(whole == sent + writer.buffer);
    assert forall|i: int| #![trigger encoded[i]] 0 <= i < messages.len() implies only_decodes(
        reader.decoder,
        encoded[i].0@,
        messages[i],
    ) by {}
    arrived_messages_are_decoded(messages, encoded, none, fed, received, reader);
    if fed == sent && writer.buffer.len() == 0 {
        assert(fed == whole);
    }
}

} // verus!
