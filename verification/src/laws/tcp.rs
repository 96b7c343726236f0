//! What holds of a connection over a reader and a writer.

use crate::buffer;
use crate::connection_state::ReadView;
use crate::encoder;
use crate::encoder::{SansDecoder, SansEncoder};
use crate::frame;
use crate::laws::connection;
use crate::message::Message;
use crate::tcp::{ReadState, ReadStep, SendError, TokioConnectionView, WriteStep};
use vstd::prelude::*;

verus! {

/// A closed connection stays closed: no message is sent any more, a flush is answered
/// with an error, and closing again asks for nothing new.
pub proof fn closed_stays_closed<
    In,
    Out,
    Encoder: SansEncoder<Out>,
    Decoder,
    Reader,
    Writer,
>(
    before: TokioConnectionView<In, Out, Encoder, Decoder, Reader, Writer>,
    after: TokioConnectionView<In, Out, Encoder, Decoder, Reader, Writer>,
    item: Message<Out>,
    answer: Result<(Vec<u8>, u64), Encoder::Error>,
    result: Result<(), SendError>,
    step: WriteStep<Writer>,
)
    requires
        before.write_state is Closing,
    ensures
        before.sends_to(item, answer, after, result) ==> after == before && result == Err::<
            (),
            SendError,
        >(SendError::ConnectionReset),
        before.flushes_to(after, step) ==> after == before && step is Reset,
        before.closes_to(after, step) ==> after == before && step is AwaitClose,
{
}

/// A flush that is done leaves nothing to be written, and a writer is shut down only
/// where nothing is left to be written.
pub proof fn nothing_is_left_unwritten<
    In,
    Out,
    Encoder: SansEncoder<Out>,
    Decoder,
    Reader,
    Writer,
>(
    before: TokioConnectionView<In, Out, Encoder, Decoder, Reader, Writer>,
    after: TokioConnectionView<In, Out, Encoder, Decoder, Reader, Writer>,
    step: WriteStep<Writer>,
)
    ensures
        before.flushes_to(after, step) && step is Done ==> after.state.write.buffer.len() == 0
            && after.write_state is Idle,
        before.closes_to(after, step) && step is Shutdown ==> after.state.write.buffer.len() == 0
            && after.write_state is Closing,
{
}

/// The bytes that wait to be written and those that a step hands out to be written.
pub open spec fn unwritten<In, Out, Encoder, Decoder, Reader, Writer>(
    connection: TokioConnectionView<In, Out, Encoder, Decoder, Reader, Writer>,
    step: WriteStep<Writer>,
) -> Seq<u8> {
    match step {
        WriteStep::Write { writer, bytes } => buffer::bytes_contents(bytes)
            + connection.state.write.buffer,
        _ => connection.state.write.buffer,
    }
}

/// Flushing and closing lose no byte and write none twice.
pub proof fn flushing_keeps_all_bytes<
    In,
    Out,
    Encoder: SansEncoder<Out>,
    Decoder,
    Reader,
    Writer,
>(
    before: TokioConnectionView<In, Out, Encoder, Decoder, Reader, Writer>,
    after: TokioConnectionView<In, Out, Encoder, Decoder, Reader, Writer>,
    step: WriteStep<Writer>,
)
    requires
        before.flushes_to(after, step) || before.closes_to(after, step),
    ensures
        unwritten(after, step) == before.state.write.buffer,
{
    assert(unwritten(after, step) == before.state.write.buffer);
}

/// The bytes that were read and are not fed yet.
pub open spec fn unfed<Reader>(read_state: ReadState<Reader>) -> Seq<u8> {
    match read_state {
        ReadState::Idle { reader, buf, read } => buf@.take(read as int),
        ReadState::Reading => Seq::empty(),
    }
}

/// Whatever the next step is, no received byte is lost and none is fed twice: the bytes
/// that are held behind what was decoded, and those that wait to be fed, stay the same.
pub proof fn reading_keeps_all_bytes<
    In,
    Out,
    Encoder,
    Decoder: SansDecoder<In>,
    Reader,
    Writer,
>(
    before: TokioConnectionView<In, Out, Encoder, Decoder, Reader, Writer>,
    mid: ReadView<In, Decoder>,
    after: TokioConnectionView<In, Out, Encoder, Decoder, Reader, Writer>,
    step: ReadStep<In, Reader>,
)
    requires
        before.wf(),
        before.reads_to(mid, after, step),
    ensures
        after.state.read.buffer + unfed(after.read_state) == mid.buffer + unfed(before.read_state),
{
    match step {
        ReadStep::Wait => {
            if let ReadState::Idle { reader, buf, read } = before.read_state {
                let bytes = buf@.take(read as int);
                assert(bytes.take(bytes.len() as int) == bytes);
                assert(bytes.take(0) == Seq::<u8>::empty());
                assert(crate::tcp::shifted(buf@, 0) =~= buf@);
                assert(unfed(after.read_state) =~= if mid.takes(bytes) == 0 {
                    bytes
                } else {
                    Seq::empty()
                });
            }
        },
        ReadStep::Read { reader, buf } => {
            if let ReadState::Idle { reader, buf, read } = before.read_state {
                let bytes = buf@.take(read as int);
                assert(bytes.take(bytes.len() as int) == bytes);
            }
        },
        _ => {},
    }
    assert(after.state.read.buffer + unfed(after.read_state) == mid.buffer + unfed(
        before.read_state,
    ));
}

/// How many of the bytes that wait to be fed a step has fed.
pub open spec fn newly_fed<In, Decoder, Reader>(
    read_state: ReadState<Reader>,
    mid: ReadView<In, Decoder>,
    step: ReadStep<In, Reader>,
) -> Seq<u8> {
    match step {
        ReadStep::Wait => unfed(read_state).take(mid.takes(unfed(read_state)) as int),
        ReadStep::Read { reader, buf } => unfed(read_state).take(
            mid.takes(unfed(read_state)) as int,
        ),
        _ => Seq::empty(),
    }
}

/// The message that a step hands out.
pub open spec fn newly_received<In, Reader>(step: ReadStep<In, Reader>) -> Seq<Message<In>> {
    match step {
        ReadStep::Yield(item) => seq![item],
        _ => Seq::empty(),
    }
}

/// Whatever the next step is, a connection keeps account of every byte that it was given
/// and of every message that it has handed out.
pub proof fn connection_keeps_receiving<
    In,
    Out,
    Encoder,
    Decoder: SansDecoder<In>,
    Reader,
    Writer,
>(
    before: TokioConnectionView<In, Out, Encoder, Decoder, Reader, Writer>,
    mid: ReadView<In, Decoder>,
    after: TokioConnectionView<In, Out, Encoder, Decoder, Reader, Writer>,
    step: ReadStep<In, Reader>,
    fed: Seq<u8>,
    handed_out: Seq<Message<In>>,
)
    requires
        before.wf(),
        before.reads_to(mid, after, step),
        connection::has_received(fed, handed_out, before.state.read),
    ensures
        connection::has_received(
            fed + newly_fed(before.read_state, mid, step),
            handed_out + newly_received(step),
            after.state.read,
        ),
{
    let waiting = unfed(before.read_state);
    assert(fed + Seq::<u8>::empty() == fed);
    assert(handed_out + Seq::<Message<In>>::empty() == handed_out);
    match step {
        ReadStep::Yield(item) => {
            connection::receiving_continues(fed, handed_out, before.state.read, mid, waiting, item);
            connection::receiving_continues(
                fed,
                handed_out,
                mid,
                after.state.read,
                waiting,
                item,
            );
            assert(handed_out + seq![item] == handed_out.push(item));
        },
        _ => {
            let item = arbitrary::<Message<In>>();
            connection::receiving_continues(fed, handed_out, before.state.read, mid, waiting, item);
            connection::receiving_continues(fed, handed_out, mid, mid, waiting, item);
            assert(mid.buffer + waiting.take(0) == mid.buffer);
            if step is Wait || step is Read {
                assert(after.state.read =~= mid.after_taking(waiting));
            }
        },
    }
}

/// The bytes that a step hands out to be written.
pub open spec fn newly_written<W>(step: WriteStep<W>) -> Seq<u8> {
    match step {
        WriteStep::Write { writer, bytes } => buffer::bytes_contents(bytes),
        _ => Seq::empty(),
    }
}

/// The message that was sent, where it was.
pub open spec fn newly_sent<Out>(
    item: Message<Out>,
    result: Result<(), SendError>,
) -> Seq<Message<Out>> {
    match result {
        Ok(()) => seq![item],
        Err(_) => Seq::empty(),
    }
}

/// The answer of the encoder to a message that was sent, where it was.
pub open spec fn newly_encoded<Error>(
    answer: Result<(Vec<u8>, u64), Error>,
    result: Result<(), SendError>,
) -> Seq<(Vec<u8>, u64)> {
    match result {
        Ok(()) => seq![answer->Ok_0],
        Err(_) => Seq::empty(),
    }
}

/// Whatever the next step is, a connection keeps account of every message that it has
/// sent and of every byte that it has handed out to be written. A message that was not
/// sent adds nothing.
pub proof fn connection_keeps_writing<
    In,
    Out,
    Encoder: SansEncoder<Out>,
    Decoder,
    Reader,
    Writer,
>(
    before: TokioConnectionView<In, Out, Encoder, Decoder, Reader, Writer>,
    after: TokioConnectionView<In, Out, Encoder, Decoder, Reader, Writer>,
    item: Message<Out>,
    answer: Result<(Vec<u8>, u64), Encoder::Error>,
    result: Result<(), SendError>,
    step: WriteStep<Writer>,
    messages: Seq<Message<Out>>,
    encoded: Seq<(Vec<u8>, u64)>,
    handed_out: Seq<u8>,
)
    requires
        connection::has_written(messages, encoded, handed_out, before.state.write),
    ensures
        before.sends_to(item, answer, after, result) ==> connection::has_written(
            messages + newly_sent(item, result),
            encoded + newly_encoded(answer, result),
            handed_out,
            after.state.write,
        ),
        before.flushes_to(after, step) || before.closes_to(after, step)
            ==> connection::has_written(
            messages,
            encoded,
            handed_out + newly_written(step),
            after.state.write,
        ),
{
    if before.flushes_to(after, step) || before.closes_to(after, step) {
        flushing_keeps_all_bytes(before, after, step);
        assert(handed_out + newly_written(step) + after.state.write.buffer == handed_out
            + before.state.write.buffer);
    }
    if before.sends_to(item, answer, after, result) {
        let more = newly_encoded(answer, result);
        connection::frames_of_both(encoded, more);
        reveal_with_fuel(frame::frames, 2);
        if result is Ok {
            assert(more.drop_last() == Seq::<(Vec<u8>, u64)>::empty());
            assert(frame::frames(more) == frame::frame(more[0].0@, more[0].1));
        }
        assert(handed_out + after.state.write.buffer == frame::frames(encoded + more));
        let sent = messages + newly_sent(item, result);
        assert forall|i: int| 0 <= i < (encoded + more).len() implies encoder::may_encode(
            after.state.write.encoder,
            sent[i],
            Ok(#[trigger] (encoded + more)[i]),
        ) by {
            if i < encoded.len() {
                assert(encoder::may_encode(before.state.write.encoder, messages[i], Ok(encoded[i])));
            }
        }
    }
}

} // verus!
