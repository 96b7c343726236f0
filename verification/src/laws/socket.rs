//! What each call on a connection over a reader and a writer does, in terms of what is
//! held before and after it.

use crate::buffer;
use crate::connection_state::{ConnectionConfig, ReadView};
use crate::encoder::{SansDecoder, SansEncoder};
use crate::frame;
use crate::laws::connection;
use crate::laws::layout;
use crate::message::Message;
use crate::tcp::{
    ReadState, ReadStep, ReadyStep, SendError, TokioSansConnection, WriteState, WriteStep,
};
use vstd::prelude::*;

verus! {

/// A new connection holds its reader and its writer, a buffer of zeros of twice the
/// receive buffer size, the sizes and coders of its configuration, and nothing else.
pub proof fn new_connection_holds_nothing<In, Out, Encoder, Decoder, Reader, Writer>(
    config: ConnectionConfig<Encoder, Decoder>,
    reader: Reader,
    writer: Writer,
    connection: TokioSansConnection<In, Out, Encoder, Decoder, Reader, Writer>,
)
    requires
        call_ensures(
            TokioSansConnection::<In, Out, Encoder, Decoder, Reader, Writer>::new,
            (config, reader, writer),
            connection,
        ),
    ensures
        ({
            let read = connection@.state.read;
            let write = connection@.state.write;
            &&& read.queue.len() == 0
            &&& read.buffer.len() == 0
            &&& read.queue_size == config.read_config.recv_queue_size.spec_value()
            &&& read.buffer_size == config.read_config.recv_buffer_size.spec_value()
            &&& read.decoder == config.read_config.coder
            &&& write.queue.len() == 0
            &&& write.buffer.len() == 0
            &&& write.queue_size == config.write_config.send_queue_size.spec_value()
            &&& write.buffer_size == config.write_config.send_buffer_size.spec_value()
            &&& write.encoder == config.write_config.coder
            &&& connection@.write_state == WriteState::Idle(writer)
            &&& connection@.read_state matches ReadState::Idle { reader: held, buf, read: waiting }
                && held == reader && waiting == 0 && buf@.len() == 2
                * config.read_config.recv_buffer_size.spec_value() && forall|i: int|
                0 <= i < buf@.len() ==> buf@[i] == 0
        }),
{
}

/// `poll_next` first decodes messages from the front of what was received, in order, to
/// the end of the queue, until the queue is full or no whole message is left. Then it
/// yields the oldest message wherever there is one. Only where there is none does it look
/// at the reader:
/// - a read under way is awaited, and only such a one;
/// - where no byte waits to be fed, a read is started with the reader that is held;
/// - bytes that wait are fed, all of them, where fewer than the buffer size are held, and
///   stay where they are otherwise. Then it waits, or starts a read where the whole buffer
///   was fed.
///
/// It fails only on a whole message that the decoder refuses, and gives up only on a length
/// that exceeds the machine. What is to be written stays as it is and plays no part.
pub proof fn poll_next_yields_feeds_or_reads<
    In,
    Out,
    Encoder,
    Decoder: SansDecoder<In>,
    Reader,
    Writer,
>(
    connection: &mut TokioSansConnection<In, Out, Encoder, Decoder, Reader, Writer>,
    step: ReadStep<In, Reader>,
)
    requires
        old(connection)@.read_state matches ReadState::Idle { buf, read, .. } ==> read
            <= buf@.len(),
        call_ensures(
            TokioSansConnection::<In, Out, Encoder, Decoder, Reader, Writer>::poll_next,
            (connection,),
            step,
        ),
    ensures
        ({
            let before = old(connection)@.state.read;
            let after = final(connection)@.state.read;
            let held = old(connection)@.read_state;
            let kept = final(connection)@.read_state;
            &&& exists|decoded: Seq<Message<In>>, rest: Seq<u8>|
                {
                    let queue = before.queue + decoded;
                    &&& #[trigger] layout::is_cut_into(
                        before.decoder,
                        before.buffer,
                        decoded,
                        rest,
                    )
                    &&& decoded.len() > 0 ==> queue.len() <= before.queue_size
                    &&& step is InvalidInput || step is Overflow || queue.len()
                        >= before.queue_size || rest.len() < 8 || (rest.len() < 8
                        + layout::announced(rest) <= usize::MAX)
                    &&& match step {
                        ReadStep::Yield(item) => {
                            &&& seq![item] + after.queue == queue
                            &&& after.buffer == rest
                            &&& kept == held
                        },
                        ReadStep::InvalidInput => {
                            &&& queue.len() < before.queue_size
                            &&& rest.len() >= 8 + layout::announced(rest)
                            &&& exists|error: Decoder::Error|
                                layout::may_read_as(
                                    before.decoder,
                                    rest.subrange(8, 8 + layout::announced(rest)),
                                    Err(error),
                                )
                            &&& after.queue == queue
                            &&& after.buffer == rest
                            &&& kept == held
                        },
                        ReadStep::Wait => {
                            &&& queue.len() == 0
                            &&& after.queue.len() == 0
                            &&& match (held, kept) {
                                (
                                    ReadState::Idle { reader, buf, read },
                                    ReadState::Idle {
                                        reader: kept_reader,
                                        buf: kept_buf,
                                        read: kept_read,
                                    },
                                ) => {
                                    &&& read > 0
                                    &&& kept_reader == reader
                                    &&& if rest.len() < before.buffer_size {
                                        &&& read < buf@.len()
                                        &&& rest.len() + read <= isize::MAX
                                        &&& after.buffer == rest + buf@.take(read as int)
                                        &&& kept_read == 0
                                        &&& kept_buf@ == buf@.skip(read as int) + buf@.skip(
                                            buf@.len() - read,
                                        )
                                    } else {
                                        &&& after.buffer == rest
                                        &&& kept_read == read
                                        &&& kept_buf@ == buf@
                                    }
                                },
                                _ => false,
                            }
                        },
                        ReadStep::Read { reader: handed_reader, buf: handed_buf } => {
                            &&& queue.len() == 0
                            &&& after.queue.len() == 0
                            &&& kept is Reading
                            &&& held matches ReadState::Idle { reader, buf, read } && handed_reader
                                == reader && handed_buf == buf && if read == 0 {
                                after.buffer == rest
                            } else {
                                &&& rest.len() < before.buffer_size
                                &&& read == buf@.len()
                                &&& after.buffer == rest + buf@
                            }
                        },
                        ReadStep::AwaitRead => {
                            &&& queue.len() == 0
                            &&& after.queue.len() == 0
                            &&& after.buffer == rest
                            &&& held is Reading
                            &&& kept is Reading
                        },
                        ReadStep::Overflow => {
                            &&& after.queue == queue
                            &&& after.buffer == rest
                            &&& kept == held
                            &&& {
                                ||| queue.len() < before.queue_size && rest.len() >= 8 && 8
                                    + layout::announced(rest) > usize::MAX
                                ||| {
                                    &&& queue.len() == 0
                                    &&& held matches ReadState::Idle { read, .. } && read > 0
                                        && rest.len() < before.buffer_size && rest.len() + read
                                        > isize::MAX
                                }
                            }
                        },
                    }
                }
            &&& after.queue_size == before.queue_size
            &&& after.buffer_size == before.buffer_size
            &&& after.decoder == before.decoder
            &&& final(connection)@.state.write == old(connection)@.state.write
            &&& final(connection)@.write_state == old(connection)@.write_state
        }),
{
    let whole = old(connection)@;
    let before = whole.state.read;
    let after = final(connection)@.state.read;
    let mid = choose|mid: ReadView<In, Decoder>| #[trigger]
        whole.reads_to(mid, final(connection)@, step);
    let decoded = mid.queue.skip(before.queue.len() as int);
    layout::lemma_decoding_cuts(before, mid);
    assert(before.queue + decoded == mid.queue);
    match step {
        ReadStep::Yield(item) => {
            assert(seq![item] + after.queue == mid.queue);
        },
        ReadStep::InvalidInput => {
            let error = choose|error: Decoder::Error| mid.fails_with(error);
            assert(layout::may_read_as(
                before.decoder,
                mid.buffer.subrange(8, 8 + layout::announced(mid.buffer)),
                Err(error),
            ));
        },
        ReadStep::Wait => {
            if let ReadState::Idle { reader, buf, read } = whole.read_state {
                let bytes = buf@.take(read as int);
                assert(bytes.take(bytes.len() as int) == bytes);
                assert(mid.buffer + bytes.take(0) == mid.buffer);
                assert(buf@.skip(0) + buf@.skip(buf@.len() as int) == buf@);
            }
        },
        ReadStep::Read { reader, buf } => {
            if let ReadState::Idle { reader, buf, read } = whole.read_state {
                let bytes = buf@.take(read as int);
                assert(bytes.take(bytes.len() as int) == bytes);
                if read != 0 {
                    assert(bytes == buf@);
                }
            }
        },
        _ => {},
    }
    assert(layout::is_cut_into(before.decoder, before.buffer, decoded, mid.buffer));
}

/// Where no message is queued and no whole message is held, the reader alone decides the
/// step of `poll_next`, whatever is being written: a read under way is awaited; where no
/// byte waits to be fed, a read is started with the reader and the buffer that are held.
pub proof fn the_reader_decides_the_step<
    In,
    Out,
    Encoder,
    Decoder: SansDecoder<In>,
    Reader,
    Writer,
>(
    connection: &mut TokioSansConnection<In, Out, Encoder, Decoder, Reader, Writer>,
    step: ReadStep<In, Reader>,
)
    requires
        old(connection)@.state.read.queue.len() == 0,
        old(connection)@.state.read.queue_size > 0,
        old(connection)@.state.read.buffer.len() < 8 || (old(connection)@.state.read.buffer.len()
            < 8 + layout::announced(old(connection)@.state.read.buffer) <= usize::MAX),
        old(connection)@.read_state matches ReadState::Idle { buf, read, .. } ==> read
            <= buf@.len(),
        call_ensures(
            TokioSansConnection::<In, Out, Encoder, Decoder, Reader, Writer>::poll_next,
            (connection,),
            step,
        ),
    ensures
        ({
            let before = old(connection)@.state.read;
            match old(connection)@.read_state {
                ReadState::Reading => step is AwaitRead && final(connection)@ == old(connection)@,
                ReadState::Idle { reader, buf, read } => if read == 0 {
                    &&& step == ReadStep::<In, Reader>::Read { reader, buf }
                    &&& final(connection)@.read_state is Reading
                    &&& final(connection)@.state == old(connection)@.state
                } else if before.buffer.len() >= before.buffer_size {
                    step is Wait
                } else if before.buffer.len() + read > isize::MAX {
                    step is Overflow
                } else if read == buf@.len() {
                    &&& step == ReadStep::<In, Reader>::Read { reader, buf }
                    &&& final(connection)@.read_state is Reading
                } else {
                    step is Wait
                },
            }
        }),
{
    let whole = old(connection)@;
    let before = whole.state.read;
    let mid = choose|mid: ReadView<In, Decoder>| #[trigger]
        whole.reads_to(mid, final(connection)@, step);
    assert(before.is_settled());
    connection::settled_stays(before, mid);
    assert(mid == before);
}

/// `finish_read` keeps what came of a read until it is fed, and tells that the reader has
/// ended only where nothing came.
pub proof fn finish_read_keeps_what_came<
    In,
    Out,
    Encoder,
    Decoder: SansDecoder<In>,
    Reader,
    Writer,
>(
    connection: &mut TokioSansConnection<In, Out, Encoder, Decoder, Reader, Writer>,
    reader: Reader,
    buf: Vec<u8>,
    read: usize,
    end: bool,
)
    requires
        call_ensures(
            TokioSansConnection::<In, Out, Encoder, Decoder, Reader, Writer>::finish_read,
            (connection, reader, buf, read),
            end,
        ),
    ensures
        end <==> read == 0,
        !end ==> final(connection)@.read_state == (ReadState::Idle { reader, buf, read }),
        end ==> final(connection)@.read_state == old(connection)@.read_state,
        final(connection)@.state == old(connection)@.state,
        final(connection)@.write_state == old(connection)@.write_state,
{
}

/// `start_send` answers that the connection is reset only where it is closed, and then
/// changes nothing. Otherwise it asks the encoder, whatever the message is. Where the
/// encoder gives a length and bytes, and they fit, these and nothing else join the end of
/// what is to be written, and the message is sent. Where it refuses, or they do not fit,
/// nothing changes.
pub proof fn start_send_appends_the_encoded_message<
    In,
    Out,
    Encoder: SansEncoder<Out>,
    Decoder,
    Reader,
    Writer,
>(
    connection: &mut TokioSansConnection<In, Out, Encoder, Decoder, Reader, Writer>,
    item: Message<Out>,
    result: Result<(), SendError>,
)
    requires
        call_ensures(
            TokioSansConnection::<In, Out, Encoder, Decoder, Reader, Writer>::start_send,
            (connection, item),
            result,
        ),
    ensures
        ({
            let before = old(connection)@.state.write;
            let after = final(connection)@.state.write;
            &&& result == Err::<(), SendError>(SendError::ConnectionReset) <==> old(
                connection,
            )@.write_state is Closing
            &&& old(connection)@.write_state is Closing || exists|
                answer: Result<(Vec<u8>, u64), Encoder::Error>,
            |
                {
                    &&& #[trigger] call_ensures(
                        Encoder::encode,
                        (&before.encoder, &item),
                        answer,
                    )
                    &&& match answer {
                        Ok((bytes, len)) => if before.buffer.len() + 8 + bytes@.len()
                            <= isize::MAX {
                            &&& result == Ok::<(), SendError>(())
                            &&& after.buffer == before.buffer
                                + vstd::bytes::spec_u64_to_le_bytes(len) + bytes@
                        } else {
                            &&& result == Err::<(), SendError>(SendError::Overflow)
                            &&& after.buffer == before.buffer
                        },
                        Err(_) => {
                            &&& result == Err::<(), SendError>(SendError::InvalidInput)
                            &&& after.buffer == before.buffer
                        },
                    }
                }
            &&& old(connection)@.write_state is Closing ==> after.buffer == before.buffer
            &&& after.queue == before.queue
            &&& after.queue_size == before.queue_size
            &&& after.buffer_size == before.buffer_size
            &&& after.encoder == before.encoder
            &&& final(connection)@.write_state == old(connection)@.write_state
            &&& final(connection)@.state.read == old(connection)@.state.read
            &&& final(connection)@.read_state == old(connection)@.read_state
        }),
{
    let whole = old(connection)@;
    let before = whole.state.write;
    vstd::bytes::lemma_auto_spec_u64_to_from_le_bytes();
    if !(whole.write_state is Closing) {
        let answer = choose|answer: Result<(Vec<u8>, u64), Encoder::Error>| #[trigger]
            whole.sends_to(item, answer, final(connection)@, result);
        assert(call_ensures(Encoder::encode, (&before.encoder, &item), answer));
        if let Ok((bytes, len)) = answer {
            assert(before.buffer + frame::frame(bytes@, len) == before.buffer
                + vstd::bytes::spec_u64_to_le_bytes(len) + bytes@);
        }
    }
}

/// On a connection that is not closed, every message is sent, of whatever kind, that the
/// encoder does not refuse and whose bytes fit.
pub proof fn open_connections_send_every_message<
    In,
    Out,
    Encoder: SansEncoder<Out>,
    Decoder,
    Reader,
    Writer,
>(
    connection: &mut TokioSansConnection<In, Out, Encoder, Decoder, Reader, Writer>,
    item: Message<Out>,
    result: Result<(), SendError>,
)
    requires
        !(old(connection)@.write_state is Closing),
        forall|answer: Result<(Vec<u8>, u64), Encoder::Error>| #[trigger]
            call_ensures(
                Encoder::encode,
                (&old(connection)@.state.write.encoder, &item),
                answer,
            ) ==> answer is Ok && old(connection)@.state.write.buffer.len() + 8 + (
            answer->Ok_0).0@.len() <= isize::MAX,
        call_ensures(
            TokioSansConnection::<In, Out, Encoder, Decoder, Reader, Writer>::start_send,
            (connection, item),
            result,
        ),
    ensures
        result is Ok,
{
    start_send_appends_the_encoded_message(connection, item, result);
}

/// A message may be sent right away where nothing is being written, after the write where
/// one is under way, and never again once the connection is closed.
pub proof fn poll_ready_tells_where_the_writer_is<
    In,
    Out,
    Encoder: SansEncoder<Out>,
    Decoder,
    Reader,
    Writer,
>(
    connection: &TokioSansConnection<In, Out, Encoder, Decoder, Reader, Writer>,
    step: ReadyStep,
)
    requires
        call_ensures(
            TokioSansConnection::<In, Out, Encoder, Decoder, Reader, Writer>::poll_ready,
            (connection,),
            step,
        ),
    ensures
        step is Ready <==> connection@.write_state is Idle,
        step is AwaitWrite <==> connection@.write_state is Writing,
        step is Pending <==> connection@.write_state is Closing,
{
}

/// `poll_flush` hands out everything that is to be written, with the writer, wherever there
/// is something and nothing is being written. It is done only where nothing is left. A
/// write under way is awaited, and only such a one. An error is answered only where the
/// connection is closed.
pub proof fn poll_flush_writes_everything<
    In,
    Out,
    Encoder: SansEncoder<Out>,
    Decoder,
    Reader,
    Writer,
>(
    connection: &mut TokioSansConnection<In, Out, Encoder, Decoder, Reader, Writer>,
    step: WriteStep<Writer>,
)
    requires
        call_ensures(
            TokioSansConnection::<In, Out, Encoder, Decoder, Reader, Writer>::poll_flush,
            (connection,),
            step,
        ),
    ensures
        ({
            let before = old(connection)@.state.write;
            let after = final(connection)@.state.write;
            &&& match old(connection)@.write_state {
                WriteState::Idle(writer) => if before.buffer.len() == 0 {
                    &&& step is Done
                    &&& final(connection)@.write_state == old(connection)@.write_state
                    &&& after.buffer.len() == 0
                } else {
                    &&& step matches WriteStep::Write { writer: handed, bytes } && handed
                        == writer && buffer::bytes_contents(bytes) == before.buffer
                    &&& final(connection)@.write_state is Writing
                    &&& after.buffer.len() == 0
                },
                WriteState::Writing => {
                    &&& step is AwaitWrite
                    &&& final(connection)@.write_state is Writing
                    &&& after.buffer == before.buffer
                },
                WriteState::Closing => {
                    &&& step is Reset
                    &&& final(connection)@.write_state is Closing
                    &&& after.buffer == before.buffer
                },
            }
            &&& after.queue == before.queue
            &&& after.queue_size == before.queue_size
            &&& after.buffer_size == before.buffer_size
            &&& after.encoder == before.encoder
            &&& final(connection)@.state.read == old(connection)@.state.read
            &&& final(connection)@.read_state == old(connection)@.read_state
        }),
{
}

/// `poll_close` hands out everything that is to be written, as `poll_flush` does. Only
/// where nothing is left does it hand out the writer to be shut down, once: from then on
/// the shutdown is awaited.
pub proof fn poll_close_writes_everything_first<
    In,
    Out,
    Encoder: SansEncoder<Out>,
    Decoder,
    Reader,
    Writer,
>(
    connection: &mut TokioSansConnection<In, Out, Encoder, Decoder, Reader, Writer>,
    step: WriteStep<Writer>,
)
    requires
        call_ensures(
            TokioSansConnection::<In, Out, Encoder, Decoder, Reader, Writer>::poll_close,
            (connection,),
            step,
        ),
    ensures
        ({
            let before = old(connection)@.state.write;
            let after = final(connection)@.state.write;
            &&& match old(connection)@.write_state {
                WriteState::Idle(writer) => if before.buffer.len() == 0 {
                    &&& step == (WriteStep::Shutdown { writer })
                    &&& final(connection)@.write_state is Closing
                    &&& after.buffer.len() == 0
                } else {
                    &&& step matches WriteStep::Write { writer: handed, bytes } && handed
                        == writer && buffer::bytes_contents(bytes) == before.buffer
                    &&& final(connection)@.write_state is Writing
                    &&& after.buffer.len() == 0
                },
                WriteState::Writing => {
                    &&& step is AwaitWrite
                    &&& final(connection)@.write_state is Writing
                    &&& after.buffer == before.buffer
                },
                WriteState::Closing => {
                    &&& step is AwaitClose
                    &&& final(connection)@.write_state is Closing
                    &&& after.buffer == before.buffer
                },
            }
            &&& after.queue == before.queue
            &&& after.queue_size == before.queue_size
            &&& after.buffer_size == before.buffer_size
            &&& after.encoder == before.encoder
            &&& final(connection)@.state.read == old(connection)@.state.read
            &&& final(connection)@.read_state == old(connection)@.read_state
        }),
{
}

/// `finish_write` takes the writer back and changes nothing else.
pub proof fn finish_write_takes_the_writer_back<
    In,
    Out,
    Encoder: SansEncoder<Out>,
    Decoder,
    Reader,
    Writer,
>(
    connection: &mut TokioSansConnection<In, Out, Encoder, Decoder, Reader, Writer>,
    writer: Writer,
)
    requires
        call_ensures(
            TokioSansConnection::<In, Out, Encoder, Decoder, Reader, Writer>::finish_write,
            (connection, writer),
            (),
        ),
    ensures
        final(connection)@.write_state == WriteState::Idle(writer),
        final(connection)@.state == old(connection)@.state,
        final(connection)@.read_state == old(connection)@.read_state,
{
}

/// `is_closed` tells whether a shutdown was asked for.
pub proof fn is_closed_tells_a_shutdown<Writer>(state: &WriteState<Writer>, closed: bool)
    requires
        call_ensures(WriteState::<Writer>::is_closed, (state,), closed),
    ensures
        closed <==> !(state is Idle) && !(state is Writing),
{
}

/// What is sent is written with the next flush: where nothing is being written, a flush
/// after a message was sent hands out what was to be written before and then the encoded
/// message.
pub proof fn flushing_writes_what_was_sent<
    In,
    Out,
    Encoder: SansEncoder<Out>,
    Decoder,
    Reader,
    Writer,
>(
    sending: &mut TokioSansConnection<In, Out, Encoder, Decoder, Reader, Writer>,
    item: Message<Out>,
    flushing: &mut TokioSansConnection<In, Out, Encoder, Decoder, Reader, Writer>,
    step: WriteStep<Writer>,
    writer: Writer,
)
    requires
        old(sending)@.write_state == WriteState::Idle(writer),
        call_ensures(
            TokioSansConnection::<In, Out, Encoder, Decoder, Reader, Writer>::start_send,
            (sending, item),
            Ok(()),
        ),
        *old(flushing) == *final(sending),
        call_ensures(
            TokioSansConnection::<In, Out, Encoder, Decoder, Reader, Writer>::poll_flush,
            (flushing,),
            step,
        ),
    ensures
        exists|answer: (Vec<u8>, u64)|
            {
                &&& #[trigger] call_ensures(
                    Encoder::encode,
                    (&old(sending)@.state.write.encoder, &item),
                    Ok(answer),
                )
                &&& step matches WriteStep::Write { writer: handed, bytes } && handed == writer
                    && buffer::bytes_contents(bytes) == old(sending)@.state.write.buffer
                    + vstd::bytes::spec_u64_to_le_bytes(answer.1) + answer.0@
            },
{
    start_send_appends_the_encoded_message(sending, item, Ok(()));
    poll_flush_writes_everything(flushing, step);
    vstd::bytes::lemma_auto_spec_u64_to_from_le_bytes();
}

} // verus!
