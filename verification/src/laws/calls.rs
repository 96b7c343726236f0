//! Which calls are allowed, in terms of what is held.

use crate::connection_state::{
    ConnectionConfig, ConnectionConfigBuilder, ConnectionReadState, ConnectionState,
    ConnectionWriteState, ReadConnectionConfig, ReadView, WriteConnectionConfig, WriteView,
};
use crate::encoder::{with_length, IntoSplitCoder, SansDecoder, SansEncoder};
use crate::frame;
use crate::laws::layout;
use crate::message::Message;
use crate::sans_service::{answer, stream_item, SansService, ServiceEvent};
use crate::service::run_step;
use crate::service_message::ServiceMessage;
use crate::size::NonZeroSize;
use crate::tcp::{
    ReadState, ReadStep, SendError, TokioSansConnection, WriteState, WriteStep,
};
use vstd::prelude::*;

verus! {

/// What a read half holds stays within its sizes and within what can be allocated.
pub open spec fn read_half_holds_little<In, Decoder>(half: ReadView<In, Decoder>) -> bool {
    &&& half.queue.len() <= half.queue_size
    &&& half.buffer.len() <= isize::MAX
    &&& 0 < half.queue_size
    &&& 0 < half.buffer_size <= isize::MAX
}

/// What a write half holds stays within its sizes and within what can be allocated.
pub open spec fn write_half_holds_little<Out, Encoder>(half: WriteView<Out, Encoder>) -> bool {
    &&& half.queue.len() <= half.queue_size
    &&& half.buffer.len() <= isize::MAX
    &&& 0 < half.queue_size
    &&& 0 < half.buffer_size <= isize::MAX
}

/// Whatever messages are decoded first, none behind them for which the queue has room
/// announces more bytes than any buffer can hold.
pub open spec fn no_length_is_too_large<In, Decoder: SansDecoder<In>>(
    half: ReadView<In, Decoder>,
) -> bool {
    forall|decoded: Seq<Message<In>>, rest: Seq<u8>| #[trigger]
        layout::is_cut_into(half.decoder, half.buffer, decoded, rest) && half.queue.len()
            + decoded.len() < half.queue_size && rest.len() >= 8 ==> 8 + layout::announced(rest)
            <= usize::MAX
}

/// Whatever the encoder answers, the encoded messages fit behind what is held.
pub open spec fn all_answers_fit<Out, Encoder: SansEncoder<Out>>(
    half: WriteView<Out, Encoder>,
) -> bool {
    forall|answers: Seq<(Vec<u8>, u64)>| #[trigger]
        layout::may_be_answers(half.encoder, half.queue, answers) ==> half.buffer.len()
            + layout::laid_out(layout::parts_of(answers)).len() <= isize::MAX
}

proof fn lemma_lengths_fit<In, Decoder: SansDecoder<In>>(half: ReadView<In, Decoder>)
    requires
        no_length_is_too_large(half),
    ensures
        half.lengths_fit(),
{
    assert forall|next: ReadView<In, Decoder>| #[trigger]
        half.decodes_to(next) && next.has_room() implies !frame::oversized(next.buffer) by {
        layout::lemma_decoding_cuts(half, next);
        let decoded = next.queue.skip(half.queue.len() as int);
        assert(layout::is_cut_into(half.decoder, half.buffer, decoded, next.buffer));
    }
}

proof fn lemma_frames_fit<Out, Encoder: SansEncoder<Out>>(half: WriteView<Out, Encoder>)
    requires
        all_answers_fit(half),
    ensures
        half.frames_fit(),
{
    assert forall|encoded: Seq<(Vec<u8>, u64)>| #[trigger] half.encodes_as(encoded) implies
        half.buffer.len() + frame::frames(encoded).len() <= isize::MAX by {
        layout::lemma_answers(half, encoded);
    }
}

/// Values can be made, configured, split, counted and converted freely; only a buffer has
/// to be one that can be allocated, and a coder has to be given.
pub proof fn making_things_is_allowed<
    In,
    Out,
    Encoder,
    Decoder,
    Coder: IntoSplitCoder<In, Out, Encoder = Encoder, Decoder = Decoder>,
    Reader,
    Writer,
    StreamSender,
    ResponseSender,
>(
    value: usize,
    size: NonZeroSize,
    bytes: Vec<u8>,
    sizes: (NonZeroSize, NonZeroSize, NonZeroSize, NonZeroSize),
    coder: Coder,
    builder: ConnectionConfigBuilder<In, Out, Coder>,
    config: ConnectionConfig<Encoder, Decoder>,
    read: ReadConnectionConfig<Decoder>,
    write: WriteConnectionConfig<Encoder>,
    state: ConnectionState<In, Out, Encoder, Decoder>,
    reader: Reader,
    writer: Writer,
    write_state: &WriteState<Writer>,
)
    ensures
        call_requires(NonZeroSize::new, (value,)),
        call_requires(NonZeroSize::get, (size,)),
        call_requires(with_length, (bytes,)),
        call_requires(
            ConnectionConfig::<Encoder, Decoder>::new::<In, Out, Coder>,
            (sizes.0, sizes.1, sizes.2, sizes.3, coder),
        ),
        call_requires(ConnectionConfig::<Encoder, Decoder>::split, (config,)),
        call_requires(ConnectionConfig::<Encoder, Decoder>::builder::<In, Out, Coder>, ()),
        call_requires(
            ConnectionConfigBuilder::<In, Out, Coder>::recv_queue_size,
            (builder, size),
        ),
        call_requires(
            ConnectionConfigBuilder::<In, Out, Coder>::recv_buffer_size,
            (builder, size),
        ),
        call_requires(
            ConnectionConfigBuilder::<In, Out, Coder>::send_queue_size,
            (builder, size),
        ),
        call_requires(
            ConnectionConfigBuilder::<In, Out, Coder>::send_buffer_size,
            (builder, size),
        ),
        call_requires(ConnectionConfigBuilder::<In, Out, Coder>::coder, (builder, coder)),
        builder.coder is Some ==> call_requires(
            ConnectionConfigBuilder::<In, Out, Coder>::build,
            (builder,),
        ),
        read.recv_buffer_size.spec_value() <= isize::MAX ==> call_requires(
            ConnectionReadState::<In, Decoder>::new,
            (read,),
        ),
        write.send_buffer_size.spec_value() <= isize::MAX ==> call_requires(
            ConnectionWriteState::<Out, Encoder>::new,
            (write,),
        ),
        config.read_config.recv_buffer_size.spec_value() <= isize::MAX
            && config.write_config.send_buffer_size.spec_value() <= isize::MAX ==> call_requires(
            ConnectionState::<In, Out, Encoder, Decoder>::new,
            (config,),
        ),
        config.read_config.recv_buffer_size.spec_value() * 2 <= isize::MAX
            && config.write_config.send_buffer_size.spec_value() <= isize::MAX ==> call_requires(
            TokioSansConnection::<In, Out, Encoder, Decoder, Reader, Writer>::new,
            (config, reader, writer),
        ),
        call_requires(ConnectionState::<In, Out, Encoder, Decoder>::into_split, (state,)),
        call_requires(WriteState::<Writer>::is_closed, (write_state,)),
        call_requires(SansService::<StreamSender, ResponseSender>::new, ()),
{
}

/// Messages may be consumed, bytes fed and messages decoded at any time. `feed_bytes` asks
/// that what it takes can be allocated, `process` that no length is too large; the `try_`
/// calls ask for neither.
pub proof fn reading_read_half_is_allowed<In, Decoder: SansDecoder<In>>(
    state: &mut ConnectionReadState<In, Decoder>,
    bytes: &[u8],
)
    requires
        read_half_holds_little(old(state)@),
    ensures
        call_requires(ConnectionReadState::<In, Decoder>::consume_item, (state,)),
        old(state)@.buffer.len() >= old(state)@.buffer_size || old(state)@.buffer.len()
            + bytes@.len() <= isize::MAX ==> call_requires(
            ConnectionReadState::<In, Decoder>::feed_bytes,
            (state, bytes),
        ),
        call_requires(ConnectionReadState::<In, Decoder>::try_feed_bytes, (state, bytes)),
        no_length_is_too_large(old(state)@) ==> call_requires(
            ConnectionReadState::<In, Decoder>::process,
            (state,),
        ),
        call_requires(ConnectionReadState::<In, Decoder>::try_process, (state,)),
{
    if no_length_is_too_large(old(state)@) {
        lemma_lengths_fit(old(state)@);
    }
}

/// Messages may be fed, encoded and their bytes consumed at any time. `process` asks that all
/// bytes can be allocated, `try_process` does not.
pub proof fn writing_write_half_is_allowed<Out, Encoder: SansEncoder<Out>>(
    state: &mut ConnectionWriteState<Out, Encoder>,
    item: Message<Out>,
    len: usize,
)
    requires
        write_half_holds_little(old(state)@),
    ensures
        call_requires(ConnectionWriteState::<Out, Encoder>::available_space, (&*old(state),)),
        call_requires(ConnectionWriteState::<Out, Encoder>::write_queue_empty, (&*old(state),)),
        call_requires(ConnectionWriteState::<Out, Encoder>::feed_item, (state, item)),
        call_requires(ConnectionWriteState::<Out, Encoder>::consume_bytes, (state, len)),
        call_requires(ConnectionWriteState::<Out, Encoder>::consume_all, (state,)),
        all_answers_fit(old(state)@) ==> call_requires(ConnectionWriteState::<Out, Encoder>::process, (state,)),
        call_requires(ConnectionWriteState::<Out, Encoder>::try_process, (state,)),
{
    if all_answers_fit(old(state)@) {
        lemma_frames_fit(old(state)@);
    }
}

/// Messages may be consumed, bytes fed and messages decoded at any time. `feed_bytes` asks
/// that what it takes can be allocated, `process_read` that no length is too large; the `try_`
/// calls ask for neither.
pub proof fn reading_state_is_allowed<In, Out, Encoder, Decoder: SansDecoder<In>>(
    state: &mut ConnectionState<In, Out, Encoder, Decoder>,
    bytes: &[u8],
)
    requires
        read_half_holds_little(old(state)@.read),
        write_half_holds_little(old(state)@.write),
    ensures
        call_requires(ConnectionState::<In, Out, Encoder, Decoder>::consume_item, (state,)),
        old(state)@.read.buffer.len() >= old(state)@.read.buffer_size || old(state)@.read.buffer.len()
            + bytes@.len() <= isize::MAX ==> call_requires(
            ConnectionState::<In, Out, Encoder, Decoder>::feed_bytes,
            (state, bytes),
        ),
        call_requires(ConnectionState::<In, Out, Encoder, Decoder>::try_feed_bytes, (state, bytes)),
        no_length_is_too_large(old(state)@.read) ==> call_requires(
            ConnectionState::<In, Out, Encoder, Decoder>::process_read,
            (state,),
        ),
        call_requires(ConnectionState::<In, Out, Encoder, Decoder>::try_process_read, (state,)),
{
    if no_length_is_too_large(old(state)@.read) {
        lemma_lengths_fit(old(state)@.read);
    }
}

/// Messages may be fed, encoded and their bytes consumed at any time. `process_write` asks that all
/// bytes can be allocated, `try_process_write` does not.
pub proof fn writing_state_is_allowed<In, Out, Encoder: SansEncoder<Out>, Decoder>(
    state: &mut ConnectionState<In, Out, Encoder, Decoder>,
    item: Message<Out>,
    len: usize,
)
    requires
        write_half_holds_little(old(state)@.write),
        read_half_holds_little(old(state)@.read),
    ensures
        call_requires(ConnectionState::<In, Out, Encoder, Decoder>::available_space, (&*old(state),)),
        call_requires(ConnectionState::<In, Out, Encoder, Decoder>::write_queue_empty, (&*old(state),)),
        call_requires(ConnectionState::<In, Out, Encoder, Decoder>::feed_item, (state, item)),
        call_requires(ConnectionState::<In, Out, Encoder, Decoder>::consume_bytes, (state, len)),
        call_requires(ConnectionState::<In, Out, Encoder, Decoder>::consume_all, (state,)),
        all_answers_fit(old(state)@.write) ==> call_requires(ConnectionState::<In, Out, Encoder, Decoder>::process_write, (state,)),
        call_requires(ConnectionState::<In, Out, Encoder, Decoder>::try_process_write, (state,)),
{
    if all_answers_fit(old(state)@.write) {
        lemma_frames_fit(old(state)@.write);
    }
}

/// A connection may be polled, sent to, flushed and closed at any time, whatever is under
/// way and whatever is sent. A read is finished only where one is under way, with a buffer
/// that holds what came, and a write only where one is under way.
pub proof fn driving_a_connection_is_allowed<
    In,
    Out,
    Encoder: SansEncoder<Out>,
    Decoder: SansDecoder<In>,
    Reader,
    Writer,
>(
    connection: &mut TokioSansConnection<In, Out, Encoder, Decoder, Reader, Writer>,
    item: Message<Out>,
    reader: Reader,
    buf: Vec<u8>,
    read: usize,
    writer: Writer,
)
    requires
        read_half_holds_little(old(connection)@.state.read),
        write_half_holds_little(old(connection)@.state.write),
        old(connection)@.state.write.queue.len() == 0,
        old(connection)@.read_state matches ReadState::Idle { buf, read, .. } ==> read
            <= buf@.len(),
    ensures
        call_requires(
            TokioSansConnection::<In, Out, Encoder, Decoder, Reader, Writer>::poll_next,
            (connection,),
        ),
        old(connection)@.read_state is Reading && read <= buf@.len() ==> call_requires(
            TokioSansConnection::<In, Out, Encoder, Decoder, Reader, Writer>::finish_read,
            (connection, reader, buf, read),
        ),
        call_requires(
            TokioSansConnection::<In, Out, Encoder, Decoder, Reader, Writer>::poll_ready,
            (&*old(connection),),
        ),
        call_requires(
            TokioSansConnection::<In, Out, Encoder, Decoder, Reader, Writer>::start_send,
            (connection, item),
        ),
        call_requires(
            TokioSansConnection::<In, Out, Encoder, Decoder, Reader, Writer>::poll_flush,
            (connection,),
        ),
        call_requires(
            TokioSansConnection::<In, Out, Encoder, Decoder, Reader, Writer>::poll_close,
            (connection,),
        ),
        old(connection)@.write_state is Writing ==> call_requires(
            TokioSansConnection::<In, Out, Encoder, Decoder, Reader, Writer>::finish_write,
            (connection, writer),
        ),
{
}

/// No call on a connection takes it to where another call would not be allowed: what it
/// holds stays within its sizes, and no message waits to be encoded.
pub proof fn connections_keep_holding_little<
    In,
    Out,
    Encoder: SansEncoder<Out>,
    Decoder: SansDecoder<In>,
    Reader,
    Writer,
>(
    connection: &mut TokioSansConnection<In, Out, Encoder, Decoder, Reader, Writer>,
    read_step: ReadStep<In, Reader>,
    reader: Reader,
    buf: Vec<u8>,
    read: usize,
    end: bool,
    item: Message<Out>,
    result: Result<(), SendError>,
    write_step: WriteStep<Writer>,
    writer: Writer,
)
    requires
        call_ensures(
            TokioSansConnection::<In, Out, Encoder, Decoder, Reader, Writer>::poll_next,
            (connection,),
            read_step,
        ) || call_ensures(
            TokioSansConnection::<In, Out, Encoder, Decoder, Reader, Writer>::finish_read,
            (connection, reader, buf, read),
            end,
        ) || call_ensures(
            TokioSansConnection::<In, Out, Encoder, Decoder, Reader, Writer>::start_send,
            (connection, item),
            result,
        ) || call_ensures(
            TokioSansConnection::<In, Out, Encoder, Decoder, Reader, Writer>::poll_flush,
            (connection,),
            write_step,
        ) || call_ensures(
            TokioSansConnection::<In, Out, Encoder, Decoder, Reader, Writer>::poll_close,
            (connection,),
            write_step,
        ) || call_ensures(
            TokioSansConnection::<In, Out, Encoder, Decoder, Reader, Writer>::finish_write,
            (connection, writer),
            (),
        ),
    ensures
        read_half_holds_little(final(connection)@.state.read),
        write_half_holds_little(final(connection)@.state.write),
        final(connection)@.state.write.queue.len() == 0,
        final(connection)@.read_state matches ReadState::Idle { buf, read, .. } ==> read
            <= buf@.len(),
{
}

/// A service takes every event at any time, but the closing of a stream that is not open.
/// Any message may be handled, and any value of a handler be sent that can be converted.
pub proof fn routing_is_allowed<
    In,
    Out,
    StreamSender,
    ResponseSender,
    Failure,
    Stream,
    Asked,
    Told,
    Error,
    K,
    F: Fn(K) -> Out,
>(
    service: &mut SansService<StreamSender, ResponseSender>,
    event: ServiceEvent<In, Out, StreamSender, ResponseSender, Failure>,
    next: Result<Option<ServiceMessage<In>>, Failure>,
    id: u64,
    map: &F,
    value: K,
) where Stream: From<In>, Asked: From<In>, Told: From<In>, Error: From<Failure>
    requires
        event matches ServiceEvent::Received(Ok(Some(Message::CloseStream { stream_id }))) ==> old(
            service,
        )@.streams.contains_key(stream_id),
        call_requires(*map, (value,)),
    ensures
        call_requires(
            SansService::<StreamSender, ResponseSender>::next_message::<In, Out, Failure>,
            (service, event),
        ),
        call_requires(
            SansService::<StreamSender, ResponseSender>::stream_sender,
            (&*old(service), id),
        ),
        call_requires(run_step::<In, Failure, Stream, Asked, Told, Error>, (next,)),
        call_requires(answer::<K, Out, F>, (id, map, value)),
        call_requires(stream_item::<K, Out, F>, (id, map, value)),
{
}

} // verus!
