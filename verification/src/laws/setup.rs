//! What a configuration and what is made from it hold.

use crate::connection_state::{
    ConnectionConfig, ConnectionConfigBuilder, ConnectionReadState, ConnectionState,
    ConnectionWriteState, ReadConnectionConfig, WriteConnectionConfig,
};
use crate::encoder::{with_length, IntoSplitCoder, SansCoder};
use crate::size::NonZeroSize;
use vstd::prelude::*;

verus! {

/// Every number but zero is a size, and a size gives back the number that it was made of.
pub proof fn sizes_give_back_their_number(value: usize, size: Option<NonZeroSize>, number: usize)
    requires
        call_ensures(NonZeroSize::new, (value,), size),
    ensures
        size is None <==> value == 0,
        size matches Some(size) ==> (call_ensures(NonZeroSize::get, (size,), number) ==> number
            == value),
{
}

/// `with_length` keeps the bytes and counts them.
pub proof fn with_length_counts(bytes: Vec<u8>, encoded: (Vec<u8>, u64))
    requires
        call_ensures(with_length, (bytes,), encoded),
    ensures
        encoded.0@ == bytes@,
        encoded.1 == bytes@.len(),
{
}

/// A coder that can be cloned comes apart into a clone and itself.
pub proof fn clonable_coders_split_into_themselves<In, Out, Coder: Clone + SansCoder<In, Out>>(
    coder: Coder,
    halves: (Coder, Coder),
)
    requires
        call_ensures(<Coder as IntoSplitCoder<In, Out>>::into_split, (coder,), halves),
    ensures
        call_ensures(Coder::clone, (&coder,), halves.0),
        halves.1 == coder,
{
}

/// A configuration holds the sizes that it was made of, each in its place, and the two
/// halves that the coder comes apart into. It comes apart into the two halves.
pub proof fn configurations_hold_what_was_asked_for<
    In,
    Out,
    Encoder,
    Decoder,
    Coder: IntoSplitCoder<In, Out, Encoder = Encoder, Decoder = Decoder>,
>(
    recv_queue_size: NonZeroSize,
    recv_buffer_size: NonZeroSize,
    send_queue_size: NonZeroSize,
    send_buffer_size: NonZeroSize,
    coder: Coder,
    config: ConnectionConfig<Encoder, Decoder>,
    halves: (ReadConnectionConfig<Decoder>, WriteConnectionConfig<Encoder>),
)
    requires
        call_ensures(
            ConnectionConfig::<Encoder, Decoder>::new::<In, Out, Coder>,
            (recv_queue_size, recv_buffer_size, send_queue_size, send_buffer_size, coder),
            config,
        ),
        call_ensures(ConnectionConfig::<Encoder, Decoder>::split, (config,), halves),
    ensures
        config.read_config == halves.0,
        config.write_config == halves.1,
        halves.0.recv_queue_size == recv_queue_size,
        halves.0.recv_buffer_size == recv_buffer_size,
        halves.1.send_queue_size == send_queue_size,
        halves.1.send_buffer_size == send_buffer_size,
        call_ensures(Coder::into_split, (coder,), (halves.0.coder, halves.1.coder)),
{
}

/// A builder starts with nothing, and each of its methods sets one thing and leaves the
/// others.
pub proof fn builders_set_one_thing_at_a_time<
    In,
    Out,
    Encoder,
    Decoder,
    Coder: IntoSplitCoder<In, Out, Encoder = Encoder, Decoder = Decoder>,
>(
    before: ConnectionConfigBuilder<In, Out, Coder>,
    after: ConnectionConfigBuilder<In, Out, Coder>,
    size: NonZeroSize,
    coder: Coder,
)
    ensures
        call_ensures(ConnectionConfig::<Encoder, Decoder>::builder::<In, Out, Coder>, (), after)
            ==> {
            &&& after.recv_queue_size is None
            &&& after.recv_buffer_size is None
            &&& after.send_queue_size is None
            &&& after.send_buffer_size is None
            &&& after.coder is None
        },
        call_ensures(
            ConnectionConfigBuilder::<In, Out, Coder>::recv_queue_size,
            (before, size),
            after,
        ) ==> {
            &&& after.recv_queue_size == Some(size)
            &&& after.recv_buffer_size == before.recv_buffer_size
            &&& after.send_queue_size == before.send_queue_size
            &&& after.send_buffer_size == before.send_buffer_size
            &&& after.coder == before.coder
        },
        call_ensures(
            ConnectionConfigBuilder::<In, Out, Coder>::recv_buffer_size,
            (before, size),
            after,
        ) ==> {
            &&& after.recv_queue_size == before.recv_queue_size
            &&& after.recv_buffer_size == Some(size)
            &&& after.send_queue_size == before.send_queue_size
            &&& after.send_buffer_size == before.send_buffer_size
            &&& after.coder == before.coder
        },
        call_ensures(
            ConnectionConfigBuilder::<In, Out, Coder>::send_queue_size,
            (before, size),
            after,
        ) ==> {
            &&& after.recv_queue_size == before.recv_queue_size
            &&& after.recv_buffer_size == before.recv_buffer_size
            &&& after.send_queue_size == Some(size)
            &&& after.send_buffer_size == before.send_buffer_size
            &&& after.coder == before.coder
        },
        call_ensures(
            ConnectionConfigBuilder::<In, Out, Coder>::send_buffer_size,
            (before, size),
            after,
        ) ==> {
            &&& after.recv_queue_size == before.recv_queue_size
            &&& after.recv_buffer_size == before.recv_buffer_size
            &&& after.send_queue_size == before.send_queue_size
            &&& after.send_buffer_size == Some(size)
            &&& after.coder == before.coder
        },
        call_ensures(ConnectionConfigBuilder::<In, Out, Coder>::coder, (before, coder), after)
            ==> {
            &&& after.recv_queue_size == before.recv_queue_size
            &&& after.recv_buffer_size == before.recv_buffer_size
            &&& after.send_queue_size == before.send_queue_size
            &&& after.send_buffer_size == before.send_buffer_size
            &&& after.coder == Some(coder)
        },
{
}

/// A built configuration holds the sizes that were set. A queue that was not set holds ten
/// messages, and a buffer that was not set 4096 bytes.
pub proof fn built_configurations_hold_what_was_set<In, Out, Coder: IntoSplitCoder<In, Out>>(
    builder: ConnectionConfigBuilder<In, Out, Coder>,
    coder: Coder,
    config: ConnectionConfig<Coder::Encoder, Coder::Decoder>,
)
    requires
        builder.coder == Some(coder),
        call_ensures(ConnectionConfigBuilder::<In, Out, Coder>::build, (builder,), config),
    ensures
        match builder.recv_queue_size {
            Some(size) => config.read_config.recv_queue_size == size,
            None => config.read_config.recv_queue_size.spec_value() == 10,
        },
        match builder.recv_buffer_size {
            Some(size) => config.read_config.recv_buffer_size == size,
            None => config.read_config.recv_buffer_size.spec_value() == 4096,
        },
        match builder.send_queue_size {
            Some(size) => config.write_config.send_queue_size == size,
            None => config.write_config.send_queue_size.spec_value() == 10,
        },
        match builder.send_buffer_size {
            Some(size) => config.write_config.send_buffer_size == size,
            None => config.write_config.send_buffer_size.spec_value() == 4096,
        },
        call_ensures(
            Coder::into_split,
            (coder,),
            (config.read_config.coder, config.write_config.coder),
        ),
{
}

/// A new read half holds no message and no byte, and the sizes and the decoder that it was
/// configured with.
pub proof fn new_read_half_is_empty<In, Decoder>(
    config: ReadConnectionConfig<Decoder>,
    state: ConnectionReadState<In, Decoder>,
)
    requires
        call_ensures(ConnectionReadState::<In, Decoder>::new, (config,), state),
    ensures
        state@.queue.len() == 0,
        state@.buffer.len() == 0,
        state@.queue_size == config.recv_queue_size.spec_value(),
        state@.buffer_size == config.recv_buffer_size.spec_value(),
        state@.decoder == config.coder,
{
}

/// A new write half holds no message and no byte, and the sizes and the encoder that it was
/// configured with.
pub proof fn new_write_half_is_empty<Out, Encoder>(
    config: WriteConnectionConfig<Encoder>,
    state: ConnectionWriteState<Out, Encoder>,
)
    requires
        call_ensures(ConnectionWriteState::<Out, Encoder>::new, (config,), state),
    ensures
        state@.queue.len() == 0,
        state@.buffer.len() == 0,
        state@.queue_size == config.send_queue_size.spec_value(),
        state@.buffer_size == config.send_buffer_size.spec_value(),
        state@.encoder == config.coder,
{
}

/// A new connection state holds no message and no byte, and the sizes and coders that it
/// was configured with.
pub proof fn new_state_is_empty<In, Out, Encoder, Decoder>(
    config: ConnectionConfig<Encoder, Decoder>,
    state: ConnectionState<In, Out, Encoder, Decoder>,
)
    requires
        call_ensures(ConnectionState::<In, Out, Encoder, Decoder>::new, (config,), state),
    ensures
        state@.read.queue.len() == 0,
        state@.read.buffer.len() == 0,
        state@.read.queue_size == config.read_config.recv_queue_size.spec_value(),
        state@.read.buffer_size == config.read_config.recv_buffer_size.spec_value(),
        state@.read.decoder == config.read_config.coder,
        state@.write.queue.len() == 0,
        state@.write.buffer.len() == 0,
        state@.write.queue_size == config.write_config.send_queue_size.spec_value(),
        state@.write.buffer_size == config.write_config.send_buffer_size.spec_value(),
        state@.write.encoder == config.write_config.coder,
{
}

/// A connection state comes apart into its two halves as they are.
pub proof fn states_split_into_their_halves<In, Out, Encoder, Decoder>(
    state: ConnectionState<In, Out, Encoder, Decoder>,
    halves: (ConnectionWriteState<Out, Encoder>, ConnectionReadState<In, Decoder>),
)
    requires
        call_ensures(ConnectionState::<In, Out, Encoder, Decoder>::into_split, (state,), halves),
    ensures
        halves.0@ == state@.write,
        halves.1@ == state@.read,
{
}

} // verus!
