//! The state of one connection, free of any input and output.
//!
//! Incoming bytes are fed to the read half, which cuts them into frames and decodes
//! each frame into a message. Outgoing messages are fed to the write half, which
//! encodes each into a frame and keeps the bytes until they are consumed.

use crate::buffer;
use crate::encoder;
use crate::encoder::{IntoSplitCoder, SansDecoder, SansEncoder};
use crate::frame;
use crate::message::Message;
use crate::size::NonZeroSize;
use bytes::{Bytes, BytesMut};
use std::collections::VecDeque;
use std::marker::PhantomData;
use vstd::bytes::{u64_from_le_bytes, u64_to_le_bytes};
use vstd::prelude::*;
use vstd::slice::slice_subrange;

verus! {

/// How large the queues and buffers of a connection are, and its coder.
#[derive(Clone, Copy)]
pub struct ConnectionConfig<Encoder, Decoder> {
    pub read_config: ReadConnectionConfig<Decoder>,
    pub write_config: WriteConnectionConfig<Encoder>,
}

#[derive(Clone, Copy)]
pub struct ReadConnectionConfig<Decoder> {
    pub recv_queue_size: NonZeroSize,
    pub recv_buffer_size: NonZeroSize,
    pub coder: Decoder,
}

#[derive(Clone, Copy)]
pub struct WriteConnectionConfig<Encoder> {
    pub send_queue_size: NonZeroSize,
    pub send_buffer_size: NonZeroSize,
    pub coder: Encoder,
}

impl<Encoder, Decoder> ConnectionConfig<Encoder, Decoder> {
    pub fn new<In, Out, Coder>(
        recv_queue_size: NonZeroSize,
        recv_buffer_size: NonZeroSize,
        send_queue_size: NonZeroSize,
        send_buffer_size: NonZeroSize,
        coder: Coder,
    ) -> (config: ConnectionConfig<Encoder, Decoder>) where
        Coder: IntoSplitCoder<In, Out, Encoder = Encoder, Decoder = Decoder>,

        ensures
            config.read_config.recv_queue_size == recv_queue_size,
            config.read_config.recv_buffer_size == recv_buffer_size,
            config.write_config.send_queue_size == send_queue_size,
            config.write_config.send_buffer_size == send_buffer_size,
            encoder::may_split::<In, Out, Coder>(
                coder,
                config.read_config.coder,
                config.write_config.coder,
            ),
    {
        let (read, write) = coder.into_split();

        ConnectionConfig {
            read_config: ReadConnectionConfig { recv_queue_size, recv_buffer_size, coder: read },
            write_config: WriteConnectionConfig { send_queue_size, send_buffer_size, coder: write },
        }
    }

    /// The configurations of the two halves.
    pub fn split(self) -> (halves: (ReadConnectionConfig<Decoder>, WriteConnectionConfig<Encoder>))
        ensures
            halves.0 == self.read_config,
            halves.1 == self.write_config,
    {
        let ConnectionConfig { read_config, write_config } = self;
        (read_config, write_config)
    }
}

/// The number of messages that a queue holds where nothing else was asked for.
pub const DEFAULT_QUEUE_SIZE: usize = 10;

/// The number of bytes that a buffer holds where nothing else was asked for.
pub const DEFAULT_BUFFER_SIZE: usize = 4096;

/// A configuration in the making: a coder and the sizes that differ from the default.
pub struct ConnectionConfigBuilder<In, Out, Coder> {
    pub recv_queue_size: Option<NonZeroSize>,
    pub recv_buffer_size: Option<NonZeroSize>,
    pub send_queue_size: Option<NonZeroSize>,
    pub send_buffer_size: Option<NonZeroSize>,
    pub coder: Option<Coder>,
    pub messages: PhantomData<(In, Out)>,
}

/// `size` is the one that was asked for, or `default` where none was.
pub open spec fn is_size_or(size: NonZeroSize, asked: Option<NonZeroSize>, default: usize) -> bool {
    match asked {
        Some(asked) => size == asked,
        None => size.spec_value() == default,
    }
}

/// The size that was asked for, or `default` where none was.
fn size_or(asked: Option<NonZeroSize>, default: usize) -> (size: NonZeroSize)
    requires
        default != 0,
    ensures
        is_size_or(size, asked, default),
{
    match asked {
        Some(size) => size,
        None => match NonZeroSize::new(default) {
            Some(size) => size,
            None => unreached(),
        },
    }
}

impl<Encoder, Decoder> ConnectionConfig<Encoder, Decoder> {
    /// Starts a configuration with the default sizes and no coder yet.
    pub fn builder<In, Out, Coder>() -> (builder: ConnectionConfigBuilder<In, Out, Coder>) where
        Coder: IntoSplitCoder<In, Out, Encoder = Encoder, Decoder = Decoder>,

        ensures
            builder.recv_queue_size is None,
            builder.recv_buffer_size is None,
            builder.send_queue_size is None,
            builder.send_buffer_size is None,
            builder.coder is None,
    {
        ConnectionConfigBuilder {
            recv_queue_size: None,
            recv_buffer_size: None,
            send_queue_size: None,
            send_buffer_size: None,
            coder: None,
            messages: PhantomData,
        }
    }
}

impl<In, Out, Coder> ConnectionConfigBuilder<In, Out, Coder> {
    pub fn recv_queue_size(self, size: NonZeroSize) -> (builder: Self)
        ensures
            builder == (ConnectionConfigBuilder { recv_queue_size: Some(size), ..self }),
    {
        ConnectionConfigBuilder { recv_queue_size: Some(size), ..self }
    }

    pub fn recv_buffer_size(self, size: NonZeroSize) -> (builder: Self)
        ensures
            builder == (ConnectionConfigBuilder { recv_buffer_size: Some(size), ..self }),
    {
        ConnectionConfigBuilder { recv_buffer_size: Some(size), ..self }
    }

    pub fn send_queue_size(self, size: NonZeroSize) -> (builder: Self)
        ensures
            builder == (ConnectionConfigBuilder { send_queue_size: Some(size), ..self }),
    {
        ConnectionConfigBuilder { send_queue_size: Some(size), ..self }
    }

    pub fn send_buffer_size(self, size: NonZeroSize) -> (builder: Self)
        ensures
            builder == (ConnectionConfigBuilder { send_buffer_size: Some(size), ..self }),
    {
        ConnectionConfigBuilder { send_buffer_size: Some(size), ..self }
    }

    pub fn coder(self, coder: Coder) -> (builder: Self)
        ensures
            builder == (ConnectionConfigBuilder { coder: Some(coder), ..self }),
    {
        ConnectionConfigBuilder { coder: Some(coder), ..self }
    }

    /// The configuration, for which a coder must have been given.
    pub fn build(self) -> (config: ConnectionConfig<Coder::Encoder, Coder::Decoder>) where
        Coder: IntoSplitCoder<In, Out>,

        requires
            self.coder is Some,
        ensures
            is_size_or(config.read_config.recv_queue_size, self.recv_queue_size, DEFAULT_QUEUE_SIZE),
            is_size_or(
                config.read_config.recv_buffer_size,
                self.recv_buffer_size,
                DEFAULT_BUFFER_SIZE,
            ),
            is_size_or(
                config.write_config.send_queue_size,
                self.send_queue_size,
                DEFAULT_QUEUE_SIZE,
            ),
            is_size_or(
                config.write_config.send_buffer_size,
                self.send_buffer_size,
                DEFAULT_BUFFER_SIZE,
            ),
            encoder::may_split::<In, Out, Coder>(
                self.coder->0,
                config.read_config.coder,
                config.write_config.coder,
            ),
    {
        let coder = match self.coder {
            Some(coder) => coder,
            None => unreached(),
        };
        ConnectionConfig::new(
            size_or(self.recv_queue_size, DEFAULT_QUEUE_SIZE),
            size_or(self.recv_buffer_size, DEFAULT_BUFFER_SIZE),
            size_or(self.send_queue_size, DEFAULT_QUEUE_SIZE),
            size_or(self.send_buffer_size, DEFAULT_BUFFER_SIZE),
            coder,
        )
    }
}

/// What the read half of a connection holds.
#[verifier::ext_equal]
pub struct ReadView<In, Decoder> {
    /// Decoded messages that nobody has consumed yet, oldest first.
    pub queue: Seq<Message<In>>,
    /// Received bytes that are not decoded yet.
    pub buffer: Seq<u8>,
    /// As many messages are decoded ahead.
    pub queue_size: nat,
    /// No more bytes are taken once so many are held.
    pub buffer_size: nat,
    pub decoder: Decoder,
}

impl<In, Decoder> ReadView<In, Decoder> {
    /// The queue stays within its size and the buffer within what can be allocated,
    /// neither size is zero, and an empty buffer can be allocated.
    pub open spec fn wf(self) -> bool {
        &&& self.queue.len() <= self.queue_size
        &&& self.buffer.len() <= isize::MAX
        &&& 0 < self.queue_size
        &&& 0 < self.buffer_size <= isize::MAX
    }

    /// Sizes and decoder are the same.
    pub open spec fn same_setup(self, other: Self) -> bool {
        &&& self.queue_size == other.queue_size
        &&& self.buffer_size == other.buffer_size
        &&& self.decoder == other.decoder
    }

    /// A further message may be decoded.
    pub open spec fn has_room(self) -> bool {
        self.queue.len() < self.queue_size
    }

    /// The oldest decoded message, if there is one, leaves the queue as `item`.
    pub open spec fn pops_to(self, next: Self, item: Option<Message<In>>) -> bool {
        match item {
            Some(item) => {
                &&& self.queue.len() > 0
                &&& item == self.queue[0]
                &&& next == (ReadView { queue: self.queue.skip(1), ..self })
            },
            None => self.queue.len() == 0 && next == self,
        }
    }

    /// How many of `bytes` are taken: all where fewer than the buffer size are held, and
    /// none otherwise.
    pub open spec fn takes(self, bytes: Seq<u8>) -> nat {
        if self.buffer.len() < self.buffer_size {
            bytes.len()
        } else {
            0
        }
    }

    /// As many of `bytes` as are taken join the end of the buffer.
    pub open spec fn after_taking(self, bytes: Seq<u8>) -> Self {
        ReadView { buffer: self.buffer + bytes.take(self.takes(bytes) as int), ..self }
    }

    /// Where `bytes` would be taken, they fit behind the bytes that are held.
    pub open spec fn can_take(self, bytes: Seq<u8>) -> bool {
        self.buffer.len() < self.buffer_size ==> self.buffer.len() + bytes.len() <= isize::MAX
    }
}

impl<In, Decoder: SansDecoder<In>> ReadView<In, Decoder> {
    /// `self` becomes `next` by decoding frames from the front of the buffer, in order,
    /// each to the end of the queue, and as long as the queue has room.
    pub open spec fn decodes_to(self, next: Self) -> bool {
        let count = (next.queue.len() - self.queue.len()) as nat;
        &&& next.same_setup(self)
        &&& self.queue.is_prefix_of(next.queue)
        &&& next.buffer == frame::after_frames(self.buffer, count)
        &&& count > 0 ==> next.queue.len() <= self.queue_size
        &&& forall|i: nat| i < count ==> #[trigger] self.decodes_frame(i, next)
    }

    /// Frame number `i` of the buffer is there and may be read as the message that the
    /// queue of `next` holds for it.
    pub open spec fn decodes_frame(self, i: nat, next: Self) -> bool {
        let rest = frame::after_frames(self.buffer, i);
        &&& frame::has_frame(rest)
        &&& encoder::may_decode(
            self.decoder,
            frame::payload(rest),
            Ok(next.queue[(self.queue.len() + i) as int]),
        )
    }

    /// However the decoder answers, no frame that is reached announces more bytes than
    /// any buffer can hold.
    pub open spec fn lengths_fit(self) -> bool {
        forall|next: Self| #[trigger]
            self.decodes_to(next) && next.has_room() ==> !frame::oversized(next.buffer)
    }

    /// Nothing more can be decoded: the queue is full or the first frame incomplete.
    pub open spec fn is_settled(self) -> bool {
        !self.has_room() || !frame::has_frame(self.buffer)
    }

    /// Nothing more can be decoded, and where the queue has room, the first frame does
    /// not announce more bytes than any buffer can hold.
    pub open spec fn is_at_rest(self) -> bool {
        &&& self.is_settled()
        &&& self.has_room() ==> !frame::oversized(self.buffer)
    }

    /// The first frame is refused with `error`.
    pub open spec fn fails_with(self, error: Decoder::Error) -> bool {
        &&& self.has_room()
        &&& frame::has_frame(self.buffer)
        &&& encoder::may_decode(self.decoder, frame::payload(self.buffer), Err(error))
    }
}

/// The read half: received bytes on their way to messages.
pub struct ConnectionReadState<In, Decoder> {
    recv_queue: VecDeque<Message<In>>,
    recv_buffer: BytesMut,
    config: ReadConnectionConfig<Decoder>,
}

impl<In, Decoder> View for ConnectionReadState<In, Decoder> {
    type V = ReadView<In, Decoder>;

    closed spec fn view(&self) -> ReadView<In, Decoder> {
        ReadView {
            queue: self.recv_queue@,
            buffer: buffer::buffer_contents(self.recv_buffer),
            queue_size: self.config.recv_queue_size.spec_value() as nat,
            buffer_size: self.config.recv_buffer_size.spec_value() as nat,
            decoder: self.config.coder,
        }
    }
}

impl<Decoder> ReadConnectionConfig<Decoder> {
    /// A read half that has received nothing.
    pub open spec fn initial<In>(self) -> ReadView<In, Decoder> {
        ReadView {
            queue: Seq::empty(),
            buffer: Seq::empty(),
            queue_size: self.recv_queue_size.spec_value() as nat,
            buffer_size: self.recv_buffer_size.spec_value() as nat,
            decoder: self.coder,
        }
    }
}

impl<In, Decoder> ConnectionReadState<In, Decoder> {
    pub fn new(config: ReadConnectionConfig<Decoder>) -> (state: Self)
        requires
            config.recv_buffer_size.spec_value() <= isize::MAX,
        ensures
            state@ == config.initial::<In>(),
            state@.wf(),
    {
        proof {
            use_type_invariant(&config.recv_queue_size);
            use_type_invariant(&config.recv_buffer_size);
        }
        ConnectionReadState {
            recv_queue: VecDeque::new(),
            recv_buffer: buffer::buffer_with_capacity(config.recv_buffer_size.get()),
            config,
        }
    }
}

impl<In, Decoder> ConnectionReadState<In, Decoder> where Decoder: SansDecoder<In> {
    /// Pop one item from the recv queue
    pub fn consume_item(&mut self) -> (item: Option<Message<In>>)
        requires
            old(self)@.wf(),
        ensures
            final(self)@.wf(),
            old(self)@.pops_to(final(self)@, item),
    {
        self.recv_queue.pop_front()
    }

    /// Called by the reader to process incoming items
    ///
    /// All bytes are taken as long as fewer than the buffer size are held, and none
    /// otherwise. The number of bytes taken is returned.
    pub fn feed_bytes(&mut self, bytes: &[u8]) -> (fed: usize)
        requires
            old(self)@.wf(),
            old(self)@.can_take(bytes@),
        ensures
            final(self)@.wf(),
            fed == old(self)@.takes(bytes@),
            final(self)@ == old(self)@.after_taking(bytes@),
    {
        if buffer::buffer_len(&self.recv_buffer) >= self.config.recv_buffer_size.get() {
            0
        } else {
            buffer::buffer_extend(&mut self.recv_buffer, bytes);
            bytes.len()
        }
    }

    /// As `feed_bytes`, for any number of bytes: `None`, and nothing happens, where they
    /// would grow the buffer past what can be allocated.
    pub fn try_feed_bytes(&mut self, bytes: &[u8]) -> (fed: Option<usize>)
        requires
            old(self)@.wf(),
        ensures
            final(self)@.wf(),
            match fed {
                Some(fed) => old(self)@.can_take(bytes@) && fed == old(self)@.takes(bytes@)
                    && final(self)@ == old(self)@.after_taking(bytes@),
                None => !old(self)@.can_take(bytes@) && final(self)@ == old(self)@,
            },
    {
        let most: usize = isize::MAX as usize;
        let held: usize = buffer::buffer_len(&self.recv_buffer);
        if held < self.config.recv_buffer_size.get() && most - held < bytes.len() {
            return None;
        }
        Some(self.feed_bytes(bytes))
    }

    /// Process function to advance the current state
    ///
    /// Decodes frames from the buffer to the queue until the queue is full or the next
    /// frame is incomplete. A frame that the decoder refuses stays in the buffer.
    pub fn process(&mut self) -> (result: Result<(), Decoder::Error>)
        requires
            old(self)@.wf(),
            old(self)@.lengths_fit(),
        ensures
            final(self)@.wf(),
            old(self)@.decodes_to(final(self)@),
            match result {
                Ok(()) => final(self)@.is_at_rest(),
                Err(error) => final(self)@.fails_with(error),
            },
    {
        match self.try_process() {
            Some(result) => result,
            None => unreached(),
        }
    }

    /// As `process`, for any received bytes: `None` where the next frame announces more
    /// bytes than any buffer can hold, behind the frames that were decoded before it.
    pub fn try_process(&mut self) -> (result: Option<Result<(), Decoder::Error>>)
        requires
            old(self)@.wf(),
        ensures
            final(self)@.wf(),
            old(self)@.decodes_to(final(self)@),
            match result {
                Some(Ok(())) => final(self)@.is_at_rest(),
                Some(Err(error)) => final(self)@.fails_with(error),
                None => final(self)@.has_room() && frame::oversized(final(self)@.buffer),
            },
    {
        loop
            invariant
                self@.wf(),
                old(self)@.decodes_to(self@),
            decreases self@.buffer.len(),
        {
            if self.recv_queue.len() >= self.config.recv_queue_size.get() {
                return Some(Ok(()));
            }
            let held = buffer::buffer_as_slice(&self.recv_buffer);

            if held.len() < frame::HEADER_LEN {
                return Some(Ok(()));
            }
            let header = slice_subrange(held, 0, frame::HEADER_LEN);
            let next_len: usize = u64_from_le_bytes(header) as usize;
            assert(next_len == frame::payload_len(self@.buffer));

            if next_len > usize::MAX - frame::HEADER_LEN {
                return None;
            }
            let next_end: usize = frame::HEADER_LEN + next_len;

            if held.len() < next_end {
                return Some(Ok(()));
            }
            let items_buf = slice_subrange(held, frame::HEADER_LEN, next_end);
            assert(items_buf@ == frame::payload(self@.buffer));

            let next_item = match self.config.coder.decode(items_buf) {
                Ok(next_item) => next_item,
                Err(error) => {
                    return Some(Err(error));
                },
            };

            let ghost before = self@;

            self.recv_queue.push_back(next_item);
            let _ = buffer::buffer_split_to(&mut self.recv_buffer, next_end);

            proof {
                old(self)@.lemma_decodes_one_more(before, self@, next_item);
            }
        }
    }
}

impl<In, Decoder: SansDecoder<In>> ReadView<In, Decoder> {
    /// Decoding one further frame continues what was decoded before.
    proof fn lemma_decodes_one_more(self, mid: Self, next: Self, item: Message<In>)
        requires
            self.decodes_to(mid),
            mid.has_room(),
            frame::has_frame(mid.buffer),
            next.same_setup(mid),
            next.queue == mid.queue.push(item),
            encoder::may_decode(mid.decoder, frame::payload(mid.buffer), Ok(item)),
            next.buffer == frame::after_frame(mid.buffer),
        ensures
            self.decodes_to(next),
    {
        let count = (next.queue.len() - self.queue.len()) as nat;
        assert forall|i: nat| i < count implies #[trigger] self.decodes_frame(i, next) by {
            if i < count - 1 {
                assert(self.decodes_frame(i, mid));
            }
        }
    }
}

/// What the write half of a connection holds.
#[verifier::ext_equal]
pub struct WriteView<Out, Encoder> {
    /// Messages that are not encoded yet, oldest first.
    pub queue: Seq<Message<Out>>,
    /// Encoded bytes that nobody has consumed yet.
    pub buffer: Seq<u8>,
    /// No more messages are taken once so many are queued.
    pub queue_size: nat,
    /// The capacity that an emptied buffer starts with.
    pub buffer_size: nat,
    pub encoder: Encoder,
}

impl<Out, Encoder> WriteView<Out, Encoder> {
    /// The queue stays within its size and the buffer within what can be allocated,
    /// neither size is zero, and an empty buffer can be allocated.
    pub open spec fn wf(self) -> bool {
        &&& self.queue.len() <= self.queue_size
        &&& self.buffer.len() <= isize::MAX
        &&& 0 < self.queue_size
        &&& 0 < self.buffer_size <= isize::MAX
    }

    /// The same with `queue` and `buffer` in place of its own.
    pub open spec fn with(self, queue: Seq<Message<Out>>, buffer: Seq<u8>) -> Self {
        WriteView { queue, buffer, ..self }
    }

    /// The first `len` bytes of the buffer, or all where it holds fewer, leave it as
    /// `bytes`. Nothing is handed out where the buffer is empty.
    pub open spec fn consumes_to(self, next: Self, len: nat, bytes: Option<Bytes>) -> bool {
        let count = if len < self.buffer.len() {
            len as int
        } else {
            self.buffer.len() as int
        };
        match bytes {
            Some(bytes) => {
                &&& self.buffer.len() > 0
                &&& buffer::bytes_contents(bytes) == self.buffer.take(count)
                &&& next == self.with(self.queue, self.buffer.skip(count))
            },
            None => self.buffer.len() == 0 && next == self,
        }
    }

    /// `item` joins the end of the queue where the queue has room, and is `refused`
    /// otherwise.
    pub open spec fn queues_to(
        self,
        next: Self,
        item: Message<Out>,
        refused: Option<Message<Out>>,
    ) -> bool {
        if self.queue.len() < self.queue_size {
            &&& refused is None
            &&& next == self.with(self.queue.push(item), self.buffer)
        } else {
            &&& refused == Some(item)
            &&& next == self
        }
    }
}

impl<Out, Encoder: SansEncoder<Out>> WriteView<Out, Encoder> {
    /// The first messages of the queue, as many as `encoded` holds, may be answered by
    /// the encoder with `encoded`.
    pub open spec fn encodes_as(self, encoded: Seq<(Vec<u8>, u64)>) -> bool {
        &&& encoded.len() <= self.queue.len()
        &&& forall|i: int|
            0 <= i < encoded.len() ==> encoder::may_encode(
                self.encoder,
                self.queue[i],
                Ok(#[trigger] encoded[i]),
            )
    }

    /// However the encoder answers, the frames fit behind the bytes that are held.
    pub open spec fn frames_fit(self) -> bool {
        forall|encoded: Seq<(Vec<u8>, u64)>| #[trigger]
            self.encodes_as(encoded) ==> self.buffer.len() + frame::frames(encoded).len()
                <= isize::MAX
    }

    /// What is left when the frames of the first messages, `encoded`, were appended to
    /// the buffer and `taken` messages have left the queue.
    pub open spec fn after_encoding(self, encoded: Seq<(Vec<u8>, u64)>, taken: nat) -> Self {
        self.with(self.queue.skip(taken as int), self.buffer + frame::frames(encoded))
    }

    /// `self` becomes `next` by encoding queued messages, oldest first, each to a frame
    /// at the end of the buffer, and `result` tells how that ended:
    /// - with `Ok`, all messages were answered with `encoded`;
    /// - with `Err`, the message behind those answered with `encoded` was refused;
    /// - with `None`, the last of the `encoded` frames no longer fitted.
    ///
    /// A message that was refused or did not fit is lost. The messages behind it stay
    /// queued.
    pub open spec fn encodes_to(
        self,
        next: Self,
        encoded: Seq<(Vec<u8>, u64)>,
        result: Option<Result<(), Encoder::Error>>,
    ) -> bool {
        &&& self.encodes_as(encoded)
        &&& match result {
            Some(Ok(())) => {
                &&& encoded.len() == self.queue.len()
                &&& next == self.after_encoding(encoded, encoded.len())
            },
            Some(Err(error)) => {
                &&& encoded.len() < self.queue.len()
                &&& encoder::may_encode(
                    self.encoder,
                    self.queue[encoded.len() as int],
                    Err(error),
                )
                &&& next == self.after_encoding(encoded, encoded.len() + 1)
            },
            None => {
                &&& encoded.len() > 0
                &&& self.buffer.len() + frame::frames(encoded).len() > isize::MAX
                &&& next == self.after_encoding(encoded.drop_last(), encoded.len())
            },
        }
    }
}

/// The write half: messages on their way to bytes.
pub struct ConnectionWriteState<Out, Encoder> {
    send_queue: VecDeque<Message<Out>>,
    send_buffer: BytesMut,
    config: WriteConnectionConfig<Encoder>,
}

impl<Out, Encoder> View for ConnectionWriteState<Out, Encoder> {
    type V = WriteView<Out, Encoder>;

    closed spec fn view(&self) -> WriteView<Out, Encoder> {
        WriteView {
            queue: self.send_queue@,
            buffer: buffer::buffer_contents(self.send_buffer),
            queue_size: self.config.send_queue_size.spec_value() as nat,
            buffer_size: self.config.send_buffer_size.spec_value() as nat,
            encoder: self.config.coder,
        }
    }
}

impl<Encoder> WriteConnectionConfig<Encoder> {
    /// A write half that was handed nothing.
    pub open spec fn initial<Out>(self) -> WriteView<Out, Encoder> {
        WriteView {
            queue: Seq::empty(),
            buffer: Seq::empty(),
            queue_size: self.send_queue_size.spec_value() as nat,
            buffer_size: self.send_buffer_size.spec_value() as nat,
            encoder: self.coder,
        }
    }
}

impl<Out, Encoder> ConnectionWriteState<Out, Encoder> {
    pub fn new(config: WriteConnectionConfig<Encoder>) -> (state: Self)
        requires
            config.send_buffer_size.spec_value() <= isize::MAX,
        ensures
            state@ == config.initial::<Out>(),
            state@.wf(),
    {
        proof {
            use_type_invariant(&config.send_queue_size);
            use_type_invariant(&config.send_buffer_size);
        }
        ConnectionWriteState {
            send_queue: VecDeque::new(),
            send_buffer: buffer::buffer_with_capacity(config.send_buffer_size.get()),
            config,
        }
    }
}

impl<Out, Encoder> ConnectionWriteState<Out, Encoder> where Encoder: SansEncoder<Out> {
    /// Available sender space counted in items
    pub fn available_space(&self) -> (space: usize)
        requires
            self@.wf(),
        ensures
            space == self@.queue_size - self@.queue.len(),
    {
        self.config.send_queue_size.get() - self.send_queue.len()
    }

    /// Consume up to `len` bytes from the send buffer
    pub fn consume_bytes(&mut self, len: usize) -> (bytes: Option<Bytes>)
        requires
            old(self)@.wf(),
        ensures
            final(self)@.wf(),
            old(self)@.consumes_to(final(self)@, len as nat, bytes),
    {
        if buffer::buffer_is_empty(&self.send_buffer) {
            return None;
        }
        if buffer::buffer_len(&self.send_buffer) < len {
            self.consume_all()
        } else {
            let to_send = buffer::buffer_split_to(&mut self.send_buffer, len);
            Some(buffer::buffer_freeze(to_send))
        }
    }

    /// Consume all the bytes from the send buffer
    pub fn consume_all(&mut self) -> (bytes: Option<Bytes>)
        requires
            old(self)@.wf(),
        ensures
            final(self)@.wf(),
            old(self)@.consumes_to(final(self)@, old(self)@.buffer.len(), bytes),
    {
        if buffer::buffer_is_empty(&self.send_buffer) {
            return None;
        }
        let mut to_send = buffer::buffer_with_capacity(self.config.send_buffer_size.get());
        std::mem::swap(&mut self.send_buffer, &mut to_send);
        assert(old(self)@.buffer.take(old(self)@.buffer.len() as int) == old(self)@.buffer);
        assert(old(self)@.buffer.skip(old(self)@.buffer.len() as int) == self@.buffer);
        Some(buffer::buffer_freeze(to_send))
    }

    /// Called by the writer to send outgoing items
    ///
    /// The item is handed back where the queue is full.
    pub fn feed_item(&mut self, item: Message<Out>) -> (refused: Option<Message<Out>>)
        requires
            old(self)@.wf(),
        ensures
            final(self)@.wf(),
            old(self)@.queues_to(final(self)@, item, refused),
    {
        if self.send_queue.len() >= self.config.send_queue_size.get() {
            Some(item)
        } else {
            self.send_queue.push_back(item);
            None
        }
    }

    pub fn write_queue_empty(&self) -> (empty: bool)
        ensures
            empty == (self@.queue.len() == 0),
    {
        self.send_queue.len() == 0
    }

    /// Process function to advance the current state
    ///
    /// Encodes the queued messages, oldest first, each to a frame at the end of the
    /// buffer. It stops at a message that the encoder refuses, and drops it.
    pub fn process(&mut self) -> (result: Result<(), Encoder::Error>)
        requires
            old(self)@.wf(),
            old(self)@.frames_fit(),
        ensures
            final(self)@.wf(),
            exists|encoded: Seq<(Vec<u8>, u64)>| #[trigger]
                old(self)@.encodes_to(final(self)@, encoded, Some(result)),
    {
        match self.try_process() {
            Some(result) => result,
            None => unreached(),
        }
    }

    /// As `process`, whatever the encoder answers: `None` where the next frame would
    /// grow the buffer past what can be allocated.
    pub fn try_process(&mut self) -> (result: Option<Result<(), Encoder::Error>>)
        requires
            old(self)@.wf(),
        ensures
            final(self)@.wf(),
            exists|encoded: Seq<(Vec<u8>, u64)>| #[trigger]
                old(self)@.encodes_to(final(self)@, encoded, result),
    {
        let ghost mut encoded: Seq<(Vec<u8>, u64)> = Seq::empty();

        loop
            invariant
                self@.wf(),
                old(self)@.encodes_as(encoded),
                self@ == old(self)@.after_encoding(encoded, encoded.len()),
            decreases self@.queue.len(),
        {
            let to_send = match self.send_queue.pop_front() {
                Some(to_send) => to_send,
                None => {
                    assert(old(self)@.encodes_to(self@, encoded, Some(Ok(()))));
                    return Some(Ok(()));
                },
            };
            assert(self@ =~= old(self)@.after_encoding(encoded, encoded.len() + 1));
            let (bytes, len) = match self.config.coder.encode(&to_send) {
                Ok(answer) => answer,
                Err(error) => {
                    assert(old(self)@.encodes_to(self@, encoded, Some(Err(error))));
                    return Some(Err(error));
                },
            };
            proof {
                let more = encoded.push((bytes, len));
                assert(more.drop_last() == encoded);
                encoded = more;
            }

            let header = u64_to_le_bytes(len);
            let most: usize = isize::MAX as usize;
            let held: usize = buffer::buffer_len(&self.send_buffer);
            if most - held < header.len() || most - held - header.len() < bytes.len() {
                assert(old(self)@.encodes_to(self@, encoded, None));
                return None;
            }
            buffer::buffer_extend(&mut self.send_buffer, header.as_slice());
            buffer::buffer_extend(&mut self.send_buffer, bytes.as_slice());
        }
    }
}

/// What both halves of a connection hold.
#[verifier::ext_equal]
pub struct ConnectionView<In, Out, Encoder, Decoder> {
    pub read: ReadView<In, Decoder>,
    pub write: WriteView<Out, Encoder>,
}

impl<In, Out, Encoder, Decoder> ConnectionView<In, Out, Encoder, Decoder> {
    pub open spec fn wf(self) -> bool {
        &&& self.read.wf()
        &&& self.write.wf()
    }
}

/// Both halves of a connection.
pub struct ConnectionState<In, Out, Encoder, Decoder> {
    read: ConnectionReadState<In, Decoder>,
    write: ConnectionWriteState<Out, Encoder>,
}

impl<In, Out, Encoder, Decoder> View for ConnectionState<In, Out, Encoder, Decoder> {
    type V = ConnectionView<In, Out, Encoder, Decoder>;

    closed spec fn view(&self) -> ConnectionView<In, Out, Encoder, Decoder> {
        ConnectionView { read: self.read@, write: self.write@ }
    }
}

impl<In, Out, Encoder, Decoder> ConnectionState<In, Out, Encoder, Decoder> {
    pub fn new(config: ConnectionConfig<Encoder, Decoder>) -> (state: Self)
        requires
            config.read_config.recv_buffer_size.spec_value() <= isize::MAX,
            config.write_config.send_buffer_size.spec_value() <= isize::MAX,
        ensures
            state@.read == config.read_config.initial::<In>(),
            state@.write == config.write_config.initial::<Out>(),
            state@.wf(),
    {
        let (read, write) = config.split();

        ConnectionState {
            read: ConnectionReadState::new(read),
            write: ConnectionWriteState::new(write),
        }
    }

    /// The two halves, to be used on their own.
    pub fn into_split(self) -> (halves: (
        ConnectionWriteState<Out, Encoder>,
        ConnectionReadState<In, Decoder>,
    ))
        ensures
            halves.0@ == self@.write,
            halves.1@ == self@.read,
    {
        (self.write, self.read)
    }
}

impl<In, Out, Encoder, Decoder> ConnectionState<In, Out, Encoder, Decoder> where
    Encoder: SansEncoder<Out>,
 {
    /// Available sender space counted in items
    pub fn available_space(&self) -> (space: usize)
        requires
            self@.wf(),
        ensures
            space == self@.write.queue_size - self@.write.queue.len(),
    {
        self.write.available_space()
    }

    /// Consume up to `len` bytes from the send buffer
    pub fn consume_bytes(&mut self, len: usize) -> (bytes: Option<Bytes>)
        requires
            old(self)@.wf(),
        ensures
            final(self)@.wf(),
            final(self)@.read == old(self)@.read,
            old(self)@.write.consumes_to(final(self)@.write, len as nat, bytes),
    {
        self.write.consume_bytes(len)
    }

    /// Consume all the bytes from the send buffer
    pub fn consume_all(&mut self) -> (bytes: Option<Bytes>)
        requires
            old(self)@.wf(),
        ensures
            final(self)@.wf(),
            final(self)@.read == old(self)@.read,
            old(self)@.write.consumes_to(
                final(self)@.write,
                old(self)@.write.buffer.len(),
                bytes,
            ),
    {
        self.write.consume_all()
    }

    pub fn write_queue_empty(&self) -> (empty: bool)
        ensures
            empty == (self@.write.queue.len() == 0),
    {
        self.write.write_queue_empty()
    }

    /// Called by the writer to send outgoing items
    pub fn feed_item(&mut self, item: Message<Out>) -> (refused: Option<Message<Out>>)
        requires
            old(self)@.wf(),
        ensures
            final(self)@.wf(),
            final(self)@.read == old(self)@.read,
            old(self)@.write.queues_to(final(self)@.write, item, refused),
    {
        self.write.feed_item(item)
    }

    /// Process function to advance the write half
    pub fn process_write(&mut self) -> (result: Result<(), Encoder::Error>)
        requires
            old(self)@.wf(),
            old(self)@.write.frames_fit(),
        ensures
            final(self)@.wf(),
            final(self)@.read == old(self)@.read,
            exists|encoded: Seq<(Vec<u8>, u64)>| #[trigger]
                old(self)@.write.encodes_to(final(self)@.write, encoded, Some(result)),
    {
        self.write.process()
    }

    /// As `process_write`, whatever the encoder answers: `None` where the next frame
    /// would grow the buffer past what can be allocated.
    pub fn try_process_write(&mut self) -> (result: Option<Result<(), Encoder::Error>>)
        requires
            old(self)@.wf(),
        ensures
            final(self)@.wf(),
            final(self)@.read == old(self)@.read,
            exists|encoded: Seq<(Vec<u8>, u64)>| #[trigger]
                old(self)@.write.encodes_to(final(self)@.write, encoded, result),
    {
        self.write.try_process()
    }
}

impl<In, Out, Encoder, Decoder> ConnectionState<In, Out, Encoder, Decoder> where
    Decoder: SansDecoder<In>,
 {
    /// Pop one item from the recv queue
    pub fn consume_item(&mut self) -> (item: Option<Message<In>>)
        requires
            old(self)@.wf(),
        ensures
            final(self)@.wf(),
            final(self)@.write == old(self)@.write,
            old(self)@.read.pops_to(final(self)@.read, item),
    {
        self.read.consume_item()
    }

    /// Called by the reader to process incoming items
    pub fn feed_bytes(&mut self, bytes: &[u8]) -> (fed: usize)
        requires
            old(self)@.wf(),
            old(self)@.read.can_take(bytes@),
        ensures
            final(self)@.wf(),
            final(self)@.write == old(self)@.write,
            fed == old(self)@.read.takes(bytes@),
            final(self)@.read == old(self)@.read.after_taking(bytes@),
    {
        self.read.feed_bytes(bytes)
    }

    /// As `feed_bytes`, for any number of bytes: `None`, and nothing happens, where they
    /// would grow the buffer past what can be allocated.
    pub fn try_feed_bytes(&mut self, bytes: &[u8]) -> (fed: Option<usize>)
        requires
            old(self)@.wf(),
        ensures
            final(self)@.wf(),
            final(self)@.write == old(self)@.write,
            match fed {
                Some(fed) => old(self)@.read.can_take(bytes@) && fed == old(self)@.read.takes(
                    bytes@,
                ) && final(self)@.read == old(self)@.read.after_taking(bytes@),
                None => !old(self)@.read.can_take(bytes@) && final(self)@ == old(self)@,
            },
    {
        self.read.try_feed_bytes(bytes)
    }

    /// Process function to advance the current state
    pub fn process_read(&mut self) -> (result: Result<(), Decoder::Error>)
        requires
            old(self)@.wf(),
            old(self)@.read.lengths_fit(),
        ensures
            final(self)@.wf(),
            final(self)@.write == old(self)@.write,
            old(self)@.read.decodes_to(final(self)@.read),
            match result {
                Ok(()) => final(self)@.read.is_at_rest(),
                Err(error) => final(self)@.read.fails_with(error),
            },
    {
        self.read.process()
    }

    /// As `process_read`, for any received bytes: `None` where the next frame announces
    /// more bytes than any buffer can hold.
    pub fn try_process_read(&mut self) -> (result: Option<Result<(), Decoder::Error>>)
        requires
            old(self)@.wf(),
        ensures
            final(self)@.wf(),
            final(self)@.write == old(self)@.write,
            old(self)@.read.decodes_to(final(self)@.read),
            match result {
                Some(Ok(())) => final(self)@.read.is_at_rest(),
                Some(Err(error)) => final(self)@.read.fails_with(error),
                None => final(self)@.read.has_room() && frame::oversized(final(self)@.read.buffer),
            },
    {
        self.read.try_process()
    }
}

} // verus!
