//! A connection over a reader and a writer, one decision at a time.
//!
//! Reading, writing and waiting happen outside. Each `poll_*` call decides what is to
//! be done next and hands out what that takes; the outcome comes back through
//! `finish_read` and `finish_write`.

use crate::buffer;
use crate::connection_state::{
    ConnectionConfig, ConnectionState, ConnectionView, ReadView, WriteView,
};
use crate::encoder;
use crate::encoder::{SansDecoder, SansEncoder};
use crate::frame;
use crate::message::Message;
use bytes::Bytes;
use vstd::prelude::*;
use vstd::slice::slice_subrange;

verus! {

/// How long to wait before the next step after `ReadStep::Wait`.
pub const RETRY_DELAY_MILLIS: u64 = 100;

/// Where the reader is.
pub enum ReadState<R> {
    /// Nothing is being read. The first `read` bytes of `buf` are not fed yet.
    Idle { reader: R, buf: Vec<u8>, read: usize },
    /// A read is under way.
    Reading,
}

/// Where the writer is.
pub enum WriteState<W> {
    /// Nothing is being written.
    Idle(W),
    /// A write is under way.
    Writing,
    /// The writer is being shut down, or has been.
    Closing,
}

impl<Writer> WriteState<Writer> {
    pub fn is_closed(&self) -> (closed: bool)
        ensures
            closed == (self is Closing),
    {
        matches!(self, WriteState::Closing)
    }
}

/// What to do next to receive a message.
pub enum ReadStep<In, R> {
    /// Hand out this message.
    Yield(Message<In>),
    /// Hand out an error: the received bytes are no message.
    InvalidInput,
    /// Wait a while, then take the next step.
    Wait,
    /// Read from `reader` to the front of `buf`, and wait for that.
    Read { reader: R, buf: Vec<u8> },
    /// Wait for the read that is under way.
    AwaitRead,
    /// Give up: a length is beyond what the machine can hold.
    Overflow,
}

/// What to do next before a message is sent.
pub enum ReadyStep {
    /// A message may be sent.
    Ready,
    /// Wait for the write that is under way.
    AwaitWrite,
    /// Nothing more will be sent.
    Pending,
}

/// What to do next to write out everything or to close.
pub enum WriteStep<W> {
    /// Nothing is left to be done.
    Done,
    /// Hand out an error: the connection is closed.
    Reset,
    /// Write all of `bytes` to `writer`, and wait for that.
    Write { writer: W, bytes: Bytes },
    /// Flush `writer` and shut it down, and wait for that.
    Shutdown { writer: W },
    /// Wait for the write that is under way.
    AwaitWrite,
    /// Wait for the shutdown that is under way.
    AwaitClose,
}

/// Why a message was not sent.
#[derive(Debug, Clone, Copy, PartialEq, Eq)]
pub enum SendError {
    /// The connection is closed.
    ConnectionReset,
    /// The message cannot be encoded.
    InvalidInput,
    /// A length is beyond what the machine can hold.
    Overflow,
}

/// What a connection holds.
#[verifier::ext_equal]
pub struct TokioConnectionView<In, Out, Encoder, Decoder, Reader, Writer> {
    pub state: ConnectionView<In, Out, Encoder, Decoder>,
    pub read_state: ReadState<Reader>,
    pub write_state: WriteState<Writer>,
}

impl<In, Out, Encoder, Decoder, Reader, Writer> TokioConnectionView<
    In,
    Out,
    Encoder,
    Decoder,
    Reader,
    Writer,
> {
    /// Both halves are well formed, no message waits to be encoded, and what is not fed
    /// yet lies within its buffer.
    pub open spec fn wf(self) -> bool {
        &&& self.state.wf()
        &&& self.state.write.queue.len() == 0
        &&& match self.read_state {
            ReadState::Idle { reader, buf, read } => read <= buf@.len(),
            ReadState::Reading => true,
        }
    }

    /// The same with another read half.
    pub open spec fn with_read(
        self,
        read: ReadView<In, Decoder>,
        read_state: ReadState<Reader>,
    ) -> Self {
        TokioConnectionView {
            state: ConnectionView { read, ..self.state },
            read_state,
            ..self
        }
    }

    /// What is left after a read that gave the first `read` bytes of `buf`. After a read
    /// that gave none, nothing changes.
    pub open spec fn after_read(self, reader: Reader, buf: Vec<u8>, read: usize) -> Self {
        if read == 0 {
            self
        } else {
            self.with_read(self.state.read, ReadState::Idle { reader, buf, read })
        }
    }

    /// The same with another write half.
    pub open spec fn with_write(
        self,
        write: WriteView<Out, Encoder>,
        write_state: WriteState<Writer>,
    ) -> Self {
        TokioConnectionView {
            state: ConnectionView { write, ..self.state },
            write_state,
            ..self
        }
    }
}

/// `buf` with the bytes from `by` on moved to its front, the last bytes left in place.
pub open spec fn shifted(buf: Seq<u8>, by: int) -> Seq<u8> {
    buf.skip(by) + buf.skip(buf.len() - by)
}

impl<In, Out, Encoder, Decoder, Reader, Writer> TokioConnectionView<
    In,
    Out,
    Encoder,
    Decoder,
    Reader,
    Writer,
> where Decoder: SansDecoder<In> {
    /// `poll_next` turns `self` into `next` and asks for `step`: first whatever can be
    /// decoded is decoded, which gives `mid`, then the step follows from `mid`.
    pub open spec fn reads_to(
        self,
        mid: ReadView<In, Decoder>,
        next: Self,
        step: ReadStep<In, Reader>,
    ) -> bool {
        &&& self.state.read.decodes_to(mid)
        &&& match step {
            ReadStep::Yield(item) => {
                &&& mid.is_at_rest()
                &&& mid.pops_to(next.state.read, Some(item))
                &&& next == self.with_read(next.state.read, self.read_state)
            },
            ReadStep::InvalidInput => {
                &&& exists|error: Decoder::Error| mid.fails_with(error)
                &&& next == self.with_read(mid, self.read_state)
            },
            ReadStep::Wait => {
                &&& mid.is_at_rest()
                &&& mid.queue.len() == 0
                &&& self.read_state matches ReadState::Idle { reader, buf, read } && {
                    let fed = mid.takes(buf@.take(read as int));
                    &&& read != 0
                    &&& mid.can_take(buf@.take(read as int))
                    &&& fed != buf@.len()
                    &&& next == self.with_read(
                        mid.after_taking(buf@.take(read as int)),
                        next.read_state,
                    )
                    &&& next.read_state matches ReadState::Idle {
                        reader: next_reader,
                        buf: next_buf,
                        read: next_read,
                    } && next_reader == reader && next_buf@ == shifted(buf@, fed as int)
                        && next_read == read - fed
                }
            },
            ReadStep::Read { reader: handed_reader, buf: handed_buf } => {
                &&& mid.is_at_rest()
                &&& mid.queue.len() == 0
                &&& self.read_state matches ReadState::Idle { reader, buf, read } && {
                    &&& handed_reader == reader
                    &&& handed_buf == buf
                    &&& if read == 0 {
                        next == self.with_read(mid, ReadState::Reading)
                    } else {
                        &&& mid.can_take(buf@.take(read as int))
                        &&& mid.takes(buf@.take(read as int)) == buf@.len()
                        &&& next == self.with_read(
                            mid.after_taking(buf@.take(read as int)),
                            ReadState::Reading,
                        )
                    }
                }
            },
            ReadStep::AwaitRead => {
                &&& mid.is_at_rest()
                &&& mid.queue.len() == 0
                &&& self.read_state is Reading
                &&& next == self.with_read(mid, self.read_state)
            },
            ReadStep::Overflow => {
                &&& next == self.with_read(mid, self.read_state)
                &&& {
                    ||| mid.has_room() && frame::oversized(mid.buffer)
                    ||| {
                        &&& mid.is_at_rest()
                        &&& mid.queue.len() == 0
                        &&& self.read_state matches ReadState::Idle { reader, buf, read } && read
                            != 0 && !mid.can_take(buf@.take(read as int))
                    }
                }
            },
        }
    }
}

impl<In, Out, Encoder, Decoder, Reader, Writer> TokioConnectionView<
    In,
    Out,
    Encoder,
    Decoder,
    Reader,
    Writer,
> where Encoder: SansEncoder<Out> {
    /// `start_send` of `item` turns `self` into `next` and answers `result`. Unless the
    /// connection is closed, the encoder is asked and gives `answer`. The frame of an
    /// encoded message joins the bytes that wait to be written; one that does not fit is
    /// lost.
    pub open spec fn sends_to(
        self,
        item: Message<Out>,
        answer: Result<(Vec<u8>, u64), Encoder::Error>,
        next: Self,
        result: Result<(), SendError>,
    ) -> bool {
        let write = self.state.write;
        if self.write_state is Closing {
            &&& result == Err::<(), SendError>(SendError::ConnectionReset)
            &&& next == self
        } else {
            &&& encoder::may_encode(write.encoder, item, answer)
            &&& match answer {
                Ok((bytes, len)) => {
                    let buffer = write.buffer + frame::frame(bytes@, len);
                    if buffer.len() <= isize::MAX {
                        &&& result == Ok::<(), SendError>(())
                        &&& next == self.with_write(
                            write.with(write.queue, buffer),
                            self.write_state,
                        )
                    } else {
                        &&& result == Err::<(), SendError>(SendError::Overflow)
                        &&& next == self
                    }
                },
                Err(_) => {
                    &&& result == Err::<(), SendError>(SendError::InvalidInput)
                    &&& next == self
                },
            }
        }
    }

    /// `poll_flush` turns `self` into `next` and asks for `step`.
    pub open spec fn flushes_to(self, next: Self, step: WriteStep<Writer>) -> bool {
        match self.write_state {
            WriteState::Idle(writer) => if self.state.write.buffer.len() == 0 {
                &&& step is Done
                &&& next == self
            } else {
                self.writes_to(next, writer, step)
            },
            WriteState::Writing => step is AwaitWrite && next == self,
            WriteState::Closing => step is Reset && next == self,
        }
    }

    /// `poll_close` turns `self` into `next` and asks for `step`.
    pub open spec fn closes_to(self, next: Self, step: WriteStep<Writer>) -> bool {
        match self.write_state {
            WriteState::Idle(writer) => if self.state.write.buffer.len() == 0 {
                &&& step == (WriteStep::Shutdown { writer })
                &&& next == self.with_write(self.state.write, WriteState::Closing)
            } else {
                self.writes_to(next, writer, step)
            },
            WriteState::Writing => step is AwaitWrite && next == self,
            WriteState::Closing => step is AwaitClose && next == self,
        }
    }

    /// All encoded bytes leave the buffer to be written to `writer`.
    pub open spec fn writes_to(self, next: Self, writer: Writer, step: WriteStep<Writer>) -> bool {
        &&& step matches WriteStep::Write { writer: handed_writer, bytes } && handed_writer
            == writer && buffer::bytes_contents(bytes) == self.state.write.buffer
        &&& next == self.with_write(
            self.state.write.with(self.state.write.queue, Seq::empty()),
            WriteState::Writing,
        )
    }
}

/// All bytes of a sequence are the sequence, and nothing is left behind them.
proof fn lemma_whole(bytes: Seq<u8>)
    ensures
        bytes.take(bytes.len() as int) == bytes,
        bytes.skip(bytes.len() as int) == Seq::<u8>::empty(),
{
    assert(bytes.take(bytes.len() as int) == bytes);
    assert(bytes.skip(bytes.len() as int) == Seq::<u8>::empty());
}

/// A connection over a reader and a writer.
pub struct TokioSansConnection<In, Out, Encoder, Decoder, Reader, Writer> {
    state: ConnectionState<In, Out, Encoder, Decoder>,
    read_state: ReadState<Reader>,
    write_state: WriteState<Writer>,
}

impl<In, Out, Encoder, Decoder, Reader, Writer> View for TokioSansConnection<
    In,
    Out,
    Encoder,
    Decoder,
    Reader,
    Writer,
> {
    type V = TokioConnectionView<In, Out, Encoder, Decoder, Reader, Writer>;

    closed spec fn view(&self) -> TokioConnectionView<
        In,
        Out,
        Encoder,
        Decoder,
        Reader,
        Writer,
    > {
        TokioConnectionView {
            state: self.state@,
            read_state: self.read_state,
            write_state: self.write_state,
        }
    }
}

/// Moves the bytes from `by` on to the front of `buf` and leaves the last ones in place.
fn shift(buf: &mut Vec<u8>, by: usize)
    requires
        by <= old(buf)@.len(),
    ensures
        final(buf)@ == shifted(old(buf)@, by as int),
{
    let kept: usize = buf.len() - by;
    let mut i: usize = 0;
    while i < kept
        invariant
            i <= kept,
            by <= old(buf)@.len(),
            kept == old(buf)@.len() - by,
            kept + by <= usize::MAX,
            buf@.len() == old(buf)@.len(),
            forall|j: int| 0 <= j < i ==> buf@[j] == old(buf)@[j + by],
            forall|j: int| i <= j < buf@.len() ==> buf@[j] == old(buf)@[j],
        decreases kept - i,
    {
        let byte: u8 = buf[i + by];
        buf[i] = byte;
        i += 1;
    }
    assert(buf@ =~= shifted(old(buf)@, by as int));
}

impl<In, Out, Encoder, Decoder, Reader, Writer> TokioSansConnection<
    In,
    Out,
    Encoder,
    Decoder,
    Reader,
    Writer,
> {
    pub fn new(
        config: ConnectionConfig<Encoder, Decoder>,
        reader: Reader,
        writer: Writer,
    ) -> (connection: Self)
        requires
            config.read_config.recv_buffer_size.spec_value() * 2 <= isize::MAX,
            config.write_config.send_buffer_size.spec_value() <= isize::MAX,
        ensures
            connection@.wf(),
            connection@.state.read == config.read_config.initial::<In>(),
            connection@.state.write == config.write_config.initial::<Out>(),
            connection@.read_state matches ReadState::Idle { reader: held, buf, read } && held
                == reader && buf@ == Seq::new(
                (config.read_config.recv_buffer_size.spec_value() * 2) as nat,
                |i: int| 0u8,
            ) && read == 0,
            connection@.write_state == WriteState::Idle(writer),
    {
        let buf: Vec<u8> = vec![0u8; config.read_config.recv_buffer_size.get() * 2];
        assert(buf@ =~= Seq::new(
            (config.read_config.recv_buffer_size.spec_value() * 2) as nat,
            |i: int| 0u8,
        ));
        TokioSansConnection {
            read_state: ReadState::Idle { reader, buf, read: 0 },
            state: ConnectionState::new(config),
            write_state: WriteState::Idle(writer),
        }
    }
}

impl<In, Out, Encoder, Decoder, Reader, Writer> TokioSansConnection<
    In,
    Out,
    Encoder,
    Decoder,
    Reader,
    Writer,
> where Decoder: SansDecoder<In> {
    /// Decides what to do next to receive a message.
    pub fn poll_next(&mut self) -> (step: ReadStep<In, Reader>)
        requires
            old(self)@.wf(),
        ensures
            final(self)@.wf(),
            exists|mid: ReadView<In, Decoder>| #[trigger]
                old(self)@.reads_to(mid, final(self)@, step),
    {
        let result = self.state.try_process_read();
        let ghost mid = self@.state.read;
        match result {
            Some(Ok(())) => {},
            Some(Err(error)) => {
                assert(mid.fails_with(error));
                assert(old(self)@.reads_to(mid, self@, ReadStep::InvalidInput));
                return ReadStep::InvalidInput;
            },
            None => {
                assert(old(self)@.reads_to(mid, self@, ReadStep::Overflow));
                return ReadStep::Overflow;
            },
        }

        if let Some(item) = self.state.consume_item() {
            assert(old(self)@.reads_to(mid, self@, ReadStep::Yield(item)));
            return ReadStep::Yield(item);
        }
        let mut read_state: ReadState<Reader> = ReadState::Reading;
        std::mem::swap(&mut self.read_state, &mut read_state);

        match read_state {
            ReadState::Reading => {
                assert(old(self)@.reads_to(mid, self@, ReadStep::AwaitRead));
                ReadStep::AwaitRead
            },
            ReadState::Idle { reader, mut buf, read } => {
                if read != 0 {
                    let fed = self.state.try_feed_bytes(slice_subrange(buf.as_slice(), 0, read));
                    assert(buf@.subrange(0, read as int) == buf@.take(read as int));
                    let fed: usize = match fed {
                        Some(fed) => fed,
                        None => {
                            self.read_state = ReadState::Idle { reader, buf, read };
                            assert(old(self)@.reads_to(mid, self@, ReadStep::Overflow));
                            return ReadStep::Overflow;
                        },
                    };

                    if fed != buf.len() {
                        shift(&mut buf, fed);
                        self.read_state = ReadState::Idle { reader, buf, read: read - fed };
                        assert(old(self)@.reads_to(mid, self@, ReadStep::Wait));
                        return ReadStep::Wait;
                    }
                }
                assert(old(self)@.reads_to(mid, self@, ReadStep::Read { reader, buf }));
                ReadStep::Read { reader, buf }
            },
        }
    }

    /// Takes back the reader and the buffer after a read of `read` bytes, and tells
    /// whether the peer has closed the connection.
    pub fn finish_read(&mut self, reader: Reader, buf: Vec<u8>, read: usize) -> (end: bool)
        requires
            old(self)@.wf(),
            old(self)@.read_state is Reading,
            read <= buf@.len(),
        ensures
            final(self)@.wf(),
            end == (read == 0),
            final(self)@ == old(self)@.after_read(reader, buf, read),
    {
        if read == 0 {
            return true;
        }
        self.read_state = ReadState::Idle { reader, buf, read };
        false
    }
}

impl<In, Out, Encoder, Decoder, Reader, Writer> TokioSansConnection<
    In,
    Out,
    Encoder,
    Decoder,
    Reader,
    Writer,
> where Encoder: SansEncoder<Out> {
    /// Decides what to do next before a message is sent.
    pub fn poll_ready(&self) -> (step: ReadyStep)
        ensures
            step == match self@.write_state {
                WriteState::Idle(_) => ReadyStep::Ready,
                WriteState::Writing => ReadyStep::AwaitWrite,
                WriteState::Closing => ReadyStep::Pending,
            },
    {
        match &self.write_state {
            WriteState::Idle(_) => ReadyStep::Ready,
            WriteState::Writing => ReadyStep::AwaitWrite,
            WriteState::Closing => ReadyStep::Pending,
        }
    }

    /// Encodes a message to be written with the next flush.
    pub fn start_send(&mut self, item: Message<Out>) -> (result: Result<(), SendError>)
        requires
            old(self)@.wf(),
        ensures
            final(self)@.wf(),
            exists|answer: Result<(Vec<u8>, u64), Encoder::Error>| #[trigger]
                old(self)@.sends_to(item, answer, final(self)@, result),
    {
        if self.write_state.is_closed() {
            assert(old(self)@.sends_to(
                item,
                arbitrary(),
                self@,
                Err(SendError::ConnectionReset),
            ));
            return Err(SendError::ConnectionReset);
        }
        let _ = self.state.feed_item(item);
        let ghost mid = self@.state.write;
        let processed = self.state.try_process_write();
        let ghost encoded = choose|encoded: Seq<(Vec<u8>, u64)>| #[trigger]
            mid.encodes_to(self@.state.write, encoded, processed);
        proof {
            assert(mid.queue == seq![item]);
            reveal_with_fuel(frame::frames, 2);
            let none = Seq::<(Vec<u8>, u64)>::empty();
            assert(mid.buffer + frame::frames(none) == mid.buffer);
            if encoded.len() > 0 {
                assert(encoded.drop_last() == none);
                assert(frame::frames(encoded) == frame::frame(encoded[0].0@, encoded[0].1));
                assert(encoder::may_encode(mid.encoder, mid.queue[0], Ok(encoded[0])));
            } else {
                assert(encoded == none);
            }
            assert(self@.state.write.queue == old(self)@.state.write.queue);
        }
        match processed {
            Some(Ok(())) => {
                assert(old(self)@.sends_to(item, Ok(encoded[0]), self@, Ok(())));
                Ok(())
            },
            Some(Err(error)) => {
                assert(old(self)@.sends_to(
                    item,
                    Err(error),
                    self@,
                    Err(SendError::InvalidInput),
                ));
                Err(SendError::InvalidInput)
            },
            None => {
                assert(old(self)@.sends_to(
                    item,
                    Ok(encoded[0]),
                    self@,
                    Err(SendError::Overflow),
                ));
                Err(SendError::Overflow)
            },
        }
    }

    /// Decides what to do next to have everything written.
    pub fn poll_flush(&mut self) -> (step: WriteStep<Writer>)
        requires
            old(self)@.wf(),
        ensures
            final(self)@.wf(),
            old(self)@.flushes_to(final(self)@, step),
    {
        let mut write_state: WriteState<Writer> = WriteState::Writing;
        std::mem::swap(&mut self.write_state, &mut write_state);

        match write_state {
            WriteState::Idle(writer) => match self.state.consume_all() {
                None => {
                    self.write_state = WriteState::Idle(writer);
                    WriteStep::Done
                },
                Some(bytes) => {
                    proof {
                        lemma_whole(old(self)@.state.write.buffer);
                    }
                    WriteStep::Write { writer, bytes }
                },
            },
            WriteState::Writing => WriteStep::AwaitWrite,
            WriteState::Closing => {
                self.write_state = WriteState::Closing;
                WriteStep::Reset
            },
        }
    }

    /// Decides what to do next to have everything written and the connection closed.
    pub fn poll_close(&mut self) -> (step: WriteStep<Writer>)
        requires
            old(self)@.wf(),
        ensures
            final(self)@.wf(),
            old(self)@.closes_to(final(self)@, step),
    {
        let mut write_state: WriteState<Writer> = WriteState::Writing;
        std::mem::swap(&mut self.write_state, &mut write_state);

        match write_state {
            WriteState::Idle(writer) => match self.state.consume_all() {
                None => {
                    self.write_state = WriteState::Closing;
                    WriteStep::Shutdown { writer }
                },
                Some(bytes) => {
                    proof {
                        lemma_whole(old(self)@.state.write.buffer);
                    }
                    WriteStep::Write { writer, bytes }
                },
            },
            WriteState::Writing => WriteStep::AwaitWrite,
            WriteState::Closing => {
                self.write_state = WriteState::Closing;
                WriteStep::AwaitClose
            },
        }
    }

    /// Takes back the writer after a write.
    pub fn finish_write(&mut self, writer: Writer)
        requires
            old(self)@.wf(),
            old(self)@.write_state is Writing,
        ensures
            final(self)@.wf(),
            final(self)@ == old(self)@.with_write(
                old(self)@.state.write,
                WriteState::Idle(writer),
            ),
    {
        self.write_state = WriteState::Idle(writer);
    }
}

} // verus!
