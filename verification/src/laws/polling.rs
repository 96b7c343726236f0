//! What a connection receives over many polls.

use crate::connection_state::{ReadConnectionConfig, ReadView, WriteView};
use crate::encoder::{SansDecoder, SansEncoder};
use crate::frame;
use crate::laws::connection;
use crate::laws::tcp;
use crate::message::Message;
use crate::tcp::{ReadState, ReadStep, SendError, TokioConnectionView, WriteState, WriteStep};
use vstd::prelude::*;

verus! {

/// Something that happens to a connection, and the connection afterwards.
pub struct Turn<In, Out, Encoder, Decoder, Reader, Writer> {
    pub event: TurnEvent<In, Decoder, Reader>,
    pub after: TokioConnectionView<In, Out, Encoder, Decoder, Reader, Writer>,
}

/// Something that happens to a connection.
pub enum TurnEvent<In, Decoder, Reader> {
    /// `poll_next` decodes what it can, which gives `mid`, and asks for `step`.
    Polled { mid: ReadView<In, Decoder>, step: ReadStep<In, Reader> },
    /// `poll_next` asks to wait for the read that is under way, and `finish_read` takes
    /// what came of it: the first `read` bytes of `buf`.
    Arrived { mid: ReadView<In, Decoder>, reader: Reader, buf: Vec<u8>, read: usize },
    /// Something is sent, flushed, closed or written.
    Wrote,
}

impl<In, Out, Encoder, Decoder, Reader, Writer> Turn<In, Out, Encoder, Decoder, Reader, Writer> {
    /// The read gave nothing: no more bytes come.
    pub open spec fn is_end(self) -> bool {
        self.event matches TurnEvent::Arrived { read, .. } && read == 0
    }

    /// The poll is answered with an error, or gives up.
    pub open spec fn is_failure(self) -> bool {
        self.event matches TurnEvent::Polled { step, .. } && (step is InvalidInput
            || step is Overflow)
    }

    /// The read is still under way, or nothing was received.
    pub open spec fn is_idle(self) -> bool {
        match self.event {
            TurnEvent::Polled { step, .. } => step is AwaitRead,
            TurnEvent::Arrived { .. } => false,
            TurnEvent::Wrote => true,
        }
    }

    /// The bytes that the reader gave.
    pub open spec fn arrived(self) -> Seq<u8> {
        match self.event {
            TurnEvent::Arrived { buf, read, .. } => buf@.take(read as int),
            _ => Seq::empty(),
        }
    }

    /// The message that was handed out.
    pub open spec fn handed_out(self) -> Seq<Message<In>> {
        match self.event {
            TurnEvent::Polled { step, .. } => tcp::newly_received(step),
            _ => Seq::empty(),
        }
    }
}

impl<In, Out, Encoder, Decoder: SansDecoder<In>, Reader, Writer> Turn<
    In,
    Out,
    Encoder,
    Decoder,
    Reader,
    Writer,
> {
    /// The turn may happen to the connection `before`. A read gives no more bytes than
    /// the buffer of a new connection takes.
    pub open spec fn follows(
        self,
        before: TokioConnectionView<In, Out, Encoder, Decoder, Reader, Writer>,
    ) -> bool {
        &&& self.after.wf()
        &&& match self.event {
            TurnEvent::Polled { mid, step } => before.reads_to(mid, self.after, step),
            TurnEvent::Arrived { mid, reader, buf, read } => {
                let waiting = before.with_read(mid, before.read_state);
                &&& before.reads_to(mid, waiting, ReadStep::AwaitRead)
                &&& read <= buf@.len() <= 2 * before.state.read.buffer_size
                &&& self.after == waiting.after_read(reader, buf, read)
            },
            TurnEvent::Wrote => {
                &&& self.after.state.read == before.state.read
                &&& self.after.read_state == before.read_state
            },
        }
    }
}

/// The connection after all `turns`.
pub open spec fn last_state<In, Out, Encoder, Decoder, Reader, Writer>(
    start: TokioConnectionView<In, Out, Encoder, Decoder, Reader, Writer>,
    turns: Seq<Turn<In, Out, Encoder, Decoder, Reader, Writer>>,
) -> TokioConnectionView<In, Out, Encoder, Decoder, Reader, Writer> {
    if turns.len() == 0 {
        start
    } else {
        turns.last().after
    }
}

/// All bytes that the reader gave, in order.
pub open spec fn given<In, Out, Encoder, Decoder, Reader, Writer>(
    turns: Seq<Turn<In, Out, Encoder, Decoder, Reader, Writer>>,
) -> Seq<u8>
    decreases turns.len(),
{
    if turns.len() == 0 {
        Seq::empty()
    } else {
        given(turns.drop_last()) + turns.last().arrived()
    }
}

/// All messages that were handed out, in order.
pub open spec fn yielded<In, Out, Encoder, Decoder, Reader, Writer>(
    turns: Seq<Turn<In, Out, Encoder, Decoder, Reader, Writer>>,
) -> Seq<Message<In>>
    decreases turns.len(),
{
    if turns.len() == 0 {
        Seq::empty()
    } else {
        yielded(turns.drop_last()) + turns.last().handed_out()
    }
}

/// How many of the turns are idle.
pub open spec fn idle<In, Out, Encoder, Decoder, Reader, Writer>(
    turns: Seq<Turn<In, Out, Encoder, Decoder, Reader, Writer>>,
) -> nat
    decreases turns.len(),
{
    if turns.len() == 0 {
        0
    } else {
        idle(turns.drop_last()) + if turns.last().is_idle() {
            1nat
        } else {
            0
        }
    }
}

/// The reader has come to its end.
pub open spec fn has_ended<In, Out, Encoder, Decoder, Reader, Writer>(
    turns: Seq<Turn<In, Out, Encoder, Decoder, Reader, Writer>>,
) -> bool {
    exists|i: int| 0 <= i < turns.len() && (#[trigger] turns[i]).is_end()
}

/// A poll was answered with an error, or has given up.
pub open spec fn has_failed<In, Out, Encoder, Decoder, Reader, Writer>(
    turns: Seq<Turn<In, Out, Encoder, Decoder, Reader, Writer>>,
) -> bool {
    exists|i: int| 0 <= i < turns.len() && (#[trigger] turns[i]).is_failure()
}

/// The `turns` may happen one after the other from `start` on, with a reader that gives
/// the bytes of `source`, in whatever pieces, and then its end.
pub open spec fn receives_from<In, Out, Encoder, Decoder: SansDecoder<In>, Reader, Writer>(
    start: TokioConnectionView<In, Out, Encoder, Decoder, Reader, Writer>,
    source: Seq<u8>,
    turns: Seq<Turn<In, Out, Encoder, Decoder, Reader, Writer>>,
) -> bool
    decreases turns.len(),
{
    turns.len() > 0 ==> {
        &&& receives_from(start, source, turns.drop_last())
        &&& turns.last().follows(last_state(start, turns.drop_last()))
        &&& given(turns).is_prefix_of(source)
        &&& turns.last().is_end() ==> given(turns) == source
    }
}

/// What a buffer of `size` bytes and one read, or all of `source`, hold together can be
/// allocated.
pub open spec fn can_be_held(source: Seq<u8>, size: nat) -> bool {
    source.len() <= isize::MAX || 3 * size <= isize::MAX
}

/// The connection has received nothing yet.
pub open spec fn is_fresh<In, Out, Encoder, Decoder, Reader, Writer>(
    connection: TokioConnectionView<In, Out, Encoder, Decoder, Reader, Writer>,
) -> bool {
    &&& connection.wf()
    &&& connection.state.read.queue.len() == 0
    &&& connection.state.read.buffer.len() == 0
    &&& tcp::unfed(connection.read_state).len() == 0
}

/// A new connection has received nothing.
pub proof fn new_connections_are_fresh<In, Out, Encoder, Decoder, Reader, Writer>(
    config: ReadConnectionConfig<Decoder>,
    connection: TokioConnectionView<In, Out, Encoder, Decoder, Reader, Writer>,
)
    requires
        connection.wf(),
        connection.state.read == config.initial::<In>(),
        connection.read_state matches ReadState::Idle { read, .. } && read == 0,
    ensures
        is_fresh(connection),
{
}

/// A poll that finds the read still under way changes nothing: no byte and no message is
/// lost by waiting.
pub proof fn pending_changes_nothing<In, Out, Encoder, Decoder: SansDecoder<In>, Reader, Writer>(
    before: TokioConnectionView<In, Out, Encoder, Decoder, Reader, Writer>,
    mid: ReadView<In, Decoder>,
    after: TokioConnectionView<In, Out, Encoder, Decoder, Reader, Writer>,
)
    requires
        before.reads_to(mid, after, ReadStep::AwaitRead),
    ensures
        mid == before.state.read,
        after == before,
{
    assert(mid.queue == before.state.read.queue);
    assert(mid == before.state.read);
}

/// A step that asks for a wait leaves nothing unfed, as long as the buffer has the
/// size of a whole frame: of eight bytes while the length is incomplete, of the announced
/// length and those eight bytes from then on.
pub proof fn waiting_leaves_nothing_unfed<
    In,
    Out,
    Encoder,
    Decoder: SansDecoder<In>,
    Reader,
    Writer,
>(
    before: TokioConnectionView<In, Out, Encoder, Decoder, Reader, Writer>,
    mid: ReadView<In, Decoder>,
    after: TokioConnectionView<In, Out, Encoder, Decoder, Reader, Writer>,
)
    requires
        before.wf(),
        before.reads_to(mid, after, ReadStep::Wait),
        frame::HEADER_LEN <= mid.buffer_size,
        frame::has_header(mid.buffer) ==> frame::HEADER_LEN + frame::payload_len(mid.buffer)
            <= mid.buffer_size,
    ensures
        tcp::unfed(after.read_state).len() == 0,
        after.state.read.buffer == mid.buffer + tcp::unfed(before.read_state),
{
    let waiting = tcp::unfed(before.read_state);
    connection::fitting_frames_are_awaited(mid, waiting);
    assert(waiting.take(waiting.len() as int) == waiting);
}

/// Sending, flushing, closing and writing leave what is received as it is, and receiving
/// leaves what is sent as it is.
pub proof fn halves_are_independent<
    In,
    Out,
    Encoder: SansEncoder<Out>,
    Decoder: SansDecoder<In>,
    Reader,
    Writer,
>(
    before: TokioConnectionView<In, Out, Encoder, Decoder, Reader, Writer>,
    after: TokioConnectionView<In, Out, Encoder, Decoder, Reader, Writer>,
    item: Message<Out>,
    answer: Result<(Vec<u8>, u64), Encoder::Error>,
    result: Result<(), SendError>,
    write_step: WriteStep<Writer>,
    write: WriteView<Out, Encoder>,
    write_state: WriteState<Writer>,
    mid: ReadView<In, Decoder>,
    read_step: ReadStep<In, Reader>,
    reader: Reader,
    buf: Vec<u8>,
    read: usize,
)
    ensures
        before.sends_to(item, answer, after, result) || before.flushes_to(after, write_step)
            || before.closes_to(after, write_step) || after == before.with_write(
            write,
            write_state,
        ) ==> after.state.read == before.state.read && after.read_state == before.read_state,
        before.reads_to(mid, after, read_step) || after == before.after_read(reader, buf, read)
            ==> after.state.write == before.state.write && after.write_state
            == before.write_state,
{
}

/// A read was started and nothing has come of it yet.
pub open spec fn is_awaited<In, Out, Encoder, Decoder, Reader, Writer>(
    turns: Seq<Turn<In, Out, Encoder, Decoder, Reader, Writer>>,
) -> bool
    decreases turns.len(),
{
    turns.len() > 0 && match turns.last().event {
        TurnEvent::Polled { step, .. } => step is Read || is_awaited(turns.drop_last()),
        TurnEvent::Arrived { read, .. } => read == 0,
        TurnEvent::Wrote => is_awaited(turns.drop_last()),
    }
}

/// A poll asks to wait for a read only where an earlier poll has started one and nothing
/// has come of it yet, and starts a read only where none is under way. The reader is thus
/// never waited for in vain and never handed out twice, whatever is written meanwhile.
pub proof fn only_started_reads_are_awaited<
    In,
    Out,
    Encoder,
    Decoder: SansDecoder<In>,
    Reader,
    Writer,
>(
    start: TokioConnectionView<In, Out, Encoder, Decoder, Reader, Writer>,
    source: Seq<u8>,
    turns: Seq<Turn<In, Out, Encoder, Decoder, Reader, Writer>>,
)
    requires
        start.read_state is Idle,
        receives_from(start, source, turns),
    ensures
        last_state(start, turns).read_state is Reading <==> is_awaited(turns),
        turns.len() > 0 ==> match turns.last().event {
            TurnEvent::Polled { step, .. } => {
                &&& step is AwaitRead ==> is_awaited(turns.drop_last())
                &&& step is Read ==> !is_awaited(turns.drop_last())
            },
            TurnEvent::Arrived { .. } => is_awaited(turns.drop_last()),
            TurnEvent::Wrote => true,
        },
    decreases turns.len(),
{
    if turns.len() > 0 {
        only_started_reads_are_awaited(start, source, turns.drop_last());
    }
}

/// Polling a connection gives every message that the reader's bytes hold, once and in
/// order, and then the end, whatever pieces the bytes come in and whatever is sent
/// meanwhile. The bytes are the frames of `items` and an incomplete frame behind them.
/// Each message is announced with its true length and decodes to nothing but itself, and
/// all frames fit the buffer.
///
/// - What was handed out so far are the first of `items`.
/// - No poll is answered with an error, not even for the incomplete frame at the end.
/// - Once the reader has ended, all of `items` were handed out.
/// - The end comes: without the turns that only wait for a read or only write, there are
///   no more turns before it than one for each message, three for each byte, and one.
pub proof fn polls_give_every_message<In, Out, Encoder, Decoder: SansDecoder<In>, Reader, Writer>(
    items: Seq<Message<In>>,
    encoded: Seq<(Vec<u8>, u64)>,
    tail: Seq<u8>,
    start: TokioConnectionView<In, Out, Encoder, Decoder, Reader, Writer>,
    turns: Seq<Turn<In, Out, Encoder, Decoder, Reader, Writer>>,
)
    requires
        connection::truly_announced(encoded),
        connection::decodes_each(start.state.read.decoder, items, encoded),
        !frame::has_frame(tail),
        connection::all_fit(encoded, tail, start.state.read.buffer_size),
        can_be_held(frame::frames(encoded) + tail, start.state.read.buffer_size),
        is_fresh(start),
        receives_from(start, frame::frames(encoded) + tail, turns),
    ensures
        yielded(turns).is_prefix_of(items),
        !has_failed(turns),
        has_ended(turns) ==> yielded(turns) == items,
        has_ended(turns) || turns.len() <= idle(turns) + items.len() + 3 * (frame::frames(encoded)
            + tail).len() + 1,
{
    lemma_turns(items, encoded, tail, start, turns);
    let state = last_state(start, turns).state.read;
    let fed = fed_of(turns, last_state(start, turns));
    connection::arrived_messages_are_decoded(items, encoded, tail, fed, yielded(turns), state);
    assert(yielded(turns) == (yielded(turns) + state.queue).take(yielded(turns).len() as int));
}

/// The bytes that were given and are fed.
spec fn fed_of<In, Out, Encoder, Decoder, Reader, Writer>(
    turns: Seq<Turn<In, Out, Encoder, Decoder, Reader, Writer>>,
    state: TokioConnectionView<In, Out, Encoder, Decoder, Reader, Writer>,
) -> Seq<u8> {
    given(turns).take(given(turns).len() - tcp::unfed(state.read_state).len())
}

/// Every byte that was given is fed or waits to be fed, and what is fed is accounted for.
spec fn keeps_account<In, Out, Encoder, Decoder: SansDecoder<In>, Reader, Writer>(
    turns: Seq<Turn<In, Out, Encoder, Decoder, Reader, Writer>>,
    start: TokioConnectionView<In, Out, Encoder, Decoder, Reader, Writer>,
    state: TokioConnectionView<In, Out, Encoder, Decoder, Reader, Writer>,
) -> bool {
    &&& state.wf()
    &&& state.state.read.same_setup(start.state.read)
    &&& tcp::unfed(state.read_state).len() <= 2 * state.state.read.buffer_size
    &&& given(turns) == fed_of(turns, state) + tcp::unfed(state.read_state)
    &&& connection::has_received(fed_of(turns, state), yielded(turns), state.state.read)
}

/// How many turns may still follow before the end comes, apart from idle ones.
spec fn left<In, Out, Encoder, Decoder, Reader, Writer>(
    items: Seq<Message<In>>,
    source: Seq<u8>,
    turns: Seq<Turn<In, Out, Encoder, Decoder, Reader, Writer>>,
    state: TokioConnectionView<In, Out, Encoder, Decoder, Reader, Writer>,
) -> int {
    items.len() - yielded(turns).len() + 3 * (source.len() - given(turns).len())
        + match state.read_state {
        ReadState::Reading => 0int,
        ReadState::Idle { read, .. } => if read == 0 {
            1
        } else {
            2
        },
    }
}

proof fn lemma_turns<In, Out, Encoder, Decoder: SansDecoder<In>, Reader, Writer>(
    items: Seq<Message<In>>,
    encoded: Seq<(Vec<u8>, u64)>,
    tail: Seq<u8>,
    start: TokioConnectionView<In, Out, Encoder, Decoder, Reader, Writer>,
    turns: Seq<Turn<In, Out, Encoder, Decoder, Reader, Writer>>,
)
    requires
        connection::truly_announced(encoded),
        connection::decodes_each(start.state.read.decoder, items, encoded),
        !frame::has_frame(tail),
        connection::all_fit(encoded, tail, start.state.read.buffer_size),
        can_be_held(frame::frames(encoded) + tail, start.state.read.buffer_size),
        is_fresh(start),
        receives_from(start, frame::frames(encoded) + tail, turns),
    ensures
        keeps_account(turns, start, last_state(start, turns)),
        given(turns).is_prefix_of(frame::frames(encoded) + tail),
        !has_failed(turns),
        has_ended(turns) ==> yielded(turns) == items,
        has_ended(turns) || turns.len() + left(
            items,
            frame::frames(encoded) + tail,
            turns,
            last_state(start, turns),
        ) <= idle(turns) + items.len() + 3 * (frame::frames(encoded) + tail).len() + 1,
        left(items, frame::frames(encoded) + tail, turns, last_state(start, turns)) >= 0,
    decreases turns.len(),
{
    let source = frame::frames(encoded) + tail;
    if turns.len() == 0 {
        let none = Seq::<u8>::empty();
        assert(tcp::unfed(start.read_state) == none);
        assert(fed_of(turns, start) == none);
        assert(none + none == none);
        assert(start.state.read.buffer == none);
    } else {
        let earlier = turns.drop_last();
        let before = last_state(start, earlier);
        let turn = turns.last();
        lemma_turns(items, encoded, tail, start, earlier);
        assert(earlier.push(turn) == turns);
        lemma_turn(items, encoded, tail, start, earlier, before, turn);
        assert(has_failed(turns) ==> has_failed(earlier) || turn.is_failure()) by {
            if has_failed(turns) {
                let i = choose|i: int| 0 <= i < turns.len() && (#[trigger] turns[i]).is_failure();
                if i < earlier.len() {
                    assert(earlier[i].is_failure());
                }
            }
        }
        assert(has_ended(turns) <==> has_ended(earlier) || turn.is_end()) by {
            if has_ended(turns) {
                let i = choose|i: int| 0 <= i < turns.len() && (#[trigger] turns[i]).is_end();
                if i < earlier.len() {
                    assert(earlier[i].is_end());
                }
            }
            if has_ended(earlier) {
                let i = choose|i: int| 0 <= i < earlier.len() && (#[trigger] earlier[i]).is_end();
                assert(turns[i].is_end());
            }
            assert(turns[turns.len() - 1] == turn);
        }
        let fed = fed_of(turns, turn.after);
        assert(fed.is_prefix_of(source));
        connection::arrived_messages_are_decoded(
            items,
            encoded,
            tail,
            fed,
            yielded(turns),
            turn.after.state.read,
        );
        if has_ended(earlier) {
            assert(yielded(turns) == items);
        }
    }
}

/// One turn keeps the account, does not fail, and brings the end nearer.
proof fn lemma_turn<In, Out, Encoder, Decoder: SansDecoder<In>, Reader, Writer>(
    items: Seq<Message<In>>,
    encoded: Seq<(Vec<u8>, u64)>,
    tail: Seq<u8>,
    start: TokioConnectionView<In, Out, Encoder, Decoder, Reader, Writer>,
    earlier: Seq<Turn<In, Out, Encoder, Decoder, Reader, Writer>>,
    before: TokioConnectionView<In, Out, Encoder, Decoder, Reader, Writer>,
    turn: Turn<In, Out, Encoder, Decoder, Reader, Writer>,
)
    requires
        connection::truly_announced(encoded),
        connection::decodes_each(start.state.read.decoder, items, encoded),
        !frame::has_frame(tail),
        connection::all_fit(encoded, tail, start.state.read.buffer_size),
        can_be_held(frame::frames(encoded) + tail, start.state.read.buffer_size),
        keeps_account(earlier, start, before),
        given(earlier).is_prefix_of(frame::frames(encoded) + tail),
        turn.follows(before),
        given(earlier.push(turn)).is_prefix_of(frame::frames(encoded) + tail),
        turn.is_end() ==> given(earlier.push(turn)) == frame::frames(encoded) + tail,
    ensures
        keeps_account(earlier.push(turn), start, turn.after),
        !turn.is_failure(),
        turn.is_end() ==> yielded(earlier.push(turn)) == items,
        turn.is_end() || left(items, frame::frames(encoded) + tail, earlier.push(turn), turn.after)
            + if turn.is_idle() {
            0int
        } else {
            1
        } <= left(items, frame::frames(encoded) + tail, earlier, before),
{
    let source = frame::frames(encoded) + tail;
    let turns = earlier.push(turn);
    assert(turns.drop_last() == earlier);
    let fed = fed_of(earlier, before);
    let waiting = tcp::unfed(before.read_state);
    assert(fed.is_prefix_of(source));
    match turn.event {
        TurnEvent::Wrote => {
            assert(given(turns) == given(earlier));
            assert(yielded(turns) == yielded(earlier));
        },
        TurnEvent::Arrived { mid, reader, buf, read } => {
            let same = before.with_read(mid, before.read_state);
            pending_changes_nothing(before, mid, same);
            assert(yielded(turns) == yielded(earlier));
            assert(waiting == Seq::<u8>::empty());
            assert(fed == given(earlier));
            if read == 0 {
                assert(given(turns) == given(earlier));
                connection::arrived_messages_are_decoded(
                    items,
                    encoded,
                    tail,
                    fed,
                    yielded(earlier),
                    mid,
                );
                assert(yielded(earlier) + mid.queue == yielded(earlier));
            } else {
                assert(tcp::unfed(turn.after.read_state) == turn.arrived());
                assert(fed_of(turns, turn.after) == fed);
            }
        },
        TurnEvent::Polled { mid, step } => {
            assert(given(turns) == given(earlier));
            connection::receiving_continues(
                fed,
                yielded(earlier),
                before.state.read,
                mid,
                waiting,
                arbitrary(),
            );
            assert(mid.wf()) by {
                lemma_decoding_shrinks(before.state.read, mid);
            }
            connection::arrived_messages_are_decoded(
                items,
                encoded,
                tail,
                fed,
                yielded(earlier),
                mid,
            );
            connection::fitting_frames_keep_arriving(
                items,
                encoded,
                tail,
                fed,
                yielded(earlier),
                mid,
                waiting,
            );
            let missing = source.skip(fed.len() as int);
            assert(mid.buffer.len() + missing.len() <= source.len()) by {
                let n = (yielded(earlier) + mid.queue).len() as int;
                lemma_frames_behind(encoded, n);
                assert((mid.buffer + missing).len() == (frame::frames(encoded.skip(n))
                    + tail).len());
            }
            assert(fed.len() + waiting.len() <= source.len());
            if waiting.len() > 0 {
                assert(fed != source);
            }
            assert(mid.can_take(waiting));
            tcp::connection_keeps_receiving(
                before,
                mid,
                turn.after,
                step,
                fed,
                yielded(earlier),
            );
            assert(waiting.take(waiting.len() as int) == waiting);
            if step is Wait || step is Read {
                assert(tcp::unfed(turn.after.read_state) == Seq::<u8>::empty());
                assert(tcp::newly_fed(before.read_state, mid, step) == waiting);
                assert(fed_of(turns, turn.after) == fed + waiting);
            } else {
                assert(fed + Seq::<u8>::empty() == fed);
                assert(fed_of(turns, turn.after) == fed);
            }
        },
    }
}

/// Decoding keeps a read half well formed.
proof fn lemma_decoding_shrinks<In, Decoder: SansDecoder<In>>(
    before: ReadView<In, Decoder>,
    after: ReadView<In, Decoder>,
)
    requires
        before.wf(),
        before.decodes_to(after),
    ensures
        after.wf(),
{
    let count = (after.queue.len() - before.queue.len()) as nat;
    lemma_frames_shrink(before, after, count);
}

proof fn lemma_frames_shrink<In, Decoder: SansDecoder<In>>(
    before: ReadView<In, Decoder>,
    after: ReadView<In, Decoder>,
    n: nat,
)
    requires
        before.decodes_to(after),
        n <= after.queue.len() - before.queue.len(),
    ensures
        frame::after_frames(before.buffer, n).len() <= before.buffer.len(),
    decreases n,
{
    if n > 0 {
        lemma_frames_shrink(before, after, (n - 1) as nat);
        assert(before.decodes_frame((n - 1) as nat, after));
    }
}

/// The frames from number `n` on are no longer than all of them.
proof fn lemma_frames_behind(encoded: Seq<(Vec<u8>, u64)>, n: int)
    requires
        0 <= n <= encoded.len(),
    ensures
        frame::frames(encoded.skip(n)).len() <= frame::frames(encoded).len(),
{
    assert(encoded == encoded.take(n) + encoded.skip(n));
    connection::frames_of_both(encoded.take(n), encoded.skip(n));
}

} // verus!
