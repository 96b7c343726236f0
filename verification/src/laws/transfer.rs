//! What several calls in a row do to messages.

use crate::buffer;
use crate::connection_state::{ConnectionReadState, ConnectionWriteState, WriteView};
use crate::encoder::{SansDecoder, SansEncoder};
use crate::laws::halves;
use crate::laws::layout;
use crate::message::Message;
use bytes::Bytes;
use vstd::prelude::*;

verus! {

/// Each part announces its true length, as the machine can address it.
pub open spec fn announce_themselves(parts: Seq<(u64, Seq<u8>)>) -> bool {
    forall|i: int| 0 <= i < parts.len() ==> (#[trigger] parts[i]).0 as usize == parts[i].1.len()
}

/// A row of bytes comes apart into parts in one way only: where one row of parts starts
/// with another, they are the same parts, and what is left are the other parts.
pub proof fn parts_are_cut_in_one_way(
    parts: Seq<(u64, Seq<u8>)>,
    first: Seq<(u64, Seq<u8>)>,
    rest: Seq<u8>,
)
    requires
        announce_themselves(parts),
        announce_themselves(first),
        layout::laid_out(parts) == layout::laid_out(first) + rest,
    ensures
        first.is_prefix_of(parts),
        rest == layout::laid_out(parts.skip(first.len() as int)),
    decreases first.len(),
{
    vstd::bytes::lemma_auto_spec_u64_to_from_le_bytes();
    if first.len() == 0 {
        assert(layout::laid_out(first) + rest == rest);
        assert(parts.skip(0) == parts);
    } else {
        lemma_first_part(first);
        let whole = layout::laid_out(parts);
        if parts.len() == 0 {
            assert(whole.len() == 0);
            assert(false);
        }
        lemma_first_part(parts);
        let p = parts[0];
        let f = first[0];
        let p_rest = layout::laid_out(parts.skip(1));
        let f_rest = layout::laid_out(first.skip(1)) + rest;
        let p_head = vstd::bytes::spec_u64_to_le_bytes(p.0);
        let f_head = vstd::bytes::spec_u64_to_le_bytes(f.0);
        assert(whole == p_head + p.1 + p_rest);
        assert(whole == f_head + f.1 + f_rest);
        assert(whole.take(8) == p_head);
        assert(whole.take(8) == f_head);
        assert(p.0 == f.0);
        assert(p.1.len() == f.1.len());
        assert(whole.subrange(8, 8 + p.1.len() as int) == p.1);
        assert(whole.subrange(8, 8 + p.1.len() as int) == f.1);
        assert(whole.skip(8 + p.1.len() as int) == p_rest);
        assert(whole.skip(8 + p.1.len() as int) == f_rest);
        let parts_left = parts.skip(1);
        let first_left = first.skip(1);
        assert forall|i: int| 0 <= i < parts_left.len() implies (#[trigger] parts_left[i]).0
            as usize == parts_left[i].1.len() by {
            assert(parts[i + 1] == parts_left[i]);
        }
        assert forall|i: int| 0 <= i < first_left.len() implies (#[trigger] first_left[i]).0
            as usize == first_left[i].1.len() by {
            assert(first[i + 1] == first_left[i]);
        }
        parts_are_cut_in_one_way(parts_left, first_left, rest);
        assert(parts_left.skip(first_left.len() as int) == parts.skip(first.len() as int));
        assert forall|i: int| 0 <= i < first.len() implies first[i] == parts[i] by {
            if i > 0 {
                assert(first[i] == first_left[i - 1]);
                assert(parts[i] == parts_left[i - 1]);
                assert(first_left[i - 1] == parts_left[i - 1]);
            }
        }
    }
}

/// Laid out parts start with the first part.
proof fn lemma_first_part(parts: Seq<(u64, Seq<u8>)>)
    requires
        parts.len() > 0,
    ensures
        layout::laid_out(parts) == vstd::bytes::spec_u64_to_le_bytes(parts[0].0) + parts[0].1
            + layout::laid_out(parts.skip(1)),
        vstd::bytes::spec_u64_to_le_bytes(parts[0].0).len() == 8,
{
    vstd::bytes::lemma_auto_spec_u64_to_from_le_bytes();
    let first = seq![parts[0]];
    assert(parts == first + parts.skip(1));
    layout::laid_out_in_two(first, parts.skip(1));
    assert(first.drop_last() == Seq::<(u64, Seq<u8>)>::empty());
    reveal_with_fuel(layout::laid_out, 2);
    assert(layout::laid_out(first) == vstd::bytes::spec_u64_to_le_bytes(parts[0].0)
        + parts[0].1);
}

/// All whole messages that are fed to an empty read half at once are decoded at once, where
/// the queue has the size for them and none is refused: the queue holds one message for
/// each part, in order, and no byte is left.
pub proof fn whole_messages_are_all_decoded<In, Decoder: SansDecoder<In>>(
    feeding: &mut ConnectionReadState<In, Decoder>,
    bytes: &[u8],
    fed: usize,
    decoding: &mut ConnectionReadState<In, Decoder>,
    parts: Seq<(u64, Seq<u8>)>,
)
    requires
        old(feeding)@.queue.len() == 0,
        old(feeding)@.buffer.len() == 0,
        old(feeding)@.buffer_size > 0,
        parts.len() <= old(feeding)@.queue_size,
        announce_themselves(parts),
        bytes@ == layout::laid_out(parts),
        call_ensures(
            ConnectionReadState::<In, Decoder>::feed_bytes,
            (feeding, bytes),
            fed,
        ),
        *old(decoding) == *final(feeding),
        call_ensures(ConnectionReadState::<In, Decoder>::process, (decoding,), Ok(())),
    ensures
        fed == bytes@.len(),
        final(decoding)@.queue.len() == parts.len(),
        forall|i: int|
            0 <= i < parts.len() ==> layout::may_read_as(
                old(feeding)@.decoder,
                (#[trigger] parts[i]).1,
                Ok(final(decoding)@.queue[i]),
            ),
        final(decoding)@.buffer.len() == 0,
{
    halves::feed_bytes_appends(feeding, bytes, fed);
    halves::process_decodes_what_it_can(decoding, Ok(()));
    let before = old(decoding)@;
    let after = final(decoding)@;
    let decoded = after.queue.skip(before.queue.len() as int);
    assert(decoded == after.queue);
    assert(before.buffer == layout::laid_out(parts));
    let cut = choose|cut: Seq<(u64, Seq<u8>)>|
        {
            &&& before.buffer == #[trigger] layout::laid_out(cut) + after.buffer
            &&& cut.len() == decoded.len()
            &&& forall|i: int|
                0 <= i < cut.len() ==> {
                    &&& (#[trigger] cut[i]).0 as usize == cut[i].1.len()
                    &&& layout::may_read_as(before.decoder, cut[i].1, Ok(decoded[i]))
                }
        };
    parts_are_cut_in_one_way(parts, cut, after.buffer);
    let left = parts.skip(cut.len() as int);
    vstd::bytes::lemma_auto_spec_u64_to_from_le_bytes();
    if left.len() > 0 {
        lemma_first_part(left);
        assert(left[0] == parts[cut.len() as int]);
        assert(after.buffer.take(8) == vstd::bytes::spec_u64_to_le_bytes(left[0].0));
        assert(layout::announced(after.buffer) == left[0].1.len());
        assert(false);
    }
    assert(cut.len() == parts.len());
    assert forall|i: int| 0 <= i < parts.len() implies layout::may_read_as(
        before.decoder,
        (#[trigger] parts[i]).1,
        Ok(after.queue[i]),
    ) by {
        assert(cut[i] == parts[i]);
    }
}

/// Of the messages that the write half `state` has `accepted`, the first are encoded, as
/// `answers`, and the others are queued, none lost and in order. The bytes that were handed
/// out so far, `out`, and those that are held are the encoded messages and nothing else.
pub open spec fn accounts_for<Out, Encoder: SansEncoder<Out>>(
    accepted: Seq<Message<Out>>,
    answers: Seq<(Vec<u8>, u64)>,
    out: Seq<u8>,
    state: WriteView<Out, Encoder>,
) -> bool {
    &&& layout::may_be_answers(state.encoder, accepted, answers)
    &&& accepted.skip(answers.len() as int) == state.queue
    &&& out + state.buffer == layout::laid_out(layout::parts_of(answers))
}

/// A write half that holds nothing accounts for no message.
pub proof fn accounting_starts<Out, Encoder: SansEncoder<Out>>(state: WriteView<Out, Encoder>)
    requires
        state.queue.len() == 0,
        state.buffer.len() == 0,
    ensures
        accounts_for(Seq::empty(), Seq::empty(), Seq::empty(), state),
{
    let none = Seq::<(Vec<u8>, u64)>::empty();
    assert(Seq::<Message<Out>>::empty().skip(0) == state.queue);
    assert(Seq::<u8>::empty() + state.buffer == layout::laid_out(layout::parts_of(none)));
}

/// A message that `feed_item` does not hand back is accounted for from then on.
pub proof fn feed_item_keeps_account<Out, Encoder: SansEncoder<Out>>(
    state: &mut ConnectionWriteState<Out, Encoder>,
    item: Message<Out>,
    refused: Option<Message<Out>>,
    accepted: Seq<Message<Out>>,
    answers: Seq<(Vec<u8>, u64)>,
    out: Seq<u8>,
)
    requires
        accounts_for(accepted, answers, out, old(state)@),
        call_ensures(
            ConnectionWriteState::<Out, Encoder>::feed_item,
            (state, item),
            refused,
        ),
    ensures
        accounts_for(
            accepted + match refused {
                None => seq![item],
                Some(_) => Seq::empty(),
            },
            answers,
            out,
            final(state)@,
        ),
{
    halves::feed_item_queues_where_there_is_room(state, item, refused);
    match refused {
        None => {
            assert((accepted + seq![item]).skip(answers.len() as int) == accepted.skip(
                answers.len() as int,
            ) + seq![item]);
        },
        Some(_) => {
            assert(accepted + Seq::<Message<Out>>::empty() == accepted);
        },
    }
}

/// After `process`, every message that was accepted is encoded. Where the encoder refused
/// one, every message that was accepted but that one is encoded or still queued, in order.
pub proof fn process_keeps_account<Out, Encoder: SansEncoder<Out>>(
    state: &mut ConnectionWriteState<Out, Encoder>,
    result: Result<(), Encoder::Error>,
    accepted: Seq<Message<Out>>,
    answers: Seq<(Vec<u8>, u64)>,
    out: Seq<u8>,
)
    requires
        accounts_for(accepted, answers, out, old(state)@),
        call_ensures(ConnectionWriteState::<Out, Encoder>::process, (state,), result),
    ensures
        result is Ok ==> exists|more: Seq<(Vec<u8>, u64)>|
            {
                &&& more.len() == accepted.len()
                &&& #[trigger] accounts_for(accepted, more, out, final(state)@)
            },
        result matches Err(error) ==> exists|more: Seq<(Vec<u8>, u64)>, k: int|
            {
                &&& k == more.len() < accepted.len()
                &&& call_ensures(
                    Encoder::encode,
                    (&old(state)@.encoder, &accepted[k]),
                    Err(error),
                )
                &&& #[trigger] accounts_for(accepted.remove(k), more, out, final(state)@)
            },
{
    halves::process_encodes_every_message(state, result);
    let before = old(state)@;
    let after = final(state)@;
    let new = choose|new: Seq<(Vec<u8>, u64)>|
        {
            &&& #[trigger] layout::may_be_answers(before.encoder, before.queue, new)
            &&& match result {
                Ok(()) => {
                    &&& new.len() == before.queue.len()
                    &&& after.queue.len() == 0
                    &&& after.buffer == before.buffer + layout::laid_out(layout::parts_of(new))
                },
                Err(error) => {
                    &&& new.len() < before.queue.len()
                    &&& call_ensures(
                        Encoder::encode,
                        (&before.encoder, &before.queue[new.len() as int]),
                        Err(error),
                    )
                    &&& before.queue == before.queue.take(new.len() as int + 1) + after.queue
                    &&& after.buffer == before.buffer + layout::laid_out(layout::parts_of(new))
                },
            }
        };
    let more = answers + new;
    let n = answers.len() as int;
    assert(layout::parts_of(more) == layout::parts_of(answers) + layout::parts_of(new));
    layout::laid_out_in_two(layout::parts_of(answers), layout::parts_of(new));
    assert(out + after.buffer == layout::laid_out(layout::parts_of(more)));
    assert forall|i: int| n <= i < accepted.len() implies accepted[i] == before.queue[i - n] by {
        assert(accepted.skip(n)[i - n] == accepted[i]);
    }
    assert forall|i: int| 0 <= i < more.len() implies call_ensures(
        Encoder::encode,
        (&before.encoder, &accepted[i]),
        Ok(#[trigger] more[i]),
    ) by {
        if i < n {
            assert(more[i] == answers[i]);
        } else {
            assert(more[i] == new[i - n]);
        }
    }
    match result {
        Ok(()) => {
            assert(accepted.skip(more.len() as int) == after.queue);
            assert(accounts_for(accepted, more, out, after));
        },
        Err(error) => {
            let k = more.len() as int;
            let kept = accepted.remove(k);
            assert(accepted[k] == before.queue[new.len() as int]);
            assert forall|i: int| 0 <= i < after.queue.len() implies kept.skip(k)[i]
                == after.queue[i] by {
                assert(before.queue[new.len() + 1 + i] == after.queue[i]);
            }
            assert(kept.skip(k) == after.queue);
            assert(accounts_for(kept, more, out, after));
        },
    }
}

/// What `consume_bytes` and `consume_all` hand out is the next of the bytes of the encoded
/// messages.
pub proof fn consuming_keeps_account<Out, Encoder: SansEncoder<Out>>(
    state: &mut ConnectionWriteState<Out, Encoder>,
    len: usize,
    bytes: Bytes,
    accepted: Seq<Message<Out>>,
    answers: Seq<(Vec<u8>, u64)>,
    out: Seq<u8>,
)
    requires
        accounts_for(accepted, answers, out, old(state)@),
        call_ensures(
            ConnectionWriteState::<Out, Encoder>::consume_bytes,
            (state, len),
            Some(bytes),
        ) || call_ensures(
            ConnectionWriteState::<Out, Encoder>::consume_all,
            (state,),
            Some(bytes),
        ),
    ensures
        accounts_for(accepted, answers, out + buffer::bytes_contents(bytes), final(state)@),
{
    let taken = buffer::bytes_contents(bytes);
    if call_ensures(
        ConnectionWriteState::<Out, Encoder>::consume_bytes,
        (state, len),
        Some(bytes),
    ) {
        halves::consume_bytes_takes_from_the_front(state, len, Some(bytes));
    } else {
        halves::consume_all_takes_everything(state, Some(bytes));
    }
    assert(taken + final(state)@.buffer == old(state)@.buffer);
    assert(out + taken + final(state)@.buffer == out + old(state)@.buffer);
}

} // verus!
