//! What each call on a service does, in terms of who waits for what before and after it.

use crate::message::{Message, Oneshot, OpenStream, Request, Response, StreamMessage};
use crate::sans_service::{answer, stream_item, SansService, ServiceAction, ServiceEvent};
use crate::service::{run_step, RunStep};
use crate::service_message::{ServiceInteraction, ServiceMessage};
use vstd::prelude::*;

verus! {

/// Nobody waits for anything of a new service.
pub proof fn new_service_has_nobody_waiting<StreamSender, ResponseSender>(
    service: SansService<StreamSender, ResponseSender>,
    id: u64,
)
    requires
        call_ensures(SansService::<StreamSender, ResponseSender>::new, (), service),
    ensures
        !service@.streams.contains_key(id),
        !service@.responses.contains_key(id),
{
}

/// `stream_sender` gives the one who takes the items of a stream wherever there is one.
pub proof fn stream_sender_gives_who_takes_the_items<StreamSender, ResponseSender>(
    service: &SansService<StreamSender, ResponseSender>,
    stream_id: u64,
    sender: Option<&StreamSender>,
)
    requires
        call_ensures(
            SansService::<StreamSender, ResponseSender>::stream_sender,
            (service, stream_id),
            sender,
        ),
    ensures
        sender is Some <==> service@.streams.contains_key(stream_id),
        sender matches Some(sender) ==> *sender == service@.streams[stream_id],
{
}

/// What the peer asks for is handed out as it came, and so are the end and an error. Nobody
/// stops waiting for that.
pub proof fn what_the_peer_asks_is_handed_out<In, Out, StreamSender, ResponseSender, Error>(
    service: &mut SansService<StreamSender, ResponseSender>,
    event: ServiceEvent<In, Out, StreamSender, ResponseSender, Error>,
    action: ServiceAction<In, Out, ResponseSender, Error>,
    oneshot: Oneshot<In>,
    request: Request<In>,
    stream: OpenStream<In>,
    error: Error,
)
    requires
        call_ensures(
            SansService::<StreamSender, ResponseSender>::next_message::<In, Out, Error>,
            (service, event),
            action,
        ),
    ensures
        event == ServiceEvent::<In, Out, StreamSender, ResponseSender, Error>::Received(
            Ok(Some(Message::Oneshot(oneshot))),
        ) ==> {
            &&& action == ServiceAction::<In, Out, ResponseSender, Error>::Return(
                Ok(Some(ServiceMessage::Oneshot(oneshot))),
            )
            &&& final(service)@ == old(service)@
        },
        event == ServiceEvent::<In, Out, StreamSender, ResponseSender, Error>::Received(
            Ok(Some(Message::Request(request))),
        ) ==> {
            &&& action == ServiceAction::<In, Out, ResponseSender, Error>::Return(
                Ok(Some(ServiceMessage::Request(request))),
            )
            &&& final(service)@ == old(service)@
        },
        event == ServiceEvent::<In, Out, StreamSender, ResponseSender, Error>::Received(
            Ok(Some(Message::OpenStream(stream))),
        ) ==> {
            &&& action == ServiceAction::<In, Out, ResponseSender, Error>::Return(
                Ok(Some(ServiceMessage::OpenStream(stream))),
            )
            &&& final(service)@ == old(service)@
        },
        event == ServiceEvent::<In, Out, StreamSender, ResponseSender, Error>::Received(
            Ok(None),
        ) ==> {
            &&& action == ServiceAction::<In, Out, ResponseSender, Error>::Return(Ok(None))
            &&& final(service)@ == old(service)@
        },
        event == ServiceEvent::<In, Out, StreamSender, ResponseSender, Error>::Received(
            Err(error),
        ) ==> {
            &&& action == ServiceAction::<In, Out, ResponseSender, Error>::Return(Err(error))
            &&& final(service)@ == old(service)@
        },
{
}

/// What this side produces goes out unchanged, whoever waits for what: answers, items and
/// what a handle asks for. Where a source has ended, nothing goes out.
pub proof fn what_is_produced_goes_out_unchanged<In, Out, StreamSender, ResponseSender, Error>(
    service: &mut SansService<StreamSender, ResponseSender>,
    event: ServiceEvent<In, Out, StreamSender, ResponseSender, Error>,
    action: ServiceAction<In, Out, ResponseSender, Error>,
    response: Response<Out>,
    item: StreamMessage<Out>,
    oneshot: Oneshot<Out>,
)
    requires
        call_ensures(
            SansService::<StreamSender, ResponseSender>::next_message::<In, Out, Error>,
            (service, event),
            action,
        ),
    ensures
        event == ServiceEvent::<In, Out, StreamSender, ResponseSender, Error>::Answer(
            Some(response),
        ) ==> {
            &&& action == ServiceAction::<In, Out, ResponseSender, Error>::Send(
                Message::Response(response),
            )
            &&& final(service)@ == old(service)@
        },
        event == ServiceEvent::<In, Out, StreamSender, ResponseSender, Error>::StreamItem(
            Some(item),
        ) ==> {
            &&& action == ServiceAction::<In, Out, ResponseSender, Error>::Send(
                Message::StreamMessage(item),
            )
            &&& final(service)@ == old(service)@
        },
        event == ServiceEvent::<In, Out, StreamSender, ResponseSender, Error>::Interaction(
            Some(ServiceInteraction::Oneshot(oneshot)),
        ) ==> {
            &&& action == ServiceAction::<In, Out, ResponseSender, Error>::MustSend(
                Message::Oneshot(oneshot),
            )
            &&& final(service)@ == old(service)@
        },
        event == ServiceEvent::<In, Out, StreamSender, ResponseSender, Error>::Answer(None) || event
            == ServiceEvent::<In, Out, StreamSender, ResponseSender, Error>::StreamItem(None)
            || event == ServiceEvent::<In, Out, StreamSender, ResponseSender, Error>::Interaction(
            None,
        ) ==> {
            &&& action == ServiceAction::<In, Out, ResponseSender, Error>::Continue
            &&& final(service)@ == old(service)@
        },
{
}

/// A request of this side goes out unchanged, and from then on the one who asked, and
/// nobody else, waits for the answer with its id. Nobody else is touched.
pub proof fn who_asks_waits_for_the_answer<In, Out, StreamSender, ResponseSender, Error>(
    service: &mut SansService<StreamSender, ResponseSender>,
    request: Request<Out>,
    sender: ResponseSender,
    action: ServiceAction<In, Out, ResponseSender, Error>,
    other: u64,
)
    requires
        call_ensures(
            SansService::<StreamSender, ResponseSender>::next_message::<In, Out, Error>,
            (
                service,
                ServiceEvent::<In, Out, StreamSender, ResponseSender, Error>::Interaction(
                    Some(ServiceInteraction::Request(request, sender)),
                ),
            ),
            action,
        ),
    ensures
        action == ServiceAction::<In, Out, ResponseSender, Error>::MustSend(
            Message::Request(request),
        ),
        final(service)@.responses.contains_key(request.request_id),
        final(service)@.responses[request.request_id] == sender,
        other != request.request_id ==> {
            &&& final(service)@.responses.contains_key(other) <==> old(
                service,
            )@.responses.contains_key(other)
            &&& old(service)@.responses.contains_key(other) ==> final(service)@.responses[other]
                == old(service)@.responses[other]
        },
        final(service)@.streams == old(service)@.streams,
{
}

/// An answer of the peer is handed, unchanged, to the one who waits for its id, who then
/// waits no longer. Where nobody waits for it, nothing happens. Nobody else is touched.
pub proof fn answers_go_to_who_waits<In, Out, StreamSender, ResponseSender, Error>(
    service: &mut SansService<StreamSender, ResponseSender>,
    response: Response<In>,
    action: ServiceAction<In, Out, ResponseSender, Error>,
    other: u64,
)
    requires
        call_ensures(
            SansService::<StreamSender, ResponseSender>::next_message::<In, Out, Error>,
            (
                service,
                ServiceEvent::<In, Out, StreamSender, ResponseSender, Error>::Received(
                    Ok(Some(Message::Response(response))),
                ),
            ),
            action,
        ),
    ensures
        if old(service)@.responses.contains_key(response.request_id) {
            action == (ServiceAction::<In, Out, ResponseSender, Error>::Respond {
                sender: old(service)@.responses[response.request_id],
                response,
            })
        } else {
            action == ServiceAction::<In, Out, ResponseSender, Error>::Continue
        },
        !final(service)@.responses.contains_key(response.request_id),
        other != response.request_id ==> {
            &&& final(service)@.responses.contains_key(other) <==> old(
                service,
            )@.responses.contains_key(other)
            &&& old(service)@.responses.contains_key(other) ==> final(service)@.responses[other]
                == old(service)@.responses[other]
        },
        final(service)@.streams == old(service)@.streams,
{
}

/// A stream that this side asks for goes out unchanged, and from then on the one who asked
/// takes its items. Nobody else is touched.
pub proof fn who_opens_takes_the_items<In, Out, StreamSender, ResponseSender, Error>(
    service: &mut SansService<StreamSender, ResponseSender>,
    request: OpenStream<Out>,
    sender: StreamSender,
    action: ServiceAction<In, Out, ResponseSender, Error>,
    other: u64,
)
    requires
        call_ensures(
            SansService::<StreamSender, ResponseSender>::next_message::<In, Out, Error>,
            (
                service,
                ServiceEvent::<In, Out, StreamSender, ResponseSender, Error>::Interaction(
                    Some(ServiceInteraction::OpenStream(request, sender)),
                ),
            ),
            action,
        ),
    ensures
        action == ServiceAction::<In, Out, ResponseSender, Error>::MustSend(
            Message::OpenStream(request),
        ),
        final(service)@.streams.contains_key(request.stream_id),
        final(service)@.streams[request.stream_id] == sender,
        other != request.stream_id ==> {
            &&& final(service)@.streams.contains_key(other) <==> old(
                service,
            )@.streams.contains_key(other)
            &&& old(service)@.streams.contains_key(other) ==> final(service)@.streams[other]
                == old(service)@.streams[other]
        },
        final(service)@.responses == old(service)@.responses,
{
}

/// An item of the peer is handed on, unchanged, where its stream is open, and dropped
/// otherwise. The streams stay as they are.
pub proof fn items_go_to_open_streams<In, Out, StreamSender, ResponseSender, Error>(
    service: &mut SansService<StreamSender, ResponseSender>,
    item: StreamMessage<In>,
    action: ServiceAction<In, Out, ResponseSender, Error>,
)
    requires
        call_ensures(
            SansService::<StreamSender, ResponseSender>::next_message::<In, Out, Error>,
            (
                service,
                ServiceEvent::<In, Out, StreamSender, ResponseSender, Error>::Received(
                    Ok(Some(Message::StreamMessage(item))),
                ),
            ),
            action,
        ),
    ensures
        if old(service)@.streams.contains_key(item.stream_id) {
            action == ServiceAction::<In, Out, ResponseSender, Error>::Forward(item)
        } else {
            action == ServiceAction::<In, Out, ResponseSender, Error>::Continue
        },
        final(service)@ == old(service)@,
{
}

/// A stream that the peer closes takes no more items. The others stay open.
pub proof fn closed_streams_take_no_items<In, Out, StreamSender, ResponseSender, Error>(
    service: &mut SansService<StreamSender, ResponseSender>,
    stream_id: u64,
    action: ServiceAction<In, Out, ResponseSender, Error>,
    other: u64,
)
    requires
        call_ensures(
            SansService::<StreamSender, ResponseSender>::next_message::<In, Out, Error>,
            (
                service,
                ServiceEvent::<In, Out, StreamSender, ResponseSender, Error>::Received(
                    Ok(Some(Message::CloseStream { stream_id })),
                ),
            ),
            action,
        ),
    ensures
        action == ServiceAction::<In, Out, ResponseSender, Error>::Continue,
        !final(service)@.streams.contains_key(stream_id),
        other != stream_id ==> {
            &&& final(service)@.streams.contains_key(other) <==> old(
                service,
            )@.streams.contains_key(other)
            &&& old(service)@.streams.contains_key(other) ==> final(service)@.streams[other]
                == old(service)@.streams[other]
        },
        final(service)@.responses == old(service)@.responses,
{
}

/// A running service stops where the messages end or fail. It handles every other message
/// by its kind, under its own id, with the payload converted to what the handler takes.
pub proof fn run_step_follows_the_message<In, Failure, Stream, Asked, Told, Error>(
    next: Result<Option<ServiceMessage<In>>, Failure>,
    step: RunStep<Stream, Asked, Told, Error>,
) where Stream: From<In>, Asked: From<In>, Told: From<In>, Error: From<Failure>
    requires
        call_ensures(run_step::<In, Failure, Stream, Asked, Told, Error>, (next,), step),
    ensures
        next matches Err(failure) ==> step is Stop && step->Stop_0 is Err && call_ensures(
            Error::from,
            (failure,),
            step->Stop_0->Err_0,
        ),
        next matches Ok(None) ==> step is Stop && step->Stop_0 is Ok,
        next matches Ok(Some(ServiceMessage::OpenStream(message))) ==> step is HandleStream
            && step->stream_id == message.stream_id && call_ensures(
            Stream::from,
            (message.data,),
            step->stream,
        ),
        next matches Ok(Some(ServiceMessage::Request(message))) ==> step is HandleRequest
            && step->request_id == message.request_id && call_ensures(
            Asked::from,
            (message.data,),
            step->request,
        ),
        next matches Ok(Some(ServiceMessage::Oneshot(message))) ==> step is HandleOneshot
            && call_ensures(Told::from, (message.message,), step->HandleOneshot_0),
{
}

/// What a handler gives goes out under the id that it was asked with, converted once.
pub proof fn replies_keep_the_id<K, Out, F: Fn(K) -> Out>(
    id: u64,
    map: &F,
    value: K,
    response: Response<Out>,
    item: StreamMessage<Out>,
)
    ensures
        call_ensures(answer::<K, Out, F>, (id, map, value), response) ==> response.request_id == id
            && call_ensures(*map, (value,), response.data),
        call_ensures(stream_item::<K, Out, F>, (id, map, value), item) ==> item.stream_id == id
            && call_ensures(*map, (value,), item.data),
{
}

/// The answer to a request of the peer reaches the peer under the id of the request: the
/// request is handed out, handled and answered, and what goes out is that answer.
pub proof fn the_peer_gets_its_answer<
    In,
    Out,
    StreamSender,
    ResponseSender,
    Failure,
    Stream,
    Asked,
    Told,
    Error,
    K,
    F: Fn(K) -> Out,
>(
    receiving: &mut SansService<StreamSender, ResponseSender>,
    request: Request<In>,
    handed_out: Result<Option<ServiceMessage<In>>, Failure>,
    step: RunStep<Stream, Asked, Told, Error>,
    map: &F,
    value: K,
    response: Response<Out>,
    answering: &mut SansService<StreamSender, ResponseSender>,
    action: ServiceAction<In, Out, ResponseSender, Failure>,
) where Stream: From<In>, Asked: From<In>, Told: From<In>, Error: From<Failure>
    requires
        call_ensures(
            SansService::<StreamSender, ResponseSender>::next_message::<In, Out, Failure>,
            (
                receiving,
                ServiceEvent::<In, Out, StreamSender, ResponseSender, Failure>::Received(
                    Ok(Some(Message::Request(request))),
                ),
            ),
            ServiceAction::<In, Out, ResponseSender, Failure>::Return(handed_out),
        ),
        call_ensures(run_step::<In, Failure, Stream, Asked, Told, Error>, (handed_out,), step),
        call_ensures(answer::<K, Out, F>, (step->request_id, map, value), response),
        call_ensures(
            SansService::<StreamSender, ResponseSender>::next_message::<In, Out, Failure>,
            (
                answering,
                ServiceEvent::<In, Out, StreamSender, ResponseSender, Failure>::Answer(
                    Some(response),
                ),
            ),
            action,
        ),
    ensures
        step is HandleRequest,
        call_ensures(Asked::from, (request.data,), step->request),
        action matches ServiceAction::Send(Message::Response(sent)) && sent.request_id
            == request.request_id && call_ensures(*map, (value,), sent.data),
{
}

} // verus!
