//! What holds of a service over many events.

use crate::message::{Message, Oneshot, OpenStream, Request, Response, StreamMessage};
use crate::sans_service::{ServiceAction, ServiceEvent, ServiceView};
use crate::service_message::{ServiceInteraction, ServiceMessage};
use vstd::prelude::*;

verus! {

/// The messages of the peer that a service has to act on are handed out as they came,
/// whoever waits for what.
pub proof fn messages_are_handed_out<In, Out, StreamSender, ResponseSender, Error>(
    service: ServiceView<StreamSender, ResponseSender>,
    oneshot: Oneshot<In>,
    request: Request<In>,
    stream: OpenStream<In>,
)
    ensures
        service.action::<In, Out, Error>(
            ServiceEvent::Received(Ok(Some(Message::Oneshot(oneshot)))),
        ) == ServiceAction::<In, Out, ResponseSender, Error>::Return(
            Ok(Some(ServiceMessage::Oneshot(oneshot))),
        ),
        service.action::<In, Out, Error>(
            ServiceEvent::Received(Ok(Some(Message::Request(request)))),
        ) == ServiceAction::<In, Out, ResponseSender, Error>::Return(
            Ok(Some(ServiceMessage::Request(request))),
        ),
        service.action::<In, Out, Error>(
            ServiceEvent::Received(Ok(Some(Message::OpenStream(stream)))),
        ) == ServiceAction::<In, Out, ResponseSender, Error>::Return(
            Ok(Some(ServiceMessage::OpenStream(stream))),
        ),
{
}

/// `event` says nothing of the request `request_id`: it is neither asked nor answered.
pub open spec fn leaves_request<In, Out, StreamSender, ResponseSender, Error>(
    event: ServiceEvent<In, Out, StreamSender, ResponseSender, Error>,
    request_id: u64,
) -> bool {
    match event {
        ServiceEvent::Received(Ok(Some(Message::Response(response)))) => response.request_id
            != request_id,
        ServiceEvent::Interaction(
            Some(ServiceInteraction::Request(request, _)),
        ) => request.request_id != request_id,
        _ => true,
    }
}

/// `event` says nothing of the stream `stream_id`: it is neither opened nor closed.
pub open spec fn leaves_stream<In, Out, StreamSender, ResponseSender, Error>(
    event: ServiceEvent<In, Out, StreamSender, ResponseSender, Error>,
    stream_id: u64,
) -> bool {
    match event {
        ServiceEvent::Received(Ok(Some(Message::CloseStream { stream_id: closed }))) => closed
            != stream_id,
        ServiceEvent::Interaction(
            Some(ServiceInteraction::OpenStream(request, _)),
        ) => request.stream_id != stream_id,
        _ => true,
    }
}

/// Who waits for what after all `events`.
pub open spec fn after_all<In, Out, StreamSender, ResponseSender, Error>(
    service: ServiceView<StreamSender, ResponseSender>,
    events: Seq<ServiceEvent<In, Out, StreamSender, ResponseSender, Error>>,
) -> ServiceView<StreamSender, ResponseSender>
    decreases events.len(),
{
    if events.len() == 0 {
        service
    } else {
        after_all(service, events.drop_last()).after(events.last())
    }
}

/// A request goes out once, and whatever happens before it is answered, the answer goes
/// to the one who asked. A second answer goes to nobody.
pub proof fn answers_reach_who_asked<In, Out, StreamSender, ResponseSender, Error>(
    service: ServiceView<StreamSender, ResponseSender>,
    request: Request<Out>,
    sender: ResponseSender,
    events: Seq<ServiceEvent<In, Out, StreamSender, ResponseSender, Error>>,
    response: Response<In>,
    again: Response<In>,
)
    requires
        response.request_id == request.request_id,
        again.request_id == request.request_id,
        forall|i: int|
            0 <= i < events.len() ==> leaves_request(#[trigger] events[i], request.request_id),
    ensures
        ({
            let asked = ServiceEvent::<In, Out, StreamSender, ResponseSender, Error>::Interaction(
                Some(ServiceInteraction::Request(request, sender)),
            );
            let answered = ServiceEvent::<
                In,
                Out,
                StreamSender,
                ResponseSender,
                Error,
            >::Received(Ok(Some(Message::Response(response))));
            let repeated = ServiceEvent::<
                In,
                Out,
                StreamSender,
                ResponseSender,
                Error,
            >::Received(Ok(Some(Message::Response(again))));
            let waiting = after_all(service.after(asked), events);
            &&& service.action(asked) == ServiceAction::<
                In,
                Out,
                ResponseSender,
                Error,
            >::MustSend(Message::Request(request))
            &&& waiting.action(answered) == (ServiceAction::<In, Out, ResponseSender, Error>::Respond {
                sender,
                response,
            })
            &&& waiting.after(answered).action(repeated) == ServiceAction::<
                In,
                Out,
                ResponseSender,
                Error,
            >::Continue
        }),
{
    let asked = ServiceEvent::<In, Out, StreamSender, ResponseSender, Error>::Interaction(
        Some(ServiceInteraction::Request(request, sender)),
    );
    lemma_requests_wait(service.after(asked), request.request_id, sender, events);
}

proof fn lemma_requests_wait<In, Out, StreamSender, ResponseSender, Error>(
    service: ServiceView<StreamSender, ResponseSender>,
    request_id: u64,
    sender: ResponseSender,
    events: Seq<ServiceEvent<In, Out, StreamSender, ResponseSender, Error>>,
)
    requires
        service.responses.contains_key(request_id),
        service.responses[request_id] == sender,
        forall|i: int| 0 <= i < events.len() ==> leaves_request(#[trigger] events[i], request_id),
    ensures
        after_all(service, events).responses.contains_key(request_id),
        after_all(service, events).responses[request_id] == sender,
    decreases events.len(),
{
    if events.len() > 0 {
        lemma_requests_wait(service, request_id, sender, events.drop_last());
        assert(leaves_request(events[events.len() - 1], request_id));
    }
}

/// Once a stream was asked for, its items go to the one who asked for it, whatever else
/// happens, until it is closed. From then on they go to nobody.
pub proof fn items_reach_who_asked<In, Out, StreamSender, ResponseSender, Error>(
    service: ServiceView<StreamSender, ResponseSender>,
    request: OpenStream<Out>,
    sender: StreamSender,
    events: Seq<ServiceEvent<In, Out, StreamSender, ResponseSender, Error>>,
    item: StreamMessage<In>,
)
    requires
        item.stream_id == request.stream_id,
        forall|i: int|
            0 <= i < events.len() ==> leaves_stream(#[trigger] events[i], request.stream_id),
    ensures
        ({
            let asked = ServiceEvent::<In, Out, StreamSender, ResponseSender, Error>::Interaction(
                Some(ServiceInteraction::OpenStream(request, sender)),
            );
            let came = ServiceEvent::<
                In,
                Out,
                StreamSender,
                ResponseSender,
                Error,
            >::Received(Ok(Some(Message::StreamMessage(item))));
            let closed = ServiceEvent::<
                In,
                Out,
                StreamSender,
                ResponseSender,
                Error,
            >::Received(Ok(Some(Message::CloseStream { stream_id: request.stream_id })));
            let open = after_all(service.after(asked), events);
            &&& service.action(asked) == ServiceAction::<
                In,
                Out,
                ResponseSender,
                Error,
            >::MustSend(Message::OpenStream(request))
            &&& open.streams[request.stream_id] == sender
            &&& open.action(came) == ServiceAction::<In, Out, ResponseSender, Error>::Forward(item)
            &&& open.expects(closed)
            &&& open.after(closed).action(came) == ServiceAction::<
                In,
                Out,
                ResponseSender,
                Error,
            >::Continue
        }),
{
    let asked = ServiceEvent::<In, Out, StreamSender, ResponseSender, Error>::Interaction(
        Some(ServiceInteraction::OpenStream(request, sender)),
    );
    lemma_streams_wait(service.after(asked), request.stream_id, sender, events);
}

proof fn lemma_streams_wait<In, Out, StreamSender, ResponseSender, Error>(
    service: ServiceView<StreamSender, ResponseSender>,
    stream_id: u64,
    sender: StreamSender,
    events: Seq<ServiceEvent<In, Out, StreamSender, ResponseSender, Error>>,
)
    requires
        service.streams.contains_key(stream_id),
        service.streams[stream_id] == sender,
        forall|i: int| 0 <= i < events.len() ==> leaves_stream(#[trigger] events[i], stream_id),
    ensures
        after_all(service, events).streams.contains_key(stream_id),
        after_all(service, events).streams[stream_id] == sender,
    decreases events.len(),
{
    if events.len() > 0 {
        lemma_streams_wait(service, stream_id, sender, events.drop_last());
        assert(leaves_stream(events[events.len() - 1], stream_id));
    }
}

} // verus!
