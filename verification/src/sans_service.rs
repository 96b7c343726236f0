//! Routing of messages between the peer and those who wait for its answers.

use crate::message::{Message, Response, StreamMessage};
use crate::service_message::{ServiceInteraction, ServiceMessage};
use std::collections::HashMap;
use vstd::prelude::*;

verus! {

broadcast use vstd::std_specs::hash::group_hash_axioms;

/// Something that happened to a service.
pub enum ServiceEvent<In, Out, StreamSender, ResponseSender, Error> {
    /// The reader gave a message, ended or failed.
    Received(Result<Option<Message<In>>, Error>),
    /// An opened stream of this side gave an item, or all of them have ended.
    StreamItem(Option<StreamMessage<Out>>),
    /// A request of the peer was answered, or all of them have been.
    Answer(Option<Response<Out>>),
    /// A handle asks for something, or all handles are gone.
    Interaction(Option<ServiceInteraction<Out, StreamSender, ResponseSender>>),
}

/// What to do about an event.
pub enum ServiceAction<In, Out, ResponseSender, Error> {
    /// Hand this out: a message, the end of all messages, or an error.
    Return(Result<Option<ServiceMessage<In>>, Error>),
    /// Nothing; wait for the next event.
    Continue,
    /// Hand the response to the one who asked. It is no fault if they are gone.
    Respond { sender: ResponseSender, response: Response<In> },
    /// Hand the item to the sender of its stream, which must take it.
    Forward(StreamMessage<In>),
    /// Write the message; a failure is handed out.
    Send(Message<Out>),
    /// Write the message; a failure is fatal.
    MustSend(Message<Out>),
}

/// Who waits for what.
#[verifier::ext_equal]
pub struct ServiceView<StreamSender, ResponseSender> {
    /// Who takes the items of a stream, by the id of the stream.
    pub streams: Map<u64, StreamSender>,
    /// Who takes the response to a request, by the id of the request.
    pub responses: Map<u64, ResponseSender>,
}

impl<StreamSender, ResponseSender> ServiceView<StreamSender, ResponseSender> {
    /// The peer only closes streams that are open.
    pub open spec fn expects<In, Out, Error>(
        self,
        event: ServiceEvent<In, Out, StreamSender, ResponseSender, Error>,
    ) -> bool {
        event matches ServiceEvent::Received(Ok(Some(Message::CloseStream { stream_id })))
            ==> self.streams.contains_key(stream_id)
    }

    /// Who waits for what after `event`.
    pub open spec fn after<In, Out, Error>(
        self,
        event: ServiceEvent<In, Out, StreamSender, ResponseSender, Error>,
    ) -> Self {
        match event {
            ServiceEvent::Received(Ok(Some(Message::Response(response)))) => ServiceView {
                responses: self.responses.remove(response.request_id),
                ..self
            },
            ServiceEvent::Received(Ok(Some(Message::CloseStream { stream_id }))) => ServiceView {
                streams: self.streams.remove(stream_id),
                ..self
            },
            ServiceEvent::Interaction(
                Some(ServiceInteraction::OpenStream(request, sender)),
            ) => ServiceView { streams: self.streams.insert(request.stream_id, sender), ..self },
            ServiceEvent::Interaction(
                Some(ServiceInteraction::Request(request, sender)),
            ) => ServiceView { responses: self.responses.insert(request.request_id, sender), ..self },
            _ => self,
        }
    }

    /// What is to be done about `event`.
    pub open spec fn action<In, Out, Error>(
        self,
        event: ServiceEvent<In, Out, StreamSender, ResponseSender, Error>,
    ) -> ServiceAction<In, Out, ResponseSender, Error> {
        match event {
            ServiceEvent::Received(Err(error)) => ServiceAction::Return(Err(error)),
            ServiceEvent::Received(Ok(None)) => ServiceAction::Return(Ok(None)),
            ServiceEvent::Received(Ok(Some(message))) => match message {
                Message::Oneshot(oneshot) => ServiceAction::Return(
                    Ok(Some(ServiceMessage::Oneshot(oneshot))),
                ),
                Message::Request(request) => ServiceAction::Return(
                    Ok(Some(ServiceMessage::Request(request))),
                ),
                Message::OpenStream(request) => ServiceAction::Return(
                    Ok(Some(ServiceMessage::OpenStream(request))),
                ),
                Message::Response(response) => if self.responses.contains_key(
                    response.request_id,
                ) {
                    ServiceAction::Respond {
                        sender: self.responses[response.request_id],
                        response,
                    }
                } else {
                    ServiceAction::Continue
                },
                Message::StreamMessage(item) => if self.streams.contains_key(item.stream_id) {
                    ServiceAction::Forward(item)
                } else {
                    ServiceAction::Continue
                },
                Message::CloseStream { stream_id } => ServiceAction::Continue,
            },
            ServiceEvent::StreamItem(Some(item)) => ServiceAction::Send(
                Message::StreamMessage(item),
            ),
            ServiceEvent::Answer(Some(response)) => ServiceAction::Send(
                Message::Response(response),
            ),
            ServiceEvent::Interaction(Some(interaction)) => ServiceAction::MustSend(
                match interaction {
                    ServiceInteraction::OpenStream(request, _) => Message::OpenStream(request),
                    ServiceInteraction::Request(request, _) => Message::Request(request),
                    ServiceInteraction::Oneshot(oneshot) => Message::Oneshot(oneshot),
                },
            ),
            ServiceEvent::StreamItem(None) => ServiceAction::Continue,
            ServiceEvent::Answer(None) => ServiceAction::Continue,
            ServiceEvent::Interaction(None) => ServiceAction::Continue,
        }
    }
}

/// The routing state of a service.
pub struct SansService<StreamSender, ResponseSender> {
    incoming_streams: HashMap<u64, StreamSender>,
    incoming_responses: HashMap<u64, ResponseSender>,
}

impl<StreamSender, ResponseSender> View for SansService<StreamSender, ResponseSender> {
    type V = ServiceView<StreamSender, ResponseSender>;

    closed spec fn view(&self) -> ServiceView<StreamSender, ResponseSender> {
        ServiceView { streams: self.incoming_streams@, responses: self.incoming_responses@ }
    }
}

impl<StreamSender, ResponseSender> SansService<StreamSender, ResponseSender> {
    /// A service for whose answers nobody waits yet.
    pub fn new() -> (service: Self)
        ensures
            service@.streams == Map::<u64, StreamSender>::empty(),
            service@.responses == Map::<u64, ResponseSender>::empty(),
    {
        SansService { incoming_streams: HashMap::new(), incoming_responses: HashMap::new() }
    }

    /// Who takes the items of the stream, if it is open.
    pub fn stream_sender(&self, stream_id: u64) -> (sender: Option<&StreamSender>)
        ensures
            match sender {
                Some(sender) => self@.streams.contains_key(stream_id) && *sender
                    == self@.streams[stream_id],
                None => !self@.streams.contains_key(stream_id),
            },
    {
        self.incoming_streams.get(&stream_id)
    }

    /// Decides what to do about an event, until a message is to be handed out.
    pub fn next_message<In, Out, Error>(
        &mut self,
        event: ServiceEvent<In, Out, StreamSender, ResponseSender, Error>,
    ) -> (action: ServiceAction<In, Out, ResponseSender, Error>)
        requires
            old(self)@.expects(event),
        ensures
            final(self)@ == old(self)@.after(event),
            action == old(self)@.action(event),
    {
        match event {
            ServiceEvent::Received(received) => match received {
                Err(error) => ServiceAction::Return(Err(error)),
                Ok(None) => ServiceAction::Return(Ok(None)),
                Ok(Some(message)) => self.receive(message),
            },
            ServiceEvent::StreamItem(Some(item)) => ServiceAction::Send(
                Message::StreamMessage(item),
            ),
            ServiceEvent::StreamItem(None) => ServiceAction::Continue,
            ServiceEvent::Answer(Some(response)) => ServiceAction::Send(
                Message::Response(response),
            ),
            ServiceEvent::Answer(None) => ServiceAction::Continue,
            ServiceEvent::Interaction(None) => ServiceAction::Continue,
            ServiceEvent::Interaction(Some(interaction)) => match interaction {
                ServiceInteraction::OpenStream(request, sender) => {
                    self.incoming_streams.insert(request.stream_id, sender);
                    ServiceAction::MustSend(Message::OpenStream(request))
                },
                ServiceInteraction::Request(request, sender) => {
                    self.incoming_responses.insert(request.request_id, sender);
                    ServiceAction::MustSend(Message::Request(request))
                },
                ServiceInteraction::Oneshot(oneshot) => ServiceAction::MustSend(
                    Message::Oneshot(oneshot),
                ),
            },
        }
    }

    /// Decides what to do about a message of the peer.
    fn receive<In, Out, Error>(&mut self, message: Message<In>) -> (action: ServiceAction<
        In,
        Out,
        ResponseSender,
        Error,
    >)
        requires
            old(self)@.expects(
                ServiceEvent::<In, Out, StreamSender, ResponseSender, Error>::Received(
                    Ok(Some(message)),
                ),
            ),
        ensures
            final(self)@ == old(self)@.after(
                ServiceEvent::<In, Out, StreamSender, ResponseSender, Error>::Received(
                    Ok(Some(message)),
                ),
            ),
            action == old(self)@.action(
                ServiceEvent::<In, Out, StreamSender, ResponseSender, Error>::Received(
                    Ok(Some(message)),
                ),
            ),
    {
        match message {
            Message::Oneshot(oneshot) => ServiceAction::Return(
                Ok(Some(ServiceMessage::Oneshot(oneshot))),
            ),
            Message::Request(request) => ServiceAction::Return(
                Ok(Some(ServiceMessage::Request(request))),
            ),
            Message::Response(response) => match self.incoming_responses.remove(
                &response.request_id,
            ) {
                Some(sender) => ServiceAction::Respond { sender, response },
                None => ServiceAction::Continue,
            },
            Message::OpenStream(request) => ServiceAction::Return(
                Ok(Some(ServiceMessage::OpenStream(request))),
            ),
            Message::StreamMessage(item) => if self.incoming_streams.contains_key(
                &item.stream_id,
            ) {
                ServiceAction::Forward(item)
            } else {
                ServiceAction::Continue
            },
            Message::CloseStream { stream_id } => {
                self.incoming_streams.remove(&stream_id);
                ServiceAction::Continue
            },
        }
    }
}

/// The item `item` of the stream `stream_id` as it goes to the peer.
pub fn stream_item<K, Out, F: Fn(K) -> Out>(stream_id: u64, map: &F, item: K) -> (message:
    StreamMessage<Out>)
    requires
        call_requires(*map, (item,)),
    ensures
        message.stream_id == stream_id,
        call_ensures(*map, (item,), message.data),
{
    StreamMessage { stream_id, data: map(item) }
}

/// The answer `item` to the request `request_id` as it goes to the peer.
pub fn answer<K, Out, F: Fn(K) -> Out>(request_id: u64, map: &F, item: K) -> (response: Response<
    Out,
>)
    requires
        call_requires(*map, (item,)),
    ensures
        response.request_id == request_id,
        call_ensures(*map, (item,), response.data),
{
    Response { request_id, data: map(item) }
}

} // verus!
