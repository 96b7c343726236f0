use sansrpc::connection_state::{ConnectionConfig, ConnectionState};
use sansrpc::encoder::{with_length, SansDecoder, SansEncoder};
use sansrpc::message::{
    Message, Oneshot, OpenBiDirectionalStream, OpenStream, Request, Response, StreamMessage,
};
use sansrpc::sans_service::{answer, stream_item, SansService, ServiceAction, ServiceEvent};
use sansrpc::service::{run_step, RunStep};
use sansrpc::service_message::{ServiceInteraction, ServiceMessage};
use std::cell::RefCell;
use std::rc::Rc;

#[derive(Debug, Clone, PartialEq)]
struct ServerMessage {}

#[derive(Debug, Clone, PartialEq)]
struct ClientMessage {
    message: String,
}

/// Keeps what it is handed.
type Kept<T> = Rc<RefCell<Vec<T>>>;

type Event = ServiceEvent<
    ServerMessage,
    ClientMessage,
    Kept<StreamMessage<ServerMessage>>,
    Kept<Response<ServerMessage>>,
    String,
>;

type Action =
    ServiceAction<ServerMessage, ClientMessage, Kept<Response<ServerMessage>>, String>;

type Service = SansService<Kept<StreamMessage<ServerMessage>>, Kept<Response<ServerMessage>>>;

fn kept<T>() -> Kept<T> {
    Rc::new(RefCell::new(vec![]))
}

fn client(message: &str) -> ClientMessage {
    ClientMessage { message: message.to_string() }
}

fn received(message: Message<ServerMessage>) -> Event {
    ServiceEvent::Received(Ok(Some(message)))
}

fn response(request_id: u64) -> Message<ServerMessage> {
    Message::Response(Response { request_id, data: ServerMessage {} })
}

fn item(stream_id: u64) -> Message<ServerMessage> {
    Message::StreamMessage(StreamMessage { stream_id, data: ServerMessage {} })
}

fn sent(action: Action) -> Message<ClientMessage> {
    match action {
        ServiceAction::Send(message) | ServiceAction::MustSend(message) => message,
        _ => panic!("nothing is sent"),
    }
}

fn is_continue(action: Action) -> bool {
    matches!(action, ServiceAction::Continue)
}

#[test]
fn in_memory_test() {
    let mut service: Service = SansService::new();
    let mut client_received: Vec<String> = vec![];

    let asked = Event::Interaction(Some(ServiceInteraction::Oneshot(Oneshot {
        message: client("my message"),
    })));
    client_received.push(format!("{:?}", sent(service.next_message(asked))));

    let action = service
        .next_message(received(Message::Request(Request { request_id: 2, data: ServerMessage {} })));
    let ServiceAction::Return(Ok(Some(ServiceMessage::Request(request)))) = action else {
        panic!("the request is handed out")
    };
    let reply = answer(request.request_id, &|message| ClientMessage { message }, "response".to_string());
    client_received
        .push(format!("{:?}", sent(service.next_message(Event::Answer(Some(reply))))));

    let action = service.next_message(received(Message::OpenStream(OpenStream {
        stream_id: 1,
        data: ServerMessage {},
    })));
    let ServiceAction::Return(Ok(Some(ServiceMessage::OpenStream(stream)))) = action else {
        panic!("the stream request is handed out")
    };
    for i in 0..3 {
        let item = stream_item(stream.stream_id, &|message| ClientMessage { message }, format!("{i}"));
        client_received
            .push(format!("{:?}", sent(service.next_message(Event::StreamItem(Some(item))))));
    }

    assert!(matches!(
        service.next_message(Event::Received(Ok(None))),
        ServiceAction::Return(Ok(None))
    ));
    assert_eq!(
        client_received,
        vec![
            "Oneshot(Oneshot { message: ClientMessage { message: \"my message\" } })",
            "Response(Response { request_id: 2, data: ClientMessage { message: \"response\" } })",
            "StreamMessage(StreamMessage { stream_id: 1, data: ClientMessage { message: \"0\" } })",
            "StreamMessage(StreamMessage { stream_id: 1, data: ClientMessage { message: \"1\" } })",
            "StreamMessage(StreamMessage { stream_id: 1, data: ClientMessage { message: \"2\" } })",
        ]
    );
}

#[test]
fn an_answer_reaches_who_asked_and_only_once() {
    let mut service: Service = SansService::new();
    let first = kept();
    let second = kept();
    for (request_id, sender) in [(1, &first), (2, &second)] {
        let asked = Event::Interaction(Some(ServiceInteraction::Request(
            Request { request_id, data: client("q") },
            sender.clone(),
        )));
        assert!(matches!(
            service.next_message(asked),
            ServiceAction::MustSend(Message::Request(Request { request_id: id, .. })) if id == request_id
        ));
    }
    assert!(is_continue(service.next_message(received(response(3)))));
    assert!(is_continue(service.next_message(received(item(1)))));
    let ServiceAction::Respond { sender, response: got } = service.next_message(received(response(2)))
    else {
        panic!("the answer is handed on")
    };
    assert!(Rc::ptr_eq(&sender, &second));
    assert_eq!(got.request_id, 2);
    assert!(is_continue(service.next_message(received(response(2)))));
    let ServiceAction::Respond { sender, .. } = service.next_message(received(response(1))) else {
        panic!("the answer is handed on")
    };
    assert!(Rc::ptr_eq(&sender, &first));
}

#[test]
fn a_later_request_with_the_same_id_takes_the_answer() {
    let mut service: Service = SansService::new();
    let first = kept();
    let second = kept();
    for sender in [&first, &second] {
        service.next_message(Event::Interaction(Some(ServiceInteraction::Request(
            Request { request_id: 1, data: client("q") },
            sender.clone(),
        ))));
    }
    let ServiceAction::Respond { sender, .. } = service.next_message(received(response(1))) else {
        panic!("the answer is handed on")
    };
    assert!(Rc::ptr_eq(&sender, &second));
    assert!(is_continue(service.next_message(received(response(1)))));
}

#[test]
fn items_reach_an_open_stream_until_it_is_closed() {
    let mut service: Service = SansService::new();
    let taker = kept();
    assert!(service.stream_sender(7).is_none());
    assert!(is_continue(service.next_message(received(item(7)))));
    let asked = Event::Interaction(Some(ServiceInteraction::OpenStream(
        OpenStream { stream_id: 7, data: client("s") },
        taker.clone(),
    )));
    assert!(matches!(
        service.next_message(asked),
        ServiceAction::MustSend(Message::OpenStream(OpenStream { stream_id: 7, .. }))
    ));
    for _ in 0..2 {
        let ServiceAction::Forward(got) = service.next_message(received(item(7))) else {
            panic!("the item is handed on")
        };
        service.stream_sender(got.stream_id).unwrap().borrow_mut().push(got);
    }
    assert_eq!(taker.borrow().len(), 2);
    assert!(is_continue(service.next_message(received(item(8)))));
    assert!(is_continue(service.next_message(received(Message::CloseStream { stream_id: 7 }))));
    assert!(service.stream_sender(7).is_none());
    assert!(is_continue(service.next_message(received(item(7)))));
}

#[test]
fn an_error_of_the_reader_is_handed_out() {
    let mut service: Service = SansService::new();
    assert!(matches!(
        service.next_message(Event::Received(Err("broken".to_string()))),
        ServiceAction::Return(Err(error)) if error == "broken"
    ));
}

#[test]
fn a_oneshot_is_handed_out() {
    let mut service: Service = SansService::new();
    assert!(matches!(
        service.next_message(received(Message::Oneshot(Oneshot { message: ServerMessage {} }))),
        ServiceAction::Return(Ok(Some(ServiceMessage::Oneshot(_))))
    ));
}

#[test]
fn a_failed_write_is_fatal_only_for_interactions() {
    let mut service: Service = SansService::new();
    let reply = Response { request_id: 1, data: client("r") };
    assert!(matches!(
        service.next_message(Event::Answer(Some(reply))),
        ServiceAction::Send(Message::Response(_))
    ));
    let item = StreamMessage { stream_id: 1, data: client("i") };
    assert!(matches!(
        service.next_message(Event::StreamItem(Some(item))),
        ServiceAction::Send(Message::StreamMessage(_))
    ));
    let asked = Event::Interaction(Some(ServiceInteraction::Oneshot(Oneshot {
        message: client("o"),
    })));
    assert!(matches!(
        service.next_message(asked),
        ServiceAction::MustSend(Message::Oneshot(_))
    ));
}

#[test]
fn the_end_of_a_source_is_nothing() {
    let mut service: Service = SansService::new();
    assert!(is_continue(service.next_message(Event::StreamItem(None))));
    assert!(is_continue(service.next_message(Event::Answer(None))));
    assert!(is_continue(service.next_message(Event::Interaction(None))));
}

#[derive(Debug, PartialEq)]
struct Wrapped(String);

impl From<String> for Wrapped {
    fn from(text: String) -> Self {
        Wrapped(text)
    }
}

type Step = RunStep<Wrapped, Wrapped, Wrapped, Wrapped>;

fn step(next: Result<Option<ServiceMessage<String>>, String>) -> Step {
    run_step(next)
}

#[test]
fn test_my_service() {
    let request = Request { request_id: 1, data: "hello".to_string() };
    match step(Ok(Some(ServiceMessage::Request(request)))) {
        RunStep::HandleRequest { request_id, request } => {
            assert_eq!(request_id, 1);
            assert_eq!(request, Wrapped("hello".to_string()));
            let reply = answer(request_id, &|text: Wrapped| text.0, request);
            assert_eq!(reply.request_id, 1);
            assert_eq!(reply.data, "hello");
        }
        _ => panic!("the request is handled"),
    }
    assert!(matches!(step(Ok(None)), RunStep::Stop(Ok(()))));
}

#[test]
fn a_running_service_handles_streams_and_oneshots() {
    let stream = OpenStream { stream_id: 9, data: "s".to_string() };
    match step(Ok(Some(ServiceMessage::OpenStream(stream)))) {
        RunStep::HandleStream { stream_id, stream } => {
            assert_eq!(stream_id, 9);
            assert_eq!(stream, Wrapped("s".to_string()));
        }
        _ => panic!("the stream is handled"),
    }
    let oneshot = Oneshot { message: "o".to_string() };
    match step(Ok(Some(ServiceMessage::Oneshot(oneshot)))) {
        RunStep::HandleOneshot(oneshot) => assert_eq!(oneshot, Wrapped("o".to_string())),
        _ => panic!("the oneshot is handled"),
    }
}

#[test]
fn a_running_service_stops_with_an_error() {
    match step(Err("broken".to_string())) {
        RunStep::Stop(Err(error)) => assert_eq!(error, Wrapped("broken".to_string())),
        _ => panic!("the service stops"),
    }
}

/// A request or response as bincode writes it: variant, id, text.
#[derive(Clone, Copy)]
struct TextCoder;

impl SansEncoder<String> for TextCoder {
    type Error = String;

    fn encode(&self, item: &Message<String>) -> Result<(Vec<u8>, u64), String> {
        let (variant, id, data) = match item {
            Message::Request(request) => (1u32, request.request_id, &request.data),
            Message::Response(response) => (2, response.request_id, &response.data),
            _ => return Err("neither request nor response".to_string()),
        };
        bincode::serde::encode_to_vec((variant, id, data), bincode::config::standard())
            .map(with_length)
            .map_err(|error| error.to_string())
    }
}

impl SansDecoder<String> for TextCoder {
    type Error = String;

    fn decode(&self, bytes: &[u8]) -> Result<Message<String>, String> {
        let ((variant, request_id, data), _read): ((u32, u64, String), usize) =
            bincode::serde::decode_from_slice(bytes, bincode::config::standard())
                .map_err(|error| error.to_string())?;
        match variant {
            1 => Ok(Message::Request(Request { request_id, data })),
            2 => Ok(Message::Response(Response { request_id, data })),
            _ => Err("neither request nor response".to_string()),
        }
    }
}

type TextConnection = ConnectionState<String, String, TextCoder, TextCoder>;

fn text_connection() -> TextConnection {
    ConnectionState::new(
        ConnectionConfig::builder::<String, String, _>().coder(TextCoder).build(),
    )
}

/// Sends a message from one end to the other.
fn travel(
    from: &mut TextConnection,
    to: &mut TextConnection,
    message: Message<String>,
) -> Message<String> {
    assert!(from.feed_item(message).is_none());
    from.process_write().unwrap();
    let bytes = from.consume_all().unwrap();
    assert_eq!(to.feed_bytes(&bytes), bytes.len());
    to.process_read().unwrap();
    to.consume_item().unwrap()
}

#[test]
fn test_my_service_tcp() {
    let mut client = text_connection();
    let mut server = text_connection();
    let mut asking: SansService<(), Kept<Response<String>>> = SansService::new();
    let mut serving: SansService<(), ()> = SansService::new();
    let sender = kept();

    let asked = ServiceEvent::<String, String, _, _, String>::Interaction(Some(
        ServiceInteraction::Request(
            Request { request_id: 1, data: "hello".to_string() },
            sender.clone(),
        ),
    ));
    let ServiceAction::MustSend(message) = asking.next_message(asked) else {
        panic!("the request is sent")
    };
    let message = travel(&mut client, &mut server, message);

    let event = ServiceEvent::<String, String, _, _, String>::Received(Ok(Some(message)));
    let ServiceAction::Return(next) = serving.next_message(event) else {
        panic!("the request is handed out")
    };
    let RunStep::HandleRequest { request_id, request } = step(next) else {
        panic!("the request is handled")
    };
    let reply = answer(request_id, &|text: Wrapped| text.0, request);

    let event = ServiceEvent::<String, String, _, _, String>::Answer(Some(reply));
    let ServiceAction::Send(message) = serving.next_message(event) else {
        panic!("the answer is sent")
    };
    let message = travel(&mut server, &mut client, message);

    let event = ServiceEvent::<String, String, _, _, String>::Received(Ok(Some(message)));
    let ServiceAction::Respond { sender: taker, response } = asking.next_message(event) else {
        panic!("the answer is handed on")
    };
    assert!(Rc::ptr_eq(&taker, &sender));
    assert_eq!(response.request_id, 1);
    assert_eq!(response.data, "hello");
}

#[test]
fn messages_are_plain_values() {
    let stream = OpenBiDirectionalStream { stream_id: 3, data: 4u8 };
    let copy = stream;
    assert_eq!((copy.stream_id, copy.data), (3, 4));
    assert_eq!((stream.stream_id, stream.data), (3, 4));
}
