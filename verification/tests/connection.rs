use sansrpc::connection_state::{
    ConnectionConfig, ConnectionReadState, ConnectionState, ConnectionWriteState,
};
use sansrpc::encoder::{with_length, IntoSplitCoder, SansDecoder, SansEncoder};
use sansrpc::message::{Message, Oneshot, OpenStream, Request, Response, StreamMessage};
use sansrpc::size::NonZeroSize;

/// Messages as JSON arrays of a tag, an id and the payload. The payload "unsendable" is
/// refused.
#[derive(Debug, Clone, Copy, PartialEq)]
struct TestCoder;

impl SansEncoder<String> for TestCoder {
    type Error = String;

    fn encode(&self, item: &Message<String>) -> Result<(Vec<u8>, u64), String> {
        let (tag, id, data) = match item {
            Message::Oneshot(m) => (0u8, 0u64, m.message.as_str()),
            Message::Request(m) => (1, m.request_id, m.data.as_str()),
            Message::Response(m) => (2, m.request_id, m.data.as_str()),
            Message::OpenStream(m) => (3, m.stream_id, m.data.as_str()),
            Message::StreamMessage(m) => (4, m.stream_id, m.data.as_str()),
            Message::CloseStream { stream_id } => (5, *stream_id, ""),
        };
        if data == "unsendable" {
            return Err("refused".to_string());
        }
        match serde_json::to_vec(&(tag, id, data)) {
            Ok(bytes) => Ok(with_length(bytes)),
            Err(error) => Err(error.to_string()),
        }
    }
}

impl SansDecoder<String> for TestCoder {
    type Error = String;

    fn decode(&self, bytes: &[u8]) -> Result<Message<String>, String> {
        let (tag, id, data): (u8, u64, String) =
            serde_json::from_slice(bytes).map_err(|error| error.to_string())?;
        match tag {
            0 => Ok(Message::Oneshot(Oneshot { message: data })),
            1 => Ok(Message::Request(Request { request_id: id, data })),
            2 => Ok(Message::Response(Response { request_id: id, data })),
            3 => Ok(Message::OpenStream(OpenStream { stream_id: id, data })),
            4 => Ok(Message::StreamMessage(StreamMessage { stream_id: id, data })),
            5 => Ok(Message::CloseStream { stream_id: id }),
            _ => Err("unknown tag".to_string()),
        }
    }
}

/// Announces a length that is not that of the bytes.
#[derive(Clone, Copy)]
struct LyingCoder;

impl SansEncoder<u8> for LyingCoder {
    type Error = String;

    fn encode(&self, _item: &Message<u8>) -> Result<(Vec<u8>, u64), String> {
        Ok((vec![7, 8, 9], 258))
    }
}

impl SansDecoder<u8> for LyingCoder {
    type Error = String;

    fn decode(&self, _bytes: &[u8]) -> Result<Message<u8>, String> {
        Err("never".to_string())
    }
}

fn size(value: usize) -> NonZeroSize {
    NonZeroSize::new(value).unwrap()
}

fn oneshot(message: &str) -> Message<String> {
    Message::Oneshot(Oneshot { message: message.to_string() })
}

fn shown(message: &Message<String>) -> String {
    format!("{message:?}")
}

type State = ConnectionState<String, String, TestCoder, TestCoder>;

fn state() -> State {
    ConnectionState::new(ConnectionConfig::builder::<String, String, _>().coder(TestCoder).build())
}

fn sized(recv_queue: usize, recv_buffer: usize, send_queue: usize, send_buffer: usize) -> State {
    ConnectionState::new(ConnectionConfig::new::<String, String, _>(
        size(recv_queue),
        size(recv_buffer),
        size(send_queue),
        size(send_buffer),
        TestCoder,
    ))
}

fn frame(message: &Message<String>) -> Vec<u8> {
    let (bytes, len) = TestCoder.encode(message).unwrap();
    let mut frame = len.to_le_bytes().to_vec();
    frame.extend_from_slice(&bytes);
    frame
}

#[test]
fn zero_is_no_size() {
    assert!(NonZeroSize::new(0).is_none());
    assert_eq!(NonZeroSize::new(1).unwrap().get(), 1);
    assert_eq!(NonZeroSize::new(usize::MAX).unwrap().get(), usize::MAX);
}

#[test]
fn builder_starts_from_the_defaults() {
    let config = ConnectionConfig::builder::<String, String, _>().coder(TestCoder).build();
    assert_eq!(config.read_config.recv_queue_size.get(), 10);
    assert_eq!(config.read_config.recv_buffer_size.get(), 4096);
    assert_eq!(config.write_config.send_queue_size.get(), 10);
    assert_eq!(config.write_config.send_buffer_size.get(), 4096);
}

#[test]
fn builder_takes_other_sizes() {
    let config = ConnectionConfig::builder::<String, String, _>()
        .recv_queue_size(size(1))
        .recv_buffer_size(size(2))
        .send_queue_size(size(3))
        .coder(TestCoder)
        .send_buffer_size(size(4))
        .build();
    let (read, write) = config.split();
    assert_eq!(read.recv_queue_size.get(), 1);
    assert_eq!(read.recv_buffer_size.get(), 2);
    assert_eq!(write.send_queue_size.get(), 3);
    assert_eq!(write.send_buffer_size.get(), 4);
}

#[test]
fn config_new_keeps_every_size() {
    let config = ConnectionConfig::new::<String, String, _>(
        size(11),
        size(12),
        size(13),
        size(14),
        TestCoder,
    );
    assert_eq!(config.read_config.recv_queue_size.get(), 11);
    assert_eq!(config.read_config.recv_buffer_size.get(), 12);
    assert_eq!(config.write_config.send_queue_size.get(), 13);
    assert_eq!(config.write_config.send_buffer_size.get(), 14);
    assert_eq!(config.read_config.coder, TestCoder);
    assert_eq!(config.write_config.coder, TestCoder);
}

#[test]
fn a_clonable_coder_splits_into_itself_twice() {
    let (decoder, encoder) = IntoSplitCoder::<String, String>::into_split(TestCoder);
    assert_eq!(decoder, TestCoder);
    assert_eq!(encoder, TestCoder);
}

#[test]
fn with_length_counts_the_bytes() {
    assert_eq!(with_length(vec![]), (vec![], 0));
    assert_eq!(with_length(vec![5, 6, 7]), (vec![5, 6, 7], 3));
}

#[test]
fn frames_are_length_and_bytes() {
    let mut state = state();
    assert!(state.feed_item(oneshot("a")).is_none());
    state.process_write().unwrap();
    let bytes = state.consume_all().unwrap();
    assert_eq!(&bytes[..], b"\x09\0\0\0\0\0\0\0[0,0,\"a\"]");
}

#[test]
fn the_announced_length_is_written_as_it_is() {
    let config = ConnectionConfig::builder::<u8, u8, _>().coder(LyingCoder).build();
    let mut state: ConnectionState<u8, u8, _, _> = ConnectionState::new(config);
    state.feed_item(Message::CloseStream { stream_id: 1 });
    state.process_write().unwrap();
    let bytes = state.consume_all().unwrap();
    assert_eq!(&bytes[..], &[2, 1, 0, 0, 0, 0, 0, 0, 7, 8, 9]);
}

#[test]
fn the_announced_length_decides_what_is_decoded() {
    let (bytes, len) = TestCoder.encode(&oneshot("a")).unwrap();
    assert_eq!(len, 9);
    // One byte too few: what is decoded is no message.
    let mut state = self::state();
    state.feed_bytes(&8u64.to_le_bytes());
    state.feed_bytes(&bytes);
    assert!(state.process_read().is_err());
    // One byte too many: the first byte of what follows is taken.
    let mut state = self::state();
    state.feed_bytes(&10u64.to_le_bytes());
    state.feed_bytes(&bytes);
    assert_eq!(state.process_read(), Ok(()));
    assert!(state.consume_item().is_none());
    state.feed_bytes(b" ");
    assert_eq!(state.process_read(), Ok(()));
    assert_eq!(shown(&state.consume_item().unwrap()), shown(&oneshot("a")));
}

#[test]
fn a_full_queue_hands_the_message_back() {
    let mut state = sized(1, 100, 2, 100);
    assert_eq!(state.available_space(), 2);
    assert!(state.write_queue_empty());
    assert!(state.feed_item(oneshot("a")).is_none());
    assert_eq!(state.available_space(), 1);
    assert!(!state.write_queue_empty());
    assert!(state.feed_item(oneshot("b")).is_none());
    assert_eq!(state.available_space(), 0);
    let refused = state.feed_item(oneshot("c")).unwrap();
    assert_eq!(shown(&refused), shown(&oneshot("c")));
    assert_eq!(state.available_space(), 0);

    state.process_write().unwrap();
    assert!(state.write_queue_empty());
    assert_eq!(state.available_space(), 2);
    let mut expected = frame(&oneshot("a"));
    expected.extend(frame(&oneshot("b")));
    assert_eq!(&state.consume_all().unwrap()[..], &expected[..]);
}

#[test]
fn bytes_are_consumed_from_the_front() {
    let mut state = state();
    assert!(state.consume_bytes(5).is_none());
    assert!(state.consume_bytes(0).is_none());
    assert!(state.consume_all().is_none());

    state.feed_item(oneshot("a"));
    state.process_write().unwrap();
    let expected = frame(&oneshot("a"));
    assert_eq!(expected.len(), 17);

    assert_eq!(&state.consume_bytes(0).unwrap()[..], &[] as &[u8]);
    assert_eq!(&state.consume_bytes(3).unwrap()[..], &expected[..3]);
    assert_eq!(&state.consume_bytes(4).unwrap()[..], &expected[3..7]);
    assert_eq!(&state.consume_bytes(100).unwrap()[..], &expected[7..]);
    assert!(state.consume_bytes(1).is_none());

    state.feed_item(oneshot("b"));
    state.process_write().unwrap();
    let expected = frame(&oneshot("b"));
    assert_eq!(&state.consume_bytes(17).unwrap()[..], &expected[..]);
    assert!(state.consume_all().is_none());
}

#[test]
fn a_message_that_cannot_be_encoded_is_dropped() {
    let mut state = state();
    state.feed_item(oneshot("a"));
    state.feed_item(oneshot("unsendable"));
    state.feed_item(oneshot("b"));
    assert_eq!(state.process_write(), Err("refused".to_string()));
    assert!(!state.write_queue_empty());
    assert_eq!(&state.consume_all().unwrap()[..], &frame(&oneshot("a"))[..]);
    assert_eq!(state.try_process_write(), Some(Ok(())));
    assert_eq!(&state.consume_all().unwrap()[..], &frame(&oneshot("b"))[..]);
}

#[test]
fn nothing_to_encode_is_no_fault() {
    let mut state = state();
    assert_eq!(state.process_write(), Ok(()));
    assert!(state.consume_all().is_none());
}

#[test]
fn all_kinds_of_messages_arrive() {
    let messages = vec![
        oneshot("one"),
        Message::Request(Request { request_id: 1, data: "two".to_string() }),
        Message::Response(Response { request_id: u64::MAX, data: "three".to_string() }),
        Message::OpenStream(OpenStream { stream_id: 4, data: "four".to_string() }),
        Message::StreamMessage(StreamMessage { stream_id: 5, data: "".to_string() }),
        Message::CloseStream { stream_id: 6 },
    ];
    let expected: Vec<String> = messages.iter().map(shown).collect();
    let mut state = state();
    for message in messages {
        assert!(state.feed_item(message).is_none());
    }
    state.process_write().unwrap();
    let bytes = state.consume_all().unwrap();
    assert_eq!(state.feed_bytes(&bytes), bytes.len());
    state.process_read().unwrap();
    let mut received = vec![];
    while let Some(message) = state.consume_item() {
        received.push(shown(&message));
    }
    assert_eq!(received, expected);
}

#[test]
fn messages_arrive_in_order_in_pieces_of_any_size() {
    let expected: Vec<Message<String>> = (0..20).map(|i| oneshot(&format!("message {i}"))).collect();
    let bytes: Vec<u8> = expected.iter().flat_map(frame).collect();
    for piece in [1, 2, 3, 7, 8, 9, 64, 1000] {
        let mut state = state();
        let mut received = vec![];
        for chunk in bytes.chunks(piece) {
            assert_eq!(state.feed_bytes(chunk), chunk.len());
            loop {
                state.process_read().unwrap();
                let Some(message) = state.consume_item() else { break };
                received.push(shown(&message));
            }
        }
        let expected: Vec<String> = expected.iter().map(shown).collect();
        assert_eq!(received, expected);
    }
}

#[test]
fn an_incomplete_frame_waits() {
    let mut state = state();
    let bytes = frame(&oneshot("a"));
    for end in [7, 8, 16] {
        let mut state = sized(1, 100, 1, 100);
        state.feed_bytes(&bytes[..end]);
        assert_eq!(state.process_read(), Ok(()));
        assert!(state.consume_item().is_none());
        state.feed_bytes(&bytes[end..]);
        assert_eq!(state.process_read(), Ok(()));
        assert_eq!(shown(&state.consume_item().unwrap()), shown(&oneshot("a")));
    }
    assert_eq!(state.process_read(), Ok(()));
    assert!(state.consume_item().is_none());
}

#[test]
fn a_full_queue_stops_decoding() {
    let mut state = sized(2, 1000, 1, 100);
    let bytes: Vec<u8> = ["a", "b", "c"].iter().flat_map(|m| frame(&oneshot(m))).collect();
    state.feed_bytes(&bytes);
    state.process_read().unwrap();
    assert_eq!(shown(&state.consume_item().unwrap()), shown(&oneshot("a")));
    assert_eq!(shown(&state.consume_item().unwrap()), shown(&oneshot("b")));
    assert!(state.consume_item().is_none());
    state.process_read().unwrap();
    assert_eq!(shown(&state.consume_item().unwrap()), shown(&oneshot("c")));
    assert!(state.consume_item().is_none());
}

#[test]
fn decoding_twice_changes_nothing() {
    let mut state = state();
    state.feed_bytes(&frame(&oneshot("a")));
    state.process_read().unwrap();
    state.process_read().unwrap();
    assert_eq!(shown(&state.consume_item().unwrap()), shown(&oneshot("a")));
    assert!(state.consume_item().is_none());
}

#[test]
fn a_full_buffer_takes_nothing() {
    let mut state = sized(1, 4, 1, 100);
    assert_eq!(state.feed_bytes(&[1, 2, 3]), 3);
    // Below the size all bytes are taken, though they go beyond it.
    assert_eq!(state.feed_bytes(&[0, 0, 0, 0, 0]), 5);
    assert_eq!(state.feed_bytes(&[9]), 0);
    assert_eq!(state.feed_bytes(&[]), 0);
    assert_eq!(state.try_feed_bytes(&[9]), Some(0));

    let mut state = sized(1, 4, 1, 100);
    assert_eq!(state.feed_bytes(&[1, 2, 3, 4]), 4);
    assert_eq!(state.feed_bytes(&[5]), 0);
    let mut state = sized(1, 4, 1, 100);
    assert_eq!(state.try_feed_bytes(&[1, 2, 3]), Some(3));
    assert_eq!(state.try_feed_bytes(&[4]), Some(1));
    assert_eq!(state.try_feed_bytes(&[5]), Some(0));
}

#[test]
fn a_buffer_with_room_for_the_frame_takes_its_end() {
    let bytes = frame(&oneshot("a"));
    let mut state = sized(1, bytes.len(), 1, 100);
    for byte in &bytes {
        assert_eq!(state.feed_bytes(&[*byte]), 1);
        state.process_read().unwrap();
    }
    assert!(state.consume_item().is_some());
}

#[test]
fn bytes_that_are_no_message_stay() {
    let mut state = state();
    state.feed_bytes(&frame(&oneshot("a")));
    state.feed_bytes(&[2, 0, 0, 0, 0, 0, 0, 0, b'n', b'o']);
    state.feed_bytes(&frame(&oneshot("b")));
    assert!(state.process_read().is_err());
    assert_eq!(shown(&state.consume_item().unwrap()), shown(&oneshot("a")));
    assert!(state.process_read().is_err());
    assert!(state.try_process_read().unwrap().is_err());
    assert!(state.consume_item().is_none());
}

#[test]
fn an_empty_payload_is_decoded_too() {
    let mut state = state();
    state.feed_bytes(&[0; 8]);
    assert!(state.process_read().is_err());
}

#[test]
fn a_length_beyond_all_buffers_is_noticed() {
    for last in [usize::MAX - 7, usize::MAX] {
        let mut state = state();
        state.feed_bytes(&frame(&oneshot("a")));
        state.feed_bytes(&(last as u64).to_le_bytes());
        assert_eq!(state.try_process_read(), None);
        assert_eq!(shown(&state.consume_item().unwrap()), shown(&oneshot("a")));
        assert_eq!(state.try_process_read(), None);
    }
    let mut state = state();
    state.feed_bytes(&((usize::MAX - 8) as u64).to_le_bytes());
    assert_eq!(state.try_process_read(), Some(Ok(())));
    assert_eq!(state.process_read(), Ok(()));
}

#[test]
fn a_full_queue_hides_a_length_beyond_all_buffers() {
    let mut state = sized(1, 1000, 1, 100);
    state.feed_bytes(&frame(&oneshot("a")));
    state.feed_bytes(&u64::MAX.to_le_bytes());
    assert_eq!(state.try_process_read(), Some(Ok(())));
}

#[test]
fn the_halves_work_on_their_own() {
    let mut both = state();
    both.feed_item(oneshot("a"));
    both.feed_bytes(&frame(&oneshot("b")));
    let (mut write, mut read): (
        ConnectionWriteState<String, TestCoder>,
        ConnectionReadState<String, TestCoder>,
    ) = both.into_split();

    assert_eq!(write.available_space(), 9);
    assert!(!write.write_queue_empty());
    assert!(write.feed_item(oneshot("c")).is_none());
    assert_eq!(write.process(), Ok(()));
    assert_eq!(write.try_process(), Some(Ok(())));
    assert_eq!(&write.consume_bytes(17).unwrap()[..], &frame(&oneshot("a"))[..]);
    assert_eq!(&write.consume_all().unwrap()[..], &frame(&oneshot("c"))[..]);

    assert_eq!(read.process(), Ok(()));
    assert_eq!(shown(&read.consume_item().unwrap()), shown(&oneshot("b")));
    let bytes = frame(&oneshot("d"));
    assert_eq!(read.feed_bytes(&bytes[..5]), 5);
    assert_eq!(read.try_feed_bytes(&bytes[5..]), Some(12));
    assert_eq!(read.try_process(), Some(Ok(())));
    assert_eq!(shown(&read.consume_item().unwrap()), shown(&oneshot("d")));
}
