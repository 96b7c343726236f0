use sansrpc::connection_state::ConnectionConfig;
use sansrpc::encoder::{with_length, SansDecoder, SansEncoder};
use sansrpc::message::{Message, Oneshot, Request};
use sansrpc::size::NonZeroSize;
use sansrpc::tcp::{
    ReadState, ReadStep, ReadyStep, SendError, TokioSansConnection, WriteState, WriteStep,
    RETRY_DELAY_MILLIS,
};
use std::cell::RefCell;
use std::collections::VecDeque;
use std::rc::Rc;

#[derive(Debug, Clone, PartialEq)]
struct Numbered {
    name: String,
    number: u64,
}

/// Oneshots in the bincode format: the number of the variant, the name, the number.
/// Nothing else can be encoded.
#[derive(Clone, Copy)]
struct NumberedCoder;

impl SansEncoder<Numbered> for NumberedCoder {
    type Error = String;

    fn encode(&self, item: &Message<Numbered>) -> Result<(Vec<u8>, u64), String> {
        let Message::Oneshot(Oneshot { message: Numbered { name, number } }) = item else {
            return Err("only oneshots".to_string());
        };
        let bytes =
            bincode::serde::encode_to_vec((0u32, name, number), bincode::config::standard())
                .map_err(|error| error.to_string())?;
        Ok(with_length(bytes))
    }
}

impl SansDecoder<Numbered> for NumberedCoder {
    type Error = String;

    fn decode(&self, bytes: &[u8]) -> Result<Message<Numbered>, String> {
        let ((variant, name, number), _read): ((u32, String, u64), usize) =
            bincode::serde::decode_from_slice(bytes, bincode::config::standard())
                .map_err(|error| error.to_string())?;
        match variant {
            0 => Ok(Message::Oneshot(Oneshot { message: Numbered { name, number } })),
            _ => Err("only oneshots".to_string()),
        }
    }
}

type Pipe = Rc<RefCell<VecDeque<u8>>>;

type Connection =
    TokioSansConnection<Numbered, Numbered, NumberedCoder, NumberedCoder, Pipe, Pipe>;

fn size(value: usize) -> NonZeroSize {
    NonZeroSize::new(value).unwrap()
}

fn pipe() -> Pipe {
    Rc::new(RefCell::new(VecDeque::new()))
}

fn oneshot(name: &str, number: u64) -> Message<Numbered> {
    Message::Oneshot(Oneshot { message: Numbered { name: name.to_string(), number } })
}

fn connection(reader: &Pipe, writer: &Pipe) -> Connection {
    let config =
        ConnectionConfig::builder::<Numbered, Numbered, _>().coder(NumberedCoder).build();
    TokioSansConnection::new(config, reader.clone(), writer.clone())
}

/// Performs the steps of a flush.
fn flush(connection: &mut Connection) -> Result<(), ()> {
    let mut writing = None;
    loop {
        match connection.poll_flush() {
            WriteStep::Done => return Ok(()),
            WriteStep::Reset => return Err(()),
            WriteStep::Write { writer, bytes } => {
                writer.borrow_mut().extend(bytes.iter());
                writing = Some(writer);
            }
            WriteStep::AwaitWrite => connection.finish_write(writing.take().unwrap()),
            WriteStep::Shutdown { .. } | WriteStep::AwaitClose => panic!("no close was asked for"),
        }
    }
}

/// What receiving comes to.
#[derive(Debug, PartialEq)]
enum Received {
    Message(u64, String),
    Invalid,
    Overflow,
    /// Nothing is in the pipe.
    End,
}

/// Performs the steps until something is received.
fn receive(connection: &mut Connection) -> Received {
    let mut reading: Option<(Pipe, Vec<u8>)> = None;
    loop {
        match connection.poll_next() {
            ReadStep::Yield(Message::Oneshot(oneshot)) => {
                return Received::Message(oneshot.message.number, oneshot.message.name)
            }
            ReadStep::Yield(_) => panic!("only oneshots are sent"),
            ReadStep::InvalidInput => return Received::Invalid,
            ReadStep::Overflow => return Received::Overflow,
            ReadStep::Wait => {}
            ReadStep::Read { reader, buf } => reading = Some((reader, buf)),
            ReadStep::AwaitRead => {
                let (reader, mut buf) = reading.take().expect("a read is under way");
                let count = reader.borrow().len().min(buf.len());
                for (to, from) in buf.iter_mut().zip(reader.borrow_mut().drain(..count)) {
                    *to = from;
                }
                if connection.finish_read(reader, buf, count) {
                    return Received::End;
                }
            }
        }
    }
}

fn send_and_count(server_config: ConnectionConfig<NumberedCoder, NumberedCoder>, total: u64) {
    let wire = pipe();
    let mut client = connection(&pipe(), &wire);
    let mut server: Connection = TokioSansConnection::new(server_config, wire, pipe());

    let mut count = 0;
    let mut sent = 0;
    while sent < total {
        for _ in 0..10_000 {
            client.start_send(oneshot("name", sent)).unwrap();
            sent += 1;
        }
        flush(&mut client).unwrap();
        while count < sent {
            assert_eq!(receive(&mut server), Received::Message(count, "name".to_string()));
            count += 1;
        }
    }
    assert_eq!(receive(&mut server), Received::End);
    assert_eq!(count, total);
}

#[test]
fn test_tokio_tcp() {
    const COUNT: u64 = 1_000_000;
    let config = ConnectionConfig::builder::<Numbered, Numbered, _>()
        .coder(NumberedCoder)
        .recv_buffer_size(size(1024 * 128))
        .build();
    send_and_count(config, COUNT);
}

#[test]
fn test_compio_tcp() {
    const COUNT: u64 = 1_000_000;
    let config = ConnectionConfig::builder::<Numbered, Numbered, _>()
        .coder(NumberedCoder)
        .recv_queue_size(size(1))
        .recv_buffer_size(size(1024 * 128))
        .send_buffer_size(size(1024 * 128))
        .build();
    send_and_count(config, COUNT);
}

#[test]
fn a_new_connection_reads_to_twice_the_buffer_size() {
    let mut connection = connection(&pipe(), &pipe());
    match connection.poll_next() {
        ReadStep::Read { buf, .. } => {
            assert_eq!(buf.len(), 8192);
            assert!(buf.iter().all(|byte| *byte == 0));
        }
        _ => panic!("a read comes first"),
    }
    assert!(matches!(connection.poll_next(), ReadStep::AwaitRead));
    assert!(matches!(connection.poll_ready(), ReadyStep::Ready));
}

#[test]
fn received_bytes_are_fed_and_the_rest_moves_to_the_front() {
    let mut connection = connection(&pipe(), &pipe());
    let ReadStep::Read { reader, mut buf } = connection.poll_next() else { panic!("read") };
    let frame = [4, 0, 0, 0, 0, 0, 0, 0, 0, 1, b'x', 5];
    buf[..12].copy_from_slice(&frame);
    buf[12] = 99;
    assert!(!connection.finish_read(reader, buf, 12));
    assert!(matches!(connection.poll_next(), ReadStep::Wait));
    assert!(matches!(
        connection.poll_next(),
        ReadStep::Yield(Message::Oneshot(Oneshot { message: Numbered { number: 5, .. } }))
    ));
    let ReadStep::Read { buf, .. } = connection.poll_next() else { panic!("read") };
    assert_eq!(buf.len(), 8192);
    assert_eq!(buf[0], 99);
    assert_eq!(RETRY_DELAY_MILLIS, 100);
}

#[test]
fn a_read_that_fills_its_buffer_is_followed_by_a_read() {
    let config = ConnectionConfig::builder::<Numbered, Numbered, _>()
        .coder(NumberedCoder)
        .recv_buffer_size(size(4))
        .build();
    let mut connection: Connection = TokioSansConnection::new(config, pipe(), pipe());
    let ReadStep::Read { reader, mut buf } = connection.poll_next() else { panic!("read") };
    assert_eq!(buf.len(), 8);
    buf.copy_from_slice(&[1, 0, 0, 0, 0, 0, 0, 0]);
    assert!(!connection.finish_read(reader, buf, 8));
    let ReadStep::Read { reader, mut buf } = connection.poll_next() else { panic!("read") };
    // The buffer of the connection is full now, so what comes next has to wait.
    buf[0] = 1;
    assert!(!connection.finish_read(reader, buf, 1));
    assert!(matches!(connection.poll_next(), ReadStep::Wait));
    assert!(matches!(connection.poll_next(), ReadStep::Wait));
}

#[test]
fn polls_give_every_message_and_then_the_end() {
    let messages: Vec<(u64, String)> =
        (0..12u64).map(|i| (i, "x".repeat((i as usize * 5) % 7))).collect();
    let mut source: Vec<u8> = vec![];
    let mut longest = 0;
    for (number, name) in &messages {
        let (bytes, len) = NumberedCoder.encode(&oneshot(name, *number)).unwrap();
        longest = longest.max(8 + bytes.len());
        source.extend(len.to_le_bytes());
        source.extend(bytes);
    }
    // An incomplete frame at the end is dropped.
    source.extend([5, 0, 0, 0, 0, 0, 0, 0, 1, 2]);

    for queue in [1, 3, 10] {
        for piece in 1..=2 * longest {
            let config = ConnectionConfig::builder::<Numbered, Numbered, _>()
                .coder(NumberedCoder)
                .recv_queue_size(size(queue))
                .recv_buffer_size(size(longest))
                .build();
            let mut connection: Connection = TokioSansConnection::new(config, pipe(), pipe());
            let mut reading: Option<(Pipe, Vec<u8>)> = None;
            let mut given = 0;
            let mut received = vec![];
            let mut turns = 0;
            loop {
                turns += 1;
                match connection.poll_next() {
                    ReadStep::Yield(Message::Oneshot(oneshot)) => {
                        received.push((oneshot.message.number, oneshot.message.name))
                    }
                    ReadStep::Wait => {}
                    ReadStep::Read { reader, buf } => reading = Some((reader, buf)),
                    ReadStep::AwaitRead => {
                        // A read that is still under way changes nothing.
                        assert!(matches!(connection.poll_next(), ReadStep::AwaitRead));
                        let (reader, mut buf) = reading.take().unwrap();
                        let count = piece.min(source.len() - given);
                        buf[..count].copy_from_slice(&source[given..given + count]);
                        given += count;
                        if connection.finish_read(reader, buf, count) {
                            break;
                        }
                    }
                    _ => panic!("no poll fails"),
                }
            }
            assert_eq!(received, messages);
            assert!(turns <= messages.len() + 3 * source.len() + 2);
        }
    }
}

#[test]
fn a_frame_beyond_the_buffer_is_never_complete() {
    let config = ConnectionConfig::builder::<Numbered, Numbered, _>()
        .coder(NumberedCoder)
        .recv_buffer_size(size(11))
        .build();
    let mut connection: Connection = TokioSansConnection::new(config, pipe(), pipe());
    let frame = [4, 0, 0, 0, 0, 0, 0, 0, 0, 1, b'x', 5];
    for part in [&frame[..11], &frame[11..]] {
        let ReadStep::Read { reader, mut buf } = connection.poll_next() else { panic!("read") };
        buf[..part.len()].copy_from_slice(part);
        assert!(!connection.finish_read(reader, buf, part.len()));
        assert!(matches!(connection.poll_next(), ReadStep::Wait));
    }
    for _ in 0..10 {
        assert!(matches!(connection.poll_next(), ReadStep::Wait));
    }
}

#[test]
fn a_length_beyond_all_buffers_ends_it_behind_other_messages() {
    let wire = pipe();
    wire.borrow_mut().extend([4, 0, 0, 0, 0, 0, 0, 0, 0, 1, b'x', 5]);
    wire.borrow_mut().extend([255; 8]);
    let mut connection = connection(&wire, &pipe());
    assert_eq!(receive(&mut connection), Received::Overflow);
}

#[test]
fn the_end_of_the_reader_is_the_end() {
    let mut connection = connection(&pipe(), &pipe());
    assert_eq!(receive(&mut connection), Received::End);
}

#[test]
fn bytes_that_are_no_message_are_an_error() {
    let wire = pipe();
    wire.borrow_mut().extend([1, 0, 0, 0, 0, 0, 0, 0, 7]);
    let mut connection = connection(&wire, &pipe());
    assert_eq!(receive(&mut connection), Received::Invalid);
    assert_eq!(receive(&mut connection), Received::Invalid);
}

#[test]
fn a_length_beyond_all_buffers_ends_it() {
    let wire = pipe();
    wire.borrow_mut().extend([255; 8]);
    let mut connection = connection(&wire, &pipe());
    assert_eq!(receive(&mut connection), Received::Overflow);
}

#[test]
fn a_flush_writes_what_was_sent_once() {
    let wire = pipe();
    let mut connection = connection(&pipe(), &wire);
    assert_eq!(flush(&mut connection), Ok(()));
    assert!(wire.borrow().is_empty());
    connection.start_send(oneshot("a", 1)).unwrap();
    connection.start_send(oneshot("bc", 2)).unwrap();
    assert!(wire.borrow().is_empty());
    assert_eq!(flush(&mut connection), Ok(()));
    let expected: Vec<u8> = [
        &[4, 0, 0, 0, 0, 0, 0, 0][..],
        &[0, 1, b'a', 1][..],
        &[5, 0, 0, 0, 0, 0, 0, 0][..],
        &[0, 2, b'b', b'c', 2][..],
    ]
    .concat();
    assert_eq!(wire.borrow().iter().copied().collect::<Vec<u8>>(), expected);
    assert_eq!(flush(&mut connection), Ok(()));
    assert_eq!(wire.borrow().len(), expected.len());
}

#[test]
fn a_write_under_way_is_awaited() {
    let mut connection = connection(&pipe(), &pipe());
    connection.start_send(oneshot("a", 1)).unwrap();
    let WriteStep::Write { writer, bytes } = connection.poll_flush() else { panic!("write") };
    assert_eq!(bytes.len(), 12);
    assert!(matches!(connection.poll_ready(), ReadyStep::AwaitWrite));
    assert!(matches!(connection.poll_flush(), WriteStep::AwaitWrite));
    assert!(matches!(connection.poll_close(), WriteStep::AwaitWrite));
    // Messages may be sent meanwhile.
    connection.start_send(oneshot("b", 2)).unwrap();
    connection.finish_write(writer);
    assert!(matches!(connection.poll_ready(), ReadyStep::Ready));
    assert!(matches!(connection.poll_flush(), WriteStep::Write { .. }));
}

#[test]
fn a_message_that_cannot_be_encoded_is_an_error() {
    let wire = pipe();
    let mut connection = connection(&pipe(), &wire);
    let request = Message::Request(Request {
        request_id: 1,
        data: Numbered { name: "x".to_string(), number: 1 },
    });
    assert_eq!(connection.start_send(request), Err(SendError::InvalidInput));
    assert_eq!(flush(&mut connection), Ok(()));
    assert!(wire.borrow().is_empty());
    assert_eq!(connection.start_send(oneshot("a", 1)), Ok(()));
    assert_eq!(flush(&mut connection), Ok(()));
    assert_eq!(wire.borrow().len(), 12);
}

#[test]
fn closing_writes_everything_first_and_is_final() {
    let wire = pipe();
    let mut connection = connection(&pipe(), &wire);
    connection.start_send(oneshot("a", 1)).unwrap();
    let WriteStep::Write { writer, bytes } = connection.poll_close() else { panic!("write") };
    wire.borrow_mut().extend(bytes.iter());
    connection.finish_write(writer);
    assert!(matches!(connection.poll_close(), WriteStep::Shutdown { .. }));
    assert_eq!(wire.borrow().len(), 12);

    assert!(matches!(connection.poll_close(), WriteStep::AwaitClose));
    assert!(matches!(connection.poll_ready(), ReadyStep::Pending));
    assert_eq!(connection.start_send(oneshot("b", 2)), Err(SendError::ConnectionReset));
    assert_eq!(flush(&mut connection), Err(()));
    assert!(matches!(connection.poll_close(), WriteStep::AwaitClose));
}

#[test]
fn only_closing_is_closed() {
    assert!(!WriteState::Idle(1).is_closed());
    assert!(!WriteState::<u8>::Writing.is_closed());
    assert!(WriteState::<u8>::Closing.is_closed());
    assert!(matches!(ReadState::<u8>::Reading, ReadState::Reading));
}
