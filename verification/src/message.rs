//! The messages that two peers exchange.

use vstd::prelude::*;

verus! {

/// What travels over a connection, in either direction.
#[derive(Debug)]
pub enum Message<T> {
    /// A message that nobody answers.
    Oneshot(Oneshot<T>),
    /// A request, answered by a `Response` with the same id.
    Request(Request<T>),
    /// The answer to the request with the same id.
    Response(Response<T>),
    /// Asks the peer to open a stream.
    OpenStream(OpenStream<T>),
    /// One item of an open stream.
    StreamMessage(StreamMessage<T>),
    /// No more items come on the stream.
    CloseStream { stream_id: u64 },
}

#[derive(Debug, Clone, Copy)]
pub struct Oneshot<T> {
    pub message: T,
}

#[derive(Debug, Clone, Copy)]
pub struct Request<T> {
    pub request_id: u64,
    pub data: T,
}

#[derive(Debug, Clone, Copy)]
pub struct Response<T> {
    pub request_id: u64,
    pub data: T,
}

#[derive(Debug, Clone, Copy)]
pub struct OpenStream<T> {
    pub stream_id: u64,
    pub data: T,
}

#[derive(Debug, Clone, Copy)]
pub struct StreamMessage<T> {
    pub stream_id: u64,
    pub data: T,
}

#[derive(Debug, Clone, Copy)]
pub struct OpenBiDirectionalStream<T> {
    pub stream_id: u64,
    pub data: T,
}

} // verus!
