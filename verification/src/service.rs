//! What a running service does about each message.

use crate::service_message::ServiceMessage;
use vstd::prelude::*;

verus! {

/// What to do about a message.
pub enum RunStep<Stream, Request, Oneshot, Error> {
    /// End, well or with an error.
    Stop(Result<(), Error>),
    /// Handle the request for a stream; its items go out under `stream_id`.
    HandleStream { stream_id: u64, stream: Stream },
    /// Handle the request; the answer goes out under `request_id`.
    HandleRequest { request_id: u64, request: Request },
    /// Handle the message; nothing goes out.
    HandleOneshot(Oneshot),
}

/// Decides what to do about the next message, the end of all messages, or an error.
pub fn run_step<In, Failure, Stream, Request, Oneshot, Error>(
    next: Result<Option<ServiceMessage<In>>, Failure>,
) -> (step: RunStep<Stream, Request, Oneshot, Error>) where
    Stream: From<In>,
    Request: From<In>,
    Oneshot: From<In>,
    Error: From<Failure>,

    ensures
        match next {
            Err(failure) => step matches RunStep::Stop(Err(error)) && call_ensures(
                Error::from,
                (failure,),
                error,
            ),
            Ok(None) => step == RunStep::<Stream, Request, Oneshot, Error>::Stop(Ok(())),
            Ok(Some(ServiceMessage::OpenStream(open_stream))) => step matches RunStep::HandleStream {
                stream_id,
                stream,
            } && stream_id == open_stream.stream_id && call_ensures(
                Stream::from,
                (open_stream.data,),
                stream,
            ),
            Ok(Some(ServiceMessage::Request(asked))) => step matches RunStep::HandleRequest {
                request_id,
                request,
            } && request_id == asked.request_id && call_ensures(
                Request::from,
                (asked.data,),
                request,
            ),
            Ok(Some(ServiceMessage::Oneshot(message))) => step matches RunStep::HandleOneshot(
                oneshot,
            ) && call_ensures(Oneshot::from, (message.message,), oneshot),
        },
{
    match next {
        Err(failure) => RunStep::Stop(Err(Error::from(failure))),
        Ok(None) => RunStep::Stop(Ok(())),
        Ok(Some(ServiceMessage::OpenStream(open_stream))) => RunStep::HandleStream {
            stream_id: open_stream.stream_id,
            stream: Stream::from(open_stream.data),
        },
        Ok(Some(ServiceMessage::Request(request))) => RunStep::HandleRequest {
            request_id: request.request_id,
            request: Request::from(request.data),
        },
        Ok(Some(ServiceMessage::Oneshot(oneshot))) => RunStep::HandleOneshot(
            Oneshot::from(oneshot.message),
        ),
    }
}

} // verus!
