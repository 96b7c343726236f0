//! What a service is handed, and what it is asked to do.

use crate::message::{Oneshot, OpenStream, Request};
use vstd::prelude::*;

verus! {

/// A message of the peer that the service has to act on.
#[derive(Debug, Clone, Copy)]
pub enum ServiceMessage<T> {
    OpenStream(OpenStream<T>),
    Request(Request<T>),
    Oneshot(Oneshot<T>),
}

/// Something to send to the peer, with the sender that takes what comes back.
pub enum ServiceInteraction<Out, StreamSender, ResponseSender> {
    OpenStream(OpenStream<Out>, StreamSender),
    Request(Request<Out>, ResponseSender),
    Oneshot(Oneshot<Out>),
}

} // verus!
