//! Remote procedure calls without input and output of their own.
//!
//! `connection_state` turns received bytes into messages and messages into bytes to be
//! sent; `frame` says how the bytes are laid out, `encoder` what a coder has to offer.
//! `tcp` decides, step by step, what a connection over a reader and a writer does next.
//! `sans_service` and `service` decide what becomes of the messages that arrive and of
//! those that are to be sent. `laws` states what holds of these operations together.
//!
//! Whoever uses the library reads, writes and waits, and hands over what came of it.

pub mod buffer;
pub mod connection_state;
pub mod encoder;
pub mod frame;
pub mod laws;
pub mod message;
pub mod sans_service;
pub mod service;
pub mod service_message;
pub mod size;
pub mod tcp;
