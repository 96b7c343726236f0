//! What each call does, and what holds of several calls together.

pub mod calls;
pub mod connection;
pub mod halves;
pub mod layout;
pub mod polling;
pub mod routing;
pub mod service;
pub mod setup;
pub mod socket;
pub mod state;
pub mod tcp;
pub mod transfer;
