//! The verified core of a single-room chat relay.
//!
//! A relay accepts line-oriented connections, turns every line it reads into
//! an [`envelope::Envelope`] and hands each published envelope to every
//! subscriber of one shared [`hub::Hub`]. This crate holds the rules of that
//! relay as sequential code with machine-checked contracts; sockets, tasks and
//! the terminal live with the caller.

pub mod client;
pub mod clock;
pub mod envelope;
pub mod hub;
pub mod relay;
pub mod session;
pub mod wire;
