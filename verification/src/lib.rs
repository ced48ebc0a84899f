//! A gateway that lets an IRC client talk to a Rocket.Chat-style backend.
//!
//! This crate holds what the gateway decides: how a client registers, what
//! a frame from the client asks of the backend, what the client is told of
//! an event of the backend, and what the bridge remembers in between. The
//! program around it moves the frames; it asks the bridge what follows from
//! each frame, and does that.

pub mod backend;
pub mod event;
pub mod handshake;
pub mod irc;
pub mod json;
pub mod names;
pub mod proxy;
pub mod schema;
pub mod session;
pub mod text;
pub mod util;
