//! A single-connection client core for a length-framed, optionally compressed
//! game-server protocol: frame handling, packet dispatch and the event stream
//! that a consumer observes.

pub mod events;
pub mod session;
pub mod codec;
pub mod connection;
pub mod status;
