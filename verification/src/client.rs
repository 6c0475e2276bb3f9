//! The client: peer table, handling of inbound datagrams, hole-punch rounds,
//! relay keepalive and the send path.

pub mod structures;
pub mod handlers;
pub mod networking;
pub mod session;
pub mod laws;
