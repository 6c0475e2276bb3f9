//! The signaling server: channel registry, relay election, dispatcher,
//! liveness sweep and data relay.

pub mod structures;
pub mod notifications;
pub mod utils;
pub mod handlers;
pub mod data_relay;
pub mod heartbeat;
pub mod invariants;
