//! UDP peer-to-peer group messaging across NATs through a signaling rendezvous.
//!
//! The crate holds the decisions of both roles as functions from state and
//! input to next state and outgoing datagrams: the signaling server's channel
//! registry, relay election, dispatcher, liveness sweep and data relay, and the
//! client's peer table, hole-punch rounds, relay keepalive and send path.
//! Sockets, clocks, locks and threads belong to the program around it, which
//! hands in the bytes it received together with the endpoint they came from
//! and the current time in milliseconds.

pub mod client;
pub mod endpoint;
pub mod laws;
pub mod messages;
pub mod nat_kind;
pub mod sequences;
pub mod signaling;
pub mod wire;

