//! What a client knows: its peers and its own mode.

use vstd::prelude::*;
use crate::endpoint::Endpoint;
pub use crate::nat_kind::NatKind;
use crate::wire::to_bytes;

verus! {

/// A peer of this client.
#[derive(Debug)]
pub struct PeerInfo {
    pub addr: Endpoint,
    /// When a datagram from this peer last arrived, in milliseconds.
    pub last_pong: u64,
    pub username: Vec<u8>,
    /// Whether a datagram from this peer has arrived, so that punching is done.
    pub connected: bool,
    /// When this peer was announced, in milliseconds.
    pub created_at: u64,
    /// Whether the server carries the traffic for this peer.
    pub use_server_relay: bool,
    /// Whether this client has asked the server to do so.
    pub relay_requested: bool,
}

/// A peer as a plain value.
pub struct PeerView {
    pub addr: Endpoint,
    pub last_pong: u64,
    pub username: Seq<u8>,
    pub connected: bool,
    pub created_at: u64,
    pub use_server_relay: bool,
    pub relay_requested: bool,
}

impl View for PeerInfo {
    type V = PeerView;

    open spec fn view(&self) -> PeerView {
        PeerView {
            addr: self.addr,
            last_pong: self.last_pong,
            username: self.username@,
            connected: self.connected,
            created_at: self.created_at,
            use_server_relay: self.use_server_relay,
            relay_requested: self.relay_requested,
        }
    }
}

impl Clone for PeerInfo {
    fn clone(&self) -> (r: Self)
        ensures
            r@ == self@,
    {
        PeerInfo {
            addr: self.addr,
            last_pong: self.last_pong,
            username: to_bytes(self.username.as_slice()),
            connected: self.connected,
            created_at: self.created_at,
            use_server_relay: self.use_server_relay,
            relay_requested: self.relay_requested,
        }
    }
}

/// The peers of a table as plain values, in order.
pub open spec fn peer_views(v: Seq<PeerInfo>) -> Seq<PeerView> {
    v.map_values(|p: PeerInfo| p@)
}

/// Whether hole punching rests. It rests while this client sends through the
/// server.
#[derive(Clone, Copy, Debug, PartialEq, Eq, Structural)]
pub struct PunchState {
    pub paused: bool,
}

/// Whether the relay keepalive runs. It runs while this client is the relay
/// or mirrors traffic to the server.
#[derive(Clone, Copy, Debug, PartialEq, Eq, Structural)]
pub struct RelayState {
    pub is_active: bool,
}

/// A message of a user, as shown to the user of this client.
#[derive(Debug)]
pub struct ChatLine {
    pub sender: Vec<u8>,
    pub text: Vec<u8>,
}

/// A shown message as a plain value.
pub struct ChatLineView {
    pub sender: Seq<u8>,
    pub text: Seq<u8>,
}

impl View for ChatLine {
    type V = ChatLineView;

    open spec fn view(&self) -> ChatLineView {
        ChatLineView { sender: self.sender@, text: self.text@ }
    }
}

/// The messages of a list as plain values, in order.
pub open spec fn chat_views(v: Seq<ChatLine>) -> Seq<ChatLineView> {
    v.map_values(|c: ChatLine| c@)
}

/// The state of a client that has joined a channel.
#[derive(Debug)]
pub struct Client {
    pub peers: Vec<PeerInfo>,
    /// Whether the server named this client the relay of its channel.
    pub is_relay: bool,
    /// Whether the server carries traffic for a member of the channel, so
    /// that the relay mirrors to the server.
    pub channel_has_server_relays: bool,
    /// Whether this client sends through the server only.
    pub send_via_server: bool,
    pub punch: PunchState,
    pub relay: RelayState,
}

/// A client as a plain value.
pub struct ClientView {
    pub peers: Seq<PeerView>,
    pub is_relay: bool,
    pub channel_has_server_relays: bool,
    pub send_via_server: bool,
    pub punch: PunchState,
    pub relay: RelayState,
}

impl View for Client {
    type V = ClientView;

    open spec fn view(&self) -> ClientView {
        ClientView {
            peers: peer_views(self.peers@),
            is_relay: self.is_relay,
            channel_has_server_relays: self.channel_has_server_relays,
            send_via_server: self.send_via_server,
            punch: self.punch,
            relay: self.relay,
        }
    }
}

impl Client {
    /// A client that knows no peer yet, punches, and is no relay.
    pub fn new() -> (c: Client)
        ensures
            c@ == (ClientView {
                peers: Seq::empty(),
                is_relay: false,
                channel_has_server_relays: false,
                send_via_server: false,
                punch: PunchState { paused: false },
                relay: RelayState { is_active: false },
            }),
    {
        let c = Client {
            peers: Vec::new(),
            is_relay: false,
            channel_has_server_relays: false,
            send_via_server: false,
            punch: PunchState { paused: false },
            relay: RelayState { is_active: false },
        };
        assert(c@.peers =~= Seq::<PeerView>::empty());
        c
    }
}

} // verus!
