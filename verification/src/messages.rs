//! The text of each control message, and datagrams addressed to an endpoint.
//!
//! Every message is one line: tokens separated by single spaces, ended by a
//! line feed.

use vstd::prelude::*;
use crate::endpoint::{endpoint_text, Endpoint};
use crate::nat_kind::NatKind;
use crate::wire::{append_bytes, ascii, lit};

verus! {

/// Bytes to be sent to an endpoint.
#[derive(Debug)]
pub struct Datagram {
    pub to: Endpoint,
    pub payload: Vec<u8>,
}

/// A datagram as a plain value.
pub struct DatagramView {
    pub to: Endpoint,
    pub payload: Seq<u8>,
}

impl View for Datagram {
    type V = DatagramView;

    open spec fn view(&self) -> DatagramView {
        DatagramView { to: self.to, payload: self.payload@ }
    }
}

/// The datagrams of a list as plain values, in order.
pub open spec fn datagrams(v: Seq<Datagram>) -> Seq<DatagramView> {
    v.map_values(|d: Datagram| d@)
}

/// Nothing to send.
pub fn no_datagrams() -> (out: Vec<Datagram>)
    ensures
        datagrams(out@) == Seq::<DatagramView>::empty(),
{
    let out: Vec<Datagram> = Vec::new();
    out
}

/// Appends `d` to `out`.
pub fn push_datagram(out: &mut Vec<Datagram>, d: Datagram)
    ensures
        datagrams(final(out)@) == datagrams(old(out)@).push(d@),
{
    out.push(d);
}

/// Moves the datagrams of `more` to the end of `out`.
pub fn append_datagrams(out: &mut Vec<Datagram>, more: Vec<Datagram>)
    ensures
        datagrams(final(out)@) == datagrams(old(out)@) + datagrams(more@),
{
    let mut more = more;
    out.append(&mut more);
}

/// `MODE RELAY`: the receiver is the client relay of its channel.
pub open spec fn mode_relay() -> Seq<u8> {
    ascii("MODE RELAY\n"@)
}

/// `MODE DIRECT <user> <addr>`: the receiver punches to this peer.
pub open spec fn mode_direct(name: Seq<u8>, addr: Endpoint) -> Seq<u8> {
    ascii("MODE DIRECT "@) + name + seq![32u8] + endpoint_text(addr) + seq![10u8]
}

/// `MODE SERVER_RELAY <user>`: the server carries this user's traffic.
pub open spec fn mode_server_relay(name: Seq<u8>) -> Seq<u8> {
    ascii("MODE SERVER_RELAY "@) + name + seq![10u8]
}

/// `USER_LEFT <user> <addr>`: this peer is gone.
pub open spec fn user_left(name: Seq<u8>, addr: Endpoint) -> Seq<u8> {
    ascii("USER_LEFT "@) + name + seq![32u8] + endpoint_text(addr) + seq![10u8]
}

/// `NAT_SEEN <addr>`: the endpoint from which a probe reached the server.
pub open spec fn nat_seen(addr: Endpoint) -> Seq<u8> {
    ascii("NAT_SEEN "@) + endpoint_text(addr) + seq![10u8]
}

/// `NAT_PROBE 1` for the main port, `NAT_PROBE 2` for the probe port.
pub open spec fn nat_probe(second: bool) -> Seq<u8> {
    if second {
        ascii("NAT_PROBE 2\n"@)
    } else {
        ascii("NAT_PROBE 1\n"@)
    }
}

/// `PING`: asks the receiver for a `PONG`.
pub open spec fn ping() -> Seq<u8> {
    ascii("PING\n"@)
}

/// `PONG`: the answer to `PING`.
pub open spec fn pong() -> Seq<u8> {
    ascii("PONG\n"@)
}

/// `HOLE_PUNCH`: opens the sender's NAT for the receiver.
pub open spec fn hole_punch() -> Seq<u8> {
    ascii("HOLE_PUNCH\n"@)
}

/// The name of a NAT kind in `CONNECT`.
pub open spec fn nat_kind_text(kind: NatKind) -> Seq<u8> {
    match kind {
        NatKind::Symmetric => ascii("SYMMETRIC"@),
        NatKind::Cone => ascii("CONE"@),
        NatKind::Public => ascii("PUBLIC"@),
        NatKind::Unknown => ascii("UNKNOWN"@),
    }
}

/// A verb followed by server id, channel and user.
pub open spec fn addressed(
    verb: Seq<u8>,
    server_id: Seq<u8>,
    channel: Seq<u8>,
    user: Seq<u8>,
) -> Seq<u8> {
    verb + seq![32u8] + server_id + seq![32u8] + channel + seq![32u8] + user
}

/// `CONNECT <srv> <ch> <user> <nat>`.
pub open spec fn connect(
    server_id: Seq<u8>,
    channel: Seq<u8>,
    user: Seq<u8>,
    kind: NatKind,
) -> Seq<u8> {
    addressed(ascii("CONNECT"@), server_id, channel, user) + seq![32u8] + nat_kind_text(kind)
        + seq![10u8]
}

/// `HB <srv> <ch> <user>`.
pub open spec fn heartbeat(server_id: Seq<u8>, channel: Seq<u8>, user: Seq<u8>) -> Seq<u8> {
    addressed(ascii("HB"@), server_id, channel, user) + seq![10u8]
}

/// `DISCONNECT <srv> <ch> <user>`.
pub open spec fn disconnect(server_id: Seq<u8>, channel: Seq<u8>, user: Seq<u8>) -> Seq<u8> {
    addressed(ascii("DISCONNECT"@), server_id, channel, user) + seq![10u8]
}

/// `PEER_TIMEOUT <srv> <ch> <user>`.
pub open spec fn peer_timeout(server_id: Seq<u8>, channel: Seq<u8>, user: Seq<u8>) -> Seq<u8> {
    addressed(ascii("PEER_TIMEOUT"@), server_id, channel, user) + seq![10u8]
}

/// `REQUEST_RELAY <srv> <ch> <user>`.
pub open spec fn request_relay(server_id: Seq<u8>, channel: Seq<u8>, user: Seq<u8>) -> Seq<u8> {
    addressed(ascii("REQUEST_RELAY"@), server_id, channel, user) + seq![10u8]
}

/// `DATA <sender> <text>`.
pub open spec fn data(sender: Seq<u8>, text: Seq<u8>) -> Seq<u8> {
    ascii("DATA "@) + sender + seq![32u8] + text + seq![10u8]
}

/// Writes `MODE RELAY`.
pub fn mode_relay_line() -> (v: Vec<u8>)
    ensures
        v@ == mode_relay(),
{
    proof {
        reveal_strlit("MODE RELAY\n");
    }
    let mut v: Vec<u8> = Vec::new();
    append_bytes(&mut v, lit("MODE RELAY\n"));
    v
}

/// Writes `MODE DIRECT <user> <addr>`.
pub fn mode_direct_line(name: &[u8], addr: Endpoint) -> (v: Vec<u8>)
    ensures
        v@ == mode_direct(name@, addr),
{
    proof {
        reveal_strlit("MODE DIRECT ");
    }
    let mut v: Vec<u8> = Vec::new();
    append_bytes(&mut v, lit("MODE DIRECT "));
    append_bytes(&mut v, name);
    v.push(32u8);
    addr.push_text(&mut v);
    v.push(10u8);
    v
}

/// Writes `MODE SERVER_RELAY <user>`.
pub fn mode_server_relay_line(name: &[u8]) -> (v: Vec<u8>)
    ensures
        v@ == mode_server_relay(name@),
{
    proof {
        reveal_strlit("MODE SERVER_RELAY ");
    }
    let mut v: Vec<u8> = Vec::new();
    append_bytes(&mut v, lit("MODE SERVER_RELAY "));
    append_bytes(&mut v, name);
    v.push(10u8);
    v
}

/// Writes `USER_LEFT <user> <addr>`.
pub fn user_left_line(name: &[u8], addr: Endpoint) -> (v: Vec<u8>)
    ensures
        v@ == user_left(name@, addr),
{
    proof {
        reveal_strlit("USER_LEFT ");
    }
    let mut v: Vec<u8> = Vec::new();
    append_bytes(&mut v, lit("USER_LEFT "));
    append_bytes(&mut v, name);
    v.push(32u8);
    addr.push_text(&mut v);
    v.push(10u8);
    v
}

/// Writes `NAT_SEEN <addr>`.
pub fn nat_seen_line(addr: Endpoint) -> (v: Vec<u8>)
    ensures
        v@ == nat_seen(addr),
{
    proof {
        reveal_strlit("NAT_SEEN ");
    }
    let mut v: Vec<u8> = Vec::new();
    append_bytes(&mut v, lit("NAT_SEEN "));
    addr.push_text(&mut v);
    v.push(10u8);
    v
}

/// Writes `NAT_PROBE 1` or `NAT_PROBE 2`.
pub fn nat_probe_line(second: bool) -> (v: Vec<u8>)
    ensures
        v@ == nat_probe(second),
{
    proof {
        reveal_strlit("NAT_PROBE 1\n");
        reveal_strlit("NAT_PROBE 2\n");
    }
    let mut v: Vec<u8> = Vec::new();
    if second {
        append_bytes(&mut v, lit("NAT_PROBE 2\n"));
    } else {
        append_bytes(&mut v, lit("NAT_PROBE 1\n"));
    }
    v
}

/// Writes `PING`.
pub fn ping_line() -> (v: Vec<u8>)
    ensures
        v@ == ping(),
{
    proof {
        reveal_strlit("PING\n");
    }
    let mut v: Vec<u8> = Vec::new();
    append_bytes(&mut v, lit("PING\n"));
    v
}

/// Writes `PONG`.
pub fn pong_line() -> (v: Vec<u8>)
    ensures
        v@ == pong(),
{
    proof {
        reveal_strlit("PONG\n");
    }
    let mut v: Vec<u8> = Vec::new();
    append_bytes(&mut v, lit("PONG\n"));
    v
}

/// Writes `HOLE_PUNCH`.
pub fn hole_punch_line() -> (v: Vec<u8>)
    ensures
        v@ == hole_punch(),
{
    proof {
        reveal_strlit("HOLE_PUNCH\n");
    }
    let mut v: Vec<u8> = Vec::new();
    append_bytes(&mut v, lit("HOLE_PUNCH\n"));
    v
}

/// Appends the name of a NAT kind to `out`.
pub fn push_nat_kind(out: &mut Vec<u8>, kind: NatKind)
    ensures
        final(out)@ == old(out)@ + nat_kind_text(kind),
{
    proof {
        reveal_strlit("SYMMETRIC");
        reveal_strlit("CONE");
        reveal_strlit("PUBLIC");
        reveal_strlit("UNKNOWN");
    }
    match kind {
        NatKind::Symmetric => append_bytes(out, lit("SYMMETRIC")),
        NatKind::Cone => append_bytes(out, lit("CONE")),
        NatKind::Public => append_bytes(out, lit("PUBLIC")),
        NatKind::Unknown => append_bytes(out, lit("UNKNOWN")),
    }
}

/// Appends a verb, server id, channel and user, separated by spaces.
fn push_addressed(out: &mut Vec<u8>, verb: &[u8], server_id: &[u8], channel: &[u8], user: &[u8])
    ensures
        final(out)@ == old(out)@ + addressed(verb@, server_id@, channel@, user@),
{
    append_bytes(out, verb);
    out.push(32u8);
    append_bytes(out, server_id);
    out.push(32u8);
    append_bytes(out, channel);
    out.push(32u8);
    append_bytes(out, user);
}

/// Writes `CONNECT <srv> <ch> <user> <nat>`.
pub fn connect_line(server_id: &[u8], channel: &[u8], user: &[u8], kind: NatKind) -> (v: Vec<u8>)
    ensures
        v@ == connect(server_id@, channel@, user@, kind),
{
    proof {
        reveal_strlit("CONNECT");
    }
    let mut v: Vec<u8> = Vec::new();
    push_addressed(&mut v, lit("CONNECT"), server_id, channel, user);
    v.push(32u8);
    push_nat_kind(&mut v, kind);
    v.push(10u8);
    v
}

/// Writes `HB <srv> <ch> <user>`.
pub fn heartbeat_line(server_id: &[u8], channel: &[u8], user: &[u8]) -> (v: Vec<u8>)
    ensures
        v@ == heartbeat(server_id@, channel@, user@),
{
    proof {
        reveal_strlit("HB");
    }
    let mut v: Vec<u8> = Vec::new();
    push_addressed(&mut v, lit("HB"), server_id, channel, user);
    v.push(10u8);
    v
}

/// Writes `DISCONNECT <srv> <ch> <user>`.
pub fn disconnect_line(server_id: &[u8], channel: &[u8], user: &[u8]) -> (v: Vec<u8>)
    ensures
        v@ == disconnect(server_id@, channel@, user@),
{
    proof {
        reveal_strlit("DISCONNECT");
    }
    let mut v: Vec<u8> = Vec::new();
    push_addressed(&mut v, lit("DISCONNECT"), server_id, channel, user);
    v.push(10u8);
    v
}

/// Writes `PEER_TIMEOUT <srv> <ch> <user>`.
pub fn peer_timeout_line(server_id: &[u8], channel: &[u8], user: &[u8]) -> (v: Vec<u8>)
    ensures
        v@ == peer_timeout(server_id@, channel@, user@),
{
    proof {
        reveal_strlit("PEER_TIMEOUT");
    }
    let mut v: Vec<u8> = Vec::new();
    push_addressed(&mut v, lit("PEER_TIMEOUT"), server_id, channel, user);
    v.push(10u8);
    v
}

/// Writes `REQUEST_RELAY <srv> <ch> <user>`.
pub fn request_relay_line(server_id: &[u8], channel: &[u8], user: &[u8]) -> (v: Vec<u8>)
    ensures
        v@ == request_relay(server_id@, channel@, user@),
{
    proof {
        reveal_strlit("REQUEST_RELAY");
    }
    let mut v: Vec<u8> = Vec::new();
    push_addressed(&mut v, lit("REQUEST_RELAY"), server_id, channel, user);
    v.push(10u8);
    v
}

/// Writes `DATA <sender> <text>`.
pub fn data_line(sender: &[u8], text: &[u8]) -> (v: Vec<u8>)
    ensures
        v@ == data(sender@, text@),
{
    proof {
        reveal_strlit("DATA ");
    }
    let mut v: Vec<u8> = Vec::new();
    append_bytes(&mut v, lit("DATA "));
    append_bytes(&mut v, sender);
    v.push(32u8);
    append_bytes(&mut v, text);
    v.push(10u8);
    v
}

} // verus!
