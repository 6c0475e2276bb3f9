//! Laws of the wire format: what one side writes, the other side reads as it
//! was meant.

use vstd::prelude::*;
use crate::client::handlers::{
    mode_line_applied, server_relayed, with_direct_peer, without_user,
};
use crate::client::networking::nat_seen_endpoint;
use crate::client::structures::ClientView;
use crate::endpoint::{
    endpoint_text, lemma_decimal, lemma_endpoint_text_is_read_back, octet, Endpoint,
};
use crate::messages::{
    addressed, connect, disconnect, heartbeat, mode_direct, mode_relay, mode_server_relay,
    nat_kind_text, nat_seen, peer_timeout, request_relay, user_left, DatagramView,
};
use crate::nat_kind::NatKind;
use crate::signaling::handlers::{
    connect_notices, connected, disconnect_notices, disconnected, heartbeat_received,
    line_applied, line_notices, nat_kind_named, peer_timed_out, peer_timeout_notices,
    relay_request_notices, relay_requested,
};
use crate::signaling::structures::EntryView;
use crate::wire::{
    ascii, data_sender, data_text, decimal, first_space, is_data_line, is_space, is_word,
    lemma_tokens_of_line, line_of,
};

verus! {

/// The words of the protocol are words.
pub proof fn lemma_protocol_words()
    ensures
        is_word(ascii("MODE"@)),
        is_word(ascii("RELAY"@)),
        is_word(ascii("DIRECT"@)),
        is_word(ascii("SERVER_RELAY"@)),
        is_word(ascii("USER_LEFT"@)),
        is_word(ascii("NAT_SEEN"@)),
        is_word(ascii("CONNECT"@)),
        is_word(ascii("HB"@)),
        is_word(ascii("DISCONNECT"@)),
        is_word(ascii("PEER_TIMEOUT"@)),
        is_word(ascii("REQUEST_RELAY"@)),
        is_word(ascii("SYMMETRIC"@)),
        is_word(ascii("CONE"@)),
        is_word(ascii("PUBLIC"@)),
        is_word(ascii("UNKNOWN"@)),
{
    reveal_strlit("MODE");
    reveal_strlit("RELAY");
    reveal_strlit("DIRECT");
    reveal_strlit("SERVER_RELAY");
    reveal_strlit("USER_LEFT");
    reveal_strlit("NAT_SEEN");
    reveal_strlit("CONNECT");
    reveal_strlit("HB");
    reveal_strlit("DISCONNECT");
    reveal_strlit("PEER_TIMEOUT");
    reveal_strlit("REQUEST_RELAY");
    reveal_strlit("SYMMETRIC");
    reveal_strlit("CONE");
    reveal_strlit("PUBLIC");
    reveal_strlit("UNKNOWN");
}

/// A text without whitespace.
pub open spec fn no_space(s: Seq<u8>) -> bool {
    forall|k: int| 0 <= k < s.len() ==> !is_space(#[trigger] s[k])
}

proof fn lemma_no_space_joined(a: Seq<u8>, b: Seq<u8>)
    requires
        no_space(a),
        no_space(b),
    ensures
        no_space(a + b),
{
}

proof fn lemma_decimal_no_space(n: nat)
    ensures
        no_space(decimal(n)),
        decimal(n).len() > 0,
{
    lemma_decimal(n);
}

/// The text of an endpoint is a word.
pub proof fn lemma_endpoint_text_is_word(e: Endpoint)
    ensures
        is_word(endpoint_text(e)),
{
    let dot = seq![46u8];
    let colon = seq![58u8];
    lemma_decimal_no_space(octet(e.ip, 0));
    lemma_decimal_no_space(octet(e.ip, 1));
    lemma_decimal_no_space(octet(e.ip, 2));
    lemma_decimal_no_space(octet(e.ip, 3));
    lemma_decimal_no_space(e.port as nat);
    let s1 = decimal(octet(e.ip, 0)) + dot;
    lemma_no_space_joined(decimal(octet(e.ip, 0)), dot);
    let s2 = s1 + decimal(octet(e.ip, 1));
    lemma_no_space_joined(s1, decimal(octet(e.ip, 1)));
    let s3 = s2 + dot;
    lemma_no_space_joined(s2, dot);
    let s4 = s3 + decimal(octet(e.ip, 2));
    lemma_no_space_joined(s3, decimal(octet(e.ip, 2)));
    let s5 = s4 + dot;
    lemma_no_space_joined(s4, dot);
    let s6 = s5 + decimal(octet(e.ip, 3));
    lemma_no_space_joined(s5, decimal(octet(e.ip, 3)));
    let s7 = s6 + colon;
    lemma_no_space_joined(s6, colon);
    lemma_no_space_joined(s7, decimal(e.port as nat));
}

/// Every message of the server is the line of its words.
pub proof fn lemma_server_lines(name: Seq<u8>, addr: Endpoint)
    ensures
        mode_relay() == line_of(seq![ascii("MODE"@), ascii("RELAY"@)]),
        mode_direct(name, addr) == line_of(
            seq![ascii("MODE"@), ascii("DIRECT"@), name, endpoint_text(addr)],
        ),
        mode_server_relay(name) == line_of(seq![ascii("MODE"@), ascii("SERVER_RELAY"@), name]),
        user_left(name, addr) == line_of(seq![ascii("USER_LEFT"@), name, endpoint_text(addr)]),
        nat_seen(addr) == line_of(seq![ascii("NAT_SEEN"@), endpoint_text(addr)]),
{
    reveal_strlit("MODE");
    reveal_strlit("RELAY");
    reveal_strlit("DIRECT");
    reveal_strlit("SERVER_RELAY");
    reveal_strlit("USER_LEFT");
    reveal_strlit("NAT_SEEN");
    reveal_strlit("MODE RELAY\n");
    reveal_strlit("MODE DIRECT ");
    reveal_strlit("MODE SERVER_RELAY ");
    reveal_strlit("USER_LEFT ");
    reveal_strlit("NAT_SEEN ");
    reveal_with_fuel(line_of, 5);
    let text = endpoint_text(addr);
    assert(seq![ascii("MODE"@), ascii("RELAY"@)].drop_first() =~= seq![ascii("RELAY"@)]);
    assert(mode_relay() =~= line_of(seq![ascii("MODE"@), ascii("RELAY"@)]));
    let direct = seq![ascii("MODE"@), ascii("DIRECT"@), name, text];
    assert(direct.drop_first() =~= seq![ascii("DIRECT"@), name, text]);
    assert(direct.drop_first().drop_first() =~= seq![name, text]);
    assert(direct.drop_first().drop_first().drop_first() =~= seq![text]);
    assert(mode_direct(name, addr) =~= line_of(direct));
    let relayed = seq![ascii("MODE"@), ascii("SERVER_RELAY"@), name];
    assert(relayed.drop_first() =~= seq![ascii("SERVER_RELAY"@), name]);
    assert(relayed.drop_first().drop_first() =~= seq![name]);
    assert(mode_server_relay(name) =~= line_of(relayed));
    let left = seq![ascii("USER_LEFT"@), name, text];
    assert(left.drop_first() =~= seq![name, text]);
    assert(left.drop_first().drop_first() =~= seq![text]);
    assert(user_left(name, addr) =~= line_of(left));
    let seen = seq![ascii("NAT_SEEN"@), text];
    assert(seen.drop_first() =~= seq![text]);
    assert(nat_seen(addr) =~= line_of(seen));
}

/// The client takes `MODE RELAY` of the server as it was meant.
pub proof fn lemma_client_reads_mode_relay(c: ClientView, me: Seq<u8>, now: u64)
    ensures
        mode_line_applied(c, me, mode_relay(), now) == (ClientView { is_relay: true, ..c }),
{
    lemma_protocol_words();
    lemma_server_lines(Seq::empty(), Endpoint { ip: 0, port: 0 });
    lemma_tokens_of_line(seq![ascii("MODE"@), ascii("RELAY"@)]);
}

/// The client takes `MODE DIRECT` of the server as it was meant: it adds the
/// peer with the name and the endpoint that the server wrote.
pub proof fn lemma_client_reads_mode_direct(
    c: ClientView,
    me: Seq<u8>,
    name: Seq<u8>,
    addr: Endpoint,
    now: u64,
)
    requires
        is_word(name),
    ensures
        mode_line_applied(c, me, mode_direct(name, addr), now) == (ClientView {
            peers: with_direct_peer(c.peers, me, name, addr, now),
            ..c
        }),
{
    lemma_protocol_words();
    lemma_server_lines(name, addr);
    lemma_endpoint_text_is_word(addr);
    lemma_endpoint_text_is_read_back(addr);
    lemma_tokens_of_line(seq![ascii("MODE"@), ascii("DIRECT"@), name, endpoint_text(addr)]);
    reveal_strlit("RELAY");
    reveal_strlit("DIRECT");
    reveal_strlit("SERVER_RELAY");
}

/// The client takes `MODE SERVER_RELAY` of the server as it was meant.
pub proof fn lemma_client_reads_mode_server_relay(
    c: ClientView,
    me: Seq<u8>,
    name: Seq<u8>,
    now: u64,
)
    requires
        is_word(name),
    ensures
        mode_line_applied(c, me, mode_server_relay(name), now) == (ClientView {
            channel_has_server_relays: c.channel_has_server_relays || (name != me && c.is_relay),
            peers: server_relayed(c.peers, name),
            ..c
        }),
{
    lemma_protocol_words();
    lemma_server_lines(name, Endpoint { ip: 0, port: 0 });
    lemma_tokens_of_line(seq![ascii("MODE"@), ascii("SERVER_RELAY"@), name]);
    reveal_strlit("RELAY");
    reveal_strlit("SERVER_RELAY");
}

/// The client takes `USER_LEFT` of the server as it was meant.
pub proof fn lemma_client_reads_user_left(
    c: ClientView,
    me: Seq<u8>,
    name: Seq<u8>,
    addr: Endpoint,
    now: u64,
)
    requires
        is_word(name),
    ensures
        mode_line_applied(c, me, user_left(name, addr), now) == (ClientView {
            peers: without_user(c.peers, name),
            ..c
        }),
{
    lemma_protocol_words();
    lemma_server_lines(name, addr);
    lemma_endpoint_text_is_word(addr);
    lemma_tokens_of_line(seq![ascii("USER_LEFT"@), name, endpoint_text(addr)]);
    reveal_strlit("MODE");
    reveal_strlit("USER_LEFT");
}

/// The client reads from `NAT_SEEN` the endpoint that the server wrote.
pub proof fn lemma_client_reads_nat_seen(addr: Endpoint)
    ensures
        nat_seen_endpoint(nat_seen(addr)) == Some(addr),
{
    lemma_protocol_words();
    lemma_server_lines(Seq::empty(), addr);
    lemma_endpoint_text_is_word(addr);
    lemma_endpoint_text_is_read_back(addr);
    lemma_tokens_of_line(seq![ascii("NAT_SEEN"@), endpoint_text(addr)]);
    assert(nat_seen(addr).take(ascii("NAT_SEEN "@).len() as int) =~= ascii("NAT_SEEN "@));
}

/// Every message of the client to the server is the line of its words.
pub proof fn lemma_client_lines(
    server_id: Seq<u8>,
    channel: Seq<u8>,
    user: Seq<u8>,
    kind: NatKind,
)
    ensures
        connect(server_id, channel, user, kind) == line_of(
            seq![ascii("CONNECT"@), server_id, channel, user, nat_kind_text(kind)],
        ),
        heartbeat(server_id, channel, user) == line_of(
            seq![ascii("HB"@), server_id, channel, user],
        ),
        disconnect(server_id, channel, user) == line_of(
            seq![ascii("DISCONNECT"@), server_id, channel, user],
        ),
        peer_timeout(server_id, channel, user) == line_of(
            seq![ascii("PEER_TIMEOUT"@), server_id, channel, user],
        ),
        request_relay(server_id, channel, user) == line_of(
            seq![ascii("REQUEST_RELAY"@), server_id, channel, user],
        ),
{
    lemma_addressed_line(ascii("HB"@), server_id, channel, user);
    lemma_addressed_line(ascii("DISCONNECT"@), server_id, channel, user);
    lemma_addressed_line(ascii("PEER_TIMEOUT"@), server_id, channel, user);
    lemma_addressed_line(ascii("REQUEST_RELAY"@), server_id, channel, user);
    reveal_with_fuel(line_of, 6);
    let words = seq![ascii("CONNECT"@), server_id, channel, user, nat_kind_text(kind)];
    assert(words.drop_first() =~= seq![server_id, channel, user, nat_kind_text(kind)]);
    assert(words.drop_first().drop_first() =~= seq![channel, user, nat_kind_text(kind)]);
    assert(words.drop_first().drop_first().drop_first() =~= seq![user, nat_kind_text(kind)]);
    assert(words.drop_first().drop_first().drop_first().drop_first() =~= seq![
        nat_kind_text(kind),
    ]);
    assert(connect(server_id, channel, user, kind) =~= line_of(words));
}

proof fn lemma_addressed_line(verb: Seq<u8>, server_id: Seq<u8>, channel: Seq<u8>, user: Seq<u8>)
    ensures
        addressed(verb, server_id, channel, user) + seq![10u8] == line_of(
            seq![verb, server_id, channel, user],
        ),
{
    reveal_with_fuel(line_of, 5);
    let words = seq![verb, server_id, channel, user];
    assert(words.drop_first() =~= seq![server_id, channel, user]);
    assert(words.drop_first().drop_first() =~= seq![channel, user]);
    assert(words.drop_first().drop_first().drop_first() =~= seq![user]);
    assert(addressed(verb, server_id, channel, user) + seq![10u8] =~= line_of(words));
}

/// The verbs of the client are different words.
proof fn lemma_verbs_differ()
    ensures
        ascii("PONG"@).len() == 4,
        ascii("HB"@).len() == 2,
        ascii("CONNECT"@).len() == 7,
        ascii("DISCONNECT"@).len() == 10,
        ascii("PEER_TIMEOUT"@).len() == 12,
        ascii("REQUEST_RELAY"@).len() == 13,
        ascii("DATA"@).len() == 4,
        ascii("NAT_PROBE"@).len() == 9,
{
    reveal_strlit("PONG");
    reveal_strlit("HB");
    reveal_strlit("CONNECT");
    reveal_strlit("DISCONNECT");
    reveal_strlit("PEER_TIMEOUT");
    reveal_strlit("REQUEST_RELAY");
    reveal_strlit("DATA");
    reveal_strlit("NAT_PROBE");
}

/// The server reads from the name of a NAT kind the kind that the client
/// wrote.
pub proof fn lemma_nat_kind_is_read_back(kind: NatKind)
    ensures
        nat_kind_named(nat_kind_text(kind)) == kind,
{
    reveal_strlit("SYMMETRIC");
    reveal_strlit("CONE");
    reveal_strlit("PUBLIC");
    reveal_strlit("UNKNOWN");
    assert(ascii("SYMMETRIC"@).len() == 9);
    assert(ascii("CONE"@).len() == 4);
    assert(ascii("PUBLIC"@).len() == 6);
}

/// The server takes `CONNECT` of a client as it was meant.
pub proof fn lemma_server_reads_connect(
    st: Seq<EntryView>,
    server_id: Seq<u8>,
    channel: Seq<u8>,
    user: Seq<u8>,
    kind: NatKind,
    src: Endpoint,
    now: u64,
)
    requires
        is_word(server_id),
        is_word(channel),
        is_word(user),
    ensures
        line_applied(st, connect(server_id, channel, user, kind), src, now) == connected(
            st,
            server_id,
            channel,
            user,
            src,
            kind,
            now,
        ),
        line_notices(st, connect(server_id, channel, user, kind), src, now) == connect_notices(
            st,
            server_id,
            channel,
            user,
            src,
            kind,
            now,
        ),
{
    lemma_protocol_words();
    lemma_verbs_differ();
    lemma_client_lines(server_id, channel, user, kind);
    lemma_nat_kind_is_read_back(kind);
    lemma_tokens_of_line(
        seq![ascii("CONNECT"@), server_id, channel, user, nat_kind_text(kind)],
    );
}

/// The server takes `HB` of a client as it was meant.
pub proof fn lemma_server_reads_heartbeat(
    st: Seq<EntryView>,
    server_id: Seq<u8>,
    channel: Seq<u8>,
    user: Seq<u8>,
    src: Endpoint,
    now: u64,
)
    requires
        is_word(server_id),
        is_word(channel),
        is_word(user),
    ensures
        line_applied(st, heartbeat(server_id, channel, user), src, now) == heartbeat_received(
            st,
            server_id,
            channel,
            user,
            src,
            now,
        ),
        line_notices(st, heartbeat(server_id, channel, user), src, now) == Seq::<
            DatagramView,
        >::empty(),
{
    lemma_protocol_words();
    lemma_client_lines(server_id, channel, user, NatKind::Unknown);
    lemma_tokens_of_line(seq![ascii("HB"@), server_id, channel, user]);
}

/// The server takes `DISCONNECT` of a client as it was meant.
pub proof fn lemma_server_reads_disconnect(
    st: Seq<EntryView>,
    server_id: Seq<u8>,
    channel: Seq<u8>,
    user: Seq<u8>,
    src: Endpoint,
    now: u64,
)
    requires
        is_word(server_id),
        is_word(channel),
        is_word(user),
    ensures
        line_applied(st, disconnect(server_id, channel, user), src, now) == disconnected(
            st,
            server_id,
            channel,
            user,
            src,
        ),
        line_notices(st, disconnect(server_id, channel, user), src, now) == disconnect_notices(
            st,
            server_id,
            channel,
            user,
            src,
        ),
{
    lemma_protocol_words();
    lemma_verbs_differ();
    lemma_client_lines(server_id, channel, user, NatKind::Unknown);
    lemma_tokens_of_line(seq![ascii("DISCONNECT"@), server_id, channel, user]);
}

/// The server takes `PEER_TIMEOUT` of a relay as it was meant.
pub proof fn lemma_server_reads_peer_timeout(
    st: Seq<EntryView>,
    server_id: Seq<u8>,
    channel: Seq<u8>,
    user: Seq<u8>,
    src: Endpoint,
    now: u64,
)
    requires
        is_word(server_id),
        is_word(channel),
        is_word(user),
    ensures
        line_applied(st, peer_timeout(server_id, channel, user), src, now) == peer_timed_out(
            st,
            server_id,
            channel,
            user,
        ),
        line_notices(st, peer_timeout(server_id, channel, user), src, now)
            == peer_timeout_notices(st, server_id, channel, user),
{
    lemma_protocol_words();
    lemma_verbs_differ();
    lemma_client_lines(server_id, channel, user, NatKind::Unknown);
    lemma_tokens_of_line(seq![ascii("PEER_TIMEOUT"@), server_id, channel, user]);
}

/// The server takes `REQUEST_RELAY` of a relay as it was meant.
pub proof fn lemma_server_reads_request_relay(
    st: Seq<EntryView>,
    server_id: Seq<u8>,
    channel: Seq<u8>,
    user: Seq<u8>,
    src: Endpoint,
    now: u64,
)
    requires
        is_word(server_id),
        is_word(channel),
        is_word(user),
    ensures
        line_applied(st, request_relay(server_id, channel, user), src, now) == relay_requested(
            st,
            server_id,
            channel,
            user,
        ),
        line_notices(st, request_relay(server_id, channel, user), src, now)
            == relay_request_notices(st, server_id, channel, user),
{
    lemma_protocol_words();
    lemma_verbs_differ();
    lemma_client_lines(server_id, channel, user, NatKind::Unknown);
    lemma_tokens_of_line(seq![ascii("REQUEST_RELAY"@), server_id, channel, user]);
}

/// The first space at or after `i` is at `e` if no space stands between.
proof fn lemma_first_space_is(s: Seq<u8>, i: int, e: int)
    requires
        0 <= i <= e <= s.len(),
        forall|k: int| i <= k < e ==> #[trigger] s[k] != 32,
        e == s.len() || s[e] == 32,
    ensures
        first_space(s, i) == e,
    decreases e - i,
{
    if i < e {
        lemma_first_space_is(s, i + 1, e);
    }
}

/// A payload envelope is taken apart into the sender and the text that were
/// put into it, if the sender's name holds no space.
pub proof fn lemma_data_line_is_taken_apart(sender: Seq<u8>, text: Seq<u8>)
    requires
        forall|k: int| 0 <= k < sender.len() ==> #[trigger] sender[k] != 32,
    ensures
        ({
            let line = ascii("DATA "@) + sender + seq![32u8] + text;
            &&& crate::messages::data(sender, text) == line + seq![10u8]
            &&& is_data_line(line)
            &&& data_sender(line) == sender
            &&& data_text(line) == text
        }),
{
    reveal_strlit("DATA ");
    let line = ascii("DATA "@) + sender + seq![32u8] + text;
    let e = 5 + sender.len() as int;
    assert(line.take(5) =~= ascii("DATA "@));
    lemma_first_space_is(line, 5, e);
}

} // verus!
