//! A client's session with the server: what a received datagram does to the
//! client as a whole.

use vstd::prelude::*;
use crate::client::handlers::{
    handle_peer_message, has_mode, heard_from, is_mode, lines_outcome, process_incoming_message,
    Outcome,
};
use crate::client::structures::{
    chat_views, ChatLine, Client, ClientView, PunchState, RelayState,
};
use crate::endpoint::Endpoint;
use crate::messages::{datagrams, Datagram};
use crate::wire::{ascii, bytes_eq, lines, lit, split_lines, split_tokens, tokens, views};

verus! {

/// The pause of the setup phase while nothing arrives.
pub const SETUP_POLL_SLEEP_MS: u64 = 20;

/// The pause of the main loop while nothing arrives.
pub const MAIN_POLL_SLEEP_MS: u64 = 50;

/// The setup phase ends after this time, or with the first `MODE` line.
pub const SETUP_DEADLINE_MS: u64 = 1500;

/// Whether the setup phase that began at `started` is over at `now`.
pub fn setup_done(started: u64, now: u64, saw_mode: bool) -> (done: bool)
    ensures
        done == (saw_mode || now - started >= SETUP_DEADLINE_MS),
{
    saw_mode || (now >= started && now - started >= SETUP_DEADLINE_MS)
}

/// Sets whether the relay keepalive runs: it does while this client is the
/// relay or mirrors to the server. Says whether that changed, so that the
/// keepalive can be woken or stopped at once.
pub fn update_relay_is_active(
    is_relay: bool,
    channel_has_server_relays: bool,
    relay: &mut RelayState,
) -> (changed: bool)
    ensures
        final(relay).is_active == (is_relay || channel_has_server_relays),
        changed == (old(relay).is_active != final(relay).is_active),
{
    let active = is_relay || channel_has_server_relays;
    if relay.is_active != active {
        relay.is_active = active;
        true
    } else {
        false
    }
}

/// Takes note of `MODE SERVER_RELAY <username>`: if it names this client, the
/// client sends through the server from now on.
pub fn handle_mode_server_relay_for(username: &[u8], me: &[u8], server_relay_flag: &mut bool)
    ensures
        *final(server_relay_flag) == (*old(server_relay_flag) || username@ == me@),
{
    if bytes_eq(username, me) {
        *server_relay_flag = true;
    }
}

/// What a line from the server does to the way this client sends.
/// `MODE RELAY` ends sending through the server and lets punching go on.
/// `MODE SERVER_RELAY` that names this client makes it send through the
/// server and lets punching rest; one that names another user tells a relay
/// that the channel has members that the server carries.
pub open spec fn server_line_applied(c: ClientView, user: Seq<u8>, line: Seq<u8>) -> ClientView {
    let t = tokens(line);
    if has_mode(t, ascii("RELAY"@), 2) {
        ClientView { send_via_server: false, punch: PunchState { paused: false }, ..c }
    } else if has_mode(t, ascii("SERVER_RELAY"@), 3) {
        if t[2] == user {
            ClientView { send_via_server: true, punch: PunchState { paused: true }, ..c }
        } else {
            ClientView {
                channel_has_server_relays: c.channel_has_server_relays || c.is_relay,
                ..c
            }
        }
    } else {
        c
    }
}

/// The client after the first `k` lines of `ls` from the server.
pub open spec fn server_lines_applied(
    c: ClientView,
    user: Seq<u8>,
    ls: Seq<Seq<u8>>,
    k: int,
) -> ClientView
    decreases k,
{
    if k <= 0 {
        c
    } else {
        server_line_applied(server_lines_applied(c, user, ls, k - 1), user, ls[k - 1])
    }
}

/// Adapts the way this client sends, and whether it punches, to a datagram
/// from the server.
pub fn process_server_response(response: &[u8], user: &[u8], client: &mut Client)
    ensures
        final(client)@ == server_lines_applied(
            old(client)@,
            user@,
            lines(response@),
            lines(response@).len() as int,
        ),
{
    proof {
        reveal_strlit("RELAY");
        reveal_strlit("SERVER_RELAY");
    }
    let relay_mode = lit("RELAY");
    let server_relay_mode = lit("SERVER_RELAY");
    let ls = split_lines(response);
    let mut k: usize = 0;
    while k < ls.len()
        invariant
            k <= ls.len(),
            views(ls@) == lines(response@),
            relay_mode@ == ascii("RELAY"@),
            server_relay_mode@ == ascii("SERVER_RELAY"@),
            client@ == server_lines_applied(old(client)@, user@, lines(response@), k as int),
        decreases ls.len() - k,
    {
        let t = split_tokens(ls[k].as_slice());
        if is_mode(&t, relay_mode, 2) {
            client.send_via_server = false;
            client.punch.paused = false;
        } else if is_mode(&t, server_relay_mode, 3) {
            if bytes_eq(t[2].as_slice(), user) {
                handle_mode_server_relay_for(t[2].as_slice(), user, &mut client.send_via_server);
                client.punch.paused = true;
            } else if client.is_relay {
                client.channel_has_server_relays = true;
            }
        }
        k += 1;
    }
}

/// Whether one of the first `k` lines of `ls` is a `MODE` line.
pub open spec fn has_mode_line(ls: Seq<Seq<u8>>, k: int) -> bool
    decreases k,
{
    if k <= 0 {
        false
    } else {
        has_mode_line(ls, k - 1) || (tokens(ls[k - 1]).len() >= 2 && tokens(ls[k - 1])[0] == ascii(
            "MODE"@,
        ))
    }
}

/// Whether a datagram holds a `MODE` line, which ends the setup phase.
pub fn saw_mode_line(response: &[u8]) -> (r: bool)
    ensures
        r == has_mode_line(lines(response@), lines(response@).len() as int),
{
    proof {
        reveal_strlit("MODE");
    }
    let mode = lit("MODE");
    let ls = split_lines(response);
    let mut k: usize = 0;
    while k < ls.len()
        invariant
            k <= ls.len(),
            views(ls@) == lines(response@),
            mode@ == ascii("MODE"@),
            !has_mode_line(lines(response@), k as int),
        decreases ls.len() - k,
    {
        let t = split_tokens(ls[k].as_slice());
        if t.len() >= 2 {
            if bytes_eq(t[0].as_slice(), mode) {
                proof {
                    lemma_has_mode_line_grows(lines(response@), k + 1, ls.len() as int);
                }
                return true;
            }
        }
        k += 1;
    }
    false
}

/// A `MODE` line among the first lines is one among more lines.
pub proof fn lemma_has_mode_line_grows(ls: Seq<Seq<u8>>, k: int, n: int)
    requires
        k <= n,
        has_mode_line(ls, k),
    ensures
        has_mode_line(ls, n),
    decreases n - k,
{
    if k < n {
        lemma_has_mode_line_grows(ls, k, n - 1);
    }
}

/// The client with the relay keepalive running exactly while the client is
/// the relay or mirrors to the server.
pub open spec fn with_relay_activity(c: ClientView) -> ClientView {
    ClientView {
        relay: RelayState { is_active: c.is_relay || c.channel_has_server_relays },
        ..c
    }
}

/// What a datagram from `src` gives. Every datagram is handled line by line.
/// One from the server also adapts the way this client sends; one from
/// anywhere else first shows that the peer at `src` is connected. At the end
/// the relay keepalive is set to run or to rest.
pub open spec fn datagram_outcome(
    c: ClientView,
    user: Seq<u8>,
    datagram: Seq<u8>,
    src: Endpoint,
    server: Endpoint,
    now: u64,
) -> Outcome {
    let ls = lines(datagram);
    let n = ls.len() as int;
    if src == server {
        let handled = lines_outcome(c, user, ls, n, src, server, now);
        Outcome {
            client: with_relay_activity(server_lines_applied(handled.client, user, ls, n)),
            ..handled
        }
    } else {
        let first = ClientView { peers: heard_from(c.peers, src, now), ..c };
        let handled = lines_outcome(first, user, ls, n, src, server, now);
        Outcome { client: with_relay_activity(handled.client), ..handled }
    }
}

/// Handles a datagram that the client received from `src` at `now`. Returns
/// what is to be sent and adds what is to be shown to `shown`.
pub fn handle_recv_result(
    client: &mut Client,
    user: &[u8],
    datagram: &[u8],
    src: Endpoint,
    server: Endpoint,
    now: u64,
    shown: &mut Vec<ChatLine>,
) -> (out: Vec<Datagram>)
    ensures
        final(client)@ == datagram_outcome(old(client)@, user@, datagram@, src, server, now).client,
        datagrams(out@) == datagram_outcome(old(client)@, user@, datagram@, src, server, now).sent,
        chat_views(final(shown)@) == chat_views(old(shown)@) + datagram_outcome(
            old(client)@,
            user@,
            datagram@,
            src,
            server,
            now,
        ).shown,
{
    let out = if src == server {
        let out = process_incoming_message(client, user, datagram, src, server, now, shown);
        process_server_response(datagram, user, client);
        out
    } else {
        handle_peer_message(&mut client.peers, src, now);
        process_incoming_message(client, user, datagram, src, server, now, shown)
    };
    update_relay_is_active(client.is_relay, client.channel_has_server_relays, &mut client.relay);
    out
}

} // verus!
