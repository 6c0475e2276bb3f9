//! How a client takes what reaches it: control lines from the server,
//! keepalives and payload from peers.

use vstd::prelude::*;
use crate::client::structures::{
    chat_views, peer_views, ChatLine, ChatLineView, Client, ClientView, PeerInfo, PeerView,
};
use crate::endpoint::{parse_endpoint, text_endpoint, Endpoint};
use crate::messages::{
    append_datagrams, datagrams, no_datagrams, pong, pong_line, push_datagram, Datagram,
    DatagramView,
};
use crate::sequences::lemma_filter_step;
use crate::wire::{
    ascii, bytes_eq, data_sender, data_text, is_data_line, lines, lit, parse_data_line,
    split_lines, split_tokens, to_bytes, tokens, trim, trimmed, views,
};

verus! {

/// The peer that `MODE DIRECT` announces at `now`.
pub open spec fn new_peer(username: Seq<u8>, addr: Endpoint, now: u64) -> PeerView {
    PeerView {
        addr,
        last_pong: now,
        username,
        connected: false,
        created_at: now,
        use_server_relay: false,
        relay_requested: false,
    }
}

/// Whether a peer at `addr` is in the table.
pub open spec fn knows_addr(peers: Seq<PeerView>, addr: Endpoint) -> bool {
    exists|i: int| 0 <= i < peers.len() && (#[trigger] peers[i]).addr == addr
}

/// The table after `MODE DIRECT <username> <addr>`: the peer is added unless
/// it is this client itself or a peer at that endpoint is known.
pub open spec fn with_direct_peer(
    peers: Seq<PeerView>,
    me: Seq<u8>,
    username: Seq<u8>,
    addr: Endpoint,
    now: u64,
) -> Seq<PeerView> {
    if username == me || knows_addr(peers, addr) {
        peers
    } else {
        peers.push(new_peer(username, addr, now))
    }
}

/// The table without the peers named `username`.
pub open spec fn without_user(peers: Seq<PeerView>, username: Seq<u8>) -> Seq<PeerView> {
    peers.filter(|p: PeerView| p.username != username)
}

/// The table after a datagram came from `src` at `now`: the peers at that
/// endpoint are connected and fresh.
pub open spec fn heard_from(peers: Seq<PeerView>, src: Endpoint, now: u64) -> Seq<PeerView> {
    peers.map_values(
        |p: PeerView|
            if p.addr == src {
                PeerView { connected: true, last_pong: now, ..p }
            } else {
                p
            },
    )
}

/// The table after `PONG` came from `src` at `now`: the peers at that
/// endpoint are fresh.
pub open spec fn ponged(peers: Seq<PeerView>, src: Endpoint, now: u64) -> Seq<PeerView> {
    peers.map_values(
        |p: PeerView|
            if p.addr == src {
                PeerView { last_pong: now, ..p }
            } else {
                p
            },
    )
}

/// The table after payload of `username` was seen at `now`, by whatever way
/// it came: the peers of that name are connected and fresh.
pub open spec fn heard_of(peers: Seq<PeerView>, username: Seq<u8>, now: u64) -> Seq<PeerView> {
    peers.map_values(
        |p: PeerView|
            if p.username == username {
                PeerView { connected: true, last_pong: now, ..p }
            } else {
                p
            },
    )
}

/// The table after `MODE SERVER_RELAY <username>`: the server carries the
/// traffic of the peers of that name, and punching to them is over.
pub open spec fn server_relayed(peers: Seq<PeerView>, username: Seq<u8>) -> Seq<PeerView> {
    peers.map_values(
        |p: PeerView|
            if p.username == username {
                PeerView { use_server_relay: true, connected: true, ..p }
            } else {
                p
            },
    )
}

/// `payload` addressed to each of the first `k` peers that is not named
/// `sender`.
pub open spec fn forwarded(peers: Seq<PeerView>, sender: Seq<u8>, payload: Seq<u8>, k: int) -> Seq<
    DatagramView,
>
    decreases k,
{
    if k <= 0 {
        Seq::empty()
    } else {
        let before = forwarded(peers, sender, payload, k - 1);
        if peers[k - 1].username != sender {
            before.push(DatagramView { to: peers[k - 1].addr, payload })
        } else {
            before
        }
    }
}

/// Whether a peer at `addr` is in the table.
pub fn has_peer_at(peers: &Vec<PeerInfo>, addr: Endpoint) -> (r: bool)
    ensures
        r == knows_addr(peer_views(peers@), addr),
{
    let mut i: usize = 0;
    while i < peers.len()
        invariant
            i <= peers.len(),
            forall|j: int| 0 <= j < i ==> (#[trigger] peer_views(peers@)[j]).addr != addr,
        decreases peers.len() - i,
    {
        if peers[i].addr == addr {
            assert(peer_views(peers@)[i as int].addr == addr);
            return true;
        }
        i += 1;
    }
    false
}

/// Takes note that the server named this client the relay.
pub fn handle_mode_relay(is_relay: &mut bool)
    ensures
        *final(is_relay),
{
    *is_relay = true;
}

/// Applies `MODE DIRECT <username> <addr>`.
pub fn handle_mode_direct(
    peers: &mut Vec<PeerInfo>,
    me: &[u8],
    username: &[u8],
    addr: Endpoint,
    now: u64,
)
    ensures
        peer_views(final(peers)@) == with_direct_peer(
            peer_views(old(peers)@),
            me@,
            username@,
            addr,
            now,
        ),
{
    if !bytes_eq(username, me) && !has_peer_at(peers, addr) {
        peers.push(
            PeerInfo {
                addr,
                last_pong: now,
                username: to_bytes(username),
                connected: false,
                created_at: now,
                use_server_relay: false,
                relay_requested: false,
            },
        );
    }
}

/// Applies `USER_LEFT <username>`: forgets the peers of that name.
pub fn handle_user_left(peers: &mut Vec<PeerInfo>, username: &[u8])
    ensures
        peer_views(final(peers)@) == without_user(peer_views(old(peers)@), username@),
{
    let ghost orig = peer_views(peers@);
    let ghost pred = |p: PeerView| p.username != username@;
    let ghost mut k: int = 0;
    let mut i: usize = 0;
    while i < peers.len()
        invariant
            i <= peers.len(),
            0 <= k <= orig.len(),
            peers.len() - i == orig.len() - k,
            orig == peer_views(old(peers)@),
            pred == |p: PeerView| p.username != username@,
            peer_views(peers@).take(i as int) == orig.take(k).filter(pred),
            peer_views(peers@).skip(i as int) == orig.skip(k),
        decreases peers.len() - i,
    {
        let ghost cur = peer_views(peers@);
        proof {
            lemma_filter_step(orig, pred, k);
            assert(cur[i as int] == cur.skip(i as int)[0]);
        }
        if bytes_eq(peers[i].username.as_slice(), username) {
            peers.remove(i);
            proof {
                assert(peer_views(peers@).skip(i as int) =~= cur.skip(i as int).skip(1));
                k = k + 1;
            }
        } else {
            proof {
                assert(cur.skip(i + 1) =~= cur.skip(i as int).skip(1));
                k = k + 1;
            }
            i += 1;
        }
    }
    proof {
        assert(orig.take(k) =~= orig);
    }
}

/// Answers `PING` from `src` with `PONG`.
pub fn handle_ping(src: Endpoint) -> (d: Datagram)
    ensures
        d@ == (DatagramView { to: src, payload: pong() }),
{
    Datagram { to: src, payload: pong_line() }
}

/// Applies `PONG` from `src`.
pub fn handle_pong(peers: &mut Vec<PeerInfo>, src: Endpoint, now: u64)
    ensures
        peer_views(final(peers)@) == ponged(peer_views(old(peers)@), src, now),
{
    let ghost orig = peer_views(peers@);
    let ghost target = ponged(orig, src, now);
    let mut i: usize = 0;
    while i < peers.len()
        invariant
            i <= peers.len(),
            peers.len() == orig.len(),
            orig == peer_views(old(peers)@),
            target == ponged(orig, src, now),
            forall|j: int| 0 <= j < i ==> peer_views(peers@)[j] == target[j],
            forall|j: int| i <= j < orig.len() ==> peer_views(peers@)[j] == orig[j],
        decreases peers.len() - i,
    {
        if peers[i].addr == src {
            peers[i].last_pong = now;
        }
        i += 1;
    }
}

/// Takes note that a datagram came from `src`: the peer there is connected.
pub fn handle_peer_message(peers: &mut Vec<PeerInfo>, src: Endpoint, now: u64)
    ensures
        peer_views(final(peers)@) == heard_from(peer_views(old(peers)@), src, now),
{
    let ghost orig = peer_views(peers@);
    let ghost target = heard_from(orig, src, now);
    let mut i: usize = 0;
    while i < peers.len()
        invariant
            i <= peers.len(),
            peers.len() == orig.len(),
            orig == peer_views(old(peers)@),
            target == heard_from(orig, src, now),
            forall|j: int| 0 <= j < i ==> peer_views(peers@)[j] == target[j],
            forall|j: int| i <= j < orig.len() ==> peer_views(peers@)[j] == orig[j],
        decreases peers.len() - i,
    {
        if peers[i].addr == src {
            peers[i].connected = true;
            peers[i].last_pong = now;
        }
        i += 1;
    }
}

/// Applies `HOLE_PUNCH` from `src`: the peer there is connected.
pub fn handle_hole_punch(peers: &mut Vec<PeerInfo>, src: Endpoint, now: u64)
    ensures
        peer_views(final(peers)@) == heard_from(peer_views(old(peers)@), src, now),
{
    handle_peer_message(peers, src, now);
}

/// Takes note that payload of `name` was seen: the peer of that name is
/// connected.
pub fn mark_peer_connected_by_name(peers: &mut Vec<PeerInfo>, name: &[u8], now: u64)
    ensures
        peer_views(final(peers)@) == heard_of(peer_views(old(peers)@), name@, now),
{
    let ghost orig = peer_views(peers@);
    let ghost target = heard_of(orig, name@, now);
    let mut i: usize = 0;
    while i < peers.len()
        invariant
            i <= peers.len(),
            peers.len() == orig.len(),
            orig == peer_views(old(peers)@),
            target == heard_of(orig, name@, now),
            forall|j: int| 0 <= j < i ==> peer_views(peers@)[j] == target[j],
            forall|j: int| i <= j < orig.len() ==> peer_views(peers@)[j] == orig[j],
        decreases peers.len() - i,
    {
        if bytes_eq(peers[i].username.as_slice(), name) {
            peers[i].connected = true;
            peers[i].last_pong = now;
        }
        i += 1;
    }
}

/// Takes note that the server carries the traffic of `username`.
pub fn mark_peer_server_relayed(peers: &mut Vec<PeerInfo>, username: &[u8])
    ensures
        peer_views(final(peers)@) == server_relayed(peer_views(old(peers)@), username@),
{
    let ghost orig = peer_views(peers@);
    let ghost target = server_relayed(orig, username@);
    let mut i: usize = 0;
    while i < peers.len()
        invariant
            i <= peers.len(),
            peers.len() == orig.len(),
            orig == peer_views(old(peers)@),
            target == server_relayed(orig, username@),
            forall|j: int| 0 <= j < i ==> peer_views(peers@)[j] == target[j],
            forall|j: int| i <= j < orig.len() ==> peer_views(peers@)[j] == orig[j],
        decreases peers.len() - i,
    {
        if bytes_eq(peers[i].username.as_slice(), username) {
            peers[i].use_server_relay = true;
            peers[i].connected = true;
        }
        i += 1;
    }
}

/// As relay, passes a line of `sender` on to every other peer.
pub fn handle_relay_message_to_peers(peers: &Vec<PeerInfo>, sender: &[u8], message: &[u8]) -> (out:
    Vec<Datagram>)
    ensures
        datagrams(out@) == forwarded(
            peer_views(peers@),
            sender@,
            message@,
            peers.len() as int,
        ),
{
    let mut out = no_datagrams();
    let mut i: usize = 0;
    while i < peers.len()
        invariant
            i <= peers.len(),
            datagrams(out@) == forwarded(peer_views(peers@), sender@, message@, i as int),
        decreases peers.len() - i,
    {
        if !bytes_eq(peers[i].username.as_slice(), sender) {
            push_datagram(&mut out, Datagram { to: peers[i].addr, payload: to_bytes(message) });
        }
        i += 1;
    }
    out
}

/// What handling input gives: the next state, what is to be sent, and what
/// is to be shown to the user.
pub struct Outcome {
    pub client: ClientView,
    pub sent: Seq<DatagramView>,
    pub shown: Seq<ChatLineView>,
}

impl Outcome {
    /// The outcome of input that changes nothing.
    pub open spec fn unchanged(client: ClientView) -> Outcome {
        Outcome { client, sent: Seq::empty(), shown: Seq::empty() }
    }

    /// This outcome followed by `next`.
    pub open spec fn then_on(self, next: Outcome) -> Outcome {
        Outcome {
            client: next.client,
            sent: self.sent + next.sent,
            shown: self.shown + next.shown,
        }
    }
}

/// Whether a line of these tokens is `MODE <mode>` with at least `arity`
/// tokens.
pub open spec fn has_mode(t: Seq<Seq<u8>>, mode: Seq<u8>, arity: int) -> bool {
    t.len() >= arity && arity >= 2 && t[0] == ascii("MODE"@) && t[1] == mode
}

/// The client after a control line. `MODE RELAY` makes it the relay.
/// `MODE SERVER_RELAY <name>` marks the peers of that name as carried by the
/// server; a relay that hears it of another user notes that the channel has
/// such members. `MODE DIRECT <name> <addr>` adds the peer. `USER_LEFT <name>`
/// removes the peers of that name. Any other line changes nothing.
pub open spec fn mode_line_applied(
    c: ClientView,
    me: Seq<u8>,
    line: Seq<u8>,
    now: u64,
) -> ClientView {
    let t = tokens(line);
    if has_mode(t, ascii("RELAY"@), 2) {
        ClientView { is_relay: true, ..c }
    } else if has_mode(t, ascii("SERVER_RELAY"@), 3) {
        ClientView {
            channel_has_server_relays: c.channel_has_server_relays || (t[2] != me && c.is_relay),
            peers: server_relayed(c.peers, t[2]),
            ..c
        }
    } else if has_mode(t, ascii("DIRECT"@), 4) {
        match text_endpoint(t[3]) {
            Some(addr) => ClientView { peers: with_direct_peer(c.peers, me, t[2], addr, now), ..c },
            None => c,
        }
    } else if t.len() >= 2 && t[0] == ascii("USER_LEFT"@) {
        ClientView { peers: without_user(c.peers, t[1]), ..c }
    } else {
        c
    }
}

/// Whether the tokens are `MODE <mode>` with at least `arity` tokens.
pub fn is_mode(t: &Vec<Vec<u8>>, mode: &[u8], arity: usize) -> (r: bool)
    ensures
        r == has_mode(views(t@), mode@, arity as int),
{
    proof {
        reveal_strlit("MODE");
    }
    if arity >= 2 && t.len() >= arity {
        bytes_eq(t[0].as_slice(), lit("MODE")) && bytes_eq(t[1].as_slice(), mode)
    } else {
        false
    }
}

/// Applies a control line to the client.
pub fn handle_mode_line(line: &[u8], client: &mut Client, me: &[u8], now: u64)
    ensures
        final(client)@ == mode_line_applied(old(client)@, me@, line@, now),
{
    proof {
        reveal_strlit("RELAY");
        reveal_strlit("SERVER_RELAY");
        reveal_strlit("DIRECT");
        reveal_strlit("USER_LEFT");
    }
    let t = split_tokens(line);
    if is_mode(&t, lit("RELAY"), 2) {
        handle_mode_relay(&mut client.is_relay);
    } else if is_mode(&t, lit("SERVER_RELAY"), 3) {
        if !bytes_eq(t[2].as_slice(), me) && client.is_relay {
            client.channel_has_server_relays = true;
        }
        mark_peer_server_relayed(&mut client.peers, t[2].as_slice());
    } else if is_mode(&t, lit("DIRECT"), 4) {
        match parse_endpoint(t[3].as_slice()) {
            Some(addr) => handle_mode_direct(&mut client.peers, me, t[2].as_slice(), addr, now),
            None => {},
        }
    } else if t.len() >= 2 && bytes_eq(t[0].as_slice(), lit("USER_LEFT")) {
        handle_user_left(&mut client.peers, t[1].as_slice());
    }
}

/// What a payload envelope gives: it is shown, its sender is connected, and a
/// relay passes the line on to every other peer, and to the server if the
/// channel has members that the server carries. A line that is no envelope
/// gives nothing.
pub open spec fn data_line_outcome(
    c: ClientView,
    line: Seq<u8>,
    signaling: Endpoint,
    now: u64,
) -> Outcome {
    if is_data_line(line) {
        let peers = heard_of(c.peers, data_sender(line), now);
        let payload = line + seq![10u8];
        Outcome {
            client: ClientView { peers, ..c },
            sent: if c.is_relay {
                forwarded(peers, data_sender(line), payload, peers.len() as int) + (
                if c.channel_has_server_relays {
                    seq![DatagramView { to: signaling, payload }]
                } else {
                    Seq::empty()
                })
            } else {
                Seq::empty()
            },
            shown: seq![ChatLineView { sender: data_sender(line), text: data_text(line) }],
        }
    } else {
        Outcome::unchanged(c)
    }
}

/// Appends `c` to `shown`.
fn push_chat(shown: &mut Vec<ChatLine>, c: ChatLine)
    ensures
        chat_views(final(shown)@) == chat_views(old(shown)@).push(c@),
{
    shown.push(c);
}

/// Handles a payload envelope that reached this client.
pub fn handle_data_message(
    line: &[u8],
    client: &mut Client,
    signaling: Endpoint,
    now: u64,
    shown: &mut Vec<ChatLine>,
) -> (out: Vec<Datagram>)
    ensures
        final(client)@ == data_line_outcome(old(client)@, line@, signaling, now).client,
        datagrams(out@) == data_line_outcome(old(client)@, line@, signaling, now).sent,
        chat_views(final(shown)@) == chat_views(old(shown)@) + data_line_outcome(
            old(client)@,
            line@,
            signaling,
            now,
        ).shown,
{
    match parse_data_line(line) {
        Some((sender, text)) => {
            mark_peer_connected_by_name(&mut client.peers, sender.as_slice(), now);
            let mut payload = to_bytes(line);
            payload.push(10u8);
            assert(payload@ =~= line@ + seq![10u8]);
            let out = if client.is_relay {
                let mut out = handle_relay_message_to_peers(
                    &client.peers,
                    sender.as_slice(),
                    payload.as_slice(),
                );
                if client.channel_has_server_relays {
                    push_datagram(&mut out, Datagram { to: signaling, payload });
                }
                out
            } else {
                no_datagrams()
            };
            let chat = ChatLine { sender, text };
            push_chat(shown, chat);
            out
        },
        None => no_datagrams(),
    }
}

/// What one line that came from `src` gives. `line` is taken without the
/// whitespace around it.
pub open spec fn line_outcome(
    c: ClientView,
    user: Seq<u8>,
    line: Seq<u8>,
    src: Endpoint,
    signaling: Endpoint,
    now: u64,
) -> Outcome {
    if line.len() == 0 {
        Outcome::unchanged(c)
    } else if line == ascii("PING"@) {
        Outcome {
            client: c,
            sent: seq![DatagramView { to: src, payload: pong() }],
            shown: Seq::empty(),
        }
    } else if line == ascii("PONG"@) {
        Outcome::unchanged(ClientView { peers: ponged(c.peers, src, now), ..c })
    } else if line == ascii("HOLE_PUNCH"@) {
        Outcome::unchanged(ClientView { peers: heard_from(c.peers, src, now), ..c })
    } else if crate::wire::has_prefix(line, ascii("DATA "@)) {
        data_line_outcome(c, line, signaling, now)
    } else {
        Outcome::unchanged(mode_line_applied(c, user, line, now))
    }
}

/// What the first `k` lines of `ls` give, handled in order.
pub open spec fn lines_outcome(
    c: ClientView,
    user: Seq<u8>,
    ls: Seq<Seq<u8>>,
    k: int,
    src: Endpoint,
    signaling: Endpoint,
    now: u64,
) -> Outcome
    decreases k,
{
    if k <= 0 {
        Outcome::unchanged(c)
    } else {
        let before = lines_outcome(c, user, ls, k - 1, src, signaling, now);
        before.then_on(line_outcome(before.client, user, trimmed(ls[k - 1]), src, signaling, now))
    }
}

/// Handles one line, taken without the whitespace around it, that came from
/// `src`.
pub fn process_incoming_line(
    client: &mut Client,
    user: &[u8],
    line: &[u8],
    src: Endpoint,
    signaling: Endpoint,
    now: u64,
    shown: &mut Vec<ChatLine>,
) -> (out: Vec<Datagram>)
    ensures
        final(client)@ == line_outcome(old(client)@, user@, line@, src, signaling, now).client,
        datagrams(out@) == line_outcome(old(client)@, user@, line@, src, signaling, now).sent,
        chat_views(final(shown)@) == chat_views(old(shown)@) + line_outcome(
            old(client)@,
            user@,
            line@,
            src,
            signaling,
            now,
        ).shown,
{
    proof {
        reveal_strlit("PING");
        reveal_strlit("PONG");
        reveal_strlit("HOLE_PUNCH");
        reveal_strlit("DATA ");
    }
    if line.len() == 0 {
        no_datagrams()
    } else if bytes_eq(line, lit("PING")) {
        let mut out = no_datagrams();
        push_datagram(&mut out, handle_ping(src));
        out
    } else if bytes_eq(line, lit("PONG")) {
        handle_pong(&mut client.peers, src, now);
        no_datagrams()
    } else if bytes_eq(line, lit("HOLE_PUNCH")) {
        handle_hole_punch(&mut client.peers, src, now);
        no_datagrams()
    } else if crate::wire::starts_with(line, lit("DATA ")) {
        handle_data_message(line, client, signaling, now, shown)
    } else {
        handle_mode_line(line, client, user, now);
        no_datagrams()
    }
}

/// Handles a datagram that came from `src`, line by line. Returns what is to
/// be sent and adds what is to be shown to `shown`.
pub fn process_incoming_message(
    client: &mut Client,
    user: &[u8],
    message: &[u8],
    src: Endpoint,
    signaling: Endpoint,
    now: u64,
    shown: &mut Vec<ChatLine>,
) -> (out: Vec<Datagram>)
    ensures
        final(client)@ == lines_outcome(
            old(client)@,
            user@,
            lines(message@),
            lines(message@).len() as int,
            src,
            signaling,
            now,
        ).client,
        datagrams(out@) == lines_outcome(
            old(client)@,
            user@,
            lines(message@),
            lines(message@).len() as int,
            src,
            signaling,
            now,
        ).sent,
        chat_views(final(shown)@) == chat_views(old(shown)@) + lines_outcome(
            old(client)@,
            user@,
            lines(message@),
            lines(message@).len() as int,
            src,
            signaling,
            now,
        ).shown,
{
    let ls = split_lines(message);
    let mut out = no_datagrams();
    let mut k: usize = 0;
    while k < ls.len()
        invariant
            k <= ls.len(),
            views(ls@) == lines(message@),
            client@ == lines_outcome(
                old(client)@,
                user@,
                lines(message@),
                k as int,
                src,
                signaling,
                now,
            ).client,
            datagrams(out@) == lines_outcome(
                old(client)@,
                user@,
                lines(message@),
                k as int,
                src,
                signaling,
                now,
            ).sent,
            chat_views(shown@) == chat_views(old(shown)@) + lines_outcome(
                old(client)@,
                user@,
                lines(message@),
                k as int,
                src,
                signaling,
                now,
            ).shown,
        decreases ls.len() - k,
    {
        let line = trim(ls[k].as_slice());
        let more = process_incoming_line(client, user, line.as_slice(), src, signaling, now, shown);
        append_datagrams(&mut out, more);
        k += 1;
    }
    out
}

} // verus!
