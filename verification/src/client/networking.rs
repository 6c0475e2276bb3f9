//! What a client does on its own account: NAT detection, heartbeats,
//! hole-punch rounds, the relay keepalive and the send path.

use vstd::prelude::*;
use crate::client::structures::{peer_views, Client, ClientView, NatKind, PeerInfo, PeerView};
use crate::endpoint::{parse_endpoint, text_endpoint, Endpoint};
use crate::messages::{
    datagrams, hole_punch, hole_punch_line, no_datagrams, peer_timeout, peer_timeout_line, ping,
    ping_line, push_datagram, request_relay, request_relay_line, Datagram, DatagramView,
};
use crate::sequences::lemma_filter_step;
use crate::wire::{
    ascii, bytes_eq, has_prefix, lit, split_tokens, starts_with, to_bytes, tokens, trim, trimmed,
};

verus! {

/// The delay after the first punch to a peer.
pub const PUNCH_INITIAL_SLEEP_MS: u64 = 150;

/// The longest delay between punches.
pub const PUNCH_MAX_SLEEP_MS: u64 = 1500;

/// The time between two heartbeats to the server.
pub const HEARTBEAT_SLEEP_SEC: u64 = 20;

/// The time between two rounds of the relay keepalive.
pub const RELAY_TICK_SEC: u64 = 15;

/// A peer that was silent for longer than this is reported to the server.
pub const PEER_TIMEOUT_MS: u64 = 60_000;

/// A peer that is not connected after this time is handed to the server.
pub const CONNECT_GRACE_MS: u64 = 12_000;

/// The time that NAT detection waits for both answers.
pub const NAT_DETECT_TOTAL_TIMEOUT_MS: u64 = 600;

/// The pause of NAT detection while nothing arrives.
pub const NAT_DETECT_POLL_SLEEP_MS: u64 = 20;

/// The NAT kind that two observed endpoints show: a cone NAT maps to the same
/// endpoint towards both ports of the server, a symmetric NAT does not.
pub open spec fn classify(first: Endpoint, second: Endpoint) -> NatKind {
    if first.ip != second.ip {
        NatKind::Symmetric
    } else if first.port == second.port {
        NatKind::Cone
    } else {
        NatKind::Symmetric
    }
}

/// The NAT kind that the answers to the probe show; `Unknown` with fewer than
/// two answers.
pub open spec fn nat_kind_of(seen: Seq<Endpoint>) -> NatKind {
    if seen.len() < 2 {
        NatKind::Unknown
    } else {
        classify(seen[0], seen[1])
    }
}

/// Classifies the NAT from the endpoints that the server saw, in the order in
/// which its answers arrived.
pub fn detect_nat_kind(seen: &Vec<Endpoint>) -> (kind: NatKind)
    ensures
        kind == nat_kind_of(seen@),
{
    if seen.len() < 2 {
        return NatKind::Unknown;
    }
    let a = seen[0];
    let b = seen[1];
    if a.ip != b.ip {
        NatKind::Symmetric
    } else if a.port == b.port {
        NatKind::Cone
    } else {
        NatKind::Symmetric
    }
}

/// Whether NAT detection that began at `started` is over at `now`: both
/// answers are in, or the time is up.
pub fn nat_probe_done(seen: &Vec<Endpoint>, started: u64, now: u64) -> (done: bool)
    ensures
        done == (seen@.len() >= 2 || now - started >= NAT_DETECT_TOTAL_TIMEOUT_MS),
{
    seen.len() >= 2 || (now >= started && now - started >= NAT_DETECT_TOTAL_TIMEOUT_MS)
}

/// The endpoint that a `NAT_SEEN <addr>` datagram reports.
pub open spec fn nat_seen_endpoint(msg: Seq<u8>) -> Option<Endpoint> {
    if has_prefix(msg, ascii("NAT_SEEN "@)) && tokens(msg).len() >= 2 {
        text_endpoint(tokens(msg)[1])
    } else {
        None
    }
}

/// Reads the answer to a probe.
pub fn parse_nat_seen(msg: &[u8]) -> (r: Option<Endpoint>)
    ensures
        r == nat_seen_endpoint(msg@),
{
    proof {
        reveal_strlit("NAT_SEEN ");
    }
    if !starts_with(msg, lit("NAT_SEEN ")) {
        return None;
    }
    let t = split_tokens(msg);
    if t.len() < 2 {
        return None;
    }
    parse_endpoint(t[1].as_slice())
}

/// Whether this client punches to a peer: not once it is connected, and not
/// where the server carries its traffic.
pub open spec fn needs_punch(p: PeerView) -> bool {
    !p.connected && !p.use_server_relay
}

/// `HOLE_PUNCH` to each of the first `k` peers that needs it.
pub open spec fn punches(peers: Seq<PeerView>, k: int) -> Seq<DatagramView>
    decreases k,
{
    if k <= 0 {
        Seq::empty()
    } else {
        let before = punches(peers, k - 1);
        if needs_punch(peers[k - 1]) {
            before.push(DatagramView { to: peers[k - 1].addr, payload: hole_punch() })
        } else {
            before
        }
    }
}

/// The delay between punches to one peer.
#[derive(Debug)]
pub struct PunchBackoff {
    pub username: Vec<u8>,
    pub delay_ms: u64,
}

/// A backoff as a plain value.
pub struct BackoffView {
    pub username: Seq<u8>,
    pub delay_ms: u64,
}

impl View for PunchBackoff {
    type V = BackoffView;

    open spec fn view(&self) -> BackoffView {
        BackoffView { username: self.username@, delay_ms: self.delay_ms }
    }
}

/// The backoffs of a list as plain values, in order.
pub open spec fn backoff_views(v: Seq<PunchBackoff>) -> Seq<BackoffView> {
    v.map_values(|b: PunchBackoff| b@)
}

/// Twice the delay, but no more than the longest delay.
pub open spec fn doubled(delay_ms: u64) -> u64 {
    if delay_ms >= PUNCH_MAX_SLEEP_MS / 2 {
        PUNCH_MAX_SLEEP_MS
    } else {
        (2 * delay_ms) as u64
    }
}

/// Whether a backoff is kept for `username`.
pub open spec fn has_backoff(backoff: Seq<BackoffView>, username: Seq<u8>) -> bool {
    exists|i: int| 0 <= i < backoff.len() && (#[trigger] backoff[i]).username == username
}

/// The backoffs after a punch to `username`: its delay doubles; a peer that is
/// punched for the first time starts with the initial delay.
pub open spec fn punched(backoff: Seq<BackoffView>, username: Seq<u8>) -> Seq<BackoffView> {
    if has_backoff(backoff, username) {
        backoff.map_values(
            |b: BackoffView|
                if b.username == username {
                    BackoffView { delay_ms: doubled(b.delay_ms), ..b }
                } else {
                    b
                },
        )
    } else {
        backoff.push(BackoffView { username, delay_ms: PUNCH_INITIAL_SLEEP_MS })
    }
}

/// The backoffs after a round of punches to the first `k` peers.
pub open spec fn backoff_after(backoff: Seq<BackoffView>, peers: Seq<PeerView>, k: int) -> Seq<
    BackoffView,
>
    decreases k,
{
    if k <= 0 {
        backoff
    } else {
        let before = backoff_after(backoff, peers, k - 1);
        if needs_punch(peers[k - 1]) {
            punched(before, peers[k - 1].username)
        } else {
            before
        }
    }
}

/// The least delay among the first `k` backoffs, or the initial delay if
/// there is none.
pub open spec fn least_delay(backoff: Seq<BackoffView>, k: int) -> u64
    decreases k,
{
    if k <= 0 {
        PUNCH_INITIAL_SLEEP_MS
    } else if k == 1 {
        backoff[0].delay_ms
    } else {
        let before = least_delay(backoff, k - 1);
        if backoff[k - 1].delay_ms < before {
            backoff[k - 1].delay_ms
        } else {
            before
        }
    }
}

/// At most one backoff is kept for a user.
pub open spec fn one_backoff_per_user(backoff: Seq<BackoffView>) -> bool {
    forall|i: int, j: int|
        0 <= i < j < backoff.len() ==> (#[trigger] backoff[i]).username != (
        #[trigger] backoff[j]).username
}

/// A punch keeps at most one backoff for a user.
pub proof fn lemma_punched_keeps_one_backoff_per_user(
    backoff: Seq<BackoffView>,
    username: Seq<u8>,
)
    requires
        one_backoff_per_user(backoff),
    ensures
        one_backoff_per_user(punched(backoff, username)),
{
}

/// A round of punches keeps at most one backoff for a user.
pub proof fn lemma_round_keeps_one_backoff_per_user(
    backoff: Seq<BackoffView>,
    peers: Seq<PeerView>,
    k: int,
)
    requires
        one_backoff_per_user(backoff),
    ensures
        one_backoff_per_user(backoff_after(backoff, peers, k)),
    decreases k,
{
    if k > 0 {
        lemma_round_keeps_one_backoff_per_user(backoff, peers, k - 1);
    }
}

/// Notes a punch to `username` in the backoffs.
pub fn note_punch(backoff: &mut Vec<PunchBackoff>, username: &[u8])
    ensures
        backoff_views(final(backoff)@) == punched(backoff_views(old(backoff)@), username@),
{
    let ghost orig = backoff_views(backoff@);
    let ghost bump = |b: BackoffView|
        if b.username == username@ {
            BackoffView { delay_ms: doubled(b.delay_ms), ..b }
        } else {
            b
        };
    let mut found = false;
    let mut i: usize = 0;
    while i < backoff.len()
        invariant
            i <= backoff.len(),
            backoff.len() == orig.len(),
            orig == backoff_views(old(backoff)@),
            bump == |b: BackoffView|
                if b.username == username@ {
                    BackoffView { delay_ms: doubled(b.delay_ms), ..b }
                } else {
                    b
                },
            forall|j: int| 0 <= j < i ==> backoff_views(backoff@)[j] == bump(orig[j]),
            forall|j: int| i <= j < orig.len() ==> backoff_views(backoff@)[j] == orig[j],
            found == exists|j: int| 0 <= j < i && (#[trigger] orig[j]).username == username@,
        decreases backoff.len() - i,
    {
        let ghost before = backoff_views(backoff@);
        if bytes_eq(backoff[i].username.as_slice(), username) {
            let d = backoff[i].delay_ms;
            backoff[i].delay_ms = if d >= PUNCH_MAX_SLEEP_MS / 2 {
                PUNCH_MAX_SLEEP_MS
            } else {
                2 * d
            };
            found = true;
            assert(orig[i as int].username == username@);
            assert(backoff_views(backoff@) =~= before.update(i as int, bump(before[i as int])));
        }
        i += 1;
    }
    if found {
    } else {
        assert(backoff_views(backoff@) =~= orig);
        backoff.push(
            PunchBackoff { username: to_bytes(username), delay_ms: PUNCH_INITIAL_SLEEP_MS },
        );
    }
}

/// One round of hole punching: a punch to every peer that needs one. Returns
/// the punches and the time to wait before the next round, which is the least
/// delay that is kept for any peer.
pub fn hole_punching_round(peers: &Vec<PeerInfo>, backoff: &mut Vec<PunchBackoff>) -> (r: (
    Vec<Datagram>,
    u64,
))
    ensures
        datagrams(r.0@) == punches(peer_views(peers@), peers.len() as int),
        backoff_views(final(backoff)@) == backoff_after(
            backoff_views(old(backoff)@),
            peer_views(peers@),
            peers.len() as int,
        ),
        r.1 == least_delay(backoff_views(final(backoff)@), final(backoff).len() as int),
        one_backoff_per_user(backoff_views(old(backoff)@)) ==> one_backoff_per_user(
            backoff_views(final(backoff)@),
        ),
{
    proof {
        if one_backoff_per_user(backoff_views(backoff@)) {
            lemma_round_keeps_one_backoff_per_user(
                backoff_views(backoff@),
                peer_views(peers@),
                peers.len() as int,
            );
        }
    }
    let mut out = no_datagrams();
    let mut i: usize = 0;
    while i < peers.len()
        invariant
            i <= peers.len(),
            datagrams(out@) == punches(peer_views(peers@), i as int),
            backoff_views(backoff@) == backoff_after(
                backoff_views(old(backoff)@),
                peer_views(peers@),
                i as int,
            ),
        decreases peers.len() - i,
    {
        if !peers[i].connected && !peers[i].use_server_relay {
            push_datagram(&mut out, Datagram { to: peers[i].addr, payload: hole_punch_line() });
            note_punch(backoff, peers[i].username.as_slice());
        }
        i += 1;
    }
    let mut sleep_ms = PUNCH_INITIAL_SLEEP_MS;
    let mut k: usize = 0;
    while k < backoff.len()
        invariant
            k <= backoff.len(),
            sleep_ms == least_delay(backoff_views(backoff@), k as int),
        decreases backoff.len() - k,
    {
        if k == 0 || backoff[k].delay_ms < sleep_ms {
            sleep_ms = backoff[k].delay_ms;
        }
        k += 1;
    }
    (out, sleep_ms)
}

/// Whether the relay gives up on a peer at `now`: it reaches the peer itself
/// and heard nothing from it for more than 60 seconds.
pub open spec fn peer_timed_out(p: PeerView, now: u64) -> bool {
    !p.use_server_relay && now - p.last_pong > PEER_TIMEOUT_MS
}

/// Whether the relay asks the server at `now` to carry a peer: the peer is
/// kept, not connected more than 12 seconds after it was announced, and was
/// not asked for before.
pub open spec fn wants_server_relay(p: PeerView, now: u64) -> bool {
    !p.use_server_relay && !peer_timed_out(p, now) && !p.connected && now - p.created_at
        > CONNECT_GRACE_MS && !p.relay_requested
}

/// What the keepalive sends on account of one peer: nothing where the server
/// carries its traffic; `PEER_TIMEOUT` to the server for a peer that timed
/// out; else `PING` to the peer, followed by `REQUEST_RELAY` to the server
/// where that is due.
pub open spec fn keepalive_for(
    p: PeerView,
    now: u64,
    server_id: Seq<u8>,
    channel: Seq<u8>,
    signaling: Endpoint,
) -> Seq<DatagramView> {
    if p.use_server_relay {
        Seq::empty()
    } else if peer_timed_out(p, now) {
        seq![
            DatagramView { to: signaling, payload: peer_timeout(server_id, channel, p.username) },
        ]
    } else if wants_server_relay(p, now) {
        seq![
            DatagramView { to: p.addr, payload: ping() },
            DatagramView { to: signaling, payload: request_relay(server_id, channel, p.username) },
        ]
    } else {
        seq![DatagramView { to: p.addr, payload: ping() }]
    }
}

/// What the keepalive sends on account of the first `k` peers.
pub open spec fn keepalive_sent(
    peers: Seq<PeerView>,
    now: u64,
    server_id: Seq<u8>,
    channel: Seq<u8>,
    signaling: Endpoint,
    k: int,
) -> Seq<DatagramView>
    decreases k,
{
    if k <= 0 {
        Seq::empty()
    } else {
        keepalive_sent(peers, now, server_id, channel, signaling, k - 1) + keepalive_for(
            peers[k - 1],
            now,
            server_id,
            channel,
            signaling,
        )
    }
}

/// The table after a round of the keepalive at `now`: the peers that timed
/// out are gone, and those for which the server was asked are marked.
pub open spec fn peers_after_keepalive(peers: Seq<PeerView>, now: u64) -> Seq<PeerView> {
    peers.map_values(
        |p: PeerView|
            if wants_server_relay(p, now) {
                PeerView { relay_requested: true, ..p }
            } else {
                p
            },
    ).filter(|p: PeerView| !peer_timed_out(p, now))
}

/// The report of a peer that timed out, addressed to the server.
pub fn handle_peer_timeout(
    server_id: &[u8],
    channel: &[u8],
    peer: &PeerInfo,
    signaling: Endpoint,
) -> (d: Datagram)
    ensures
        d@ == (DatagramView {
            to: signaling,
            payload: peer_timeout(server_id@, channel@, peer@.username),
        }),
{
    Datagram {
        to: signaling,
        payload: peer_timeout_line(server_id, channel, peer.username.as_slice()),
    }
}

impl PeerInfo {
    /// Whether the relay gives up on this peer at `now`.
    pub fn timed_out(&self, now: u64) -> (r: bool)
        ensures
            r == peer_timed_out(self@, now),
    {
        !self.use_server_relay && now > self.last_pong && now - self.last_pong > PEER_TIMEOUT_MS
    }

    /// Whether the relay asks the server at `now` to carry this peer.
    pub fn wants_server_relay(&self, now: u64) -> (r: bool)
        ensures
            r == wants_server_relay(self@, now),
    {
        !self.use_server_relay && !self.timed_out(now) && !self.connected && now
            > self.created_at && now - self.created_at > CONNECT_GRACE_MS && !self.relay_requested
    }
}

/// One round of the relay keepalive at `now`. Returns what is to be sent.
pub fn relay_keepalive_round(
    peers: &mut Vec<PeerInfo>,
    now: u64,
    server_id: &[u8],
    channel: &[u8],
    signaling: Endpoint,
) -> (out: Vec<Datagram>)
    ensures
        peer_views(final(peers)@) == peers_after_keepalive(peer_views(old(peers)@), now),
        datagrams(out@) == keepalive_sent(
            peer_views(old(peers)@),
            now,
            server_id@,
            channel@,
            signaling,
            old(peers).len() as int,
        ),
{
    let ghost orig = peer_views(peers@);
    let ghost mark = |p: PeerView|
        if wants_server_relay(p, now) {
            PeerView { relay_requested: true, ..p }
        } else {
            p
        };
    let ghost alive = |p: PeerView| !peer_timed_out(p, now);
    let mut out = no_datagrams();
    let mut i: usize = 0;
    while i < peers.len()
        invariant
            i <= peers.len(),
            peers.len() == orig.len(),
            orig == peer_views(old(peers)@),
            mark == |p: PeerView|
                if wants_server_relay(p, now) {
                    PeerView { relay_requested: true, ..p }
                } else {
                    p
                },
            forall|j: int| 0 <= j < i ==> peer_views(peers@)[j] == mark(orig[j]),
            forall|j: int| i <= j < orig.len() ==> peer_views(peers@)[j] == orig[j],
            datagrams(out@) == keepalive_sent(orig, now, server_id@, channel@, signaling, i as int),
        decreases peers.len() - i,
    {
        let ghost before = peer_views(peers@);
        if peers[i].use_server_relay {
        } else if peers[i].timed_out(now) {
            let report = handle_peer_timeout(server_id, channel, &peers[i], signaling);
            push_datagram(&mut out, report);
        } else {
            push_datagram(&mut out, Datagram { to: peers[i].addr, payload: ping_line() });
            if peers[i].wants_server_relay(now) {
                let ask = request_relay_line(server_id, channel, peers[i].username.as_slice());
                push_datagram(&mut out, Datagram { to: signaling, payload: ask });
                peers[i].relay_requested = true;
                assert(peer_views(peers@) =~= before.update(i as int, mark(before[i as int])));
            }
        }
        i += 1;
    }
    assert(peer_views(peers@) =~= orig.map_values(mark));
    let ghost marked = peer_views(peers@);
    let ghost mut k: int = 0;
    let mut i: usize = 0;
    while i < peers.len()
        invariant
            i <= peers.len(),
            0 <= k <= marked.len(),
            peers.len() - i == marked.len() - k,
            alive == |p: PeerView| !peer_timed_out(p, now),
            peer_views(peers@).take(i as int) == marked.take(k).filter(alive),
            peer_views(peers@).skip(i as int) == marked.skip(k),
        decreases peers.len() - i,
    {
        let ghost cur = peer_views(peers@);
        proof {
            lemma_filter_step(marked, alive, k);
            assert(cur[i as int] == cur.skip(i as int)[0]);
        }
        if peers[i].timed_out(now) {
            peers.remove(i);
            proof {
                assert(peer_views(peers@).skip(i as int) =~= cur.skip(i as int).skip(1));
                k = k + 1;
            }
        } else {
            proof {
                assert(cur.skip(i + 1) =~= cur.skip(i as int).skip(1));
                k = k + 1;
            }
            i += 1;
        }
    }
    proof {
        assert(marked.take(k) =~= marked);
    }
    out
}

/// `payload` addressed to each of the first `k` peers that this client
/// reaches itself.
pub open spec fn direct_copies(peers: Seq<PeerView>, payload: Seq<u8>, k: int) -> Seq<DatagramView>
    decreases k,
{
    if k <= 0 {
        Seq::empty()
    } else {
        let before = direct_copies(peers, payload, k - 1);
        if !peers[k - 1].use_server_relay {
            before.push(DatagramView { to: peers[k - 1].addr, payload })
        } else {
            before
        }
    }
}

/// Where a line of the user goes. The line is taken without the whitespace
/// around it; an empty line goes nowhere. A client that sends through the
/// server sends one copy there. Any other client sends a copy to every peer
/// that it reaches itself; a relay of a channel with members that the server
/// carries adds a copy for the server.
pub open spec fn user_message_sent(
    c: ClientView,
    username: Seq<u8>,
    message: Seq<u8>,
    signaling: Endpoint,
) -> Seq<DatagramView> {
    let payload = crate::messages::data(username, trimmed(message));
    if trimmed(message).len() == 0 {
        Seq::empty()
    } else if c.send_via_server {
        seq![DatagramView { to: signaling, payload }]
    } else {
        direct_copies(c.peers, payload, c.peers.len() as int) + (if c.is_relay
            && c.channel_has_server_relays {
            seq![DatagramView { to: signaling, payload }]
        } else {
            Seq::empty()
        })
    }
}

/// Sends a line that the user typed.
pub fn handle_user_message(
    client: &Client,
    username: &[u8],
    message: &[u8],
    signaling: Endpoint,
) -> (out: Vec<Datagram>)
    ensures
        datagrams(out@) == user_message_sent(client@, username@, message@, signaling),
{
    let mut out = no_datagrams();
    let msg = trim(message);
    if msg.len() == 0 {
        return out;
    }
    if client.send_via_server {
        let payload = crate::messages::data_line(username, msg.as_slice());
        push_datagram(&mut out, Datagram { to: signaling, payload });
        return out;
    }
    let mut i: usize = 0;
    while i < client.peers.len()
        invariant
            i <= client.peers.len(),
            msg@ == trimmed(message@),
            datagrams(out@) == direct_copies(
                client@.peers,
                crate::messages::data(username@, msg@),
                i as int,
            ),
        decreases client.peers.len() - i,
    {
        if !client.peers[i].use_server_relay {
            let payload = crate::messages::data_line(username, msg.as_slice());
            push_datagram(&mut out, Datagram { to: client.peers[i].addr, payload });
        }
        i += 1;
    }
    if client.is_relay && client.channel_has_server_relays {
        let payload = crate::messages::data_line(username, msg.as_slice());
        push_datagram(&mut out, Datagram { to: signaling, payload });
    }
    out
}

} // verus!
