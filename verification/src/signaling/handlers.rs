//! The dispatcher: applies each inbound line to the registry and returns what
//! the server sends in answer.

use vstd::prelude::*;
use crate::endpoint::Endpoint;
use crate::messages::{
    append_datagrams, datagrams, nat_seen, nat_seen_line, no_datagrams, push_datagram, Datagram,
    DatagramView,
};
use crate::signaling::data_relay::{data_deliveries, handle_data_from_client};
use crate::signaling::invariants::{
    lemma_channel_at_wf, lemma_departed_wf, lemma_disconnect_without_session,
    lemma_dispatch_keeps_registry, lemma_joined_wf,
    lemma_line_keeps_registry, lemma_pong_received_wf, lemma_refreshed_wf,
    lemma_relay_requested_wf, lemma_timed_out_wf, lemma_with_channel_wf, no_empty_channel,
    registry_wf,
};
use crate::signaling::structures::{
    channel_at, lemma_entry_index, with_channel, Channel, ChannelEntry, ChannelView, EntryView,
    NatKind, ServerMap,
};
use crate::signaling::utils::{
    add_new_user, handle_user_removal, mark_server_relayed, refresh_endpoint,
    remove_timed_out_peer, update_existing_user,
};
use crate::wire::{ascii, bytes_eq, lines, lit, split_lines, split_tokens, to_bytes, tokens, views};

verus! {

/// The registry after `CONNECT <server_id> <channel_name> <user_name>` from `src`.
pub open spec fn connected(
    st: Seq<EntryView>,
    server_id: Seq<u8>,
    channel_name: Seq<u8>,
    user_name: Seq<u8>,
    src: Endpoint,
    nat_kind: NatKind,
    now: u64,
) -> Seq<EntryView> {
    with_channel(
        st,
        server_id,
        channel_name,
        channel_at(st, server_id, channel_name).joined(user_name, src, nat_kind, now),
    )
}

/// What the server sends after that `CONNECT`.
pub open spec fn connect_notices(
    st: Seq<EntryView>,
    server_id: Seq<u8>,
    channel_name: Seq<u8>,
    user_name: Seq<u8>,
    src: Endpoint,
    nat_kind: NatKind,
    now: u64,
) -> Seq<DatagramView> {
    channel_at(st, server_id, channel_name).join_notices(user_name, src, nat_kind, now)
}

/// Applies `CONNECT`: refreshes the session if `user_name` is already a member
/// from `src`; else lets it join, runs election and returns its notices.
pub fn handle_connect_message(
    state: &mut ServerMap,
    server_id: &[u8],
    channel_name: &[u8],
    user_name: &[u8],
    src: Endpoint,
    nat_kind: NatKind,
    now: u64,
) -> (out: Vec<Datagram>)
    ensures
        final(state)@ == connected(
            old(state)@,
            server_id@,
            channel_name@,
            user_name@,
            src,
            nat_kind,
            now,
        ),
        datagrams(out@) == connect_notices(
            old(state)@,
            server_id@,
            channel_name@,
            user_name@,
            src,
            nat_kind,
            now,
        ),
        registry_wf(old(state)@) ==> registry_wf(final(state)@),
        registry_wf(old(state)@) && no_empty_channel(old(state)@) ==> no_empty_channel(
            final(state)@,
        ),
{
    proof {
        if registry_wf(state@) {
            let c = channel_at(state@, server_id@, channel_name@);
            lemma_channel_at_wf(state@, server_id@, channel_name@);
            lemma_joined_wf(c, user_name@, src, nat_kind, now);
            lemma_with_channel_wf(
                state@,
                server_id@,
                channel_name@,
                c.joined(user_name@, src, nat_kind, now),
            );
        }
    }
    let i = match state.find(server_id, channel_name) {
        Some(i) => i,
        None => {
            state.entries.push(
                ChannelEntry {
                    server_id: to_bytes(server_id),
                    channel_name: to_bytes(channel_name),
                    channel: Channel::new(),
                },
            );
            state.entries.len() - 1
        },
    };
    let ghost mid = state@;
    let out = if update_existing_user(&mut state.entries[i].channel, user_name, src, now) {
        no_datagrams()
    } else {
        add_new_user(&mut state.entries[i].channel, user_name, src, nat_kind, now)
    };
    proof {
        lemma_entry_index(old(state)@, server_id@, channel_name@, 0);
        let c = channel_at(old(state)@, server_id@, channel_name@);
        assert(mid[i as int].channel == c);
        if !c.has_session(user_name@, src) {
            crate::signaling::utils::lemma_refreshed_without_session(c, user_name@, src, now);
        }
        assert(state@[i as int].channel == c.joined(user_name@, src, nat_kind, now));
        crate::signaling::utils::lemma_joined_has_user(c, user_name@, src, nat_kind, now);
        assert(state@ =~= connected(
            old(state)@,
            server_id@,
            channel_name@,
            user_name@,
            src,
            nat_kind,
            now,
        ));
    }
    out
}

/// The registry after `HB <server_id> <channel_name> <user_name>` from `src`.
pub open spec fn heartbeat_received(
    st: Seq<EntryView>,
    server_id: Seq<u8>,
    channel_name: Seq<u8>,
    user_name: Seq<u8>,
    src: Endpoint,
    now: u64,
) -> Seq<EntryView> {
    with_channel(
        st,
        server_id,
        channel_name,
        channel_at(st, server_id, channel_name).refreshed(user_name, src, now),
    )
}

/// Applies `HB`: refreshes the session of `user_name` from `src`, if there is
/// one. Nothing is sent.
pub fn handle_heartbeat(
    state: &mut ServerMap,
    server_id: &[u8],
    channel_name: &[u8],
    user_name: &[u8],
    src: Endpoint,
    now: u64,
)
    ensures
        final(state)@ == heartbeat_received(
            old(state)@,
            server_id@,
            channel_name@,
            user_name@,
            src,
            now,
        ),
        registry_wf(old(state)@) ==> registry_wf(final(state)@),
        registry_wf(old(state)@) && no_empty_channel(old(state)@) ==> no_empty_channel(
            final(state)@,
        ),
{
    proof {
        if registry_wf(state@) {
            let c = channel_at(state@, server_id@, channel_name@);
            lemma_channel_at_wf(state@, server_id@, channel_name@);
            lemma_refreshed_wf(c, user_name@, src, now);
            lemma_with_channel_wf(
                state@,
                server_id@,
                channel_name@,
                c.refreshed(user_name@, src, now),
            );
        }
    }
    proof {
        lemma_entry_index(old(state)@, server_id@, channel_name@, 0);
    }
    match state.find(server_id, channel_name) {
        Some(i) => {
            update_existing_user(&mut state.entries[i].channel, user_name, src, now);
            let ghost mid = state@;
            assert(mid =~= old(state)@.update(
                i as int,
                EntryView {
                    channel: old(state)@[i as int].channel.refreshed(user_name@, src, now),
                    ..old(state)@[i as int]
                },
            ));
            state.drop_if_empty(i);
        },
        None => {
            assert(ChannelView::empty().refreshed(user_name@, src, now).users
                =~= ChannelView::empty().users);
        },
    }
}

/// The registry after the server heard at `now` from `src`: every user that
/// joined from there is refreshed, in every channel.
pub open spec fn pong_received(st: Seq<EntryView>, src: Endpoint, now: u64) -> Seq<EntryView> {
    st.map_values(|e: EntryView| EntryView { channel: e.channel.ponged(src, now), ..e })
}

/// Applies `PONG`. Nothing is sent.
pub fn handle_pong(state: &mut ServerMap, src: Endpoint, now: u64)
    ensures
        final(state)@ == pong_received(old(state)@, src, now),
        registry_wf(old(state)@) ==> registry_wf(final(state)@),
        registry_wf(old(state)@) && no_empty_channel(old(state)@) ==> no_empty_channel(
            final(state)@,
        ),
{
    proof {
        if registry_wf(state@) {
            lemma_pong_received_wf(state@, src, now);
        }
    }
    let ghost target = pong_received(old(state)@, src, now);
    let mut i: usize = 0;
    while i < state.entries.len()
        invariant
            i <= state.entries.len(),
            state.entries.len() == old(state).entries.len(),
            target == pong_received(old(state)@, src, now),
            forall|j: int| 0 <= j < i ==> state@[j] == target[j],
            forall|j: int| i <= j < state.entries.len() ==> state@[j] == old(state)@[j],
        decreases state.entries.len() - i,
    {
        let ghost before = state@;
        refresh_endpoint(&mut state.entries[i].channel, src, now);
        assert(state@ =~= before.update(
            i as int,
            EntryView { channel: before[i as int].channel.ponged(src, now), ..before[i as int] },
        ));
        i += 1;
    }
    assert(state@ =~= target);
}

/// The registry after `DISCONNECT <server_id> <channel_name> <user_name>` from `src`.
pub open spec fn disconnected(
    st: Seq<EntryView>,
    server_id: Seq<u8>,
    channel_name: Seq<u8>,
    user_name: Seq<u8>,
    src: Endpoint,
) -> Seq<EntryView> {
    with_channel(
        st,
        server_id,
        channel_name,
        channel_at(st, server_id, channel_name).departed(user_name, src),
    )
}

/// What the server sends after that `DISCONNECT`; nothing where the user is
/// no member of the channel from `src`.
pub open spec fn disconnect_notices(
    st: Seq<EntryView>,
    server_id: Seq<u8>,
    channel_name: Seq<u8>,
    user_name: Seq<u8>,
    src: Endpoint,
) -> Seq<DatagramView> {
    channel_at(st, server_id, channel_name).departure_notices(user_name, src)
}

/// Applies `DISCONNECT`: removes `user_name` if it is a member from `src`,
/// settles the relay, drops the channel if it is left without users, and
/// returns what the remaining members are told. Where `user_name` is no
/// member from `src`, nothing is sent and no member is removed.
pub fn handle_disconnect_message(
    state: &mut ServerMap,
    server_id: &[u8],
    channel_name: &[u8],
    user_name: &[u8],
    src: Endpoint,
) -> (out: Vec<Datagram>)
    ensures
        final(state)@ == disconnected(old(state)@, server_id@, channel_name@, user_name@, src),
        datagrams(out@) == disconnect_notices(
            old(state)@,
            server_id@,
            channel_name@,
            user_name@,
            src,
        ),
        !channel_at(old(state)@, server_id@, channel_name@).has_session(user_name@, src)
            ==> datagrams(out@) == Seq::<DatagramView>::empty(),
        !channel_at(old(state)@, server_id@, channel_name@).has_session(user_name@, src)
            && no_empty_channel(old(state)@) ==> final(state)@ == old(state)@,
        registry_wf(old(state)@) ==> registry_wf(final(state)@),
        registry_wf(old(state)@) && no_empty_channel(old(state)@) ==> no_empty_channel(
            final(state)@,
        ),
{
    proof {
        if !channel_at(state@, server_id@, channel_name@).has_session(user_name@, src) {
            lemma_disconnect_without_session(state@, server_id@, channel_name@, user_name@, src);
        }
        if registry_wf(state@) {
            let c = channel_at(state@, server_id@, channel_name@);
            lemma_channel_at_wf(state@, server_id@, channel_name@);
            lemma_departed_wf(c, user_name@, src);
            lemma_with_channel_wf(
                state@,
                server_id@,
                channel_name@,
                c.departed(user_name@, src),
            );
        }
    }
    proof {
        lemma_entry_index(old(state)@, server_id@, channel_name@, 0);
    }
    match state.find(server_id, channel_name) {
        Some(i) => {
            let out = handle_user_removal(&mut state.entries[i].channel, user_name, src);
            let ghost mid = state@;
            assert(mid =~= old(state)@.update(
                i as int,
                EntryView {
                    channel: old(state)@[i as int].channel.departed(user_name@, src),
                    ..old(state)@[i as int]
                },
            ));
            state.drop_if_empty(i);
            out
        },
        None => no_datagrams(),
    }
}

/// The registry after `PEER_TIMEOUT <server_id> <channel_name> <peer_user>`.
pub open spec fn peer_timed_out(
    st: Seq<EntryView>,
    server_id: Seq<u8>,
    channel_name: Seq<u8>,
    peer_user: Seq<u8>,
) -> Seq<EntryView> {
    with_channel(
        st,
        server_id,
        channel_name,
        channel_at(st, server_id, channel_name).timed_out(peer_user),
    )
}

/// What the server sends after that `PEER_TIMEOUT`.
pub open spec fn peer_timeout_notices(
    st: Seq<EntryView>,
    server_id: Seq<u8>,
    channel_name: Seq<u8>,
    peer_user: Seq<u8>,
) -> Seq<DatagramView> {
    channel_at(st, server_id, channel_name).timeout_notices(peer_user)
}

/// Applies `PEER_TIMEOUT`: removes every member named `peer_user`, whatever
/// its endpoint, settles the relay, drops the channel if it is left without
/// users, and returns what the remaining members are told.
pub fn handle_peer_timeout(
    state: &mut ServerMap,
    server_id: &[u8],
    channel_name: &[u8],
    peer_user: &[u8],
) -> (out: Vec<Datagram>)
    ensures
        final(state)@ == peer_timed_out(old(state)@, server_id@, channel_name@, peer_user@),
        datagrams(out@) == peer_timeout_notices(
            old(state)@,
            server_id@,
            channel_name@,
            peer_user@,
        ),
        registry_wf(old(state)@) ==> registry_wf(final(state)@),
        registry_wf(old(state)@) && no_empty_channel(old(state)@) ==> no_empty_channel(
            final(state)@,
        ),
{
    proof {
        if registry_wf(state@) {
            let c = channel_at(state@, server_id@, channel_name@);
            lemma_channel_at_wf(state@, server_id@, channel_name@);
            lemma_timed_out_wf(c, peer_user@);
            lemma_with_channel_wf(state@, server_id@, channel_name@, c.timed_out(peer_user@));
        }
    }
    proof {
        lemma_entry_index(old(state)@, server_id@, channel_name@, 0);
    }
    match state.find(server_id, channel_name) {
        Some(i) => {
            let out = remove_timed_out_peer(&mut state.entries[i].channel, peer_user);
            let ghost mid = state@;
            assert(mid =~= old(state)@.update(
                i as int,
                EntryView {
                    channel: old(state)@[i as int].channel.timed_out(peer_user@),
                    ..old(state)@[i as int]
                },
            ));
            state.drop_if_empty(i);
            out
        },
        None => {
            proof {
                crate::signaling::utils::lemma_empty_channel_is_inert(peer_user@);
            }
            no_datagrams()
        },
    }
}

/// The registry after `REQUEST_RELAY <server_id> <channel_name> <username>`.
pub open spec fn relay_requested(
    st: Seq<EntryView>,
    server_id: Seq<u8>,
    channel_name: Seq<u8>,
    username: Seq<u8>,
) -> Seq<EntryView> {
    with_channel(
        st,
        server_id,
        channel_name,
        channel_at(st, server_id, channel_name).relay_requested(username),
    )
}

/// What the server sends after that `REQUEST_RELAY`.
pub open spec fn relay_request_notices(
    st: Seq<EntryView>,
    server_id: Seq<u8>,
    channel_name: Seq<u8>,
    username: Seq<u8>,
) -> Seq<DatagramView> {
    channel_at(st, server_id, channel_name).relay_request_notices(username)
}

/// Applies `REQUEST_RELAY`: from now on the server carries the traffic of
/// `username`. Every member is told so; if that changes the relay, the
/// notices of the new election follow.
pub fn handle_relay_request(
    state: &mut ServerMap,
    server_id: &[u8],
    channel_name: &[u8],
    username: &[u8],
) -> (out: Vec<Datagram>)
    ensures
        final(state)@ == relay_requested(old(state)@, server_id@, channel_name@, username@),
        datagrams(out@) == relay_request_notices(
            old(state)@,
            server_id@,
            channel_name@,
            username@,
        ),
        registry_wf(old(state)@) ==> registry_wf(final(state)@),
        registry_wf(old(state)@) && no_empty_channel(old(state)@) ==> no_empty_channel(
            final(state)@,
        ),
{
    proof {
        if registry_wf(state@) {
            let c = channel_at(state@, server_id@, channel_name@);
            lemma_channel_at_wf(state@, server_id@, channel_name@);
            lemma_relay_requested_wf(c, username@);
            lemma_with_channel_wf(
                state@,
                server_id@,
                channel_name@,
                c.relay_requested(username@),
            );
        }
    }
    proof {
        lemma_entry_index(old(state)@, server_id@, channel_name@, 0);
    }
    match state.find(server_id, channel_name) {
        Some(i) => {
            let out = mark_server_relayed(&mut state.entries[i].channel, username);
            let ghost mid = state@;
            assert(mid =~= old(state)@.update(
                i as int,
                EntryView {
                    channel: old(state)@[i as int].channel.relay_requested(username@),
                    ..old(state)@[i as int]
                },
            ));
            state.drop_if_empty(i);
            out
        },
        None => {
            proof {
                crate::signaling::utils::lemma_empty_channel_is_inert(username@);
            }
            no_datagrams()
        },
    }
}

/// Whether a line of these tokens begins with `verb` and has at least `arity`
/// tokens.
pub open spec fn has_verb(t: Seq<Seq<u8>>, verb: Seq<u8>, arity: int) -> bool {
    t.len() >= arity && arity >= 1 && t[0] == verb
}

/// The NAT kind that a token names; `Unknown` for any other text.
pub open spec fn nat_kind_named(token: Seq<u8>) -> NatKind {
    if token == ascii("SYMMETRIC"@) {
        NatKind::Symmetric
    } else if token == ascii("CONE"@) {
        NatKind::Cone
    } else if token == ascii("PUBLIC"@) {
        NatKind::Public
    } else {
        NatKind::Unknown
    }
}

/// The NAT kind that a `CONNECT` line declares in its fifth token; `Unknown`
/// if it has none.
pub open spec fn declared_nat_kind(t: Seq<Seq<u8>>) -> NatKind {
    if t.len() >= 5 {
        nat_kind_named(t[4])
    } else {
        NatKind::Unknown
    }
}

/// The registry after one line from `src` was applied at `now`. A line that
/// is no known verb with enough arguments changes nothing.
pub open spec fn line_applied(st: Seq<EntryView>, line: Seq<u8>, src: Endpoint, now: u64) -> Seq<
    EntryView,
> {
    let t = tokens(line);
    if t.len() == 1 && t[0] == ascii("PONG"@) {
        pong_received(st, src, now)
    } else if has_verb(t, ascii("HB"@), 4) {
        heartbeat_received(st, t[1], t[2], t[3], src, now)
    } else if has_verb(t, ascii("CONNECT"@), 4) {
        connected(st, t[1], t[2], t[3], src, declared_nat_kind(t), now)
    } else if has_verb(t, ascii("DISCONNECT"@), 4) {
        disconnected(st, t[1], t[2], t[3], src)
    } else if has_verb(t, ascii("PEER_TIMEOUT"@), 4) {
        peer_timed_out(st, t[1], t[2], t[3])
    } else if has_verb(t, ascii("REQUEST_RELAY"@), 4) {
        relay_requested(st, t[1], t[2], t[3])
    } else {
        st
    }
}

/// What the server sends in answer to one line from `src`. `NAT_PROBE` is
/// answered with the endpoint from which it came; `DATA` is forwarded.
pub open spec fn line_notices(st: Seq<EntryView>, line: Seq<u8>, src: Endpoint, now: u64) -> Seq<
    DatagramView,
> {
    let t = tokens(line);
    if t.len() == 1 && t[0] == ascii("PONG"@) {
        Seq::empty()
    } else if has_verb(t, ascii("HB"@), 4) {
        Seq::empty()
    } else if has_verb(t, ascii("CONNECT"@), 4) {
        connect_notices(st, t[1], t[2], t[3], src, declared_nat_kind(t), now)
    } else if has_verb(t, ascii("DISCONNECT"@), 4) {
        disconnect_notices(st, t[1], t[2], t[3], src)
    } else if has_verb(t, ascii("PEER_TIMEOUT"@), 4) {
        peer_timeout_notices(st, t[1], t[2], t[3])
    } else if has_verb(t, ascii("REQUEST_RELAY"@), 4) {
        relay_request_notices(st, t[1], t[2], t[3])
    } else if has_verb(t, ascii("DATA"@), 3) {
        data_deliveries(st, line, src)
    } else if has_verb(t, ascii("NAT_PROBE"@), 2) {
        seq![DatagramView { to: src, payload: nat_seen(src) }]
    } else {
        Seq::empty()
    }
}

/// The registry after the first `k` lines of `ls` from `src` were applied in
/// order.
pub open spec fn lines_applied(
    st: Seq<EntryView>,
    ls: Seq<Seq<u8>>,
    k: int,
    src: Endpoint,
    now: u64,
) -> Seq<EntryView>
    decreases k,
{
    if k <= 0 {
        st
    } else {
        line_applied(lines_applied(st, ls, k - 1, src, now), ls[k - 1], src, now)
    }
}

/// What the server sends in answer to the first `k` lines of `ls`, in order.
pub open spec fn lines_notices(
    st: Seq<EntryView>,
    ls: Seq<Seq<u8>>,
    k: int,
    src: Endpoint,
    now: u64,
) -> Seq<DatagramView>
    decreases k,
{
    if k <= 0 {
        Seq::empty()
    } else {
        lines_notices(st, ls, k - 1, src, now) + line_notices(
            lines_applied(st, ls, k - 1, src, now),
            ls[k - 1],
            src,
            now,
        )
    }
}

/// The NAT kind that a token names.
pub fn parse_nat_kind(token: &[u8]) -> (kind: NatKind)
    ensures
        kind == nat_kind_named(token@),
{
    proof {
        reveal_strlit("SYMMETRIC");
        reveal_strlit("CONE");
        reveal_strlit("PUBLIC");
    }
    if bytes_eq(token, lit("SYMMETRIC")) {
        NatKind::Symmetric
    } else if bytes_eq(token, lit("CONE")) {
        NatKind::Cone
    } else if bytes_eq(token, lit("PUBLIC")) {
        NatKind::Public
    } else {
        NatKind::Unknown
    }
}

/// Whether the tokens begin with `verb` and are at least `arity`.
fn starts_with_verb(t: &Vec<Vec<u8>>, verb: &[u8], arity: usize) -> (r: bool)
    ensures
        r == has_verb(views(t@), verb@, arity as int),
{
    if arity >= 1 && t.len() >= arity {
        assert(views(t@)[0] == t@[0]@);
        bytes_eq(t[0].as_slice(), verb)
    } else {
        false
    }
}

/// Applies one line that reached the server from `src` at `now` and returns
/// what the server sends in answer.
pub fn handle_line(state: &mut ServerMap, line: &[u8], src: Endpoint, now: u64) -> (out: Vec<
    Datagram,
>)
    ensures
        final(state)@ == line_applied(old(state)@, line@, src, now),
        datagrams(out@) == line_notices(old(state)@, line@, src, now),
        registry_wf(old(state)@) ==> registry_wf(final(state)@),
        registry_wf(old(state)@) && no_empty_channel(old(state)@) ==> no_empty_channel(
            final(state)@,
        ),
{
    proof {
        if registry_wf(state@) {
            lemma_line_keeps_registry(state@, line@, src, now);
        }
    }
    proof {
        reveal_strlit("PONG");
        reveal_strlit("HB");
        reveal_strlit("CONNECT");
        reveal_strlit("DISCONNECT");
        reveal_strlit("PEER_TIMEOUT");
        reveal_strlit("REQUEST_RELAY");
        reveal_strlit("DATA");
        reveal_strlit("NAT_PROBE");
    }
    let t = split_tokens(line);
    proof {
        assert forall|j: int| 0 <= j < t@.len() implies #[trigger] views(t@)[j] == t@[j]@ by {}
    }
    if t.len() == 1 && bytes_eq(t[0].as_slice(), lit("PONG")) {
        handle_pong(state, src, now);
        no_datagrams()
    } else if starts_with_verb(&t, lit("HB"), 4) {
        handle_heartbeat(state, t[1].as_slice(), t[2].as_slice(), t[3].as_slice(), src, now);
        no_datagrams()
    } else if starts_with_verb(&t, lit("CONNECT"), 4) {
        let nat_kind = if t.len() >= 5 {
            parse_nat_kind(t[4].as_slice())
        } else {
            NatKind::Unknown
        };
        handle_connect_message(
            state,
            t[1].as_slice(),
            t[2].as_slice(),
            t[3].as_slice(),
            src,
            nat_kind,
            now,
        )
    } else if starts_with_verb(&t, lit("DISCONNECT"), 4) {
        handle_disconnect_message(state, t[1].as_slice(), t[2].as_slice(), t[3].as_slice(), src)
    } else if starts_with_verb(&t, lit("PEER_TIMEOUT"), 4) {
        handle_peer_timeout(state, t[1].as_slice(), t[2].as_slice(), t[3].as_slice())
    } else if starts_with_verb(&t, lit("REQUEST_RELAY"), 4) {
        handle_relay_request(state, t[1].as_slice(), t[2].as_slice(), t[3].as_slice())
    } else if starts_with_verb(&t, lit("DATA"), 3) {
        handle_data_from_client(state, line, src)
    } else if starts_with_verb(&t, lit("NAT_PROBE"), 2) {
        let mut out = no_datagrams();
        push_datagram(&mut out, Datagram { to: src, payload: nat_seen_line(src) });
        assert(datagrams(out@) =~= seq![DatagramView { to: src, payload: nat_seen(src) }]);
        out
    } else {
        no_datagrams()
    }
}

/// Applies a datagram that reached the server from `src` at `now`, line by
/// line, and returns what the server sends in answer, in order.
pub fn handle_message(state: &mut ServerMap, msg: &[u8], src: Endpoint, now: u64) -> (out: Vec<
    Datagram,
>)
    ensures
        final(state)@ == lines_applied(
            old(state)@,
            lines(msg@),
            lines(msg@).len() as int,
            src,
            now,
        ),
        datagrams(out@) == lines_notices(
            old(state)@,
            lines(msg@),
            lines(msg@).len() as int,
            src,
            now,
        ),
        registry_wf(old(state)@) ==> registry_wf(final(state)@),
        registry_wf(old(state)@) && no_empty_channel(old(state)@) ==> no_empty_channel(
            final(state)@,
        ),
{
    proof {
        if registry_wf(state@) {
            lemma_dispatch_keeps_registry(state@, msg@, src, now);
        }
    }
    let ls = split_lines(msg);
    let mut out = no_datagrams();
    let mut k: usize = 0;
    while k < ls.len()
        invariant
            k <= ls.len(),
            views(ls@) == lines(msg@),
            state@ == lines_applied(old(state)@, lines(msg@), k as int, src, now),
            datagrams(out@) == lines_notices(old(state)@, lines(msg@), k as int, src, now),
        decreases ls.len() - k,
    {
        assert(views(ls@)[k as int] == ls@[k as int]@);
        let more = handle_line(state, ls[k].as_slice(), src, now);
        append_datagrams(&mut out, more);
        k += 1;
    }
    out
}

} // verus!
