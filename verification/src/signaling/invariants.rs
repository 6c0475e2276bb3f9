//! What holds of every channel and of the registry, whatever reached the
//! server, and the laws of relay election.

use vstd::prelude::*;
use crate::endpoint::Endpoint;
use crate::messages::DatagramView;
use crate::signaling::notifications::{
    all_server_relayed, broadcast, elected_relay, election_notices, first_eligible, is_eligible,
    is_symmetric, lemma_first_eligible, peers_about_relay, relay_about_peers,
    server_relayed_peers,
};
use crate::signaling::heartbeat::is_expired;
use crate::signaling::handlers::{
    connect_notices, connected, disconnect_notices, disconnected, heartbeat_received,
    line_applied, lines_applied, pong_received,
};
use crate::signaling::heartbeat::{cleaned_up, emptied_channels, swept_registry};
use crate::signaling::structures::{
    channel_at, entry_index, lemma_entry_index, with_channel, ChannelView, EntryView, NatKind,
    UserView,
};
use crate::wire::{lines, tokens};
use crate::signaling::utils::{lemma_session_index, session_index, sessions_removed};
use crate::sequences::{filter_source, lemma_filter_keeps_order, lemma_filter_step};

verus! {

/// No two of these users have the same name.
pub open spec fn names_unique(users: Seq<UserView>) -> bool {
    forall|i: int, j: int|
        0 <= i < j < users.len() ==> (#[trigger] users[i]).name != (#[trigger] users[j]).name
}

/// The server carries the traffic of every user whose NAT is symmetric.
pub open spec fn symmetric_users_flagged(users: Seq<UserView>) -> bool {
    forall|i: int|
        0 <= i < users.len() ==> (is_symmetric(#[trigger] users[i])
            ==> users[i].needs_server_relay)
}

impl ChannelView {
    /// What holds of every channel of the registry: no two members have the
    /// same name, the server carries the traffic of every member whose NAT is
    /// symmetric, and the relay is the one that election gives the members.
    pub open spec fn wf(self) -> bool {
        &&& names_unique(self.users)
        &&& symmetric_users_flagged(self.users)
        &&& self.relay == elected_relay(self.users)
    }
}

/// Two lists of users that differ at most in when the server last heard from
/// each user.
pub open spec fn same_standing(a: Seq<UserView>, b: Seq<UserView>) -> bool {
    &&& a.len() == b.len()
    &&& forall|i: int|
        0 <= i < a.len() ==> {
            &&& (#[trigger] a[i]).name == b[i].name
            &&& a[i].addr == b[i].addr
            &&& a[i].nat_kind == b[i].nat_kind
            &&& a[i].needs_server_relay == b[i].needs_server_relay
        }
}

proof fn lemma_same_first_eligible(a: Seq<UserView>, b: Seq<UserView>, from: int)
    requires
        same_standing(a, b),
        0 <= from <= a.len(),
    ensures
        first_eligible(a, from) == first_eligible(b, from),
    decreases a.len() - from,
{
    if from < a.len() {
        if !is_eligible(a[from]) {
            lemma_same_first_eligible(a, b, from + 1);
        }
    }
}

proof fn lemma_same_broadcast(a: Seq<UserView>, b: Seq<UserView>, k: int, payload: Seq<u8>)
    requires
        same_standing(a, b),
        0 <= k <= a.len(),
    ensures
        broadcast(a, k, payload) == broadcast(b, k, payload),
    decreases k,
{
    if k > 0 {
        lemma_same_broadcast(a, b, k - 1, payload);
    }
}

proof fn lemma_same_relay_parts(a: Seq<UserView>, b: Seq<UserView>, r: int, k: int)
    requires
        same_standing(a, b),
        0 <= r < a.len(),
        0 <= k <= a.len(),
    ensures
        relay_about_peers(a, r, k) == relay_about_peers(b, r, k),
        peers_about_relay(a, r, k) == peers_about_relay(b, r, k),
        server_relayed_peers(a, r, k) == server_relayed_peers(b, r, k),
    decreases k,
{
    if k > 0 {
        lemma_same_relay_parts(a, b, r, k - 1);
    }
}

proof fn lemma_same_all_server_relayed(a: Seq<UserView>, b: Seq<UserView>, k: int)
    requires
        same_standing(a, b),
        0 <= k <= a.len(),
    ensures
        all_server_relayed(a, k) == all_server_relayed(b, k),
    decreases k,
{
    if k > 0 {
        lemma_same_all_server_relayed(a, b, k - 1);
        lemma_same_broadcast(
            a,
            b,
            a.len() as int,
            crate::messages::mode_server_relay(a[k - 1].name),
        );
    }
}

/// Election is a function of the members' names, endpoints, NAT kinds and
/// server-relay flags in the order in which they joined: two channels that
/// agree in these get the same relay and the same notices, whenever the server
/// last heard from their members.
pub proof fn lemma_election_is_deterministic(a: Seq<UserView>, b: Seq<UserView>)
    requires
        same_standing(a, b),
    ensures
        elected_relay(a) == elected_relay(b),
        election_notices(a) == election_notices(b),
{
    lemma_same_first_eligible(a, b, 0);
    lemma_first_eligible(a, 0);
    let r = first_eligible(a, 0);
    let n = a.len() as int;
    if r < n {
        lemma_same_relay_parts(a, b, r, n);
    } else {
        lemma_same_all_server_relayed(a, b, n);
    }
}

/// The relay that election names is a member that can relay: its NAT is not
/// symmetric. Among several members the server does not carry its traffic
/// either.
pub proof fn lemma_elected_relay_is_member(users: Seq<UserView>)
    ensures
        match elected_relay(users) {
            Some(name) => exists|i: int|
                0 <= i < users.len() && (#[trigger] users[i]).name == name && !is_symmetric(
                    users[i],
                ) && (users.len() >= 2 ==> is_eligible(users[i])),
            None => true,
        },
{
    lemma_first_eligible(users, 0);
}

/// A member whose NAT is symmetric is never the relay.
pub proof fn lemma_symmetric_user_is_never_relay(c: ChannelView, i: int)
    requires
        c.wf(),
        0 <= i < c.users.len(),
        is_symmetric(c.users[i]),
    ensures
        c.relay != Some(c.users[i].name),
{
    lemma_elected_relay_is_member(c.users);
}

/// No two members of a channel have both the same name and the same endpoint.
pub proof fn lemma_sessions_are_unique(c: ChannelView, i: int, j: int)
    requires
        c.wf(),
        0 <= i < c.users.len(),
        0 <= j < c.users.len(),
        i != j,
    ensures
        !(c.users[i].name == c.users[j].name && c.users[i].addr == c.users[j].addr),
{
}

/// Whether a user whose NAT is not symmetric is among these.
pub open spec fn has_non_symmetric(users: Seq<UserView>) -> bool {
    exists|i: int| 0 <= i < users.len() && !is_symmetric(#[trigger] users[i])
}

/// Whether a user that can relay is among these.
pub open spec fn has_eligible(users: Seq<UserView>) -> bool {
    exists|i: int| 0 <= i < users.len() && is_eligible(#[trigger] users[i])
}

impl ChannelView {
    /// The only member relays: its NAT is not symmetric.
    pub open spec fn lone_member_relays(self) -> bool {
        self.users.len() == 1 && !is_symmetric(self.users[0]) && self.relay == Some(
            self.users[0].name,
        )
    }

    /// The server relays for the only member: its NAT is symmetric.
    pub open spec fn server_relays_for_lone_member(self) -> bool {
        self.users.len() == 1 && is_symmetric(self.users[0]) && self.relay is None
    }

    /// Among several members, one whose NAT is not symmetric relays if there
    /// is such a member; else the server relays.
    pub open spec fn one_of_several_relays(self) -> bool {
        self.users.len() >= 2 && if has_non_symmetric(self.users) {
            exists|i: int|
                0 <= i < self.users.len() && !is_symmetric(#[trigger] self.users[i])
                    && self.relay == Some(self.users[i].name)
        } else {
            self.relay is None
        }
    }
}

/// Of a channel with members exactly one holds: its only member relays, the
/// server relays for its only member, or one of several members relays where
/// one can. This is stated of the channels in which a member that can relay
/// exists whenever several members include one whose NAT is not symmetric;
/// where the server carries the traffic of all of these, the server relays.
pub proof fn lemma_exactly_one_relay_rule(c: ChannelView)
    requires
        c.wf(),
        c.users.len() >= 1,
        c.users.len() >= 2 && has_non_symmetric(c.users) ==> has_eligible(c.users),
    ensures
        c.lone_member_relays() || c.server_relays_for_lone_member() || c.one_of_several_relays(),
        !(c.lone_member_relays() && c.server_relays_for_lone_member()),
        !(c.lone_member_relays() && c.one_of_several_relays()),
        !(c.server_relays_for_lone_member() && c.one_of_several_relays()),
{
    lemma_first_eligible(c.users, 0);
}

/// Where no member can relay among several, the server relays, also if the
/// NAT of one of them is not symmetric.
pub proof fn lemma_server_relays_without_eligible(c: ChannelView)
    requires
        c.wf(),
        c.users.len() >= 2,
        !has_eligible(c.users),
    ensures
        c.relay is None,
{
    lemma_first_eligible(c.users, 0);
}

/// Taking users out of a list keeps the names apart and the flags in place.
pub proof fn lemma_filter_keeps_users_apart(users: Seq<UserView>, pred: spec_fn(UserView) -> bool)
    requires
        names_unique(users),
        symmetric_users_flagged(users),
    ensures
        names_unique(users.filter(pred)),
        symmetric_users_flagged(users.filter(pred)),
{
    lemma_filter_keeps_order(users, pred);
    let f = users.filter(pred);
    assert forall|i: int, j: int| 0 <= i < j < f.len() implies (#[trigger] f[i]).name != (
    #[trigger] f[j]).name by {
        assert(filter_source(users, pred, i) < filter_source(users, pred, j));
    }
    assert forall|i: int| 0 <= i < f.len() && is_symmetric(#[trigger] f[i]) implies
        f[i].needs_server_relay by {
        assert(users[filter_source(users, pred, i)] == f[i]);
    }
}

/// A channel stays well-formed when a session is refreshed.
pub proof fn lemma_refreshed_wf(c: ChannelView, name: Seq<u8>, addr: Endpoint, now: u64)
    requires
        c.wf(),
    ensures
        c.refreshed(name, addr, now).wf(),
{
    let d = c.refreshed(name, addr, now);
    lemma_election_is_deterministic(c.users, d.users);
}

/// A channel stays well-formed when the server hears from an endpoint.
pub proof fn lemma_ponged_wf(c: ChannelView, addr: Endpoint, now: u64)
    requires
        c.wf(),
    ensures
        c.ponged(addr, now).wf(),
{
    let d = c.ponged(addr, now);
    lemma_election_is_deterministic(c.users, d.users);
}

/// A channel stays well-formed under `CONNECT`.
pub proof fn lemma_joined_wf(
    c: ChannelView,
    name: Seq<u8>,
    addr: Endpoint,
    nat_kind: NatKind,
    now: u64,
)
    requires
        c.wf(),
    ensures
        c.joined(name, addr, nat_kind, now).wf(),
{
    if c.has_session(name, addr) {
        lemma_refreshed_wf(c, name, addr, now);
    } else {
        let pred = |u: UserView| !(u.name == name && Some(addr) != Some(u.addr));
        let kept = sessions_removed(c.users, name, Some(addr));
        lemma_filter_keeps_users_apart(c.users, pred);
        lemma_filter_keeps_order(c.users, pred);
        lemma_session_index(c.users, name, addr, 0);
        assert forall|i: int| 0 <= i < kept.len() implies (#[trigger] kept[i]).name != name by {
            assert(c.users[filter_source(c.users, pred, i)] == kept[i]);
        }
    }
}

/// A channel stays well-formed under `DISCONNECT`.
pub proof fn lemma_departed_wf(c: ChannelView, name: Seq<u8>, addr: Endpoint)
    requires
        c.wf(),
    ensures
        c.departed(name, addr).wf(),
{
    lemma_session_index(c.users, name, addr, 0);
}

/// A channel stays well-formed under `PEER_TIMEOUT`.
pub proof fn lemma_timed_out_wf(c: ChannelView, name: Seq<u8>)
    requires
        c.wf(),
    ensures
        c.timed_out(name).wf(),
{
    let pred = |u: UserView| !(u.name == name && None::<Endpoint> != Some(u.addr));
    lemma_filter_keeps_users_apart(c.users, pred);
}

/// A channel stays well-formed under `REQUEST_RELAY`.
pub proof fn lemma_relay_requested_wf(c: ChannelView, name: Seq<u8>)
    requires
        c.wf(),
    ensures
        c.relay_requested(name).wf(),
{
}

/// A channel stays well-formed under the sweep.
pub proof fn lemma_swept_wf(c: ChannelView, now: u64)
    requires
        c.wf(),
    ensures
        c.swept(now).wf(),
{
    let pred = |u: UserView| !is_expired(u, now);
    lemma_filter_keeps_users_apart(c.users, pred);
}

/// The sweep at `now` expires no member from whom the server heard within
/// the last 40 seconds: every such member is a member afterwards.
pub proof fn lemma_fresh_user_survives(c: ChannelView, now: u64, i: int)
    requires
        0 <= i < c.users.len(),
        now - c.users[i].last_pong <= crate::signaling::heartbeat::USER_TIMEOUT_MS,
    ensures
        exists|j: int|
            0 <= j < c.swept(now).users.len() && #[trigger] c.swept(now).users[j] == c.users[i],
{
    let pred = |u: UserView| !is_expired(u, now);
    lemma_filter_keeps_order(c.users, pred);
    let j = choose|j: int|
        0 <= j < c.users.filter(pred).len() && filter_source(c.users, pred, j) == i;
    assert(c.swept(now).users[j] == c.users[i]);
}

/// No two channels are registered under the same server id and channel name.
pub open spec fn keys_unique(st: Seq<EntryView>) -> bool {
    forall|i: int, j: int|
        0 <= i < j < st.len() ==> !((#[trigger] st[i]).server_id == (#[trigger] st[j]).server_id
            && st[i].channel_name == st[j].channel_name)
}

/// What holds of the registry at all times: no two channels have the same
/// names, and every channel is well-formed.
pub open spec fn registry_wf(st: Seq<EntryView>) -> bool {
    &&& keys_unique(st)
    &&& forall|i: int| 0 <= i < st.len() ==> (#[trigger] st[i]).channel.wf()
}

/// Every registered channel has a user. This holds at all times but between
/// a sweep and the cleanup that follows it.
pub open spec fn no_empty_channel(st: Seq<EntryView>) -> bool {
    forall|i: int| 0 <= i < st.len() ==> (#[trigger] st[i]).channel.users.len() > 0
}

/// The channel registered under given names is well-formed.
pub proof fn lemma_channel_at_wf(st: Seq<EntryView>, server_id: Seq<u8>, channel_name: Seq<u8>)
    requires
        registry_wf(st),
    ensures
        channel_at(st, server_id, channel_name).wf(),
{
    lemma_entry_index(st, server_id, channel_name, 0);
}

/// The registry stays well-formed when a well-formed channel takes its place
/// in it, and no channel without users comes into it.
pub proof fn lemma_with_channel_wf(
    st: Seq<EntryView>,
    server_id: Seq<u8>,
    channel_name: Seq<u8>,
    channel: ChannelView,
)
    requires
        registry_wf(st),
        channel.wf(),
    ensures
        registry_wf(with_channel(st, server_id, channel_name, channel)),
        no_empty_channel(st) ==> no_empty_channel(
            with_channel(st, server_id, channel_name, channel),
        ),
{
    lemma_entry_index(st, server_id, channel_name, 0);
}

/// The registry stays well-formed under `PONG`.
pub proof fn lemma_pong_received_wf(st: Seq<EntryView>, src: Endpoint, now: u64)
    requires
        registry_wf(st),
    ensures
        registry_wf(pong_received(st, src, now)),
        no_empty_channel(st) ==> no_empty_channel(pong_received(st, src, now)),
{
    let next = pong_received(st, src, now);
    assert forall|a: int| 0 <= a < next.len() implies (#[trigger] next[a]).channel.wf() by {
        lemma_ponged_wf(st[a].channel, src, now);
    }
}

/// The registry stays well-formed under every line that reaches the server,
/// and no line leaves a channel without users behind.
pub proof fn lemma_line_keeps_registry(st: Seq<EntryView>, line: Seq<u8>, src: Endpoint, now: u64)
    requires
        registry_wf(st),
    ensures
        registry_wf(line_applied(st, line, src, now)),
        no_empty_channel(st) ==> no_empty_channel(line_applied(st, line, src, now)),
{
    let t = tokens(line);
    lemma_pong_received_wf(st, src, now);
    if t.len() >= 4 {
        let c = channel_at(st, t[1], t[2]);
        lemma_channel_at_wf(st, t[1], t[2]);
        lemma_refreshed_wf(c, t[3], src, now);
        lemma_with_channel_wf(st, t[1], t[2], c.refreshed(t[3], src, now));
        let kind = crate::signaling::handlers::declared_nat_kind(t);
        lemma_joined_wf(c, t[3], src, kind, now);
        lemma_with_channel_wf(st, t[1], t[2], c.joined(t[3], src, kind, now));
        lemma_departed_wf(c, t[3], src);
        lemma_with_channel_wf(st, t[1], t[2], c.departed(t[3], src));
        lemma_timed_out_wf(c, t[3]);
        lemma_with_channel_wf(st, t[1], t[2], c.timed_out(t[3]));
        lemma_with_channel_wf(st, t[1], t[2], c.relay_requested(t[3]));
    }
}

/// The registry stays well-formed under every sequence of lines.
pub proof fn lemma_lines_keep_registry(
    st: Seq<EntryView>,
    ls: Seq<Seq<u8>>,
    k: int,
    src: Endpoint,
    now: u64,
)
    requires
        registry_wf(st),
    ensures
        registry_wf(lines_applied(st, ls, k, src, now)),
        no_empty_channel(st) ==> no_empty_channel(lines_applied(st, ls, k, src, now)),
    decreases k,
{
    if k > 0 {
        lemma_lines_keep_registry(st, ls, k - 1, src, now);
        lemma_line_keeps_registry(lines_applied(st, ls, k - 1, src, now), ls[k - 1], src, now);
    }
}

/// Whatever datagram reaches the server, the registry stays well-formed and
/// no channel without users comes into it.
pub proof fn lemma_dispatch_keeps_registry(
    st: Seq<EntryView>,
    msg: Seq<u8>,
    src: Endpoint,
    now: u64,
)
    requires
        registry_wf(st),
    ensures
        registry_wf(lines_applied(st, lines(msg), lines(msg).len() as int, src, now)),
        no_empty_channel(st) ==> no_empty_channel(
            lines_applied(st, lines(msg), lines(msg).len() as int, src, now),
        ),
{
    lemma_lines_keep_registry(st, lines(msg), lines(msg).len() as int, src, now);
}

/// The registry stays well-formed under the sweep.
pub proof fn lemma_sweep_keeps_registry(st: Seq<EntryView>, now: u64)
    requires
        registry_wf(st),
    ensures
        registry_wf(swept_registry(st, now)),
{
    let next = swept_registry(st, now);
    assert forall|a: int| 0 <= a < next.len() implies (#[trigger] next[a]).channel.wf() by {
        lemma_swept_wf(st[a].channel, now);
    }
}

/// The registry stays well-formed under the cleanup, and the cleanup brings
/// no channel without users into it.
pub proof fn lemma_cleanup_keeps_registry(
    st: Seq<EntryView>,
    keys: Seq<(Seq<u8>, Seq<u8>)>,
    k: int,
)
    requires
        registry_wf(st),
    ensures
        registry_wf(cleaned_up(st, keys, k)),
        no_empty_channel(st) ==> no_empty_channel(cleaned_up(st, keys, k)),
    decreases k,
{
    if k > 0 {
        lemma_cleanup_keeps_registry(st, keys, k - 1);
        let prev = cleaned_up(st, keys, k - 1);
        lemma_entry_index(prev, keys[k - 1].0, keys[k - 1].1, 0);
    }
}

/// A user with a name and an endpoint is a member exactly if `has_session`
/// finds it.
pub proof fn lemma_has_session(c: ChannelView, name: Seq<u8>, addr: Endpoint, i: int)
    requires
        0 <= i < c.users.len(),
        c.users[i].name == name,
        c.users[i].addr == addr,
    ensures
        c.has_session(name, addr),
{
    lemma_session_index(c.users, name, addr, 0);
}

/// After `CONNECT` the user is a member from the endpoint from which it
/// connected.
pub proof fn lemma_joined_has_session(
    c: ChannelView,
    name: Seq<u8>,
    addr: Endpoint,
    nat_kind: NatKind,
    now: u64,
)
    ensures
        c.joined(name, addr, nat_kind, now).has_session(name, addr),
{
    lemma_session_index(c.users, name, addr, 0);
    let once = c.joined(name, addr, nat_kind, now);
    if c.has_session(name, addr) {
        let i = session_index(c.users, name, addr, 0);
        lemma_has_session(once, name, addr, i);
    } else {
        let last = once.users.len() - 1;
        lemma_has_session(once, name, addr, last);
    }
}

/// `CONNECT` of a user that is a member from that endpoint is idempotent but
/// for the refresh: the channel after a second `CONNECT` is the channel after
/// the first with that session refreshed, and the second sends nothing.
pub proof fn lemma_connect_is_idempotent(
    c: ChannelView,
    name: Seq<u8>,
    addr: Endpoint,
    nat_kind: NatKind,
    now: u64,
    again: NatKind,
    later: u64,
)
    ensures
        ({
            let once = c.joined(name, addr, nat_kind, now);
            &&& once.joined(name, addr, again, later) == once.refreshed(name, addr, later)
            &&& once.join_notices(name, addr, again, later) == Seq::<DatagramView>::empty()
        }),
{
    lemma_joined_has_session(c, name, addr, nat_kind, now);
}

/// The position of an entry before which no entry has its names is the one
/// that `entry_index` finds.
pub proof fn lemma_entry_index_is(
    st: Seq<EntryView>,
    server_id: Seq<u8>,
    channel_name: Seq<u8>,
    m: int,
)
    requires
        0 <= m < st.len(),
        st[m].server_id == server_id && st[m].channel_name == channel_name,
        forall|j: int|
            0 <= j < m ==> !((#[trigger] st[j]).server_id == server_id && st[j].channel_name
                == channel_name),
    ensures
        entry_index(st, server_id, channel_name, 0) == m,
{
    lemma_entry_index(st, server_id, channel_name, 0);
}

/// A channel with users that was put into the registry is found there.
pub proof fn lemma_channel_at_with_channel(
    st: Seq<EntryView>,
    server_id: Seq<u8>,
    channel_name: Seq<u8>,
    channel: ChannelView,
)
    requires
        channel.users.len() > 0,
    ensures
        channel_at(with_channel(st, server_id, channel_name, channel), server_id, channel_name)
            == channel,
{
    lemma_entry_index(st, server_id, channel_name, 0);
    let i = entry_index(st, server_id, channel_name, 0);
    let next = with_channel(st, server_id, channel_name, channel);
    lemma_entry_index_is(next, server_id, channel_name, i);
}

/// A second `CONNECT` of the same user from the same endpoint only refreshes
/// its session, as `HB` does, and sends nothing: no storm of announcements.
pub proof fn lemma_second_connect_only_refreshes(
    st: Seq<EntryView>,
    server_id: Seq<u8>,
    channel_name: Seq<u8>,
    user_name: Seq<u8>,
    src: Endpoint,
    nat_kind: NatKind,
    now: u64,
    again: NatKind,
    later: u64,
)
    ensures
        ({
            let once = connected(st, server_id, channel_name, user_name, src, nat_kind, now);
            &&& connected(once, server_id, channel_name, user_name, src, again, later)
                == heartbeat_received(once, server_id, channel_name, user_name, src, later)
            &&& connect_notices(once, server_id, channel_name, user_name, src, again, later)
                == Seq::<DatagramView>::empty()
        }),
{
    let c = channel_at(st, server_id, channel_name);
    let joined = c.joined(user_name, src, nat_kind, now);
    lemma_channel_at_with_channel(st, server_id, channel_name, joined);
    lemma_connect_is_idempotent(c, user_name, src, nat_kind, now, again, later);
}

/// `CONNECT` of a user that is a member from that endpoint only refreshes its
/// session and sends nothing.
pub proof fn lemma_connect_of_member_only_refreshes(
    st: Seq<EntryView>,
    server_id: Seq<u8>,
    channel_name: Seq<u8>,
    user_name: Seq<u8>,
    src: Endpoint,
    nat_kind: NatKind,
    now: u64,
)
    requires
        channel_at(st, server_id, channel_name).has_session(user_name, src),
    ensures
        connected(st, server_id, channel_name, user_name, src, nat_kind, now)
            == heartbeat_received(st, server_id, channel_name, user_name, src, now),
        connect_notices(st, server_id, channel_name, user_name, src, nat_kind, now) == Seq::<
            DatagramView,
        >::empty(),
{
}

/// The channels of a registry that have users, in order.
pub open spec fn channels_with_users(st: Seq<EntryView>) -> Seq<EntryView> {
    st.filter(|e: EntryView| e.channel.users.len() > 0)
}

/// The cleanup goes by the keys that it is given, in order.
proof fn lemma_cleaned_up_by_prefix(
    st: Seq<EntryView>,
    a: Seq<(Seq<u8>, Seq<u8>)>,
    b: Seq<(Seq<u8>, Seq<u8>)>,
    m: int,
)
    requires
        0 <= m <= a.len(),
        m <= b.len(),
        forall|j: int| 0 <= j < m ==> a[j] == b[j],
    ensures
        cleaned_up(st, a, m) == cleaned_up(st, b, m),
    decreases m,
{
    if m > 0 {
        lemma_cleaned_up_by_prefix(st, a, b, m - 1);
    }
}

proof fn lemma_cleanup_after_sweep_upto(st: Seq<EntryView>, now: u64, k: int)
    requires
        registry_wf(st),
        0 <= k <= st.len(),
    ensures
        cleaned_up(
            swept_registry(st, now),
            emptied_channels(st, now, k),
            emptied_channels(st, now, k).len() as int,
        ) == channels_with_users(swept_registry(st, now).take(k)) + swept_registry(st, now).skip(
            k,
        ),
    decreases k,
{
    let sw = swept_registry(st, now);
    let with_users = |e: EntryView| e.channel.users.len() > 0;
    if k > 0 {
        lemma_cleanup_after_sweep_upto(st, now, k - 1);
        lemma_filter_step(sw, with_users, k - 1);
        let listed = emptied_channels(st, now, k - 1);
        let kept = channels_with_users(sw.take(k - 1));
        let prev = kept + sw.skip(k - 1);
        lemma_cleaned_up_by_prefix(
            sw,
            listed,
            emptied_channels(st, now, k),
            listed.len() as int,
        );
        if sw[k - 1].channel.users.len() == 0 {
            let m = kept.len() as int;
            lemma_filter_keeps_order(sw.take(k - 1), with_users);
            assert forall|j: int| 0 <= j < m implies !((#[trigger] prev[j]).server_id == sw[k
                - 1].server_id && prev[j].channel_name == sw[k - 1].channel_name) by {
                assert(prev[j] == sw[filter_source(sw.take(k - 1), with_users, j)]);
            }
            lemma_entry_index_is(prev, sw[k - 1].server_id, sw[k - 1].channel_name, m);
        }
    }
}

/// A sweep and the cleanup of the channels that it lists leave exactly the
/// channels that have users, in order: no channel without users remains.
pub proof fn lemma_cleanup_after_sweep(st: Seq<EntryView>, now: u64)
    requires
        registry_wf(st),
    ensures
        ({
            let listed = emptied_channels(st, now, st.len() as int);
            let cleaned = cleaned_up(swept_registry(st, now), listed, listed.len() as int);
            &&& cleaned == channels_with_users(swept_registry(st, now))
            &&& registry_wf(cleaned)
            &&& no_empty_channel(cleaned)
        }),
{
    let sw = swept_registry(st, now);
    let listed = emptied_channels(st, now, st.len() as int);
    lemma_cleanup_after_sweep_upto(st, now, st.len() as int);
    assert(sw.take(st.len() as int) =~= sw);
    lemma_sweep_keeps_registry(st, now);
    lemma_cleanup_keeps_registry(sw, listed, listed.len() as int);
}

/// `DISCONNECT` of a user that is no member of the channel from that endpoint
/// sends nothing and removes no member: a registry in which every channel has
/// users stays as it is.
pub proof fn lemma_disconnect_without_session(
    st: Seq<EntryView>,
    server_id: Seq<u8>,
    channel_name: Seq<u8>,
    user_name: Seq<u8>,
    src: Endpoint,
)
    requires
        !channel_at(st, server_id, channel_name).has_session(user_name, src),
    ensures
        disconnect_notices(st, server_id, channel_name, user_name, src) == Seq::<
            DatagramView,
        >::empty(),
        channel_at(st, server_id, channel_name).departed(user_name, src) == channel_at(
            st,
            server_id,
            channel_name,
        ),
        no_empty_channel(st) ==> disconnected(st, server_id, channel_name, user_name, src) == st,
{
    lemma_entry_index(st, server_id, channel_name, 0);
    let i = entry_index(st, server_id, channel_name, 0);
    if no_empty_channel(st) {
        if i < st.len() {
            assert(st[i].channel.users.len() > 0);
        }
        assert(disconnected(st, server_id, channel_name, user_name, src) =~= st);
    }
}

} // verus!
