//! Relay election and the notices it sends.
//!
//! Election is a function of a channel's users in the order in which they
//! joined: it names the relay and lists, in order, the datagrams that tell
//! every member its mode.

use vstd::prelude::*;
use crate::endpoint::Endpoint;
use crate::messages::{
    append_datagrams, datagrams, mode_direct, mode_direct_line, mode_relay, mode_relay_line,
    mode_server_relay, mode_server_relay_line, no_datagrams, push_datagram, user_left,
    user_left_line, Datagram, DatagramView,
};
use crate::signaling::structures::{user_views, Channel, NatKind, User, UserView};
use crate::wire::to_bytes;

verus! {

/// Whether a user sits behind a symmetric NAT.
pub open spec fn is_symmetric(u: UserView) -> bool {
    u.nat_kind == NatKind::Symmetric
}

/// A user can relay, and can be reached directly, if its NAT is not symmetric
/// and the server does not carry its traffic.
pub open spec fn is_eligible(u: UserView) -> bool {
    !is_symmetric(u) && !u.needs_server_relay
}

/// The position of the first eligible user at or after `from`, or the number
/// of users if there is none.
pub open spec fn first_eligible(users: Seq<UserView>, from: int) -> int
    decreases users.len() - from,
{
    if from < 0 || from >= users.len() {
        users.len() as int
    } else if is_eligible(users[from]) {
        from
    } else {
        first_eligible(users, from + 1)
    }
}

/// `first_eligible` finds an eligible user and passes over none.
pub proof fn lemma_first_eligible(users: Seq<UserView>, from: int)
    requires
        0 <= from <= users.len(),
    ensures
        from <= first_eligible(users, from) <= users.len(),
        first_eligible(users, from) < users.len() ==> is_eligible(
            users[first_eligible(users, from)],
        ),
        forall|k: int|
            from <= k < first_eligible(users, from) ==> !is_eligible(#[trigger] users[k]),
    decreases users.len() - from,
{
    if from < users.len() && !is_eligible(users[from]) {
        lemma_first_eligible(users, from + 1);
    }
}

/// `payload` addressed to each of the first `k` users.
pub open spec fn broadcast(users: Seq<UserView>, k: int, payload: Seq<u8>) -> Seq<DatagramView>
    decreases k,
{
    if k <= 0 {
        Seq::empty()
    } else {
        broadcast(users, k - 1, payload).push(DatagramView { to: users[k - 1].addr, payload })
    }
}

/// What the relay at `r` is told of the first `k` users: `MODE DIRECT` for
/// each eligible one other than itself.
pub open spec fn relay_about_peers(users: Seq<UserView>, r: int, k: int) -> Seq<DatagramView>
    decreases k,
{
    if k <= 0 {
        Seq::empty()
    } else {
        let before = relay_about_peers(users, r, k - 1);
        let p = users[k - 1];
        if k - 1 != r && is_eligible(p) {
            before.push(DatagramView { to: users[r].addr, payload: mode_direct(p.name, p.addr) })
        } else {
            before
        }
    }
}

/// What the first `k` users are told of the relay at `r`: `MODE DIRECT` with
/// the relay's name and endpoint, to each eligible one other than the relay.
pub open spec fn peers_about_relay(users: Seq<UserView>, r: int, k: int) -> Seq<DatagramView>
    decreases k,
{
    if k <= 0 {
        Seq::empty()
    } else {
        let before = peers_about_relay(users, r, k - 1);
        let p = users[k - 1];
        if k - 1 != r && is_eligible(p) {
            before.push(
                DatagramView { to: p.addr, payload: mode_direct(users[r].name, users[r].addr) },
            )
        } else {
            before
        }
    }
}

/// `MODE SERVER_RELAY` for each of the first `k` users that is not eligible
/// and not the relay at `r`: to that user, then to the relay.
pub open spec fn server_relayed_peers(users: Seq<UserView>, r: int, k: int) -> Seq<DatagramView>
    decreases k,
{
    if k <= 0 {
        Seq::empty()
    } else {
        let before = server_relayed_peers(users, r, k - 1);
        let p = users[k - 1];
        if k - 1 != r && !is_eligible(p) {
            before.push(DatagramView { to: p.addr, payload: mode_server_relay(p.name) }).push(
                DatagramView { to: users[r].addr, payload: mode_server_relay(p.name) },
            )
        } else {
            before
        }
    }
}

/// `MODE SERVER_RELAY` of each of the first `k` users, to every user.
pub open spec fn all_server_relayed(users: Seq<UserView>, k: int) -> Seq<DatagramView>
    decreases k,
{
    if k <= 0 {
        Seq::empty()
    } else {
        all_server_relayed(users, k - 1) + broadcast(
            users,
            users.len() as int,
            mode_server_relay(users[k - 1].name),
        )
    }
}

/// The relay of a channel with one user: that user unless its NAT is symmetric.
pub open spec fn lone_user_relay(u: UserView) -> Option<Seq<u8>> {
    if is_symmetric(u) {
        None
    } else {
        Some(u.name)
    }
}

/// What a channel's only user is told.
pub open spec fn lone_user_notices(u: UserView) -> Seq<DatagramView> {
    if is_symmetric(u) {
        seq![DatagramView { to: u.addr, payload: mode_server_relay(u.name) }]
    } else {
        seq![DatagramView { to: u.addr, payload: mode_relay() }]
    }
}

/// The relay among several users: the first eligible one.
pub open spec fn multi_user_relay(users: Seq<UserView>) -> Option<Seq<u8>> {
    let r = first_eligible(users, 0);
    if r < users.len() {
        Some(users[r].name)
    } else {
        None
    }
}

/// What several users are told. With a relay: the relay learns of each direct
/// peer, each direct peer learns of the relay, the relay is told that it
/// relays, and each remaining peer is announced as server-relayed to itself
/// and to the relay. Without one: every user is announced as server-relayed to
/// every user.
pub open spec fn multi_user_notices(users: Seq<UserView>) -> Seq<DatagramView> {
    let r = first_eligible(users, 0);
    let n = users.len() as int;
    if r < n {
        relay_about_peers(users, r, n) + peers_about_relay(users, r, n) + seq![
            DatagramView { to: users[r].addr, payload: mode_relay() },
        ] + server_relayed_peers(users, r, n)
    } else {
        all_server_relayed(users, n)
    }
}

/// The relay that election gives a channel with these users.
pub open spec fn elected_relay(users: Seq<UserView>) -> Option<Seq<u8>> {
    if users.len() == 0 {
        None
    } else if users.len() == 1 {
        lone_user_relay(users[0])
    } else {
        multi_user_relay(users)
    }
}

/// The notices that election sends to a channel with these users.
pub open spec fn election_notices(users: Seq<UserView>) -> Seq<DatagramView> {
    if users.len() == 0 {
        Seq::empty()
    } else if users.len() == 1 {
        lone_user_notices(users[0])
    } else {
        multi_user_notices(users)
    }
}

impl User {
    /// Whether this user sits behind a symmetric NAT.
    pub fn is_symmetric(&self) -> (r: bool)
        ensures
            r == is_symmetric(self@),
    {
        match self.nat_kind {
            NatKind::Symmetric => true,
            _ => false,
        }
    }

    /// Whether this user can relay and can be reached directly.
    pub fn is_eligible(&self) -> (r: bool)
        ensures
            r == is_eligible(self@),
    {
        !self.is_symmetric() && !self.needs_server_relay
    }
}

/// The position of the first user that can relay, if there is one.
pub fn pick_eligible_relay(channel: &Channel) -> (r: Option<usize>)
    ensures
        match r {
            Some(i) => i < channel.users.len() && i == first_eligible(channel@.users, 0),
            None => first_eligible(channel@.users, 0) == channel.users.len(),
        },
{
    let mut i: usize = 0;
    while i < channel.users.len()
        invariant
            i <= channel.users.len(),
            first_eligible(channel@.users, 0) == first_eligible(channel@.users, i as int),
        decreases channel.users.len() - i,
    {
        if channel.users[i].is_eligible() {
            return Some(i);
        }
        i += 1;
    }
    None
}

/// `payload` addressed to every user.
pub fn broadcast_to(users: &Vec<User>, payload: &[u8]) -> (out: Vec<Datagram>)
    ensures
        datagrams(out@) == broadcast(user_views(users@), users.len() as int, payload@),
{
    let mut out = no_datagrams();
    let mut i: usize = 0;
    while i < users.len()
        invariant
            i <= users.len(),
            datagrams(out@) == broadcast(user_views(users@), i as int, payload@),
        decreases users.len() - i,
    {
        push_datagram(&mut out, Datagram { to: users[i].addr, payload: to_bytes(payload) });
        i += 1;
    }
    out
}

/// Tells the relay of each peer that it reaches directly.
pub fn notify_relay_about_peers(users: &Vec<User>, relay: usize) -> (out: Vec<Datagram>)
    requires
        relay < users.len(),
    ensures
        datagrams(out@) == relay_about_peers(
            user_views(users@),
            relay as int,
            users.len() as int,
        ),
{
    let mut out = no_datagrams();
    let mut i: usize = 0;
    while i < users.len()
        invariant
            i <= users.len(),
            relay < users.len(),
            datagrams(out@) == relay_about_peers(user_views(users@), relay as int, i as int),
        decreases users.len() - i,
    {
        if i != relay && users[i].is_eligible() {
            let line = mode_direct_line(users[i].name.as_slice(), users[i].addr);
            push_datagram(&mut out, Datagram { to: users[relay].addr, payload: line });
        }
        i += 1;
    }
    out
}

/// Tells each peer that is reached directly of the relay.
pub fn notify_peers_about_relay(users: &Vec<User>, relay: usize) -> (out: Vec<Datagram>)
    requires
        relay < users.len(),
    ensures
        datagrams(out@) == peers_about_relay(
            user_views(users@),
            relay as int,
            users.len() as int,
        ),
{
    let mut out = no_datagrams();
    let mut i: usize = 0;
    while i < users.len()
        invariant
            i <= users.len(),
            relay < users.len(),
            datagrams(out@) == peers_about_relay(user_views(users@), relay as int, i as int),
        decreases users.len() - i,
    {
        if i != relay && users[i].is_eligible() {
            let line = mode_direct_line(users[relay].name.as_slice(), users[relay].addr);
            push_datagram(&mut out, Datagram { to: users[i].addr, payload: line });
        }
        i += 1;
    }
    out
}

/// Tells the relay that it relays.
pub fn send_relay_mode_to_relay(relay_user: &User) -> (d: Datagram)
    ensures
        d@ == (DatagramView { to: relay_user.addr, payload: mode_relay() }),
{
    Datagram { to: relay_user.addr, payload: mode_relay_line() }
}

/// Announces each peer whose traffic the server carries, to that peer and to
/// the relay.
pub fn notify_server_relayed_peers(users: &Vec<User>, relay: usize) -> (out: Vec<Datagram>)
    requires
        relay < users.len(),
    ensures
        datagrams(out@) == server_relayed_peers(
            user_views(users@),
            relay as int,
            users.len() as int,
        ),
{
    let mut out = no_datagrams();
    let mut i: usize = 0;
    while i < users.len()
        invariant
            i <= users.len(),
            relay < users.len(),
            datagrams(out@) == server_relayed_peers(user_views(users@), relay as int, i as int),
        decreases users.len() - i,
    {
        if i != relay && !users[i].is_eligible() {
            let line = mode_server_relay_line(users[i].name.as_slice());
            push_datagram(&mut out, Datagram { to: users[i].addr, payload: line });
            let copy = mode_server_relay_line(users[i].name.as_slice());
            push_datagram(&mut out, Datagram { to: users[relay].addr, payload: copy });
        }
        i += 1;
    }
    out
}

/// Announces every user as server-relayed to every user.
pub fn notify_all_server_relayed(users: &Vec<User>) -> (out: Vec<Datagram>)
    ensures
        datagrams(out@) == all_server_relayed(user_views(users@), users.len() as int),
{
    let mut out = no_datagrams();
    let mut i: usize = 0;
    while i < users.len()
        invariant
            i <= users.len(),
            datagrams(out@) == all_server_relayed(user_views(users@), i as int),
        decreases users.len() - i,
    {
        let line = mode_server_relay_line(users[i].name.as_slice());
        let more = broadcast_to(users, line.as_slice());
        append_datagrams(&mut out, more);
        i += 1;
    }
    out
}

/// Names the user at `relay` the relay of the channel.
pub fn mark_relay_in_channel(channel: &mut Channel, relay: usize)
    requires
        relay < old(channel).users.len(),
    ensures
        final(channel)@.users == old(channel)@.users,
        final(channel)@.relay == Some(old(channel)@.users[relay as int].name),
{
    channel.relay = Some(to_bytes(channel.users[relay].name.as_slice()));
}

/// Tells a channel's only user that it relays.
pub fn notify_lone_user(lone_user_addr: Endpoint) -> (d: Datagram)
    ensures
        d@ == (DatagramView { to: lone_user_addr, payload: mode_relay() }),
{
    Datagram { to: lone_user_addr, payload: mode_relay_line() }
}

/// Settles the relay of a channel with one user and tells that user its mode.
/// A channel with another number of users is left as it is.
pub fn handle_lone_user_scenario(channel: &mut Channel) -> (out: Vec<Datagram>)
    ensures
        final(channel)@.users == old(channel)@.users,
        old(channel).users.len() == 1 ==> final(channel)@.relay == lone_user_relay(
            old(channel)@.users[0],
        ) && datagrams(out@) == lone_user_notices(old(channel)@.users[0]),
        old(channel).users.len() != 1 ==> final(channel)@.relay == old(channel)@.relay
            && datagrams(out@) == Seq::<DatagramView>::empty(),
{
    let mut out = no_datagrams();
    if channel.users.len() == 1 {
        if channel.users[0].is_symmetric() {
            let line = mode_server_relay_line(channel.users[0].name.as_slice());
            push_datagram(&mut out, Datagram { to: channel.users[0].addr, payload: line });
            channel.relay = None;
        } else {
            push_datagram(&mut out, notify_lone_user(channel.users[0].addr));
            mark_relay_in_channel(channel, 0);
        }
    }
    out
}

/// Elects the first eligible user as relay and tells every member its mode;
/// if none is eligible, leaves relaying to the server and says so to all.
pub fn handle_multiple_users_scenario(channel: &mut Channel) -> (out: Vec<Datagram>)
    ensures
        final(channel)@.users == old(channel)@.users,
        final(channel)@.relay == multi_user_relay(old(channel)@.users),
        datagrams(out@) == multi_user_notices(old(channel)@.users),
{
    match pick_eligible_relay(channel) {
        Some(r) => {
            mark_relay_in_channel(channel, r);
            let mut out = notify_relay_about_peers(&channel.users, r);
            let to_peers = notify_peers_about_relay(&channel.users, r);
            append_datagrams(&mut out, to_peers);
            let promoted = send_relay_mode_to_relay(&channel.users[r]);
            push_datagram(&mut out, promoted);
            let relayed = notify_server_relayed_peers(&channel.users, r);
            append_datagrams(&mut out, relayed);
            out
        },
        None => {
            channel.relay = None;
            notify_all_server_relayed(&channel.users)
        },
    }
}

/// Runs election on a channel: sets its relay and returns the notices.
pub fn elect(channel: &mut Channel) -> (out: Vec<Datagram>)
    ensures
        final(channel)@.users == old(channel)@.users,
        final(channel)@.relay == elected_relay(old(channel)@.users),
        datagrams(out@) == election_notices(old(channel)@.users),
{
    if channel.users.len() == 0 {
        channel.relay = None;
        no_datagrams()
    } else if channel.users.len() == 1 {
        handle_lone_user_scenario(channel)
    } else {
        handle_multiple_users_scenario(channel)
    }
}

/// `USER_LEFT` for `user_name`, addressed to every remaining user. Where the
/// endpoint of the user that left is not known, `0.0.0.0:0` stands for it.
pub fn notify_all_about_departure(
    remaining_users: &Vec<User>,
    user_name: &[u8],
    leaving_user_addr: Option<Endpoint>,
) -> (out: Vec<Datagram>)
    ensures
        datagrams(out@) == broadcast(
            user_views(remaining_users@),
            remaining_users.len() as int,
            user_left(user_name@, departure_addr(leaving_user_addr)),
        ),
{
    let addr = match leaving_user_addr {
        Some(a) => a,
        None => Endpoint::unspecified(),
    };
    let line = user_left_line(user_name, addr);
    broadcast_to(remaining_users, line.as_slice())
}

/// The endpoint that `USER_LEFT` carries.
pub open spec fn departure_addr(leaving_user_addr: Option<Endpoint>) -> Endpoint {
    match leaving_user_addr {
        Some(a) => a,
        None => Endpoint { ip: 0, port: 0 },
    }
}

} // verus!
