//! Membership changes of one channel.

use vstd::prelude::*;
use crate::endpoint::Endpoint;
use crate::messages::{
    append_datagrams, datagrams, mode_server_relay, mode_server_relay_line, no_datagrams,
    user_left, Datagram, DatagramView,
};
use crate::signaling::notifications::{
    broadcast, broadcast_to, elect, elected_relay, election_notices, notify_all_about_departure,
};
use crate::signaling::structures::{user_views, Channel, ChannelView, NatKind, User, UserView};
use crate::sequences::lemma_filter_step;
use crate::wire::{bytes_eq, to_bytes};

verus! {

/// The user that a `CONNECT` creates.
pub open spec fn new_user(name: Seq<u8>, addr: Endpoint, nat_kind: NatKind, now: u64) -> UserView {
    UserView {
        name,
        addr,
        last_pong: now,
        needs_server_relay: nat_kind == NatKind::Symmetric,
        nat_kind,
    }
}

/// The position of the first user at or after `from` with this name and
/// endpoint, or the number of users if there is none.
pub open spec fn session_index(
    users: Seq<UserView>,
    name: Seq<u8>,
    addr: Endpoint,
    from: int,
) -> int
    decreases users.len() - from,
{
    if from < 0 || from >= users.len() {
        users.len() as int
    } else if users[from].name == name && users[from].addr == addr {
        from
    } else {
        session_index(users, name, addr, from + 1)
    }
}

/// `session_index` finds a matching user and passes over none.
pub proof fn lemma_session_index(users: Seq<UserView>, name: Seq<u8>, addr: Endpoint, from: int)
    requires
        0 <= from <= users.len(),
    ensures
        from <= session_index(users, name, addr, from) <= users.len(),
        session_index(users, name, addr, from) < users.len() ==> {
            let u = users[session_index(users, name, addr, from)];
            u.name == name && u.addr == addr
        },
        forall|k: int|
            from <= k < session_index(users, name, addr, from) ==> !((#[trigger] users[k]).name
                == name && users[k].addr == addr),
    decreases users.len() - from,
{
    if from < users.len() && !(users[from].name == name && users[from].addr == addr) {
        lemma_session_index(users, name, addr, from + 1);
    }
}

/// The users without those named `name`; with `keep` given, a user at that
/// endpoint stays.
pub open spec fn sessions_removed(
    users: Seq<UserView>,
    name: Seq<u8>,
    keep: Option<Endpoint>,
) -> Seq<UserView> {
    users.filter(|u: UserView| !(u.name == name && keep != Some(u.addr)))
}

impl ChannelView {
    /// Whether a user with this name and endpoint is a member.
    pub open spec fn has_session(self, name: Seq<u8>, addr: Endpoint) -> bool {
        session_index(self.users, name, addr, 0) < self.users.len()
    }

    /// The channel after the server heard at `now` from the user with this
    /// name and endpoint.
    pub open spec fn refreshed(self, name: Seq<u8>, addr: Endpoint, now: u64) -> ChannelView {
        ChannelView {
            users: self.users.map_values(
                |u: UserView|
                    if u.name == name && u.addr == addr {
                        UserView { last_pong: now, ..u }
                    } else {
                        u
                    },
            ),
            ..self
        }
    }

    /// The channel after the server heard at `now` from `addr`.
    pub open spec fn ponged(self, addr: Endpoint, now: u64) -> ChannelView {
        ChannelView {
            users: self.users.map_values(
                |u: UserView|
                    if u.addr == addr {
                        UserView { last_pong: now, ..u }
                    } else {
                        u
                    },
            ),
            ..self
        }
    }

    /// The users after `name` joined from `addr` where it had no session from
    /// there: its sessions from elsewhere are gone and it stands last.
    pub open spec fn users_after_join(
        self,
        name: Seq<u8>,
        addr: Endpoint,
        nat_kind: NatKind,
        now: u64,
    ) -> Seq<UserView> {
        sessions_removed(self.users, name, Some(addr)).push(new_user(name, addr, nat_kind, now))
    }

    /// The channel after `CONNECT` of `name` from `addr`.
    pub open spec fn joined(
        self,
        name: Seq<u8>,
        addr: Endpoint,
        nat_kind: NatKind,
        now: u64,
    ) -> ChannelView {
        if self.has_session(name, addr) {
            self.refreshed(name, addr, now)
        } else {
            let users = self.users_after_join(name, addr, nat_kind, now);
            ChannelView { users, relay: elected_relay(users) }
        }
    }

    /// What `CONNECT` of `name` from `addr` sends: nothing for a session that
    /// exists, else the notices of the election among the new users.
    pub open spec fn join_notices(
        self,
        name: Seq<u8>,
        addr: Endpoint,
        nat_kind: NatKind,
        now: u64,
    ) -> Seq<DatagramView> {
        if self.has_session(name, addr) {
            Seq::empty()
        } else {
            election_notices(self.users_after_join(name, addr, nat_kind, now))
        }
    }

    /// The channel after `DISCONNECT` of `name` from `addr`.
    pub open spec fn departed(self, name: Seq<u8>, addr: Endpoint) -> ChannelView {
        let i = session_index(self.users, name, addr, 0);
        if i < self.users.len() {
            let users = self.users.remove(i);
            ChannelView { users, relay: elected_relay(users) }
        } else {
            self
        }
    }

    /// Whether the members hear of a new election after `name` left `remaining`
    /// behind: when it was the relay, and when one member is left.
    pub open spec fn reelects(self, name: Seq<u8>, remaining: Seq<UserView>) -> bool {
        self.relay == Some(name) || remaining.len() == 1
    }

    /// What `DISCONNECT` of `name` from `addr` sends: the notices of the new
    /// election where one is due, then `USER_LEFT` with the endpoint of the
    /// member that left, to every remaining member. Without a matching session
    /// nobody left, and nothing is sent.
    pub open spec fn departure_notices(self, name: Seq<u8>, addr: Endpoint) -> Seq<DatagramView> {
        let i = session_index(self.users, name, addr, 0);
        if i < self.users.len() {
            let users = self.users.remove(i);
            (if self.reelects(name, users) {
                election_notices(users)
            } else {
                Seq::empty()
            }) + broadcast(users, users.len() as int, user_left(name, addr))
        } else {
            Seq::empty()
        }
    }

    /// The channel after `PEER_TIMEOUT` of `name`.
    pub open spec fn timed_out(self, name: Seq<u8>) -> ChannelView {
        let users = sessions_removed(self.users, name, None);
        ChannelView { users, relay: elected_relay(users) }
    }

    /// What `PEER_TIMEOUT` of `name` sends: the notices of the new election
    /// where a member was removed and one is due, then `USER_LEFT` with
    /// `0.0.0.0:0` to every remaining member.
    pub open spec fn timeout_notices(self, name: Seq<u8>) -> Seq<DatagramView> {
        let users = sessions_removed(self.users, name, None);
        (if users.len() != self.users.len() && self.reelects(name, users) {
            election_notices(users)
        } else {
            Seq::empty()
        }) + broadcast(users, users.len() as int, user_left(name, Endpoint { ip: 0, port: 0 }))
    }

    /// The users after the server took over the traffic of `name`.
    pub open spec fn users_after_relay_request(self, name: Seq<u8>) -> Seq<UserView> {
        self.users.map_values(
            |u: UserView|
                if u.name == name {
                    UserView { needs_server_relay: true, ..u }
                } else {
                    u
                },
        )
    }

    /// The channel after `REQUEST_RELAY` for `name`.
    pub open spec fn relay_requested(self, name: Seq<u8>) -> ChannelView {
        let users = self.users_after_relay_request(name);
        ChannelView { users, relay: elected_relay(users) }
    }

    /// What `REQUEST_RELAY` for `name` sends: `MODE SERVER_RELAY <name>` to
    /// every member, then the notices of the new election if the relay changed.
    pub open spec fn relay_request_notices(self, name: Seq<u8>) -> Seq<DatagramView> {
        let users = self.users_after_relay_request(name);
        broadcast(users, users.len() as int, mode_server_relay(name)) + (if elected_relay(users)
            != self.relay {
            election_notices(users)
        } else {
            Seq::empty()
        })
    }
}

/// Whether `relay` names `name`.
pub fn relay_is(relay: &Option<Vec<u8>>, name: &[u8]) -> (r: bool)
    ensures
        r == match *relay {
            Some(n) => n@ == name@,
            None => false,
        },
{
    match relay {
        Some(n) => bytes_eq(n.as_slice(), name),
        None => false,
    }
}

/// Whether two relays are the same.
pub fn same_relay(a: &Option<Vec<u8>>, b: &Option<Vec<u8>>) -> (r: bool)
    ensures
        r == match (*a, *b) {
            (Some(x), Some(y)) => x@ == y@,
            (None, None) => true,
            _ => false,
        },
{
    match a {
        Some(x) => relay_is(b, x.as_slice()),
        None => b.is_none(),
    }
}

/// Refreshes the session of `user_name` from `src_addr`, if there is one, and
/// says whether there is.
pub fn update_existing_user(
    channel: &mut Channel,
    user_name: &[u8],
    src_addr: Endpoint,
    now: u64,
) -> (found: bool)
    ensures
        found == old(channel)@.has_session(user_name@, src_addr),
        final(channel)@ == old(channel)@.refreshed(user_name@, src_addr, now),
{
    let ghost orig = channel@.users;
    let ghost target = old(channel)@.refreshed(user_name@, src_addr, now).users;
    let mut found = false;
    let mut i: usize = 0;
    proof {
        lemma_session_index(orig, user_name@, src_addr, 0);
    }
    while i < channel.users.len()
        invariant
            i <= channel.users.len(),
            channel.users.len() == orig.len(),
            orig == old(channel)@.users,
            target == old(channel)@.refreshed(user_name@, src_addr, now).users,
            channel@.relay == old(channel)@.relay,
            forall|j: int| 0 <= j < i ==> channel@.users[j] == target[j],
            forall|j: int| i <= j < orig.len() ==> channel@.users[j] == orig[j],
            found == (session_index(orig, user_name@, src_addr, 0) < i),
            !found ==> session_index(orig, user_name@, src_addr, 0) == session_index(
                orig,
                user_name@,
                src_addr,
                i as int,
            ),
        decreases channel.users.len() - i,
    {
        proof {
            lemma_session_index(orig, user_name@, src_addr, 0);
        }
        if bytes_eq(channel.users[i].name.as_slice(), user_name) && channel.users[i].addr
            == src_addr {
            channel.users[i].last_pong = now;
            found = true;
        }
        i += 1;
    }
    proof {
        assert(channel@.users =~= target);
    }
    found
}

/// Removes the users named `name`; with `keep` given, a user at that endpoint
/// stays.
pub fn remove_sessions(users: &mut Vec<User>, name: &[u8], keep: Option<Endpoint>)
    ensures
        user_views(final(users)@) == sessions_removed(user_views(old(users)@), name@, keep),
{
    let ghost orig = user_views(users@);
    let ghost pred = |u: UserView| !(u.name == name@ && keep != Some(u.addr));
    let ghost mut k: int = 0;
    let mut i: usize = 0;
    while i < users.len()
        invariant
            i <= users.len(),
            0 <= k <= orig.len(),
            users.len() - i == orig.len() - k,
            orig == user_views(old(users)@),
            pred == |u: UserView| !(u.name == name@ && keep != Some(u.addr)),
            user_views(users@).take(i as int) == orig.take(k).filter(pred),
            user_views(users@).skip(i as int) == orig.skip(k),
        decreases users.len() - i,
    {
        let ghost cur = user_views(users@);
        proof {
            lemma_filter_step(orig, pred, k);
            assert(cur[i as int] == cur.skip(i as int)[0]);
        }
        let stale = bytes_eq(users[i].name.as_slice(), name) && match keep {
            Some(a) => users[i].addr != a,
            None => true,
        };
        if stale {
            users.remove(i);
            proof {
                assert(user_views(users@).skip(i as int) =~= cur.skip(i as int).skip(1));
                k = k + 1;
            }
        } else {
            proof {
                assert(cur.skip(i + 1) =~= cur.skip(i as int).skip(1));
                k = k + 1;
            }
            i += 1;
        }
    }
    proof {
        assert(orig.take(k) =~= orig);
    }
}

/// Removes the sessions of `user_name` from endpoints other than `src_addr`.
pub fn remove_old_user_sessions(channel: &mut Channel, user_name: &[u8], src_addr: Endpoint)
    ensures
        final(channel)@.relay == old(channel)@.relay,
        final(channel)@.users == sessions_removed(old(channel)@.users, user_name@, Some(src_addr)),
{
    remove_sessions(&mut channel.users, user_name, Some(src_addr));
}

/// The user that joins as `user_name` from `src_addr` at `now`.
pub fn create_new_user(user_name: &[u8], src_addr: Endpoint, nat_kind: NatKind, now: u64) -> (u:
    User)
    ensures
        u@ == new_user(user_name@, src_addr, nat_kind, now),
{
    let symmetric = match nat_kind {
        NatKind::Symmetric => true,
        _ => false,
    };
    User {
        name: to_bytes(user_name),
        addr: src_addr,
        last_pong: now,
        needs_server_relay: symmetric,
        nat_kind,
    }
}

/// Lets `user_name` join from `src_addr`, runs election and returns its notices.
pub fn add_new_user(
    channel: &mut Channel,
    user_name: &[u8],
    src_addr: Endpoint,
    nat_kind: NatKind,
    now: u64,
) -> (out: Vec<Datagram>)
    ensures
        final(channel)@.users == old(channel)@.users_after_join(
            user_name@,
            src_addr,
            nat_kind,
            now,
        ),
        final(channel)@.relay == elected_relay(final(channel)@.users),
        datagrams(out@) == election_notices(final(channel)@.users),
{
    remove_old_user_sessions(channel, user_name, src_addr);
    let new_user = create_new_user(user_name, src_addr, nat_kind, now);
    channel.users.push(new_user);
    elect(channel)
}

/// The position of the first session of `user_name` from `src_addr`.
pub fn find_session(channel: &Channel, user_name: &[u8], src_addr: Endpoint) -> (r: Option<usize>)
    ensures
        match r {
            Some(i) => i < channel.users.len() && i == session_index(
                channel@.users,
                user_name@,
                src_addr,
                0,
            ),
            None => !channel@.has_session(user_name@, src_addr),
        },
{
    let mut i: usize = 0;
    while i < channel.users.len()
        invariant
            i <= channel.users.len(),
            session_index(channel@.users, user_name@, src_addr, 0) == session_index(
                channel@.users,
                user_name@,
                src_addr,
                i as int,
            ),
        decreases channel.users.len() - i,
    {
        if bytes_eq(channel.users[i].name.as_slice(), user_name) && channel.users[i].addr
            == src_addr {
            return Some(i);
        }
        i += 1;
    }
    None
}

/// Removes the session of `user_name` from `src_addr`, if there is one, and
/// says whether that user was the relay and from where it had joined.
pub fn find_and_remove_user(channel: &mut Channel, user_name: &[u8], src_addr: Endpoint) -> (r:
    Option<(bool, Endpoint)>)
    ensures
        final(channel)@.relay == old(channel)@.relay,
        match r {
            Some((was_relay, addr)) => {
                &&& old(channel)@.has_session(user_name@, src_addr)
                &&& final(channel)@.users == old(channel)@.users.remove(
                    session_index(old(channel)@.users, user_name@, src_addr, 0),
                )
                &&& was_relay == (old(channel)@.relay == Some(user_name@))
                &&& addr == src_addr
            },
            None => !old(channel)@.has_session(user_name@, src_addr) && final(channel)@ == old(
                channel,
            )@,
        },
{
    match find_session(channel, user_name, src_addr) {
        Some(pos) => {
            let was_relay = relay_is(&channel.relay, user_name);
            let leaving_user_addr = channel.users[pos].addr;
            channel.users.remove(pos);
            proof {
                lemma_session_index(old(channel)@.users, user_name@, src_addr, 0);
            }
            Some((was_relay, leaving_user_addr))
        },
        None => None,
    }
}

/// Settles the relay after a member left. Returns the notices of the election
/// if the member that left was the relay or one member is left, else nothing.
pub fn handle_relay_transition(channel: &mut Channel, was_relay: bool) -> (out: Vec<Datagram>)
    ensures
        final(channel)@.users == old(channel)@.users,
        final(channel)@.relay == elected_relay(old(channel)@.users),
        datagrams(out@) == if was_relay || old(channel)@.users.len() == 1 {
            election_notices(old(channel)@.users)
        } else {
            Seq::empty()
        },
{
    let notices = elect(channel);
    if was_relay || channel.users.len() == 1 {
        notices
    } else {
        no_datagrams()
    }
}

/// What goes out after `DISCONNECT`. `leaving_user_addr` is the endpoint of
/// the member that was removed, `None` if there was no matching session.
/// Where a member left: the notices of the new election if one is due, then
/// `USER_LEFT` to every remaining member. Where none left, the channel stays
/// as it is and nothing is sent.
pub fn handle_disconnect_notifications(
    channel: &mut Channel,
    was_relay: bool,
    leaving_user_addr: Option<Endpoint>,
    user_name: &[u8],
) -> (out: Vec<Datagram>)
    ensures
        final(channel)@.users == old(channel)@.users,
        final(channel)@.relay == match leaving_user_addr {
            Some(_) => elected_relay(old(channel)@.users),
            None => old(channel)@.relay,
        },
        datagrams(out@) == match leaving_user_addr {
            Some(addr) => (if was_relay || old(channel)@.users.len() == 1 {
                election_notices(old(channel)@.users)
            } else {
                Seq::empty()
            }) + broadcast(
                old(channel)@.users,
                old(channel)@.users.len() as int,
                user_left(user_name@, addr),
            ),
            None => Seq::empty(),
        },
{
    match leaving_user_addr {
        Some(addr) => {
            let mut out = handle_relay_transition(channel, was_relay);
            let left = notify_all_about_departure(&channel.users, user_name, Some(addr));
            append_datagrams(&mut out, left);
            out
        },
        None => no_datagrams(),
    }
}

/// Applies `DISCONNECT` of `user_name` from `src_addr` to a channel: removes
/// the member with that name and endpoint and tells the remaining members.
/// Without such a member nothing changes and nothing is sent.
pub fn handle_user_removal(channel: &mut Channel, user_name: &[u8], src_addr: Endpoint) -> (out:
    Vec<Datagram>)
    ensures
        final(channel)@ == old(channel)@.departed(user_name@, src_addr),
        datagrams(out@) == old(channel)@.departure_notices(user_name@, src_addr),
        !old(channel)@.has_session(user_name@, src_addr) ==> final(channel)@ == old(channel)@
            && datagrams(out@) == Seq::<DatagramView>::empty(),
{
    match find_and_remove_user(channel, user_name, src_addr) {
        Some((was_relay, addr)) => handle_disconnect_notifications(
            channel,
            was_relay,
            Some(addr),
            user_name,
        ),
        None => no_datagrams(),
    }
}

/// Applies `PEER_TIMEOUT` of `peer_user` to a channel.
pub fn remove_timed_out_peer(channel: &mut Channel, peer_user: &[u8]) -> (out: Vec<Datagram>)
    ensures
        final(channel)@ == old(channel)@.timed_out(peer_user@),
        datagrams(out@) == old(channel)@.timeout_notices(peer_user@),
{
    let was_relay = relay_is(&channel.relay, peer_user);
    let before = channel.users.len();
    remove_sessions(&mut channel.users, peer_user, None);
    let removed = channel.users.len() != before;
    let notices = elect(channel);
    let mut out: Vec<Datagram> = if removed && (was_relay || channel.users.len() == 1) {
        notices
    } else {
        no_datagrams()
    };
    let left = notify_all_about_departure(&channel.users, peer_user, None);
    append_datagrams(&mut out, left);
    out
}

/// Applies `REQUEST_RELAY` for `username` to a channel.
pub fn mark_server_relayed(channel: &mut Channel, username: &[u8]) -> (out: Vec<Datagram>)
    ensures
        final(channel)@ == old(channel)@.relay_requested(username@),
        datagrams(out@) == old(channel)@.relay_request_notices(username@),
{
    let ghost orig = channel@.users;
    let ghost target = old(channel)@.users_after_relay_request(username@);
    let mut i: usize = 0;
    while i < channel.users.len()
        invariant
            i <= channel.users.len(),
            channel.users.len() == orig.len(),
            orig == old(channel)@.users,
            target == old(channel)@.users_after_relay_request(username@),
            channel.relay == old(channel).relay,
            forall|j: int| 0 <= j < i ==> channel@.users[j] == target[j],
            forall|j: int| i <= j < orig.len() ==> channel@.users[j] == orig[j],
        decreases channel.users.len() - i,
    {
        if bytes_eq(channel.users[i].name.as_slice(), username) {
            channel.users[i].needs_server_relay = true;
        }
        i += 1;
    }
    assert(channel@.users =~= target);
    let line = mode_server_relay_line(username);
    let mut out = broadcast_to(&channel.users, line.as_slice());
    let previous = match &channel.relay {
        Some(r) => Some(to_bytes(r.as_slice())),
        None => None,
    };
    let notices = elect(channel);
    if !same_relay(&channel.relay, &previous) {
        append_datagrams(&mut out, notices);
    }
    out
}

/// Refreshes every user that joined from `src`.
pub fn refresh_endpoint(channel: &mut Channel, src: Endpoint, now: u64)
    ensures
        final(channel)@ == old(channel)@.ponged(src, now),
{
    let ghost orig = channel@.users;
    let ghost target = old(channel)@.ponged(src, now).users;
    let mut i: usize = 0;
    while i < channel.users.len()
        invariant
            i <= channel.users.len(),
            channel.users.len() == orig.len(),
            orig == old(channel)@.users,
            target == old(channel)@.ponged(src, now).users,
            channel@.relay == old(channel)@.relay,
            forall|j: int| 0 <= j < i ==> channel@.users[j] == target[j],
            forall|j: int| i <= j < orig.len() ==> channel@.users[j] == orig[j],
        decreases channel.users.len() - i,
    {
        if channel.users[i].addr == src {
            channel.users[i].last_pong = now;
        }
        i += 1;
    }
    assert(channel@.users =~= target);
}

/// Refreshing a session that does not exist changes nothing.
pub proof fn lemma_refreshed_without_session(
    c: ChannelView,
    name: Seq<u8>,
    addr: Endpoint,
    now: u64,
)
    requires
        !c.has_session(name, addr),
    ensures
        c.refreshed(name, addr, now) == c,
{
    lemma_session_index(c.users, name, addr, 0);
    assert(c.refreshed(name, addr, now).users =~= c.users);
}

/// A channel is not empty after a `CONNECT`.
pub proof fn lemma_joined_has_user(
    c: ChannelView,
    name: Seq<u8>,
    addr: Endpoint,
    nat_kind: NatKind,
    now: u64,
)
    ensures
        c.joined(name, addr, nat_kind, now).users.len() > 0,
{
    lemma_session_index(c.users, name, addr, 0);
}

/// A channel without users stays so under `PEER_TIMEOUT` and
/// `REQUEST_RELAY`, and nothing is sent.
pub proof fn lemma_empty_channel_is_inert(name: Seq<u8>)
    ensures
        ChannelView::empty().timed_out(name) == ChannelView::empty(),
        ChannelView::empty().timeout_notices(name) == Seq::<DatagramView>::empty(),
        ChannelView::empty().relay_requested(name) == ChannelView::empty(),
        ChannelView::empty().relay_request_notices(name) == Seq::<DatagramView>::empty(),
{
    reveal(Seq::filter);
    let c = ChannelView::empty();
    assert(sessions_removed(c.users, name, None) =~= c.users);
    assert(c.users_after_relay_request(name) =~= c.users);
    assert(c.timeout_notices(name) =~= Seq::<DatagramView>::empty());
    assert(c.relay_request_notices(name) =~= Seq::<DatagramView>::empty());
}

} // verus!
