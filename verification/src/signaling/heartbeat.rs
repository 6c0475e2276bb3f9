//! The liveness sweep: expires users that fell silent, tells the survivors,
//! keeps the mapping of a lone user alive and lists the channels that emptied.

use vstd::prelude::*;
use crate::endpoint::Endpoint;
use crate::messages::{
    append_datagrams, datagrams, user_left, user_left_line, Datagram, DatagramView,
};
use crate::signaling::data_relay::name_index;
use crate::signaling::invariants::{
    lemma_cleanup_keeps_registry, lemma_sweep_keeps_registry, no_empty_channel, registry_wf,
};
use crate::signaling::notifications::{
    broadcast, broadcast_to, elect, elected_relay, election_notices, is_symmetric,
};
use crate::signaling::structures::{
    entry_index, user_views, Channel, ChannelView, EntryView, ServerMap, User, UserView,
};
use crate::sequences::lemma_filter_step;
use crate::wire::{bytes_eq, to_bytes};

verus! {

/// The sweep runs every 20 seconds.
pub const SWEEP_INTERVAL_MS: u64 = 20_000;

/// A user from whom the server heard nothing for more than 40 seconds is
/// expired.
pub const USER_TIMEOUT_MS: u64 = 40_000;

/// Whether a user is expired at `now`.
pub open spec fn is_expired(u: UserView, now: u64) -> bool {
    now - u.last_pong > USER_TIMEOUT_MS
}

/// The users that are not expired at `now`, in order.
pub open spec fn survivors(users: Seq<UserView>, now: u64) -> Seq<UserView> {
    users.filter(|u: UserView| !is_expired(u, now))
}

/// The users that are expired at `now`, in order.
pub open spec fn expired_users(users: Seq<UserView>, now: u64) -> Seq<UserView> {
    users.filter(|u: UserView| is_expired(u, now))
}

/// `USER_LEFT` of each of the first `k` users of `gone`, to every user of
/// `remaining`.
pub open spec fn departures(gone: Seq<UserView>, remaining: Seq<UserView>, k: int) -> Seq<
    DatagramView,
>
    decreases k,
{
    if k <= 0 {
        Seq::empty()
    } else {
        departures(gone, remaining, k - 1) + broadcast(
            remaining,
            remaining.len() as int,
            user_left(gone[k - 1].name, gone[k - 1].addr),
        )
    }
}

impl ChannelView {
    /// The channel after the sweep at `now`: the expired users are gone and
    /// the relay is the one that election gives the survivors.
    pub open spec fn swept(self, now: u64) -> ChannelView {
        let users = survivors(self.users, now);
        ChannelView { users, relay: elected_relay(users) }
    }

    /// Whether the member that the channel names as its relay is expired.
    pub open spec fn relay_expired(self, now: u64) -> bool {
        match self.relay {
            Some(r) => {
                let i = name_index(self.users, r, 0);
                i < self.users.len() && is_expired(self.users[i], now)
            },
            None => false,
        }
    }

    /// Whether the sweep announces an election: when the relay expired, when
    /// expiry left one member, and on every sweep to a lone member whose NAT
    /// is symmetric.
    pub open spec fn sweep_announces(self, now: u64) -> bool {
        let left = survivors(self.users, now);
        self.relay_expired(now) || (left.len() == 1 && (left.len() != self.users.len()
            || is_symmetric(left[0])))
    }

    /// What the sweep sends to this channel: `USER_LEFT` of every expired user
    /// to every survivor, then the notices of the election if it is announced.
    pub open spec fn sweep_notices(self, now: u64) -> Seq<DatagramView> {
        let left = survivors(self.users, now);
        let gone = expired_users(self.users, now);
        departures(gone, left, gone.len() as int) + (if self.sweep_announces(now) {
            election_notices(left)
        } else {
            Seq::empty()
        })
    }

    /// Whom the sweep pings in this channel: a lone survivor whose NAT is not
    /// symmetric.
    pub open spec fn sweep_ping(self, now: u64) -> Option<Endpoint> {
        let left = survivors(self.users, now);
        if left.len() == 1 && !is_symmetric(left[0]) {
            Some(left[0].addr)
        } else {
            None
        }
    }
}

impl User {
    /// Whether the server heard nothing from this user for more than 40
    /// seconds before `now`.
    pub fn is_expired(&self, now: u64) -> (r: bool)
        ensures
            r == is_expired(self@, now),
    {
        now > self.last_pong && now - self.last_pong > USER_TIMEOUT_MS
    }
}

/// Whether the member that the channel names as its relay is expired.
pub fn relay_has_expired(channel: &Channel, now: u64) -> (r: bool)
    ensures
        r == channel@.relay_expired(now),
{
    match &channel.relay {
        Some(name) => {
            let mut i: usize = 0;
            while i < channel.users.len()
                invariant
                    i <= channel.users.len(),
                    channel.relay == Some(*name),
                    name_index(channel@.users, name@, 0) == name_index(
                        channel@.users,
                        name@,
                        i as int,
                    ),
                decreases channel.users.len() - i,
            {
                if bytes_eq(channel.users[i].name.as_slice(), name.as_slice()) {
                    return channel.users[i].is_expired(now);
                }
                i += 1;
            }
            false
        },
        None => false,
    }
}

/// Takes the users that are expired at `now` out of `users`.
pub fn remove_expired(users: &mut Vec<User>, now: u64) -> (gone: Vec<User>)
    ensures
        user_views(final(users)@) == survivors(user_views(old(users)@), now),
        user_views(gone@) == expired_users(user_views(old(users)@), now),
{
    let ghost orig = user_views(users@);
    let ghost alive = |u: UserView| !is_expired(u, now);
    let ghost dead = |u: UserView| is_expired(u, now);
    let ghost mut k: int = 0;
    let mut gone: Vec<User> = Vec::new();
    let mut i: usize = 0;
    while i < users.len()
        invariant
            i <= users.len(),
            0 <= k <= orig.len(),
            users.len() - i == orig.len() - k,
            orig == user_views(old(users)@),
            alive == |u: UserView| !is_expired(u, now),
            dead == |u: UserView| is_expired(u, now),
            user_views(users@).take(i as int) == orig.take(k).filter(alive),
            user_views(gone@) == orig.take(k).filter(dead),
            user_views(users@).skip(i as int) == orig.skip(k),
        decreases users.len() - i,
    {
        let ghost cur = user_views(users@);
        proof {
            lemma_filter_step(orig, alive, k);
            lemma_filter_step(orig, dead, k);
            assert(cur[i as int] == cur.skip(i as int)[0]);
        }
        if users[i].is_expired(now) {
            let u = users.remove(i);
            gone.push(u);
            proof {
                assert(user_views(users@).skip(i as int) =~= cur.skip(i as int).skip(1));
                k = k + 1;
            }
        } else {
            proof {
                assert(cur.skip(i + 1) =~= cur.skip(i as int).skip(1));
                k = k + 1;
            }
            i += 1;
        }
    }
    proof {
        assert(orig.take(k) =~= orig);
    }
    gone
}

/// Tells every remaining user that `user` timed out.
pub fn handle_timed_out_user(
    remaining: &Vec<User>,
    user: &User,
    notifications: &mut Vec<Datagram>,
)
    ensures
        datagrams(final(notifications)@) == datagrams(old(notifications)@) + broadcast(
            user_views(remaining@),
            remaining.len() as int,
            user_left(user@.name, user@.addr),
        ),
{
    let line = user_left_line(user.name.as_slice(), user.addr);
    let more = broadcast_to(remaining, line.as_slice());
    append_datagrams(notifications, more);
}

/// Elects anew after the relay timed out and adds the notices of the election.
pub fn handle_relay_timeout(channel: &mut Channel, notifications: &mut Vec<Datagram>)
    ensures
        final(channel)@.users == old(channel)@.users,
        final(channel)@.relay == elected_relay(old(channel)@.users),
        datagrams(final(notifications)@) == datagrams(old(notifications)@) + election_notices(
            old(channel)@.users,
        ),
{
    let notices = elect(channel);
    append_datagrams(notifications, notices);
}

/// Sweeps one channel at `now`. Adds what is to be sent to `notifications`,
/// the endpoint of a lone user that is to be pinged to `pings`, and says
/// whether the channel is left without users.
pub fn process_channel_heartbeat(
    channel: &mut Channel,
    now: u64,
    pings: &mut Vec<Endpoint>,
    notifications: &mut Vec<Datagram>,
) -> (emptied: bool)
    ensures
        final(channel)@ == old(channel)@.swept(now),
        emptied == (final(channel)@.users.len() == 0),
        datagrams(final(notifications)@) == datagrams(old(notifications)@) + old(
            channel,
        )@.sweep_notices(now),
        final(pings)@ == match old(channel)@.sweep_ping(now) {
            Some(a) => old(pings)@.push(a),
            None => old(pings)@,
        },
{
    let relay_gone = relay_has_expired(channel, now);
    let before = channel.users.len();
    let gone = remove_expired(&mut channel.users, now);
    let ghost left = user_views(channel.users@);
    let ghost sent = datagrams(notifications@);
    let mut i: usize = 0;
    while i < gone.len()
        invariant
            i <= gone.len(),
            left == user_views(channel.users@),
            sent == datagrams(old(notifications)@),
            datagrams(notifications@) == sent + departures(user_views(gone@), left, i as int),
        decreases gone.len() - i,
    {
        handle_timed_out_user(&channel.users, &gone[i], notifications);
        i += 1;
    }
    let lone = channel.users.len() == 1;
    if relay_gone || (lone && (before != 1 || channel.users[0].is_symmetric())) {
        handle_relay_timeout(channel, notifications);
    } else {
        elect(channel);
    }
    if lone && !channel.users[0].is_symmetric() {
        pings.push(channel.users[0].addr);
    }
    channel.users.len() == 0
}

/// The registry after the sweep at `now`: every channel is swept. Channels
/// left without users stay until they are cleaned up.
pub open spec fn swept_registry(st: Seq<EntryView>, now: u64) -> Seq<EntryView> {
    st.map_values(|e: EntryView| EntryView { channel: e.channel.swept(now), ..e })
}

/// Whom the sweep pings in the first `k` channels.
pub open spec fn sweep_pings(st: Seq<EntryView>, now: u64, k: int) -> Seq<Endpoint>
    decreases k,
{
    if k <= 0 {
        Seq::empty()
    } else {
        match st[k - 1].channel.sweep_ping(now) {
            Some(a) => sweep_pings(st, now, k - 1).push(a),
            None => sweep_pings(st, now, k - 1),
        }
    }
}

/// What the sweep sends to the first `k` channels.
pub open spec fn sweep_notifications(st: Seq<EntryView>, now: u64, k: int) -> Seq<DatagramView>
    decreases k,
{
    if k <= 0 {
        Seq::empty()
    } else {
        sweep_notifications(st, now, k - 1) + st[k - 1].channel.sweep_notices(now)
    }
}

/// The names of those among the first `k` channels that the sweep leaves
/// without users: server id, then channel name.
pub open spec fn emptied_channels(st: Seq<EntryView>, now: u64, k: int) -> Seq<
    (Seq<u8>, Seq<u8>),
>
    decreases k,
{
    if k <= 0 {
        Seq::empty()
    } else {
        let before = emptied_channels(st, now, k - 1);
        if st[k - 1].channel.swept(now).users.len() == 0 {
            before.push((st[k - 1].server_id, st[k - 1].channel_name))
        } else {
            before
        }
    }
}

/// Channel names as plain values.
pub open spec fn key_views(v: Seq<(Vec<u8>, Vec<u8>)>) -> Seq<(Seq<u8>, Seq<u8>)> {
    v.map_values(|k: (Vec<u8>, Vec<u8>)| (k.0@, k.1@))
}

/// Sweeps every channel at `now`. Returns the endpoints to ping, the names of
/// the channels that were left without users, and what is to be sent.
pub fn collect_heartbeat_data(state: &mut ServerMap, now: u64) -> (r: (
    Vec<Endpoint>,
    Vec<(Vec<u8>, Vec<u8>)>,
    Vec<Datagram>,
))
    ensures
        final(state)@ == swept_registry(old(state)@, now),
        r.0@ == sweep_pings(old(state)@, now, old(state)@.len() as int),
        key_views(r.1@) == emptied_channels(old(state)@, now, old(state)@.len() as int),
        datagrams(r.2@) == sweep_notifications(old(state)@, now, old(state)@.len() as int),
        registry_wf(old(state)@) ==> registry_wf(final(state)@),
{
    proof {
        if registry_wf(state@) {
            lemma_sweep_keeps_registry(state@, now);
        }
    }
    let mut pings: Vec<Endpoint> = Vec::new();
    let mut cleanup: Vec<(Vec<u8>, Vec<u8>)> = Vec::new();
    let mut notifications: Vec<Datagram> = Vec::new();
    let ghost target = swept_registry(old(state)@, now);
    let mut i: usize = 0;
    while i < state.entries.len()
        invariant
            i <= state.entries.len(),
            state.entries.len() == old(state).entries.len(),
            target == swept_registry(old(state)@, now),
            forall|j: int| 0 <= j < i ==> state@[j] == target[j],
            forall|j: int| i <= j < state.entries.len() ==> state@[j] == old(state)@[j],
            pings@ == sweep_pings(old(state)@, now, i as int),
            key_views(cleanup@) == emptied_channels(old(state)@, now, i as int),
            datagrams(notifications@) == sweep_notifications(old(state)@, now, i as int),
        decreases state.entries.len() - i,
    {
        let emptied = process_channel_heartbeat(
            &mut state.entries[i].channel,
            now,
            &mut pings,
            &mut notifications,
        );
        if emptied {
            let key = (
                to_bytes(state.entries[i].server_id.as_slice()),
                to_bytes(state.entries[i].channel_name.as_slice()),
            );
            cleanup.push(key);
        }
        i += 1;
    }
    assert(state@ =~= target);
    (pings, cleanup, notifications)
}

/// The registry without the channel of these names, if that channel has no
/// users.
pub open spec fn without_if_empty(
    st: Seq<EntryView>,
    server_id: Seq<u8>,
    channel_name: Seq<u8>,
) -> Seq<EntryView> {
    let i = entry_index(st, server_id, channel_name, 0);
    if i < st.len() && st[i].channel.users.len() == 0 {
        st.remove(i)
    } else {
        st
    }
}

/// The registry after the first `k` of the listed channels were cleaned up.
pub open spec fn cleaned_up(st: Seq<EntryView>, keys: Seq<(Seq<u8>, Seq<u8>)>, k: int) -> Seq<
    EntryView,
>
    decreases k,
{
    if k <= 0 {
        st
    } else {
        without_if_empty(cleaned_up(st, keys, k - 1), keys[k - 1].0, keys[k - 1].1)
    }
}

/// Removes each listed channel that still has no users. A channel that users
/// joined since it was listed stays.
pub fn cleanup_empty_channels(state: &mut ServerMap, to_cleanup: &Vec<(Vec<u8>, Vec<u8>)>)
    ensures
        final(state)@ == cleaned_up(
            old(state)@,
            key_views(to_cleanup@),
            to_cleanup@.len() as int,
        ),
        registry_wf(old(state)@) ==> registry_wf(final(state)@),
        registry_wf(old(state)@) && no_empty_channel(old(state)@) ==> no_empty_channel(
            final(state)@,
        ),
{
    proof {
        if registry_wf(state@) {
            lemma_cleanup_keeps_registry(
                state@,
                key_views(to_cleanup@),
                to_cleanup@.len() as int,
            );
        }
    }
    let mut k: usize = 0;
    while k < to_cleanup.len()
        invariant
            k <= to_cleanup.len(),
            state@ == cleaned_up(old(state)@, key_views(to_cleanup@), k as int),
        decreases to_cleanup.len() - k,
    {
        match state.find(to_cleanup[k].0.as_slice(), to_cleanup[k].1.as_slice()) {
            Some(i) => {
                state.drop_if_empty(i);
            },
            None => {},
        }
        k += 1;
    }
}

} // verus!
