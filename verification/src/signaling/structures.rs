//! What the signaling server knows: users, channels and the registry of channels.

use vstd::prelude::*;
use crate::endpoint::Endpoint;
pub use crate::nat_kind::NatKind;
use crate::signaling::invariants::{no_empty_channel, registry_wf};
use crate::wire::{bytes_eq, to_bytes};

verus! {

/// A member of a channel as the server sees it.
#[derive(Debug)]
pub struct User {
    pub name: Vec<u8>,
    /// The source endpoint of the datagram that made this user join.
    pub addr: Endpoint,
    /// When the server last heard from this user, in milliseconds.
    pub last_pong: u64,
    /// Whether the server carries this user's traffic.
    pub needs_server_relay: bool,
    pub nat_kind: NatKind,
}

/// A user as a plain value.
pub struct UserView {
    pub name: Seq<u8>,
    pub addr: Endpoint,
    pub last_pong: u64,
    pub needs_server_relay: bool,
    pub nat_kind: NatKind,
}

impl View for User {
    type V = UserView;

    open spec fn view(&self) -> UserView {
        UserView {
            name: self.name@,
            addr: self.addr,
            last_pong: self.last_pong,
            needs_server_relay: self.needs_server_relay,
            nat_kind: self.nat_kind,
        }
    }
}

impl Clone for User {
    fn clone(&self) -> (r: Self)
        ensures
            r@ == self@,
    {
        User {
            name: to_bytes(self.name.as_slice()),
            addr: self.addr,
            last_pong: self.last_pong,
            needs_server_relay: self.needs_server_relay,
            nat_kind: self.nat_kind,
        }
    }
}

/// The users of a list as plain values, in order.
pub open spec fn user_views(v: Seq<User>) -> Seq<UserView> {
    v.map_values(|u: User| u@)
}

/// A named group of users. The order of `users` is the order in which they
/// joined. `relay` names the member that relays for the others; `None` means
/// that the server relays.
#[derive(Debug)]
pub struct Channel {
    pub users: Vec<User>,
    pub relay: Option<Vec<u8>>,
}

/// A channel as a plain value.
pub struct ChannelView {
    pub users: Seq<UserView>,
    pub relay: Option<Seq<u8>>,
}

impl View for Channel {
    type V = ChannelView;

    open spec fn view(&self) -> ChannelView {
        ChannelView {
            users: user_views(self.users@),
            relay: match self.relay {
                Some(r) => Some(r@),
                None => None,
            },
        }
    }
}

impl Channel {
    /// A channel without users.
    pub fn new() -> (c: Channel)
        ensures
            c@ == ChannelView::empty(),
    {
        let c = Channel { users: Vec::new(), relay: None };
        assert(c@.users =~= Seq::<UserView>::empty());
        c
    }
}

impl Default for Channel {
    fn default() -> (c: Channel)
        ensures
            c@ == ChannelView::empty(),
    {
        Channel::new()
    }
}

impl Clone for Channel {
    fn clone(&self) -> (r: Self)
        ensures
            r@ == self@,
    {
        let mut users: Vec<User> = Vec::new();
        let mut i: usize = 0;
        while i < self.users.len()
            invariant
                i <= self.users.len(),
                user_views(users@) == user_views(self.users@).take(i as int),
            decreases self.users.len() - i,
        {
            let ghost before = user_views(users@);
            users.push(self.users[i].clone());
            assert(user_views(users@) =~= before.push(self.users@[i as int]@));
            i += 1;
        }
        assert(user_views(self.users@).take(self.users.len() as int) =~= user_views(
            self.users@,
        ));
        let relay = match &self.relay {
            Some(r) => Some(to_bytes(r.as_slice())),
            None => None,
        };
        Channel { users, relay }
    }
}

impl ChannelView {
    /// The channel without users.
    pub open spec fn empty() -> ChannelView {
        ChannelView { users: Seq::empty(), relay: None }
    }
}

/// A channel together with the names under which it is registered.
#[derive(Debug)]
pub struct ChannelEntry {
    pub server_id: Vec<u8>,
    pub channel_name: Vec<u8>,
    pub channel: Channel,
}

/// A registered channel as a plain value.
pub struct EntryView {
    pub server_id: Seq<u8>,
    pub channel_name: Seq<u8>,
    pub channel: ChannelView,
}

impl View for ChannelEntry {
    type V = EntryView;

    open spec fn view(&self) -> EntryView {
        EntryView {
            server_id: self.server_id@,
            channel_name: self.channel_name@,
            channel: self.channel@,
        }
    }
}

/// The entries of a list as plain values, in order.
pub open spec fn entry_views(v: Seq<ChannelEntry>) -> Seq<EntryView> {
    v.map_values(|e: ChannelEntry| e@)
}

/// The position of the first entry at or after `from` that is registered
/// under these names, or the number of entries if there is none.
pub open spec fn entry_index(
    entries: Seq<EntryView>,
    server_id: Seq<u8>,
    channel_name: Seq<u8>,
    from: int,
) -> int
    decreases entries.len() - from,
{
    if from < 0 || from >= entries.len() {
        entries.len() as int
    } else if entries[from].server_id == server_id && entries[from].channel_name == channel_name {
        from
    } else {
        entry_index(entries, server_id, channel_name, from + 1)
    }
}

/// `entry_index` finds a matching entry and passes over none.
pub proof fn lemma_entry_index(
    entries: Seq<EntryView>,
    server_id: Seq<u8>,
    channel_name: Seq<u8>,
    from: int,
)
    requires
        0 <= from <= entries.len(),
    ensures
        from <= entry_index(entries, server_id, channel_name, from) <= entries.len(),
        entry_index(entries, server_id, channel_name, from) < entries.len() ==> {
            let e = entries[entry_index(entries, server_id, channel_name, from)];
            e.server_id == server_id && e.channel_name == channel_name
        },
        forall|k: int|
            from <= k < entry_index(entries, server_id, channel_name, from) ==> !((
            #[trigger] entries[k]).server_id == server_id && entries[k].channel_name
                == channel_name),
    decreases entries.len() - from,
{
    if from < entries.len() && !(entries[from].server_id == server_id
        && entries[from].channel_name == channel_name) {
        lemma_entry_index(entries, server_id, channel_name, from + 1);
    }
}

/// The channel registered under these names, or a channel without users if
/// there is none.
pub open spec fn channel_at(
    entries: Seq<EntryView>,
    server_id: Seq<u8>,
    channel_name: Seq<u8>,
) -> ChannelView {
    let i = entry_index(entries, server_id, channel_name, 0);
    if i < entries.len() {
        entries[i].channel
    } else {
        ChannelView::empty()
    }
}

/// The registry in which `channel` stands under these names: in the place of
/// the channel that stood there, or last. A channel without users is not kept.
pub open spec fn with_channel(
    entries: Seq<EntryView>,
    server_id: Seq<u8>,
    channel_name: Seq<u8>,
    channel: ChannelView,
) -> Seq<EntryView> {
    let i = entry_index(entries, server_id, channel_name, 0);
    if i < entries.len() {
        if channel.users.len() == 0 {
            entries.remove(i)
        } else {
            entries.update(i, EntryView { channel, ..entries[i] })
        }
    } else if channel.users.len() == 0 {
        entries
    } else {
        entries.push(EntryView { server_id, channel_name, channel })
    }
}

/// The registry of channels, each under a server id and a channel name. The
/// channels stand in the order in which they were created. A server id is
/// known exactly as long as a channel is registered under it.
#[derive(Debug)]
pub struct ServerMap {
    pub entries: Vec<ChannelEntry>,
}

impl View for ServerMap {
    type V = Seq<EntryView>;

    open spec fn view(&self) -> Seq<EntryView> {
        entry_views(self.entries@)
    }
}

impl ServerMap {
    /// The registry without channels.
    pub fn new() -> (st: ServerMap)
        ensures
            st@ == Seq::<EntryView>::empty(),
            registry_wf(st@),
            no_empty_channel(st@),
    {
        let st = ServerMap { entries: Vec::new() };
        st
    }

    /// The position of the channel registered under these names.
    pub fn find(&self, server_id: &[u8], channel_name: &[u8]) -> (r: Option<usize>)
        ensures
            match r {
                Some(i) => i < self.entries.len() && i == entry_index(
                    self@,
                    server_id@,
                    channel_name@,
                    0,
                ),
                None => entry_index(self@, server_id@, channel_name@, 0) == self@.len(),
            },
    {
        let mut i: usize = 0;
        while i < self.entries.len()
            invariant
                i <= self.entries.len(),
                entry_index(self@, server_id@, channel_name@, 0) == entry_index(
                    self@,
                    server_id@,
                    channel_name@,
                    i as int,
                ),
            decreases self.entries.len() - i,
        {
            if bytes_eq(self.entries[i].server_id.as_slice(), server_id) && bytes_eq(
                self.entries[i].channel_name.as_slice(),
                channel_name,
            ) {
                return Some(i);
            }
            i += 1;
        }
        None
    }

    /// The channel registered under these names.
    pub fn channel(&self, server_id: &[u8], channel_name: &[u8]) -> (r: Option<&Channel>)
        ensures
            match r {
                Some(c) => entry_index(self@, server_id@, channel_name@, 0) < self@.len() && c@
                    == channel_at(self@, server_id@, channel_name@),
                None => entry_index(self@, server_id@, channel_name@, 0) == self@.len(),
            },
    {
        match self.find(server_id, channel_name) {
            Some(i) => Some(&self.entries[i].channel),
            None => None,
        }
    }

    /// The users of the channel registered under these names; none if there
    /// is no such channel.
    pub fn get_remaining_users(&self, server_id: &[u8], channel_name: &[u8]) -> (users: Vec<
        User,
    >)
        ensures
            user_views(users@) == channel_at(self@, server_id@, channel_name@).users,
    {
        match self.find(server_id, channel_name) {
            Some(i) => self.entries[i].channel.clone().users,
            None => {
                let users: Vec<User> = Vec::new();
                users
            },
        }
    }

    /// Removes the entry at `i` if its channel has no users.
    pub fn drop_if_empty(&mut self, i: usize)
        requires
            i < old(self).entries.len(),
        ensures
            final(self)@ == if old(self)@[i as int].channel.users.len() == 0 {
                old(self)@.remove(i as int)
            } else {
                old(self)@
            },
    {
        if self.entries[i].channel.users.len() == 0 {
            self.entries.remove(i);
        }
    }
}

} // verus!
