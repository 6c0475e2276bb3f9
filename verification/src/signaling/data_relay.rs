//! The server as data relay: who gets a `DATA` line that reached the server.

use vstd::prelude::*;
use crate::endpoint::Endpoint;
use crate::messages::{datagrams, no_datagrams, push_datagram, Datagram, DatagramView};
use crate::signaling::structures::{Channel, ChannelView, EntryView, ServerMap, UserView};
use crate::signaling::utils::{find_session, session_index};
use crate::wire::{bytes_eq, split_tokens, to_bytes, tokens};

verus! {

/// The position of the first user at or after `from` named `name`, or the
/// number of users if there is none.
pub open spec fn name_index(users: Seq<UserView>, name: Seq<u8>, from: int) -> int
    decreases users.len() - from,
{
    if from < 0 || from >= users.len() {
        users.len() as int
    } else if users[from].name == name {
        from
    } else {
        name_index(users, name, from + 1)
    }
}

/// The endpoints of those among the first `k` users whose traffic the server
/// carries and who are not named `sender`.
pub open spec fn server_relayed_but(users: Seq<UserView>, sender: Seq<u8>, k: int) -> Seq<Endpoint>
    decreases k,
{
    if k <= 0 {
        Seq::empty()
    } else {
        let before = server_relayed_but(users, sender, k - 1);
        let p = users[k - 1];
        if p.name != sender && p.needs_server_relay {
            before.push(p.addr)
        } else {
            before
        }
    }
}

/// The endpoints of those among the first `k` users that differ from `src`.
pub open spec fn everyone_but(users: Seq<UserView>, src: Endpoint, k: int) -> Seq<Endpoint>
    decreases k,
{
    if k <= 0 {
        Seq::empty()
    } else {
        let before = everyone_but(users, src, k - 1);
        if users[k - 1].addr != src {
            before.push(users[k - 1].addr)
        } else {
            before
        }
    }
}

impl ChannelView {
    /// The endpoint of the member that the channel names as its relay.
    pub open spec fn relay_endpoint(self) -> Option<Endpoint> {
        match self.relay {
            Some(r) => {
                let i = name_index(self.users, r, 0);
                if i < self.users.len() {
                    Some(self.users[i].addr)
                } else {
                    None
                }
            },
            None => None,
        }
    }

    /// Whether `DATA` of `sender` from `src` belongs to this channel: it comes
    /// from the relay's endpoint, or `sender` is a member from `src`.
    pub open spec fn routes(self, sender: Seq<u8>, src: Endpoint) -> bool {
        self.relay_endpoint() == Some(src) || self.has_session(sender, src)
    }

    /// Who gets `DATA` of `sender` that reached the server from `src`.
    /// From the relay's endpoint it is traffic that the relay mirrors: it goes
    /// to the server-relayed members other than `sender`. From a server-relayed
    /// member it goes to every member at another endpoint. From any other
    /// member it goes to the relay.
    pub open spec fn data_recipients(self, sender: Seq<u8>, src: Endpoint) -> Seq<Endpoint> {
        let n = self.users.len() as int;
        if self.relay_endpoint() == Some(src) {
            server_relayed_but(self.users, sender, n)
        } else if self.has_session(sender, src) {
            if self.users[session_index(self.users, sender, src, 0)].needs_server_relay {
                everyone_but(self.users, src, n)
            } else {
                match self.relay_endpoint() {
                    Some(a) => seq![a],
                    None => Seq::empty(),
                }
            }
        } else {
            Seq::empty()
        }
    }
}

/// The position of the first channel at or after `from` to which `DATA` of
/// `sender` from `src` belongs, or the number of channels if there is none.
pub open spec fn routing_index(st: Seq<EntryView>, sender: Seq<u8>, src: Endpoint, from: int) -> int
    decreases st.len() - from,
{
    if from < 0 || from >= st.len() {
        st.len() as int
    } else if st[from].channel.routes(sender, src) {
        from
    } else {
        routing_index(st, sender, src, from + 1)
    }
}

/// `payload` addressed to each of the first `k` recipients.
pub open spec fn deliveries(recipients: Seq<Endpoint>, payload: Seq<u8>, k: int) -> Seq<
    DatagramView,
>
    decreases k,
{
    if k <= 0 {
        Seq::empty()
    } else {
        deliveries(recipients, payload, k - 1).push(
            DatagramView { to: recipients[k - 1], payload },
        )
    }
}

/// What the server forwards when the line `raw` reached it from `src`: the
/// line, ended by a line feed, to the recipients in the first channel to which
/// it belongs. The sender is the second token; a line of fewer than three
/// tokens is dropped.
pub open spec fn data_deliveries(st: Seq<EntryView>, raw: Seq<u8>, src: Endpoint) -> Seq<
    DatagramView,
> {
    let t = tokens(raw);
    if t.len() < 3 {
        Seq::empty()
    } else {
        let i = routing_index(st, t[1], src, 0);
        if i < st.len() {
            let to = st[i].channel.data_recipients(t[1], src);
            deliveries(to, raw + seq![10u8], to.len() as int)
        } else {
            Seq::empty()
        }
    }
}

/// The endpoint of the member that the channel names as its relay.
pub fn relay_endpoint(channel: &Channel) -> (r: Option<Endpoint>)
    ensures
        r == channel@.relay_endpoint(),
{
    match &channel.relay {
        Some(name) => {
            let mut i: usize = 0;
            while i < channel.users.len()
                invariant
                    i <= channel.users.len(),
                    channel.relay == Some(*name),
                    name_index(channel@.users, name@, 0) == name_index(
                        channel@.users,
                        name@,
                        i as int,
                    ),
                decreases channel.users.len() - i,
            {
                if bytes_eq(channel.users[i].name.as_slice(), name.as_slice()) {
                    return Some(channel.users[i].addr);
                }
                i += 1;
            }
            None
        },
        None => None,
    }
}

/// Who in this channel gets `DATA` of `sender` from `src`; `None` if the line
/// does not belong to this channel.
pub fn data_recipients(channel: &Channel, sender: &[u8], src: Endpoint) -> (r: Option<
    Vec<Endpoint>,
>)
    ensures
        match r {
            Some(to) => channel@.routes(sender@, src) && to@ == channel@.data_recipients(
                sender@,
                src,
            ),
            None => !channel@.routes(sender@, src),
        },
{
    let relay = relay_endpoint(channel);
    let from_relay = match relay {
        Some(a) => a == src,
        None => false,
    };
    let mut to: Vec<Endpoint> = Vec::new();
    if from_relay {
        let mut i: usize = 0;
        while i < channel.users.len()
            invariant
                i <= channel.users.len(),
                to@ == server_relayed_but(channel@.users, sender@, i as int),
            decreases channel.users.len() - i,
        {
            if !bytes_eq(channel.users[i].name.as_slice(), sender)
                && channel.users[i].needs_server_relay {
                to.push(channel.users[i].addr);
            }
            i += 1;
        }
        return Some(to);
    }
    match find_session(channel, sender, src) {
        Some(at) => {
            if channel.users[at].needs_server_relay {
                let mut i: usize = 0;
                while i < channel.users.len()
                    invariant
                        i <= channel.users.len(),
                        to@ == everyone_but(channel@.users, src, i as int),
                    decreases channel.users.len() - i,
                {
                    if channel.users[i].addr != src {
                        to.push(channel.users[i].addr);
                    }
                    i += 1;
                }
            } else {
                match relay {
                    Some(a) => {
                        to.push(a);
                    },
                    None => {},
                }
            }
            Some(to)
        },
        None => None,
    }
}

/// Forwards a `DATA` line that reached the server from `src`.
pub fn handle_data_from_client(state: &ServerMap, raw: &[u8], src: Endpoint) -> (out: Vec<
    Datagram,
>)
    ensures
        datagrams(out@) == data_deliveries(state@, raw@, src),
{
    let mut out = no_datagrams();
    let parts = split_tokens(raw);
    if parts.len() < 3 {
        return out;
    }
    let sender = parts[1].as_slice();
    let mut i: usize = 0;
    while i < state.entries.len()
        invariant
            i <= state.entries.len(),
            sender@ == tokens(raw@)[1],
            tokens(raw@).len() >= 3,
            datagrams(out@) == Seq::<DatagramView>::empty(),
            routing_index(state@, sender@, src, 0) == routing_index(
                state@,
                sender@,
                src,
                i as int,
            ),
        decreases state.entries.len() - i,
    {
        match data_recipients(&state.entries[i].channel, sender, src) {
            Some(to) => {
                let mut payload = to_bytes(raw);
                payload.push(10u8);
                let mut k: usize = 0;
                while k < to.len()
                    invariant
                        k <= to.len(),
                        payload@ == raw@ + seq![10u8],
                        datagrams(out@) == deliveries(to@, payload@, k as int),
                    decreases to.len() - k,
                {
                    push_datagram(
                        &mut out,
                        Datagram { to: to[k], payload: to_bytes(payload.as_slice()) },
                    );
                    k += 1;
                }
                return out;
            },
            None => {},
        }
        i += 1;
    }
    out
}

} // verus!
