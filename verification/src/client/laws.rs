//! Laws of the client: what holds of every peer table and every input.

use vstd::prelude::*;
use crate::client::handlers::{
    has_mode, knows_addr, mode_line_applied, new_peer, server_relayed, without_user,
};
use crate::client::networking::nat_kind_of;
use crate::client::structures::{ClientView, PeerView};
use crate::endpoint::{text_endpoint, Endpoint};
use crate::sequences::lemma_filter_all;
use crate::wire::{ascii, tokens};

verus! {

/// `USER_LEFT` is idempotent: a peer table from which a user was removed is
/// not changed by removing that user again.
pub proof fn lemma_user_left_is_idempotent(peers: Seq<PeerView>, username: Seq<u8>)
    ensures
        without_user(without_user(peers, username), username) == without_user(peers, username),
{
    let pred = |p: PeerView| p.username != username;
    lemma_filter_all(peers.filter(pred), pred);
}

/// Every control line is idempotent: a client to which a line was applied is
/// not changed by the same line once more, whenever it comes.
pub proof fn lemma_control_line_is_idempotent(
    c: ClientView,
    me: Seq<u8>,
    line: Seq<u8>,
    now: u64,
    later: u64,
)
    ensures
        mode_line_applied(mode_line_applied(c, me, line, now), me, line, later)
            == mode_line_applied(c, me, line, now),
{
    let t = tokens(line);
    if has_mode(t, ascii("RELAY"@), 2) {
    } else if has_mode(t, ascii("SERVER_RELAY"@), 3) {
        assert(server_relayed(server_relayed(c.peers, t[2]), t[2]) =~= server_relayed(
            c.peers,
            t[2],
        ));
    } else if has_mode(t, ascii("DIRECT"@), 4) {
        match text_endpoint(t[3]) {
            Some(addr) => {
                if !(t[2] == me || knows_addr(c.peers, addr)) {
                    let added = c.peers.push(new_peer(t[2], addr, now));
                    assert(added[c.peers.len() as int].addr == addr);
                }
            },
            None => {},
        }
    } else if t.len() >= 2 && t[0] == ascii("USER_LEFT"@) {
        lemma_user_left_is_idempotent(c.peers, t[1]);
    }
}

/// The NAT kind is a function of the first two observed endpoints alone.
pub proof fn lemma_nat_kind_depends_on_two_endpoints(a: Seq<Endpoint>, b: Seq<Endpoint>)
    requires
        a.len() >= 2,
        b.len() >= 2,
        a[0] == b[0],
        a[1] == b[1],
    ensures
        nat_kind_of(a) == nat_kind_of(b),
{
}

} // verus!
