use od_nat_piercer::client::handlers::process_incoming_message;
use od_nat_piercer::client::networking::{
    handle_user_message, hole_punching_round, relay_keepalive_round, PunchBackoff,
};
use od_nat_piercer::client::session::handle_recv_result;
use od_nat_piercer::client::structures::{ChatLine, Client};
use od_nat_piercer::endpoint::Endpoint;
use od_nat_piercer::messages::Datagram;
use od_nat_piercer::signaling::handlers::handle_message;
use od_nat_piercer::signaling::heartbeat::{cleanup_empty_channels, collect_heartbeat_data};
use od_nat_piercer::signaling::structures::ServerMap;

const SERVER: Endpoint = Endpoint { ip: 0xC0A8_0001, port: 2131 };
const A: Endpoint = Endpoint { ip: 0x0A00_0001, port: 4000 };
const B: Endpoint = Endpoint { ip: 0x0A00_0002, port: 4001 };
const C: Endpoint = Endpoint { ip: 0x0A00_0003, port: 4002 };
const D: Endpoint = Endpoint { ip: 0x0A00_0004, port: 4003 };

fn sent(out: &[Datagram]) -> Vec<(Endpoint, String)> {
    out.iter().map(|d| (d.to, String::from_utf8(d.payload.clone()).unwrap())).collect()
}

fn to(e: Endpoint, text: &str) -> (Endpoint, String) {
    (e, text.to_string())
}

/// Hands every datagram addressed to `me` to `client`, as coming from `src`.
fn deliver(out: &[Datagram], me: Endpoint, name: &[u8], src: Endpoint, client: &mut Client, now: u64) {
    let mut shown: Vec<ChatLine> = Vec::new();
    for d in out.iter().filter(|d| d.to == me) {
        handle_recv_result(client, name, &d.payload, src, SERVER, now, &mut shown);
    }
}

#[test]
fn two_non_symmetric_clients() {
    let mut st = ServerMap::new();
    let mut alice = Client::new();
    let mut bob = Client::new();

    let out = handle_message(&mut st, b"CONNECT srv room alice CONE\n", A, 0);
    assert_eq!(sent(&out), vec![to(A, "MODE RELAY\n")]);
    deliver(&out, A, b"alice", SERVER, &mut alice, 1);
    assert!(alice.is_relay);
    assert!(alice.relay.is_active);

    let out = handle_message(&mut st, b"CONNECT srv room bob CONE\n", B, 10);
    assert_eq!(
        sent(&out),
        vec![
            to(A, "MODE DIRECT bob 10.0.0.2:4001\n"),
            to(B, "MODE DIRECT alice 10.0.0.1:4000\n"),
            to(A, "MODE RELAY\n"),
        ]
    );
    deliver(&out, A, b"alice", SERVER, &mut alice, 11);
    deliver(&out, B, b"bob", SERVER, &mut bob, 11);
    assert_eq!(alice.peers.len(), 1);
    assert_eq!(alice.peers[0].username, b"bob".to_vec());
    assert_eq!(alice.peers[0].addr, B);
    assert!(!alice.peers[0].connected);
    assert_eq!(bob.peers.len(), 1);
    assert_eq!(bob.peers[0].addr, A);
    assert!(!bob.is_relay);

    // Both punch; the first datagram that arrives marks the peer connected.
    let mut backoff: Vec<PunchBackoff> = Vec::new();
    let (punches, _) = hole_punching_round(&alice.peers, &mut backoff);
    assert_eq!(sent(&punches), vec![to(B, "HOLE_PUNCH\n")]);
    let mut shown: Vec<ChatLine> = Vec::new();
    handle_recv_result(&mut bob, b"bob", &punches[0].payload, A, SERVER, 20, &mut shown);
    assert!(bob.peers[0].connected);
    assert_eq!(bob.peers[0].last_pong, 20);
    let mut bob_backoff: Vec<PunchBackoff> = Vec::new();
    let (punches, _) = hole_punching_round(&bob.peers, &mut bob_backoff);
    assert!(punches.is_empty());
}

#[test]
fn symmetric_user_joins_direct_channel() {
    let mut st = ServerMap::new();
    let mut alice = Client::new();
    let mut bob = Client::new();
    let mut carol = Client::new();
    let out = handle_message(&mut st, b"CONNECT srv room alice CONE", A, 0);
    deliver(&out, A, b"alice", SERVER, &mut alice, 0);
    let out = handle_message(&mut st, b"CONNECT srv room bob CONE", B, 1);
    deliver(&out, A, b"alice", SERVER, &mut alice, 1);
    deliver(&out, B, b"bob", SERVER, &mut bob, 1);

    let out = handle_message(&mut st, b"CONNECT srv room carol SYMMETRIC", C, 2);
    assert_eq!(
        sent(&out),
        vec![
            to(A, "MODE DIRECT bob 10.0.0.2:4001\n"),
            to(B, "MODE DIRECT alice 10.0.0.1:4000\n"),
            to(A, "MODE RELAY\n"),
            to(C, "MODE SERVER_RELAY carol\n"),
            to(A, "MODE SERVER_RELAY carol\n"),
        ]
    );
    let channel = st.channel(b"srv", b"room").unwrap();
    assert_eq!(channel.relay, Some(b"alice".to_vec()));
    assert!(channel.users[2].needs_server_relay);

    deliver(&out, A, b"alice", SERVER, &mut alice, 3);
    deliver(&out, B, b"bob", SERVER, &mut bob, 3);
    deliver(&out, C, b"carol", SERVER, &mut carol, 3);
    assert!(alice.channel_has_server_relays);
    assert!(alice.relay.is_active);
    assert!(carol.send_via_server);
    assert!(carol.punch.paused);
    assert!(!bob.send_via_server);

    // A line of carol goes to the server only, which hands it to the others.
    let out = handle_user_message(&carol, b"carol", b"hi all", SERVER);
    assert_eq!(sent(&out), vec![to(SERVER, "DATA carol hi all\n")]);
    let out = handle_message(&mut st, &out[0].payload, C, 4);
    assert_eq!(sent(&out), vec![to(A, "DATA carol hi all\n"), to(B, "DATA carol hi all\n")]);
}

#[test]
fn relay_departs() {
    let mut st = ServerMap::new();
    handle_message(&mut st, b"CONNECT srv room alice CONE", A, 0);
    handle_message(&mut st, b"CONNECT srv room bob CONE", B, 1);
    handle_message(&mut st, b"CONNECT srv room dave CONE", D, 2);
    assert_eq!(st.channel(b"srv", b"room").unwrap().relay, Some(b"alice".to_vec()));

    let out = handle_message(&mut st, b"DISCONNECT srv room alice", A, 3);
    assert_eq!(
        sent(&out),
        vec![
            to(B, "MODE DIRECT dave 10.0.0.4:4003\n"),
            to(D, "MODE DIRECT bob 10.0.0.2:4001\n"),
            to(B, "MODE RELAY\n"),
            to(B, "USER_LEFT alice 10.0.0.1:4000\n"),
            to(D, "USER_LEFT alice 10.0.0.1:4000\n"),
        ]
    );
    let channel = st.channel(b"srv", b"room").unwrap();
    assert_eq!(channel.relay, Some(b"bob".to_vec()));
    assert_eq!(channel.users.len(), 2);
    assert_eq!(channel.users[0].name, b"bob".to_vec());
    assert_eq!(channel.users[1].name, b"dave".to_vec());
}

#[test]
fn heartbeat_expiry() {
    let mut st = ServerMap::new();
    handle_message(&mut st, b"CONNECT srv room alice CONE", A, 0);
    handle_message(&mut st, b"CONNECT srv room bob CONE", B, 0);
    handle_message(&mut st, b"CONNECT srv room carol CONE", C, 0);
    // alice and bob keep sending HB, carol falls silent for 45 s.
    handle_message(&mut st, b"HB srv room alice\n", A, 20_000);
    handle_message(&mut st, b"HB srv room bob\n", B, 20_000);
    let (pings, cleanup, notices) = collect_heartbeat_data(&mut st, 45_000);
    assert!(pings.is_empty());
    assert!(cleanup.is_empty());
    assert_eq!(
        sent(&notices),
        vec![to(A, "USER_LEFT carol 10.0.0.3:4002\n"), to(B, "USER_LEFT carol 10.0.0.3:4002\n")]
    );
    cleanup_empty_channels(&mut st, &cleanup);
    let channel = st.channel(b"srv", b"room").unwrap();
    assert_eq!(channel.users.len(), 2);
    assert_eq!(channel.relay, Some(b"alice".to_vec()));
}

#[test]
fn grace_period_relay_request() {
    let mut st = ServerMap::new();
    let mut alice = Client::new();
    let out = handle_message(&mut st, b"CONNECT srv room alice CONE", A, 0);
    deliver(&out, A, b"alice", SERVER, &mut alice, 0);
    let out = handle_message(&mut st, b"CONNECT srv room dave CONE", D, 100);
    deliver(&out, A, b"alice", SERVER, &mut alice, 100);
    assert_eq!(alice.peers[0].created_at, 100);

    // Within the grace period the relay only pings.
    let out = relay_keepalive_round(&mut alice.peers, 12_100, b"srv", b"room", SERVER);
    assert_eq!(sent(&out), vec![to(D, "PING\n")]);
    // After more than 12 s without a datagram from dave it asks the server.
    let out = relay_keepalive_round(&mut alice.peers, 12_101, b"srv", b"room", SERVER);
    assert_eq!(sent(&out), vec![to(D, "PING\n"), to(SERVER, "REQUEST_RELAY srv room dave\n")]);
    assert!(alice.peers[0].relay_requested);

    let out = handle_message(&mut st, &out[1].payload, A, 12_102);
    assert_eq!(
        sent(&out),
        vec![to(A, "MODE SERVER_RELAY dave\n"), to(D, "MODE SERVER_RELAY dave\n")]
    );
    let channel = st.channel(b"srv", b"room").unwrap();
    assert!(channel.users[1].needs_server_relay);
    assert_eq!(channel.relay, Some(b"alice".to_vec()));

    deliver(&out, A, b"alice", SERVER, &mut alice, 12_103);
    assert!(alice.peers[0].use_server_relay);
    assert!(alice.peers[0].connected);
    assert!(alice.channel_has_server_relays);
    // It is asked once only.
    let out = relay_keepalive_round(&mut alice.peers, 30_000, b"srv", b"room", SERVER);
    assert!(out.is_empty());
}

#[test]
fn all_symmetric_channel() {
    let mut st = ServerMap::new();
    let mut alice = Client::new();
    let mut bob = Client::new();
    let out = handle_message(&mut st, b"CONNECT srv room alice SYMMETRIC", A, 0);
    assert_eq!(sent(&out), vec![to(A, "MODE SERVER_RELAY alice\n")]);
    deliver(&out, A, b"alice", SERVER, &mut alice, 0);
    let out = handle_message(&mut st, b"CONNECT srv room bob SYMMETRIC", B, 1);
    assert_eq!(
        sent(&out),
        vec![
            to(A, "MODE SERVER_RELAY alice\n"),
            to(B, "MODE SERVER_RELAY alice\n"),
            to(A, "MODE SERVER_RELAY bob\n"),
            to(B, "MODE SERVER_RELAY bob\n"),
        ]
    );
    assert_eq!(st.channel(b"srv", b"room").unwrap().relay, None);
    deliver(&out, A, b"alice", SERVER, &mut alice, 2);
    deliver(&out, B, b"bob", SERVER, &mut bob, 2);
    assert!(alice.send_via_server && bob.send_via_server);

    let out = handle_user_message(&alice, b"alice", b"hello", SERVER);
    assert_eq!(sent(&out), vec![to(SERVER, "DATA alice hello\n")]);
    let out = handle_message(&mut st, &out[0].payload, A, 3);
    assert_eq!(sent(&out), vec![to(B, "DATA alice hello\n")]);
    let mut shown: Vec<ChatLine> = Vec::new();
    let answer = process_incoming_message(&mut bob, b"bob", &out[0].payload, SERVER, SERVER, 4, &mut shown);
    assert!(answer.is_empty());
    assert_eq!(shown.len(), 1);
    assert_eq!(shown[0].sender, b"alice".to_vec());
    assert_eq!(shown[0].text, b"hello".to_vec());

    let out = handle_user_message(&bob, b"bob", b"hello yourself", SERVER);
    let out = handle_message(&mut st, &out[0].payload, B, 5);
    assert_eq!(sent(&out), vec![to(A, "DATA bob hello yourself\n")]);
}
