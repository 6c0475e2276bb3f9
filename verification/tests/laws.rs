use od_nat_piercer::client::handlers::{handle_mode_line, handle_user_left};
use od_nat_piercer::client::networking::detect_nat_kind;
use od_nat_piercer::client::structures::{Client, PeerInfo};
use od_nat_piercer::endpoint::{parse_endpoint, Endpoint};
use od_nat_piercer::messages::Datagram;
use od_nat_piercer::signaling::handlers::handle_message;
use od_nat_piercer::signaling::heartbeat::{cleanup_empty_channels, collect_heartbeat_data};
use od_nat_piercer::signaling::notifications::elect;
use od_nat_piercer::signaling::structures::{Channel, NatKind, ServerMap, User};

fn ep(last: u32, port: u16) -> Endpoint {
    Endpoint { ip: 0x0A00_0000 + last, port }
}

fn sent(out: &[Datagram]) -> Vec<(Endpoint, Vec<u8>)> {
    out.iter().map(|d| (d.to, d.payload.clone())).collect()
}

fn eligible(u: &User) -> bool {
    u.nat_kind != NatKind::Symmetric && !u.needs_server_relay
}

/// The rules of the data model, checked on every channel of the registry.
fn check_registry(st: &ServerMap, swept: bool) {
    for (i, e) in st.entries.iter().enumerate() {
        for other in &st.entries[i + 1..] {
            assert!(e.server_id != other.server_id || e.channel_name != other.channel_name);
        }
        let users = &e.channel.users;
        if !swept {
            assert!(!users.is_empty());
        }
        for (k, u) in users.iter().enumerate() {
            for v in &users[k + 1..] {
                assert_ne!(u.name, v.name);
                assert!(u.name != v.name || u.addr != v.addr);
            }
            if u.nat_kind == NatKind::Symmetric {
                assert!(u.needs_server_relay);
                assert_ne!(e.channel.relay.as_ref(), Some(&u.name));
            }
        }
        if let Some(r) = &e.channel.relay {
            assert!(users.iter().any(|u| &u.name == r));
        }
        let lone_relays = users.len() == 1
            && users[0].nat_kind != NatKind::Symmetric
            && e.channel.relay.as_ref() == Some(&users[0].name);
        let server_for_lone = users.len() == 1
            && users[0].nat_kind == NatKind::Symmetric
            && e.channel.relay.is_none();
        let one_of_several = users.len() >= 2
            && match users.iter().find(|u| eligible(u)) {
                Some(first) => e.channel.relay.as_ref() == Some(&first.name),
                None => e.channel.relay.is_none(),
            };
        if !users.is_empty() {
            let holding = [lone_relays, server_for_lone, one_of_several];
            assert_eq!(holding.iter().filter(|h| **h).count(), 1);
        }
    }
}

#[test]
fn rules_hold_after_every_operation() {
    let mut st = ServerMap::new();
    let script: Vec<(&[u8], Endpoint, u64)> = vec![
        (b"CONNECT s a u1 SYMMETRIC", ep(1, 1), 0),
        (b"CONNECT s a u2 CONE", ep(2, 2), 10),
        (b"CONNECT s a u3 PUBLIC", ep(3, 3), 20),
        (b"CONNECT s b u1 CONE", ep(1, 1), 30),
        (b"CONNECT s a u2 CONE", ep(2, 2), 40),
        (b"CONNECT s a u2 SYMMETRIC", ep(9, 9), 50),
        (b"REQUEST_RELAY s a u3", ep(2, 2), 60),
        (b"REQUEST_RELAY s a nobody", ep(2, 2), 61),
        (b"HB s a u3", ep(3, 3), 70),
        (b"PONG", ep(1, 1), 80),
        (b"DATA u1 hello", ep(1, 1), 90),
        (b"PEER_TIMEOUT s a u1", ep(3, 3), 100),
        (b"DISCONNECT s a u3", ep(4, 4), 110),
        (b"DISCONNECT s a u3", ep(3, 3), 120),
        (b"CONNECT t a u5 UNKNOWN\nCONNECT t a u6 CONE\nDISCONNECT t a u5", ep(5, 5), 130),
        (b"DISCONNECT s b u1", ep(1, 1), 140),
        (b"garbage", ep(1, 1), 150),
    ];
    for (msg, src, now) in script {
        handle_message(&mut st, msg, src, now);
        check_registry(&st, false);
    }
    let (_, cleanup, _) = collect_heartbeat_data(&mut st, 40_051);
    check_registry(&st, true);
    cleanup_empty_channels(&mut st, &cleanup);
    check_registry(&st, false);
    let (_, cleanup, _) = collect_heartbeat_data(&mut st, 1_000_000);
    check_registry(&st, true);
    assert_eq!(cleanup.len(), st.entries.len());
    cleanup_empty_channels(&mut st, &cleanup);
    assert!(st.entries.is_empty());
}

#[test]
fn flagged_cone_users_leave_relaying_to_the_server() {
    // Where the server carries the traffic of every member whose NAT is not
    // symmetric, no member relays.
    let mut st = ServerMap::new();
    handle_message(&mut st, b"CONNECT s a cone CONE", ep(1, 1), 0);
    handle_message(&mut st, b"CONNECT s a sym SYMMETRIC", ep(2, 2), 0);
    handle_message(&mut st, b"REQUEST_RELAY s a cone", ep(2, 2), 1);
    let c = st.channel(b"s", b"a").unwrap();
    assert_eq!(c.relay, None);
    assert_eq!(c.users[0].nat_kind, NatKind::Cone);
    // Alone again, the member whose NAT is not symmetric relays.
    handle_message(&mut st, b"DISCONNECT s a sym", ep(2, 2), 2);
    assert_eq!(st.channel(b"s", b"a").unwrap().relay, Some(b"cone".to_vec()));
}

#[test]
fn fresh_user_is_not_expired() {
    let mut st = ServerMap::new();
    handle_message(&mut st, b"CONNECT s a old CONE", ep(1, 1), 0);
    handle_message(&mut st, b"CONNECT s a edge CONE", ep(2, 2), 10_000);
    handle_message(&mut st, b"CONNECT s a fresh CONE", ep(3, 3), 49_999);
    collect_heartbeat_data(&mut st, 50_000);
    let names: Vec<Vec<u8>> =
        st.channel(b"s", b"a").unwrap().users.iter().map(|u| u.name.clone()).collect();
    assert_eq!(names, vec![b"edge".to_vec(), b"fresh".to_vec()]);
}

#[test]
fn second_connect_sends_nothing() {
    let mut st = ServerMap::new();
    handle_message(&mut st, b"CONNECT s a u1 CONE", ep(1, 1), 0);
    let first = handle_message(&mut st, b"CONNECT s a u2 CONE", ep(2, 2), 1);
    assert_eq!(first.len(), 3);
    for now in [2, 3, 4] {
        let again = handle_message(&mut st, b"CONNECT s a u2 CONE", ep(2, 2), now);
        assert!(again.is_empty());
        let c = st.channel(b"s", b"a").unwrap();
        assert_eq!(c.users.len(), 2);
        assert_eq!(c.users[1].last_pong, now);
        assert_eq!(c.users[0].last_pong, 0);
        assert_eq!(c.relay, Some(b"u1".to_vec()));
    }
}

#[test]
fn symmetric_user_is_never_elected() {
    let kinds = [NatKind::Unknown, NatKind::Public, NatKind::Cone, NatKind::Symmetric];
    for a in kinds {
        for b in kinds {
            for c in kinds {
                let mut st = ServerMap::new();
                handle_message(&mut st, &connect(b"u1", a), ep(1, 1), 0);
                handle_message(&mut st, &connect(b"u2", b), ep(2, 2), 0);
                handle_message(&mut st, &connect(b"u3", c), ep(3, 3), 0);
                check_registry(&st, false);
                let channel = st.channel(b"s", b"a").unwrap();
                let expected = channel.users.iter().find(|u| u.nat_kind != NatKind::Symmetric);
                assert_eq!(channel.relay.as_ref(), expected.map(|u| &u.name));
            }
        }
    }
}

fn connect(user: &[u8], kind: NatKind) -> Vec<u8> {
    od_nat_piercer::messages::connect_line(b"s", b"a", user, kind)
}

#[test]
fn user_left_twice_is_user_left_once() {
    let peer = |name: &str, last: u32| PeerInfo {
        addr: ep(last, 1),
        last_pong: 0,
        username: name.as_bytes().to_vec(),
        connected: true,
        created_at: 0,
        use_server_relay: false,
        relay_requested: false,
    };
    let mut once = vec![peer("a", 1), peer("b", 2), peer("a", 3), peer("c", 4)];
    handle_user_left(&mut once, b"a");
    let mut twice = vec![peer("a", 1), peer("b", 2), peer("a", 3), peer("c", 4)];
    handle_user_left(&mut twice, b"a");
    handle_user_left(&mut twice, b"a");
    let key = |peers: &Vec<PeerInfo>| -> Vec<(Vec<u8>, Endpoint)> {
        peers.iter().map(|p| (p.username.clone(), p.addr)).collect()
    };
    assert_eq!(key(&once), key(&twice));
    assert_eq!(key(&once), vec![(b"b".to_vec(), ep(2, 1)), (b"c".to_vec(), ep(4, 1))]);
}

#[test]
fn control_lines_are_idempotent() {
    for line in [
        &b"MODE RELAY"[..],
        b"MODE DIRECT bob 10.0.0.2:4001",
        b"MODE SERVER_RELAY bob",
        b"MODE SERVER_RELAY me",
        b"USER_LEFT bob 10.0.0.2:4001",
    ] {
        let mut once = Client::new();
        handle_mode_line(b"MODE DIRECT bob 10.0.0.2:4001", &mut once, b"me", 0);
        handle_mode_line(b"MODE DIRECT carol 10.0.0.3:4002", &mut once, b"me", 0);
        let mut twice = Client::new();
        handle_mode_line(b"MODE DIRECT bob 10.0.0.2:4001", &mut twice, b"me", 0);
        handle_mode_line(b"MODE DIRECT carol 10.0.0.3:4002", &mut twice, b"me", 0);
        handle_mode_line(line, &mut once, b"me", 5);
        handle_mode_line(line, &mut twice, b"me", 5);
        handle_mode_line(line, &mut twice, b"me", 9);
        assert_eq!(format!("{:?}", once), format!("{:?}", twice));
    }
}

#[test]
fn election_does_not_depend_on_liveness() {
    let users = |t1: u64, t2: u64, t3: u64| -> Vec<User> {
        vec![
            User { name: b"s".to_vec(), addr: ep(1, 1), last_pong: t1, needs_server_relay: true, nat_kind: NatKind::Symmetric },
            User { name: b"c".to_vec(), addr: ep(2, 2), last_pong: t2, needs_server_relay: false, nat_kind: NatKind::Cone },
            User { name: b"p".to_vec(), addr: ep(3, 3), last_pong: t3, needs_server_relay: false, nat_kind: NatKind::Public },
        ]
    };
    let mut first = Channel { users: users(0, 0, 0), relay: None };
    let mut second = Channel { users: users(5, 900, 77), relay: Some(b"p".to_vec()) };
    let out_first = elect(&mut first);
    let out_second = elect(&mut second);
    assert_eq!(sent(&out_first), sent(&out_second));
    assert_eq!(first.relay, second.relay);
    assert_eq!(first.relay, Some(b"c".to_vec()));
    // Running it again changes nothing.
    let again = elect(&mut first);
    assert_eq!(sent(&again), sent(&out_first));
    // The order of joining breaks the tie.
    let mut swapped = users(0, 0, 0);
    swapped.swap(1, 2);
    let mut third = Channel { users: swapped, relay: None };
    elect(&mut third);
    assert_eq!(third.relay, Some(b"p".to_vec()));
}

#[test]
fn nat_kind_depends_on_the_first_two_endpoints_only() {
    let a = ep(1, 100);
    let b = ep(1, 200);
    let first = detect_nat_kind(&vec![a, b]);
    assert_eq!(first, detect_nat_kind(&vec![a, b, a]));
    assert_eq!(first, detect_nat_kind(&vec![a, b, ep(7, 7), ep(8, 8)]));
    assert_eq!(detect_nat_kind(&vec![a, a]), detect_nat_kind(&vec![a, a, b]));
}

#[test]
fn endpoint_text_is_read_back() {
    for ip in [0u32, 1, 255, 256, 0x0100_0000, 0x7F00_0001, 0xC0A8_0101, 0xFFFF_FFFF, 0x0A64_C801] {
        for port in [0u16, 1, 9, 10, 99, 100, 999, 1000, 9999, 10000, 65535] {
            let e = Endpoint { ip, port };
            let mut text = Vec::new();
            e.push_text(&mut text);
            assert_eq!(parse_endpoint(&text), Some(e));
        }
    }
}
