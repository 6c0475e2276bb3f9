use od_nat_piercer::endpoint::Endpoint;
use od_nat_piercer::messages::Datagram;
use od_nat_piercer::signaling::data_relay::{data_recipients, handle_data_from_client, relay_endpoint};
use od_nat_piercer::signaling::handlers::{
    handle_connect_message, handle_disconnect_message, handle_heartbeat, handle_line,
    handle_message, handle_peer_timeout, handle_pong, handle_relay_request, parse_nat_kind,
};
use od_nat_piercer::signaling::heartbeat::{
    cleanup_empty_channels, collect_heartbeat_data, process_channel_heartbeat, remove_expired,
};
use od_nat_piercer::signaling::notifications::{
    broadcast_to, elect, handle_lone_user_scenario, handle_multiple_users_scenario,
    mark_relay_in_channel, notify_all_about_departure, notify_all_server_relayed,
    notify_lone_user, notify_peers_about_relay, notify_relay_about_peers,
    notify_server_relayed_peers, pick_eligible_relay, send_relay_mode_to_relay,
};
use od_nat_piercer::signaling::structures::{Channel, NatKind, ServerMap, User};
use od_nat_piercer::signaling::utils::{
    add_new_user, create_new_user, find_and_remove_user, find_session,
    handle_disconnect_notifications, handle_relay_transition, handle_user_removal,
    mark_server_relayed, refresh_endpoint, relay_is, remove_old_user_sessions, remove_sessions,
    remove_timed_out_peer, same_relay, update_existing_user,
};

const A: Endpoint = Endpoint { ip: 0x0A00_0001, port: 4000 };
const B: Endpoint = Endpoint { ip: 0x0A00_0002, port: 4001 };
const C: Endpoint = Endpoint { ip: 0x0A00_0003, port: 4002 };
const D: Endpoint = Endpoint { ip: 0x0A00_0004, port: 4003 };

fn sent(out: &[Datagram]) -> Vec<(Endpoint, String)> {
    out.iter().map(|d| (d.to, String::from_utf8(d.payload.clone()).unwrap())).collect()
}

fn to(e: Endpoint, text: &str) -> (Endpoint, String) {
    (e, text.to_string())
}

fn user(name: &str, addr: Endpoint, kind: NatKind) -> User {
    create_new_user(name.as_bytes(), addr, kind, 0)
}

fn channel(users: Vec<User>) -> Channel {
    let mut c = Channel { users, relay: None };
    elect(&mut c);
    c
}

fn names(c: &Channel) -> Vec<String> {
    c.users.iter().map(|u| String::from_utf8(u.name.clone()).unwrap()).collect()
}

fn relay(c: &Channel) -> Option<String> {
    c.relay.clone().map(|r| String::from_utf8(r).unwrap())
}

#[test]
fn new_user_is_flagged_if_symmetric() {
    let u = create_new_user(b"alice", A, NatKind::Symmetric, 17);
    assert_eq!(u.name, b"alice".to_vec());
    assert_eq!(u.addr, A);
    assert_eq!(u.last_pong, 17);
    assert!(u.needs_server_relay);
    assert_eq!(u.nat_kind, NatKind::Symmetric);
    for kind in [NatKind::Cone, NatKind::Public, NatKind::Unknown] {
        assert!(!create_new_user(b"alice", A, kind, 0).needs_server_relay);
    }
}

#[test]
fn first_eligible_user_is_picked() {
    let c = channel(vec![
        user("s1", A, NatKind::Symmetric),
        user("c1", B, NatKind::Cone),
        user("c2", C, NatKind::Public),
    ]);
    assert_eq!(pick_eligible_relay(&c), Some(1));
    assert_eq!(relay(&c), Some("c1".to_string()));
    let c = channel(vec![user("s1", A, NatKind::Symmetric), user("s2", B, NatKind::Symmetric)]);
    assert_eq!(pick_eligible_relay(&c), None);
    assert_eq!(relay(&c), None);
    assert_eq!(pick_eligible_relay(&channel(vec![])), None);
}

#[test]
fn unknown_and_public_nat_can_relay() {
    for kind in [NatKind::Unknown, NatKind::Public, NatKind::Cone] {
        let mut c = Channel { users: vec![user("u", A, kind)], relay: None };
        let out = elect(&mut c);
        assert_eq!(sent(&out), vec![to(A, "MODE RELAY\n")]);
        assert_eq!(relay(&c), Some("u".to_string()));
    }
}

#[test]
fn election_of_an_empty_channel() {
    let mut c = Channel { users: vec![], relay: Some(b"ghost".to_vec()) };
    let out = elect(&mut c);
    assert!(out.is_empty());
    assert_eq!(c.relay, None);
}

#[test]
fn lone_symmetric_user_is_server_relayed() {
    let mut c = Channel { users: vec![user("s", A, NatKind::Symmetric)], relay: None };
    let out = handle_lone_user_scenario(&mut c);
    assert_eq!(sent(&out), vec![to(A, "MODE SERVER_RELAY s\n")]);
    assert_eq!(c.relay, None);
}

#[test]
fn lone_user_scenario_leaves_other_channels_alone() {
    let mut c = Channel {
        users: vec![user("a", A, NatKind::Cone), user("b", B, NatKind::Cone)],
        relay: Some(b"b".to_vec()),
    };
    let out = handle_lone_user_scenario(&mut c);
    assert!(out.is_empty());
    assert_eq!(relay(&c), Some("b".to_string()));
}

#[test]
fn election_with_relay_orders_its_notices() {
    let mut c = Channel {
        users: vec![
            user("s1", A, NatKind::Symmetric),
            user("r", B, NatKind::Cone),
            user("p", C, NatKind::Cone),
            user("s2", D, NatKind::Symmetric),
        ],
        relay: None,
    };
    let out = handle_multiple_users_scenario(&mut c);
    assert_eq!(relay(&c), Some("r".to_string()));
    assert_eq!(
        sent(&out),
        vec![
            to(B, "MODE DIRECT p 10.0.0.3:4002\n"),
            to(C, "MODE DIRECT r 10.0.0.2:4001\n"),
            to(B, "MODE RELAY\n"),
            to(A, "MODE SERVER_RELAY s1\n"),
            to(B, "MODE SERVER_RELAY s1\n"),
            to(D, "MODE SERVER_RELAY s2\n"),
            to(B, "MODE SERVER_RELAY s2\n"),
        ]
    );
    assert_eq!(
        sent(&notify_relay_about_peers(&c.users, 1)),
        vec![to(B, "MODE DIRECT p 10.0.0.3:4002\n")]
    );
    assert_eq!(
        sent(&notify_peers_about_relay(&c.users, 1)),
        vec![to(C, "MODE DIRECT r 10.0.0.2:4001\n")]
    );
    assert_eq!(sent(&[send_relay_mode_to_relay(&c.users[1])]), vec![to(B, "MODE RELAY\n")]);
}

#[test]
fn server_relayed_peer_is_announced_to_itself_and_to_the_relay() {
    let mut c = Channel {
        users: vec![user("r", A, NatKind::Cone), user("s", A, NatKind::Symmetric)],
        relay: None,
    };
    let out = elect(&mut c);
    assert_eq!(
        sent(&out),
        vec![to(A, "MODE RELAY\n"), to(A, "MODE SERVER_RELAY s\n"), to(A, "MODE SERVER_RELAY s\n")]
    );
}

#[test]
fn broadcast_reaches_every_user_in_order() {
    let users = vec![user("a", A, NatKind::Cone), user("b", B, NatKind::Symmetric)];
    assert_eq!(sent(&broadcast_to(&users, b"PING\n")), vec![to(A, "PING\n"), to(B, "PING\n")]);
    assert!(broadcast_to(&vec![], b"PING\n").is_empty());
    assert_eq!(
        sent(&notify_all_about_departure(&users, b"x", Some(C))),
        vec![to(A, "USER_LEFT x 10.0.0.3:4002\n"), to(B, "USER_LEFT x 10.0.0.3:4002\n")]
    );
    assert_eq!(
        sent(&notify_all_about_departure(&users, b"x", None)),
        vec![to(A, "USER_LEFT x 0.0.0.0:0\n"), to(B, "USER_LEFT x 0.0.0.0:0\n")]
    );
}

#[test]
fn connect_creates_channel_and_user() {
    let mut st = ServerMap::new();
    assert!(st.channel(b"srv", b"room").is_none());
    let out = handle_connect_message(&mut st, b"srv", b"room", b"alice", A, NatKind::Cone, 42);
    assert_eq!(sent(&out), vec![to(A, "MODE RELAY\n")]);
    assert_eq!(st.entries.len(), 1);
    assert_eq!(st.find(b"srv", b"room"), Some(0));
    assert_eq!(st.find(b"srv", b"other"), None);
    let c = st.channel(b"srv", b"room").unwrap();
    assert_eq!(names(c), vec!["alice"]);
    assert_eq!(c.users[0].last_pong, 42);
    assert_eq!(relay(c), Some("alice".to_string()));
}

#[test]
fn connect_of_a_member_only_refreshes() {
    let mut st = ServerMap::new();
    handle_connect_message(&mut st, b"srv", b"room", b"alice", A, NatKind::Cone, 0);
    handle_connect_message(&mut st, b"srv", b"room", b"bob", B, NatKind::Cone, 1);
    let out = handle_connect_message(&mut st, b"srv", b"room", b"alice", A, NatKind::Symmetric, 500);
    assert!(out.is_empty());
    let c = st.channel(b"srv", b"room").unwrap();
    assert_eq!(names(c), vec!["alice", "bob"]);
    assert_eq!(c.users[0].last_pong, 500);
    assert_eq!(c.users[0].nat_kind, NatKind::Cone);
    assert!(!c.users[0].needs_server_relay);
    assert_eq!(c.users[1].last_pong, 1);
    assert_eq!(relay(c), Some("alice".to_string()));
}

#[test]
fn connect_from_another_endpoint_replaces_the_session() {
    let mut st = ServerMap::new();
    handle_connect_message(&mut st, b"srv", b"room", b"alice", A, NatKind::Cone, 0);
    handle_connect_message(&mut st, b"srv", b"room", b"bob", B, NatKind::Cone, 1);
    let out = handle_connect_message(&mut st, b"srv", b"room", b"alice", C, NatKind::Cone, 2);
    let c = st.channel(b"srv", b"room").unwrap();
    assert_eq!(names(c), vec!["bob", "alice"]);
    assert_eq!(c.users[1].addr, C);
    assert_eq!(relay(c), Some("bob".to_string()));
    assert_eq!(
        sent(&out),
        vec![
            to(B, "MODE DIRECT alice 10.0.0.3:4002\n"),
            to(C, "MODE DIRECT bob 10.0.0.2:4001\n"),
            to(B, "MODE RELAY\n"),
        ]
    );
}

#[test]
fn channels_are_kept_apart() {
    let mut st = ServerMap::new();
    handle_message(&mut st, b"CONNECT srv room alice CONE", A, 0);
    handle_message(&mut st, b"CONNECT srv lobby bob CONE", B, 0);
    handle_message(&mut st, b"CONNECT other room carol CONE", C, 0);
    assert_eq!(st.entries.len(), 3);
    assert_eq!(names(st.channel(b"srv", b"room").unwrap()), vec!["alice"]);
    assert_eq!(names(st.channel(b"srv", b"lobby").unwrap()), vec!["bob"]);
    assert_eq!(names(st.channel(b"other", b"room").unwrap()), vec!["carol"]);
}

#[test]
fn channel_level_join() {
    let mut c = Channel::new();
    assert!(!update_existing_user(&mut c, b"alice", A, 5));
    let out = add_new_user(&mut c, b"alice", A, NatKind::Cone, 5);
    assert_eq!(sent(&out), vec![to(A, "MODE RELAY\n")]);
    assert!(update_existing_user(&mut c, b"alice", A, 9));
    assert_eq!(c.users[0].last_pong, 9);
    assert!(!update_existing_user(&mut c, b"alice", B, 10));
    assert!(!update_existing_user(&mut c, b"bob", A, 10));
    assert_eq!(c.users[0].last_pong, 9);
    remove_old_user_sessions(&mut c, b"alice", A);
    assert_eq!(c.users.len(), 1);
    remove_old_user_sessions(&mut c, b"alice", B);
    assert!(c.users.is_empty());
}

#[test]
fn heartbeat_refreshes_only_the_matching_session() {
    let mut st = ServerMap::new();
    handle_message(&mut st, b"CONNECT srv room alice CONE", A, 0);
    handle_message(&mut st, b"CONNECT srv room bob CONE", B, 0);
    handle_heartbeat(&mut st, b"srv", b"room", b"alice", A, 100);
    handle_heartbeat(&mut st, b"srv", b"room", b"bob", A, 200);
    handle_heartbeat(&mut st, b"srv", b"nowhere", b"bob", B, 300);
    let c = st.channel(b"srv", b"room").unwrap();
    assert_eq!(c.users[0].last_pong, 100);
    assert_eq!(c.users[1].last_pong, 0);
    assert_eq!(st.entries.len(), 1);
}

#[test]
fn pong_refreshes_every_user_at_the_endpoint() {
    let mut st = ServerMap::new();
    handle_message(&mut st, b"CONNECT srv room alice CONE", A, 0);
    handle_message(&mut st, b"CONNECT srv room bob CONE", B, 0);
    handle_message(&mut st, b"CONNECT srv lobby alice2 CONE", A, 0);
    handle_pong(&mut st, A, 77);
    assert_eq!(st.channel(b"srv", b"room").unwrap().users[0].last_pong, 77);
    assert_eq!(st.channel(b"srv", b"room").unwrap().users[1].last_pong, 0);
    assert_eq!(st.channel(b"srv", b"lobby").unwrap().users[0].last_pong, 77);
    let out = handle_message(&mut st, b"PONG\n", B, 88);
    assert!(out.is_empty());
    assert_eq!(st.channel(b"srv", b"room").unwrap().users[1].last_pong, 88);
    // A PONG with arguments is no PONG.
    handle_message(&mut st, b"PONG now", B, 99);
    assert_eq!(st.channel(b"srv", b"room").unwrap().users[1].last_pong, 88);
}

#[test]
fn disconnect_of_a_peer_keeps_the_relay() {
    let mut st = ServerMap::new();
    handle_message(&mut st, b"CONNECT srv room alice CONE", A, 0);
    handle_message(&mut st, b"CONNECT srv room bob CONE", B, 0);
    handle_message(&mut st, b"CONNECT srv room carol CONE", C, 0);
    let out = handle_disconnect_message(&mut st, b"srv", b"room", b"bob", B);
    assert_eq!(
        sent(&out),
        vec![to(A, "USER_LEFT bob 10.0.0.2:4001\n"), to(C, "USER_LEFT bob 10.0.0.2:4001\n")]
    );
    let c = st.channel(b"srv", b"room").unwrap();
    assert_eq!(names(c), vec!["alice", "carol"]);
    assert_eq!(relay(c), Some("alice".to_string()));
}

#[test]
fn disconnect_that_leaves_one_user_restores_its_mode() {
    let mut st = ServerMap::new();
    handle_message(&mut st, b"CONNECT srv room alice CONE", A, 0);
    handle_message(&mut st, b"CONNECT srv room bob CONE", B, 0);
    let out = handle_message(&mut st, b"DISCONNECT srv room bob", B, 1);
    assert_eq!(sent(&out), vec![to(A, "MODE RELAY\n"), to(A, "USER_LEFT bob 10.0.0.2:4001\n")]);

    let mut st = ServerMap::new();
    handle_message(&mut st, b"CONNECT srv room alice CONE", A, 0);
    handle_message(&mut st, b"CONNECT srv room sym SYMMETRIC", B, 0);
    let out = handle_message(&mut st, b"DISCONNECT srv room alice", A, 1);
    assert_eq!(
        sent(&out),
        vec![to(B, "MODE SERVER_RELAY sym\n"), to(B, "USER_LEFT alice 10.0.0.1:4000\n")]
    );
    assert_eq!(st.channel(b"srv", b"room").unwrap().relay, None);
}

#[test]
fn disconnect_of_the_last_user_removes_the_channel() {
    let mut st = ServerMap::new();
    handle_message(&mut st, b"CONNECT srv room alice CONE", A, 0);
    handle_message(&mut st, b"CONNECT srv lobby bob CONE", B, 0);
    let out = handle_message(&mut st, b"DISCONNECT srv room alice", A, 1);
    assert!(out.is_empty());
    assert!(st.channel(b"srv", b"room").is_none());
    assert_eq!(st.entries.len(), 1);
    assert_eq!(names(st.channel(b"srv", b"lobby").unwrap()), vec!["bob"]);
}

#[test]
fn disconnect_without_a_matching_session_does_nothing() {
    let mut st = ServerMap::new();
    handle_message(&mut st, b"CONNECT srv room alice CONE", A, 0);
    handle_message(&mut st, b"CONNECT srv room bob CONE", B, 5);
    // Another endpoint, an unknown user, an unknown channel, an unknown server:
    // nobody is removed and nobody is told that a user left.
    let attempts: Vec<(&[u8], Endpoint)> = vec![
        (b"DISCONNECT srv room alice", C),
        (b"DISCONNECT srv room alice", B),
        (b"DISCONNECT srv room carol", A),
        (b"DISCONNECT srv nowhere alice", A),
        (b"DISCONNECT other room alice", A),
    ];
    for (line, src) in attempts {
        let out = handle_message(&mut st, line, src, 9);
        assert!(out.is_empty());
        assert_eq!(st.entries.len(), 1);
        let c = st.channel(b"srv", b"room").unwrap();
        assert_eq!(names(c), vec!["alice", "bob"]);
        assert_eq!(relay(c), Some("alice".to_string()));
        assert_eq!((c.users[0].last_pong, c.users[1].last_pong), (0, 5));
    }
    let out = handle_disconnect_message(&mut st, b"srv", b"room", b"bob", A);
    assert!(out.is_empty());
    let mut c = channel(vec![user("a", A, NatKind::Cone), user("b", B, NatKind::Cone)]);
    assert!(handle_user_removal(&mut c, b"a", B).is_empty());
    assert!(handle_user_removal(&mut c, b"ghost", A).is_empty());
    assert_eq!(names(&c), vec!["a", "b"]);
    assert_eq!(relay(&c), Some("a".to_string()));
}

#[test]
fn find_and_remove_reports_relay_and_endpoint() {
    let mut c = channel(vec![user("a", A, NatKind::Cone), user("b", B, NatKind::Cone)]);
    assert_eq!(find_and_remove_user(&mut c, b"b", A), None);
    assert_eq!(find_and_remove_user(&mut c, b"b", B), Some((false, B)));
    assert_eq!(find_and_remove_user(&mut c, b"a", A), Some((true, A)));
    assert!(c.users.is_empty());
    // The relay is settled by the transition that follows.
    assert_eq!(relay(&c), Some("a".to_string()));
    let out = handle_relay_transition(&mut c, true);
    assert!(out.is_empty());
    assert_eq!(c.relay, None);
}

#[test]
fn relay_transition_is_silent_when_nothing_changed() {
    let mut c = channel(vec![
        user("a", A, NatKind::Cone),
        user("b", B, NatKind::Cone),
        user("c", C, NatKind::Cone),
    ]);
    let out = handle_relay_transition(&mut c, false);
    assert!(out.is_empty());
    assert_eq!(relay(&c), Some("a".to_string()));
    let out = handle_relay_transition(&mut c, true);
    assert_eq!(out.len(), 5);
}

#[test]
fn peer_timeout_removes_by_name() {
    let mut st = ServerMap::new();
    handle_message(&mut st, b"CONNECT srv room alice CONE", A, 0);
    handle_message(&mut st, b"CONNECT srv room bob CONE", B, 0);
    handle_message(&mut st, b"CONNECT srv room carol CONE", C, 0);
    let out = handle_peer_timeout(&mut st, b"srv", b"room", b"carol");
    assert_eq!(
        sent(&out),
        vec![to(A, "USER_LEFT carol 0.0.0.0:0\n"), to(B, "USER_LEFT carol 0.0.0.0:0\n")]
    );
    assert_eq!(names(st.channel(b"srv", b"room").unwrap()), vec!["alice", "bob"]);
    // Of a user that is no member, the members hear all the same.
    let out = handle_message(&mut st, b"PEER_TIMEOUT srv room nobody", A, 1);
    assert_eq!(
        sent(&out),
        vec![to(A, "USER_LEFT nobody 0.0.0.0:0\n"), to(B, "USER_LEFT nobody 0.0.0.0:0\n")]
    );
    // The relay times out: the next eligible member takes over.
    let out = handle_message(&mut st, b"PEER_TIMEOUT srv room alice", B, 2);
    assert_eq!(sent(&out), vec![to(B, "MODE RELAY\n"), to(B, "USER_LEFT alice 0.0.0.0:0\n")]);
    assert_eq!(relay(st.channel(b"srv", b"room").unwrap()), Some("bob".to_string()));
    let out = handle_message(&mut st, b"PEER_TIMEOUT srv room bob", B, 3);
    assert!(out.is_empty());
    assert!(st.channel(b"srv", b"room").is_none());
}

#[test]
fn relay_request_flags_the_user_and_tells_everyone() {
    let mut st = ServerMap::new();
    handle_message(&mut st, b"CONNECT srv room alice CONE", A, 0);
    handle_message(&mut st, b"CONNECT srv room bob CONE", B, 0);
    handle_message(&mut st, b"CONNECT srv room carol CONE", C, 0);
    let out = handle_relay_request(&mut st, b"srv", b"room", b"carol");
    assert_eq!(
        sent(&out),
        vec![
            to(A, "MODE SERVER_RELAY carol\n"),
            to(B, "MODE SERVER_RELAY carol\n"),
            to(C, "MODE SERVER_RELAY carol\n"),
        ]
    );
    let c = st.channel(b"srv", b"room").unwrap();
    assert!(c.users[2].needs_server_relay);
    assert_eq!(c.users[2].nat_kind, NatKind::Cone);
    assert_eq!(relay(c), Some("alice".to_string()));
    assert!(handle_relay_request(&mut st, b"srv", b"nowhere", b"carol").is_empty());
}

#[test]
fn relay_request_for_the_relay_elects_anew() {
    let mut st = ServerMap::new();
    handle_message(&mut st, b"CONNECT srv room alice CONE", A, 0);
    handle_message(&mut st, b"CONNECT srv room bob CONE", B, 0);
    let out = handle_message(&mut st, b"REQUEST_RELAY srv room alice", B, 1);
    assert_eq!(
        sent(&out),
        vec![
            to(A, "MODE SERVER_RELAY alice\n"),
            to(B, "MODE SERVER_RELAY alice\n"),
            to(B, "MODE RELAY\n"),
            to(A, "MODE SERVER_RELAY alice\n"),
            to(B, "MODE SERVER_RELAY alice\n"),
        ]
    );
    assert_eq!(relay(st.channel(b"srv", b"room").unwrap()), Some("bob".to_string()));
    // With no member left that can relay, the server relays.
    let out = handle_message(&mut st, b"REQUEST_RELAY srv room bob", A, 2);
    assert_eq!(st.channel(b"srv", b"room").unwrap().relay, None);
    assert_eq!(
        sent(&out),
        vec![
            to(A, "MODE SERVER_RELAY bob\n"),
            to(B, "MODE SERVER_RELAY bob\n"),
            to(A, "MODE SERVER_RELAY alice\n"),
            to(B, "MODE SERVER_RELAY alice\n"),
            to(A, "MODE SERVER_RELAY bob\n"),
            to(B, "MODE SERVER_RELAY bob\n"),
        ]
    );
}

#[test]
fn nat_probe_is_answered_with_the_observed_endpoint() {
    let mut st = ServerMap::new();
    let out = handle_message(&mut st, b"NAT_PROBE 1\n", A, 0);
    assert_eq!(sent(&out), vec![to(A, "NAT_SEEN 10.0.0.1:4000\n")]);
    let out = handle_message(&mut st, b"NAT_PROBE 2\n", B, 0);
    assert_eq!(sent(&out), vec![to(B, "NAT_SEEN 10.0.0.2:4001\n")]);
    assert!(handle_message(&mut st, b"NAT_PROBE", A, 0).is_empty());
    assert!(st.entries.is_empty());
}

#[test]
fn unknown_or_short_lines_are_dropped() {
    let mut st = ServerMap::new();
    handle_message(&mut st, b"CONNECT srv room alice CONE", A, 0);
    for bad in [
        &b""[..],
        b"\n",
        b"HELLO srv room alice",
        b"CONNECT srv room",
        b"HB srv room",
        b"DISCONNECT srv room",
        b"PEER_TIMEOUT srv room",
        b"REQUEST_RELAY srv room",
        b"DATA alice",
        b"connect srv room bob",
        b"MODE RELAY",
    ] {
        let out = handle_message(&mut st, bad, B, 50);
        assert!(out.is_empty());
        assert_eq!(st.entries.len(), 1);
        let c = st.channel(b"srv", b"room").unwrap();
        assert_eq!(names(c), vec!["alice"]);
        assert_eq!(c.users[0].last_pong, 0);
    }
}

#[test]
fn connect_without_nat_kind_is_unknown() {
    assert_eq!(parse_nat_kind(b"SYMMETRIC"), NatKind::Symmetric);
    assert_eq!(parse_nat_kind(b"CONE"), NatKind::Cone);
    assert_eq!(parse_nat_kind(b"PUBLIC"), NatKind::Public);
    assert_eq!(parse_nat_kind(b"UNKNOWN"), NatKind::Unknown);
    assert_eq!(parse_nat_kind(b"cone"), NatKind::Unknown);
    assert_eq!(parse_nat_kind(b""), NatKind::Unknown);
    let mut st = ServerMap::new();
    handle_message(&mut st, b"CONNECT srv room alice", A, 0);
    handle_message(&mut st, b"CONNECT srv room bob PUBLIC extra tokens", B, 0);
    let c = st.channel(b"srv", b"room").unwrap();
    assert_eq!(c.users[0].nat_kind, NatKind::Unknown);
    assert_eq!(c.users[1].nat_kind, NatKind::Public);
}

#[test]
fn every_line_of_a_datagram_is_applied() {
    let mut st = ServerMap::new();
    let out = handle_message(&mut st, b"NAT_PROBE 1\nCONNECT srv room alice CONE\n\nHB srv room alice\n", A, 7);
    assert_eq!(sent(&out), vec![to(A, "NAT_SEEN 10.0.0.1:4000\n"), to(A, "MODE RELAY\n")]);
    assert_eq!(names(st.channel(b"srv", b"room").unwrap()), vec!["alice"]);
    let out = handle_line(&mut st, b"CONNECT srv room bob CONE", B, 8);
    assert_eq!(out.len(), 3);
}

fn relayed_channel() -> ServerMap {
    let mut st = ServerMap::new();
    handle_message(&mut st, b"CONNECT srv room alice CONE", A, 0);
    handle_message(&mut st, b"CONNECT srv room bob CONE", B, 0);
    handle_message(&mut st, b"CONNECT srv room carol SYMMETRIC", C, 0);
    handle_message(&mut st, b"CONNECT srv room dave SYMMETRIC", D, 0);
    st
}

#[test]
fn data_mirrored_by_the_relay_goes_to_server_relayed_members() {
    let st = relayed_channel();
    let out = handle_data_from_client(&st, b"DATA bob hi", A);
    assert_eq!(sent(&out), vec![to(C, "DATA bob hi\n"), to(D, "DATA bob hi\n")]);
    // What the relay mirrors of a server-relayed member does not go back to it.
    let out = handle_data_from_client(&st, b"DATA carol hi", A);
    assert_eq!(sent(&out), vec![to(D, "DATA carol hi\n")]);
    let c = st.channel(b"srv", b"room").unwrap();
    assert_eq!(relay_endpoint(c), Some(A));
    assert_eq!(data_recipients(c, b"alice", A), Some(vec![C, D]));
}

#[test]
fn data_of_a_server_relayed_member_goes_to_everyone_else() {
    let mut st = relayed_channel();
    let out = handle_message(&mut st, b"DATA carol hello all\n", C, 1);
    assert_eq!(
        sent(&out),
        vec![to(A, "DATA carol hello all\n"), to(B, "DATA carol hello all\n"), to(D, "DATA carol hello all\n")]
    );
}

#[test]
fn data_of_a_direct_member_goes_to_the_relay() {
    let st = relayed_channel();
    let out = handle_data_from_client(&st, b"DATA bob hi", B);
    assert_eq!(sent(&out), vec![to(A, "DATA bob hi\n")]);
    let c = st.channel(b"srv", b"room").unwrap();
    assert_eq!(data_recipients(c, b"bob", B), Some(vec![A]));
}

#[test]
fn data_of_a_stranger_goes_nowhere() {
    let st = relayed_channel();
    assert!(handle_data_from_client(&st, b"DATA bob hi", Endpoint { ip: 1, port: 1 }).is_empty());
    assert!(handle_data_from_client(&st, b"DATA mallory hi", B).is_empty());
    assert!(handle_data_from_client(&st, b"DATA bob", B).is_empty());
    let c = st.channel(b"srv", b"room").unwrap();
    assert_eq!(data_recipients(c, b"mallory", B), None);
    let all_symmetric = channel(vec![user("s1", A, NatKind::Symmetric), user("s2", B, NatKind::Symmetric)]);
    assert_eq!(relay_endpoint(&all_symmetric), None);
    assert_eq!(data_recipients(&all_symmetric, b"s1", A), Some(vec![B]));
}

#[test]
fn data_is_routed_in_the_first_channel_that_knows_the_sender() {
    let mut st = ServerMap::new();
    handle_message(&mut st, b"CONNECT srv one alice SYMMETRIC", A, 0);
    handle_message(&mut st, b"CONNECT srv one bob CONE", B, 0);
    handle_message(&mut st, b"CONNECT srv two alice SYMMETRIC", A, 0);
    handle_message(&mut st, b"CONNECT srv two carol CONE", C, 0);
    let out = handle_data_from_client(&st, b"DATA alice hi", A);
    assert_eq!(sent(&out), vec![to(B, "DATA alice hi\n")]);
}

#[test]
fn expiry_is_strictly_after_forty_seconds() {
    let fresh = create_new_user(b"a", A, NatKind::Cone, 1_000);
    assert!(!fresh.is_expired(1_000));
    assert!(!fresh.is_expired(0));
    assert!(!fresh.is_expired(41_000));
    assert!(fresh.is_expired(41_001));
    let mut users = vec![
        create_new_user(b"a", A, NatKind::Cone, 0),
        create_new_user(b"b", B, NatKind::Cone, 1),
        create_new_user(b"c", C, NatKind::Cone, 0),
    ];
    let gone = remove_expired(&mut users, 40_001);
    assert_eq!(users.len(), 1);
    assert_eq!(users[0].name, b"b".to_vec());
    assert_eq!(gone.len(), 2);
    assert_eq!(gone[0].name, b"a".to_vec());
    assert_eq!(gone[1].name, b"c".to_vec());
}

#[test]
fn sweep_pings_a_lone_user_that_can_relay() {
    let mut st = ServerMap::new();
    handle_message(&mut st, b"CONNECT srv room alice CONE", A, 0);
    handle_message(&mut st, b"CONNECT srv lobby sym SYMMETRIC", B, 0);
    handle_message(&mut st, b"CONNECT srv hall carol CONE", C, 0);
    handle_message(&mut st, b"CONNECT srv hall dave CONE", D, 0);
    let (pings, cleanup, notices) = collect_heartbeat_data(&mut st, 20_000);
    assert_eq!(pings, vec![A]);
    assert!(cleanup.is_empty());
    assert_eq!(sent(&notices), vec![to(B, "MODE SERVER_RELAY sym\n")]);
}

#[test]
fn sweep_elects_anew_when_the_relay_expired() {
    let mut st = ServerMap::new();
    handle_message(&mut st, b"CONNECT srv room alice CONE", A, 0);
    handle_message(&mut st, b"CONNECT srv room bob CONE", B, 0);
    handle_message(&mut st, b"CONNECT srv room carol CONE", C, 0);
    handle_message(&mut st, b"HB srv room bob", B, 30_000);
    handle_message(&mut st, b"HB srv room carol", C, 30_000);
    let (pings, cleanup, notices) = collect_heartbeat_data(&mut st, 40_001);
    assert!(pings.is_empty());
    assert!(cleanup.is_empty());
    assert_eq!(
        sent(&notices),
        vec![
            to(B, "USER_LEFT alice 10.0.0.1:4000\n"),
            to(C, "USER_LEFT alice 10.0.0.1:4000\n"),
            to(B, "MODE DIRECT carol 10.0.0.3:4002\n"),
            to(C, "MODE DIRECT bob 10.0.0.2:4001\n"),
            to(B, "MODE RELAY\n"),
        ]
    );
    assert_eq!(relay(st.channel(b"srv", b"room").unwrap()), Some("bob".to_string()));
}

#[test]
fn sweep_that_leaves_one_user_tells_it_and_pings_it() {
    let mut st = ServerMap::new();
    handle_message(&mut st, b"CONNECT srv room alice CONE", A, 0);
    handle_message(&mut st, b"CONNECT srv room bob CONE", B, 0);
    handle_message(&mut st, b"HB srv room alice", A, 30_000);
    let (pings, cleanup, notices) = collect_heartbeat_data(&mut st, 45_000);
    assert_eq!(pings, vec![A]);
    assert!(cleanup.is_empty());
    assert_eq!(sent(&notices), vec![to(A, "USER_LEFT bob 10.0.0.2:4001\n"), to(A, "MODE RELAY\n")]);
}

#[test]
fn sweep_lists_emptied_channels_and_cleanup_removes_them() {
    let mut st = ServerMap::new();
    handle_message(&mut st, b"CONNECT srv room alice CONE", A, 0);
    handle_message(&mut st, b"CONNECT srv lobby bob CONE", B, 0);
    handle_message(&mut st, b"CONNECT srv hall carol CONE", C, 0);
    handle_message(&mut st, b"HB srv lobby bob", B, 30_000);
    let (pings, cleanup, notices) = collect_heartbeat_data(&mut st, 50_000);
    assert_eq!(pings, vec![B]);
    assert!(notices.is_empty());
    assert_eq!(
        cleanup,
        vec![(b"srv".to_vec(), b"room".to_vec()), (b"srv".to_vec(), b"hall".to_vec())]
    );
    // Until the cleanup the emptied channels stay.
    assert_eq!(st.entries.len(), 3);
    assert!(st.channel(b"srv", b"room").unwrap().users.is_empty());
    // A user that joins in between keeps its channel.
    handle_message(&mut st, b"CONNECT srv hall dave CONE", D, 50_001);
    cleanup_empty_channels(&mut st, &cleanup);
    assert_eq!(st.entries.len(), 2);
    assert!(st.channel(b"srv", b"room").is_none());
    assert_eq!(names(st.channel(b"srv", b"lobby").unwrap()), vec!["bob"]);
    assert_eq!(names(st.channel(b"srv", b"hall").unwrap()), vec!["dave"]);
}

#[test]
fn sweep_of_one_channel() {
    let mut c = channel(vec![user("a", A, NatKind::Cone), user("s", B, NatKind::Symmetric)]);
    c.users[1].last_pong = 10_000;
    let mut pings = vec![D];
    let mut notices = Vec::new();
    let emptied = process_channel_heartbeat(&mut c, 45_000, &mut pings, &mut notices);
    assert!(!emptied);
    assert_eq!(pings, vec![D]);
    assert_eq!(
        sent(&notices),
        vec![to(B, "USER_LEFT a 10.0.0.1:4000\n"), to(B, "MODE SERVER_RELAY s\n")]
    );
    assert_eq!(c.relay, None);
    let emptied = process_channel_heartbeat(&mut c, 60_000, &mut pings, &mut notices);
    assert!(emptied);
    assert_eq!(notices.len(), 2);
}

#[test]
fn parts_of_the_election() {
    let users = vec![
        user("r", A, NatKind::Cone),
        user("s", B, NatKind::Symmetric),
        user("p", C, NatKind::Cone),
    ];
    assert_eq!(
        sent(&notify_server_relayed_peers(&users, 0)),
        vec![to(B, "MODE SERVER_RELAY s\n"), to(A, "MODE SERVER_RELAY s\n")]
    );
    assert_eq!(
        sent(&notify_all_server_relayed(&users[..2].to_vec())),
        vec![
            to(A, "MODE SERVER_RELAY r\n"),
            to(B, "MODE SERVER_RELAY r\n"),
            to(A, "MODE SERVER_RELAY s\n"),
            to(B, "MODE SERVER_RELAY s\n"),
        ]
    );
    assert_eq!(sent(&[notify_lone_user(C)]), vec![to(C, "MODE RELAY\n")]);
    let mut c = Channel { users, relay: None };
    mark_relay_in_channel(&mut c, 2);
    assert_eq!(relay(&c), Some("p".to_string()));
    assert_eq!(names(&c), vec!["r", "s", "p"]);
}

#[test]
fn channel_copies_and_defaults() {
    let empty = Channel::default();
    assert!(empty.users.is_empty());
    assert_eq!(empty.relay, None);
    let c = channel(vec![user("a", A, NatKind::Cone), user("s", B, NatKind::Symmetric)]);
    let copy = c.clone();
    assert_eq!(names(&copy), vec!["a", "s"]);
    assert_eq!(relay(&copy), Some("a".to_string()));
    assert_eq!(copy.users[1].addr, B);
    assert!(copy.users[1].needs_server_relay);
    let u = c.users[1].clone();
    assert_eq!(u.name, b"s".to_vec());
    assert_eq!(u.nat_kind, NatKind::Symmetric);
}

#[test]
fn remaining_users_of_a_channel() {
    let mut st = ServerMap::new();
    handle_message(&mut st, b"CONNECT srv room alice CONE", A, 3);
    handle_message(&mut st, b"CONNECT srv room bob CONE", B, 4);
    let users = st.get_remaining_users(b"srv", b"room");
    assert_eq!(users.len(), 2);
    assert_eq!(users[0].name, b"alice".to_vec());
    assert_eq!(users[1].last_pong, 4);
    assert!(st.get_remaining_users(b"srv", b"nowhere").is_empty());
    st.drop_if_empty(0);
    assert_eq!(st.entries.len(), 1);
}

#[test]
fn channel_level_operations() {
    let mut c = channel(vec![
        user("a", A, NatKind::Cone),
        user("b", B, NatKind::Cone),
        user("c", C, NatKind::Cone),
    ]);
    assert_eq!(find_session(&c, b"b", B), Some(1));
    assert_eq!(find_session(&c, b"b", A), None);
    assert!(relay_is(&c.relay, b"a"));
    assert!(!relay_is(&c.relay, b"b"));
    assert!(!relay_is(&None, b"a"));
    assert!(same_relay(&None, &None));
    assert!(same_relay(&Some(b"a".to_vec()), &c.relay));
    assert!(!same_relay(&Some(b"b".to_vec()), &c.relay));
    assert!(!same_relay(&None, &c.relay));
    assert!(!same_relay(&c.relay, &None));

    refresh_endpoint(&mut c, B, 9);
    assert_eq!(c.users[1].last_pong, 9);
    assert_eq!(c.users[0].last_pong, 0);

    let out = mark_server_relayed(&mut c, b"c");
    assert_eq!(out.len(), 3);
    assert!(c.users[2].needs_server_relay);

    let out = handle_user_removal(&mut c, b"b", B);
    assert_eq!(
        sent(&out),
        vec![to(A, "USER_LEFT b 10.0.0.2:4001\n"), to(C, "USER_LEFT b 10.0.0.2:4001\n")]
    );
    assert_eq!(names(&c), vec!["a", "c"]);

    let out = remove_timed_out_peer(&mut c, b"a");
    assert_eq!(sent(&out), vec![to(C, "MODE RELAY\n"), to(C, "USER_LEFT a 0.0.0.0:0\n")]);
    assert_eq!(relay(&c), Some("c".to_string()));

    let out = handle_disconnect_notifications(&mut c, false, None, b"ghost");
    assert!(out.is_empty());
    let out = handle_disconnect_notifications(&mut c, true, None, b"ghost");
    assert!(out.is_empty());
    assert_eq!(relay(&c), Some("c".to_string()));
    let out = handle_disconnect_notifications(&mut c, false, Some(D), b"ghost");
    assert_eq!(sent(&out), vec![to(C, "MODE RELAY\n"), to(C, "USER_LEFT ghost 10.0.0.4:4003\n")]);

    let mut users = vec![user("x", A, NatKind::Cone), user("y", B, NatKind::Cone), user("x", C, NatKind::Cone)];
    remove_sessions(&mut users, b"x", Some(C));
    assert_eq!(users.len(), 2);
    assert_eq!(users[0].name, b"y".to_vec());
    assert_eq!(users[1].addr, C);
    remove_sessions(&mut users, b"x", None);
    assert_eq!(users.len(), 1);
}
