use p2p_vpn::crypto::{decrypt_message, derive_key, encrypt_message};
use p2p_vpn::network::{Network, NetworkConfig};
use p2p_vpn::peers::{Endpoint, PeerInfo, PeerTable};
use p2p_vpn::session::{
    Next, Reaction, Session, Step, TunRead, UdpRead, ANNOUNCE_INTERVAL,
};
use p2p_vpn::wire::{ControlMessage, Role};

fn at(last: u8) -> Endpoint {
    Endpoint::V4 { octets: [192, 0, 2, last], port: 51820 }
}

fn network(owner: &str, role: Role, ip: &str) -> Network {
    Network {
        name: "home".to_string(),
        owner: owner.to_string(),
        my_role: role,
        my_virtual_ip: ip.to_string(),
        config: NetworkConfig {
            key: derive_key("home", "secret"),
            subnet_ip: ip.to_string(),
            subnet_mask: 24,
            port: 51820,
        },
        peers: PeerTable::new(),
    }
}

fn key() -> [u8; 32] {
    derive_key("home", "secret")
}

fn peer(last: u8, name: &str) -> PeerInfo {
    PeerInfo {
        addr: at(last),
        user_name: name.to_string(),
        role: Role::Client,
        last_seen: 0,
        rtt: None,
    }
}

fn table(members: &[(&str, u8)]) -> PeerTable {
    let mut t = PeerTable::new();
    for (ip, last) in members {
        t.insert(ip.to_string(), peer(*last, ip));
    }
    t
}

fn packet(src: [u8; 4], dst: [u8; 4], len: usize) -> Vec<u8> {
    let mut p = vec![0u8; len];
    p[0] = 0x45;
    p[12..16].copy_from_slice(&src);
    p[16..20].copy_from_slice(&dst);
    p
}

fn announcement(name: &str, ip: &str, role: Role) -> Vec<u8> {
    ControlMessage::PeerAnnounce {
        user_name: name.to_string(),
        network_name: "home".to_string(),
        role,
        virtual_ip: ip.to_string(),
    }
    .encode()
}

fn datagram(data: &[u8], src: Endpoint) -> UdpRead<'_> {
    UdpRead::Datagram { data, src }
}

/// The message in the only datagram of a step, and where it goes.
fn sent(step: &Step) -> (Endpoint, ControlMessage) {
    assert_eq!(step.sends.len(), 1);
    let plain = decrypt_message(&key(), &step.sends[0].datagram).unwrap();
    (step.sends[0].to, ControlMessage::decode(&plain).unwrap())
}

fn quiet(step: &Step) -> bool {
    step.sends.is_empty() && step.to_tun.is_none()
}

#[test]
fn stopping_ends_the_loop() {
    let mut s = Session::new(&network("ann", Role::Creator, "10.0.0.1"), 0);
    let t = table(&[("10.0.0.2", 2)]);
    let step = s.begin_round(&t, true, 10 * ANNOUNCE_INTERVAL);
    assert_eq!(step.next, Next::Exit);
    assert!(quiet(&step));
}

#[test]
fn announcement_waits_two_seconds() {
    let mut s = Session::new(&network("ann", Role::Creator, "10.0.0.1"), 100);
    let t = table(&[("10.0.0.2", 2), ("10.0.0.3", 3)]);
    let early = s.begin_round(&t, false, 2_000_000_099);
    assert_eq!(early.next, Next::ReadTun);
    assert!(quiet(&early));

    let due = s.begin_round(&t, false, 2_000_000_100);
    assert_eq!(due.next, Next::ReadTun);
    assert!(due.to_tun.is_none());
    assert_eq!(due.sends.len(), 2);
    assert_eq!(due.sends[0].to, at(2));
    assert_eq!(due.sends[1].to, at(3));
    assert_eq!(due.sends[0].datagram, due.sends[1].datagram);
    let plain = decrypt_message(&key(), &due.sends[0].datagram).unwrap();
    match ControlMessage::decode(&plain).unwrap() {
        ControlMessage::PeerAnnounce { user_name, network_name, role, virtual_ip } => {
            assert_eq!(user_name, "ann");
            assert_eq!(network_name, "home");
            assert_eq!(role, Role::Creator);
            assert_eq!(virtual_ip, "10.0.0.1");
        }
        _ => panic!("not an announcement"),
    }

    let again = s.begin_round(&t, false, 4_000_000_099);
    assert!(quiet(&again));
    assert_eq!(s.begin_round(&t, false, 4_000_000_100).sends.len(), 2);
}

#[test]
fn clock_that_stands_still_announces_nothing() {
    let mut s = Session::new(&network("ann", Role::Creator, "10.0.0.1"), ANNOUNCE_INTERVAL);
    assert!(quiet(&s.begin_round(&table(&[("10.0.0.2", 2)]), false, 0)));
}

#[test]
fn packets_go_to_the_member_they_name() {
    let t = table(&[("10.0.0.2", 2), ("10.0.0.3", 3)]);
    let p = packet([10, 0, 0, 1], [10, 0, 0, 3], 60);
    assert_eq!(Session::route_packet(&t, &p), vec![at(3)]);
    let nobody = packet([10, 0, 0, 1], [10, 0, 0, 9], 60);
    assert!(Session::route_packet(&t, &nobody).is_empty());
}

#[test]
fn broadcasts_go_to_all() {
    let t = table(&[("10.0.0.2", 2), ("unknown", 7)]);
    for dst in [[10, 0, 0, 255], [255, 255, 255, 255], [1, 2, 3, 255]] {
        let p = packet([10, 0, 0, 1], dst, 20);
        assert_eq!(Session::route_packet(&t, &p), vec![at(2), at(7)]);
    }
    for dst in [[255, 255, 255, 25], [10, 0, 0, 55], [10, 0, 255, 5]] {
        let p = packet([10, 0, 0, 1], dst, 20);
        assert!(Session::route_packet(&t, &p).is_empty());
    }
}

#[test]
fn packets_without_a_header_go_nowhere() {
    let t = table(&[("10.0.0.2", 2)]);
    assert!(Session::route_packet(&t, &[255u8; 19]).is_empty());
    assert_eq!(Session::route_packet(&t, &[255u8; 20]), vec![at(2)]);
}

#[test]
fn tunnel_reads() {
    let s = Session::new(&network("ann", Role::Creator, "10.0.0.1"), 0);
    let t = table(&[("10.0.0.2", 2), ("10.0.0.3", 3)]);

    let p = packet([10, 0, 0, 1], [10, 0, 0, 2], 84);
    let step = s.handle_tun(&t, TunRead::Packet(&p));
    assert_eq!(step.next, Next::ReadTun);
    assert!(step.to_tun.is_none());
    assert_eq!(step.sends.len(), 1);
    assert_eq!(step.sends[0].to, at(2));
    let plain = decrypt_message(&key(), &step.sends[0].datagram).unwrap();
    assert_eq!(plain[..84], p[..]);

    let all = packet([10, 0, 0, 1], [10, 0, 0, 255], 84);
    let step = s.handle_tun(&t, TunRead::Packet(&all));
    assert_eq!(step.sends.len(), 2);
    assert_ne!(step.sends[0].datagram, step.sends[1].datagram);

    let short = s.handle_tun(&t, TunRead::Packet(&p[..19]));
    assert_eq!(short.next, Next::ReadTun);
    assert!(quiet(&short));

    let empty = s.handle_tun(&t, TunRead::Packet(&[]));
    assert_eq!(empty.next, Next::ReadUdp);
    assert!(quiet(&empty));

    let blocked = s.handle_tun(&t, TunRead::WouldBlock);
    assert_eq!(blocked.next, Next::ReadUdp);
    assert!(quiet(&blocked));

    let failed = s.handle_tun(&t, TunRead::Failed);
    assert_eq!(failed.next, Next::Exit);
    assert!(quiet(&failed));
}

#[test]
fn socket_reads_without_a_datagram() {
    let mut s = Session::new(&network("ann", Role::Creator, "10.0.0.1"), 0);
    let mut t = PeerTable::new();
    let blocked = s.handle_udp(&mut t, UdpRead::WouldBlock, 1);
    assert_eq!(blocked.next, Next::Sleep);
    assert!(quiet(&blocked));
    let failed = s.handle_udp(&mut t, UdpRead::Failed, 1);
    assert_eq!(failed.next, Next::Exit);
    assert!(quiet(&failed));
    assert_eq!(t.len(), 0);
}

#[test]
fn datagrams_under_another_key_are_dropped() {
    let mut s = Session::new(&network("ann", Role::Creator, "10.0.0.1"), 0);
    let mut t = PeerTable::new();
    let other = derive_key("home", "guess");
    let data = encrypt_message(&other, &announcement("eve", "10.0.0.6", Role::Creator));
    for read in [&data[..], &data[..5], &[]] {
        let step = s.handle_udp(&mut t, datagram(read, at(6)), 1);
        assert_eq!(step.next, Next::ReadUdp);
        assert!(quiet(&step));
    }
    assert_eq!(t.len(), 0);
}

#[test]
fn two_members_come_to_know_each_other() {
    let mut ann = Session::new(&network("ann", Role::Creator, "10.0.0.1"), 0);
    let mut bob = Session::new(&network("", Role::Client, "10.0.0.2"), 0);
    let mut ann_table = PeerTable::new();
    let mut bob_table = table(&[("unknown", 1)]);

    let hello = bob.begin_round(&bob_table, false, ANNOUNCE_INTERVAL);
    assert_eq!(hello.sends.len(), 1);
    assert_eq!(hello.sends[0].to, at(1));

    let data = &hello.sends[0].datagram;
    let ping = ann.handle_udp(&mut ann_table, datagram(data, at(2)), 1_000);
    assert_eq!(ping.next, Next::ReadUdp);
    let (to, message) = sent(&ping);
    assert_eq!(to, at(2));
    let ping_id = match message {
        ControlMessage::Ping { id, virtual_ip } => {
            assert_eq!(virtual_ip, "10.0.0.1");
            id
        }
        _ => panic!("not a ping"),
    };
    let entry = ann_table.get(&"10.0.0.2".to_string()).unwrap();
    assert_eq!(entry.addr, at(2));
    assert_eq!(entry.user_name, "");
    assert_eq!(entry.role, Role::Client);
    assert_eq!(entry.last_seen, 1_000);
    assert_eq!(entry.rtt, None);

    let data = &ping.sends[0].datagram;
    let pong = bob.handle_udp(&mut bob_table, datagram(data, at(1)), 2_000);
    let (to, message) = sent(&pong);
    assert_eq!(to, at(1));
    match message {
        ControlMessage::Pong { id, virtual_ip } => {
            assert_eq!(id, ping_id);
            assert_eq!(virtual_ip, "10.0.0.2");
        }
        _ => panic!("not a pong"),
    }
    assert_eq!(bob_table.len(), 1);

    let data = &pong.sends[0].datagram;
    let done = ann.handle_udp(&mut ann_table, datagram(data, at(2)), 43_000);
    assert_eq!(done.next, Next::ReadUdp);
    assert!(quiet(&done));
    assert_eq!(ann_table.get(&"10.0.0.2".to_string()).unwrap().rtt, Some(42_000));

    let repeated = ann.handle_udp(&mut ann_table, datagram(data, at(2)), 99_000);
    assert!(quiet(&repeated));
    assert_eq!(ann_table.get(&"10.0.0.2".to_string()).unwrap().rtt, Some(42_000));

    let p = packet([10, 0, 0, 1], [10, 0, 0, 2], 20);
    assert_eq!(Session::route_packet(&ann_table, &p), vec![at(2)]);
}

#[test]
fn packets_are_delivered_with_the_tag_behind_them() {
    let ann = Session::new(&network("ann", Role::Creator, "10.0.0.1"), 0);
    let mut bob = Session::new(&network("", Role::Client, "10.0.0.2"), 0);
    let mut bob_table = PeerTable::new();
    let p = packet([10, 0, 0, 1], [10, 0, 0, 2], 84);
    let out = ann.handle_tun(&table(&[("10.0.0.2", 2)]), TunRead::Packet(&p));
    let data = &out.sends[0].datagram;

    let step = bob.handle_udp(&mut bob_table, datagram(data, at(1)), 7);
    assert_eq!(step.next, Next::ReadUdp);
    assert!(step.sends.is_empty());
    let written = step.to_tun.unwrap();
    assert_eq!(written[..84], p[..]);
    assert_eq!(written[84..], data[data.len() - 16..]);

    let stranger = bob_table.get(&"10.0.0.1".to_string()).unwrap();
    assert_eq!(stranger.user_name, "unknown");
    assert_eq!(stranger.addr, at(1));
    assert_eq!(stranger.role, Role::Client);
    assert_eq!(stranger.last_seen, 7);
    let back = packet([10, 0, 0, 2], [10, 0, 0, 1], 20);
    assert_eq!(Session::route_packet(&bob_table, &back), vec![at(1)]);
}

#[test]
fn packets_change_no_known_member() {
    let mut s = Session::new(&network("ann", Role::Creator, "10.0.0.1"), 0);
    let mut t = table(&[("10.0.0.2", 2)]);
    let p = packet([10, 0, 0, 2], [10, 0, 0, 1], 40);
    let r = s.handle_plain(&mut t, &p, at(9), 50, 1);
    assert!(matches!(r, Reaction::Deliver));
    assert_eq!(t.len(), 1);
    let known = t.get(&"10.0.0.2".to_string()).unwrap();
    assert_eq!(known.addr, at(2));
    assert_eq!(known.last_seen, 0);
}

#[test]
fn plaintexts_too_short_for_a_header_are_dropped() {
    let mut s = Session::new(&network("ann", Role::Creator, "10.0.0.1"), 0);
    let mut t = PeerTable::new();
    let r = s.handle_plain(&mut t, &[0x45; 19], at(9), 50, 1);
    assert!(matches!(r, Reaction::Nothing));
    assert_eq!(t.len(), 0);
    let r = s.handle_plain(&mut t, &[0x45; 20], at(9), 50, 1);
    assert!(matches!(r, Reaction::Deliver));
    assert!(t.get(&"69.69.69.69".to_string()).is_some());
}

#[test]
fn repeated_names_are_numbered() {
    let mut s = Session::new(&network("ann", Role::Creator, "10.0.0.1"), 0);
    let mut t = PeerTable::new();
    for (i, ip) in ["10.0.0.2", "10.0.0.3", "10.0.0.4"].iter().enumerate() {
        let plain = announcement("bob", ip, Role::Client);
        s.handle_plain(&mut t, &plain, at(i as u8), 0, i as u64);
    }
    assert_eq!(t.entry(0).1.user_name, "bob");
    assert_eq!(t.entry(1).1.user_name, "bob_1");
    assert_eq!(t.entry(2).1.user_name, "bob_2");

    let again = announcement("bob", "10.0.0.2", Role::Client);
    s.handle_plain(&mut t, &again, at(0), 0, 9);
    assert_eq!(t.len(), 3);
    assert_eq!(t.entry(0).1.user_name, "bob_3");
}

#[test]
fn ping_takes_the_given_number() {
    let mut s = Session::new(&network("ann", Role::Creator, "10.0.0.1"), 0);
    let mut t = PeerTable::new();
    let plain = announcement("bob", "10.0.0.2", Role::Creator);
    match s.handle_plain(&mut t, &plain, at(2), 0, 0xfeed) {
        Reaction::Send(ControlMessage::Ping { id, virtual_ip }) => {
            assert_eq!(id, 0xfeed);
            assert_eq!(virtual_ip, "10.0.0.1");
        }
        other => panic!("{other:?}"),
    }
    assert_eq!(t.entry(0).1.role, Role::Creator);
}

#[test]
fn announcing_again_moves_a_member_and_forgets_its_time() {
    let mut s = Session::new(&network("ann", Role::Creator, "10.0.0.1"), 0);
    let mut t = PeerTable::new();
    s.handle_plain(&mut t, &announcement("bob", "10.0.0.2", Role::Client), at(2), 10, 1);
    let pong = ControlMessage::Pong { id: 1, virtual_ip: "10.0.0.2".to_string() }.encode();
    s.handle_plain(&mut t, &pong, at(2), 25, 2);
    assert_eq!(t.entry(0).1.rtt, Some(15));
    s.handle_plain(&mut t, &announcement("bob", "10.0.0.2", Role::Client), at(5), 30, 3);
    assert_eq!(t.len(), 1);
    assert_eq!(t.entry(0).1.addr, at(5));
    assert_eq!(t.entry(0).1.rtt, None);
    assert_eq!(t.entry(0).1.last_seen, 30);
}

#[test]
fn pong_for_no_ping_does_nothing() {
    let mut s = Session::new(&network("ann", Role::Creator, "10.0.0.1"), 0);
    let mut t = table(&[("10.0.0.2", 2)]);
    let pong = ControlMessage::Pong { id: 1, virtual_ip: "10.0.0.2".to_string() }.encode();
    let r = s.handle_plain(&mut t, &pong, at(2), 25, 2);
    assert!(matches!(r, Reaction::Nothing));
    assert_eq!(t.entry(0).1.rtt, None);
}

#[test]
fn ipv6_addresses_are_kept_whole() {
    let far = Endpoint::V6 {
        segments: [0x2001, 0xdb8, 0, 0, 0, 0, 0, 1],
        port: 51820,
        flow_info: 3,
        scope_id: 4,
    };
    let mut s = Session::new(&network("ann", Role::Creator, "10.0.0.1"), 0);
    let mut t = PeerTable::new();
    s.handle_plain(&mut t, &announcement("bob", "10.0.0.2", Role::Client), far, 0, 1);
    assert_eq!(t.addresses(), vec![far]);
}
