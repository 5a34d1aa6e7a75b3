use p2p_vpn::peers::{Endpoint, PeerInfo, PeerTable};
use p2p_vpn::wire::Role;

fn at(last: u8) -> Endpoint {
    Endpoint::V4 { octets: [192, 0, 2, last], port: 51820 }
}

fn peer(last: u8, name: &str) -> PeerInfo {
    PeerInfo {
        addr: at(last),
        user_name: name.to_string(),
        role: Role::Client,
        last_seen: 5,
        rtt: None,
    }
}

#[test]
fn empty_table() {
    let t = PeerTable::new();
    assert_eq!(t.len(), 0);
    assert!(t.get(&"10.0.0.1".to_string()).is_none());
    assert!(!t.has_name(&"bob".to_string()));
    assert!(t.addresses().is_empty());
}

#[test]
fn members_are_found_under_their_address() {
    let mut t = PeerTable::new();
    t.insert("10.0.0.1".to_string(), peer(1, "ann"));
    t.insert("10.0.0.2".to_string(), peer(2, "bob"));
    assert_eq!(t.len(), 2);
    assert_eq!(t.get(&"10.0.0.2".to_string()).unwrap().user_name, "bob");
    assert_eq!(t.get(&"10.0.0.1".to_string()).unwrap().addr, at(1));
    assert!(t.get(&"10.0.0.3".to_string()).is_none());
    assert!(t.has_name(&"ann".to_string()));
    assert!(!t.has_name(&"10.0.0.1".to_string()));
    assert_eq!(t.addresses(), vec![at(1), at(2)]);
    assert_eq!(t.entry(1).0, "10.0.0.2");
    assert_eq!(t.entry(1).1.last_seen, 5);
}

#[test]
fn inserting_again_replaces() {
    let mut t = PeerTable::new();
    t.insert("10.0.0.1".to_string(), peer(1, "ann"));
    t.insert("10.0.0.2".to_string(), peer(2, "bob"));
    t.insert("10.0.0.1".to_string(), peer(9, "eve"));
    assert_eq!(t.len(), 2);
    assert_eq!(t.get(&"10.0.0.1".to_string()).unwrap().user_name, "eve");
    assert_eq!(t.get(&"10.0.0.2".to_string()).unwrap().user_name, "bob");
    assert!(!t.has_name(&"ann".to_string()));
    assert_eq!(t.addresses(), vec![at(9), at(2)]);
}

#[test]
fn round_trip_time_is_noted_and_nothing_else() {
    let mut t = PeerTable::new();
    t.insert("10.0.0.1".to_string(), peer(1, "ann"));
    t.insert("10.0.0.2".to_string(), peer(2, "bob"));
    t.set_rtt(&"10.0.0.2".to_string(), 77);
    t.set_rtt(&"10.0.0.3".to_string(), 88);
    assert_eq!(t.len(), 2);
    assert_eq!(t.get(&"10.0.0.1".to_string()).unwrap().rtt, None);
    let bob = t.get(&"10.0.0.2".to_string()).unwrap();
    assert_eq!(bob.rtt, Some(77));
    assert_eq!(bob.user_name, "bob");
    assert_eq!(bob.addr, at(2));
    assert_eq!(bob.last_seen, 5);
    assert_eq!(bob.role, Role::Client);
}
