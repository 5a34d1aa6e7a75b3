use p2p_vpn::crypto::derive_key;
use p2p_vpn::peers::Endpoint;
use p2p_vpn::saved::{SavedChoice, SavedState};
use p2p_vpn::state::{AppState, Refusal};
use p2p_vpn::wire::Role;

fn node() -> Endpoint {
    Endpoint::V4 { octets: [1, 2, 3, 4], port: 51820 }
}

fn unnamed() -> AppState<u32> {
    AppState::new(SavedState::default())
}

fn named() -> AppState<u32> {
    let mut s = unnamed();
    s.set_name("ann".to_string());
    s
}

fn text(s: &str) -> String {
    s.to_string()
}

#[test]
fn state_starts_with_the_saved_name() {
    let mut saved = SavedState::default();
    saved.name = Some(text("ann"));
    let s: AppState<u32> = AppState::new(saved);
    assert_eq!(s.name.as_deref(), Some("ann"));
    assert_eq!(s.saved.name.as_deref(), Some("ann"));
    assert!(s.networks.is_empty());
    assert_eq!(unnamed().name, None);
}

#[test]
fn name_is_set_for_this_run_and_the_next() {
    let mut s = named();
    s.set_name(text("боб"));
    assert_eq!(s.name.as_deref(), Some("боб"));
    assert_eq!(s.saved.name.as_deref(), Some("боб"));
}

#[test]
fn running_networks_are_added_at_the_end() {
    let mut s = named();
    s.activate(7);
    s.activate(8);
    assert_eq!(s.networks, vec![7, 8]);
}

#[test]
fn new_network_is_created_and_saved() {
    let mut s = named();
    let n = s.create_with_byte(text("home"), text("secret"), None, 41).unwrap();
    assert_eq!(n.name, "home");
    assert_eq!(n.owner, "ann");
    assert_eq!(n.my_role, Role::Creator);
    assert_eq!(n.my_virtual_ip, "10.0.0.42");
    assert_eq!(n.config.key, derive_key("home", "secret"));
    assert_eq!(n.config.subnet_ip, "10.0.0.42");
    assert_eq!(n.config.subnet_mask, 24);
    assert_eq!(n.config.port, 51820);
    assert_eq!(n.peers.len(), 0);
    assert_eq!(s.saved.networks.len(), 1);
    let saved = &s.saved.networks[0];
    assert_eq!(saved.ssid, "home");
    assert_eq!(saved.password, "secret");
    assert_eq!(saved.role, "creator");
    assert_eq!(saved.remote_addr, None);
    assert_eq!(saved.virtual_ip.as_deref(), Some("10.0.0.42"));
    assert!(s.networks.is_empty());
}

#[test]
fn new_network_is_joined_and_saved() {
    let mut s = named();
    let n = s
        .connect_with_byte(
            text("work"),
            text("pass"),
            text("1.2.3.4:51820"),
            Some(node()),
            None,
            99,
            0,
        )
        .unwrap();
    assert_eq!(n.name, "work");
    assert_eq!(n.owner, "");
    assert_eq!(n.my_role, Role::Client);
    assert_eq!(n.my_virtual_ip, "10.0.0.1");
    assert_eq!(n.config.key, derive_key("work", "pass"));
    assert_eq!(n.peers.len(), 1);
    let (ip, info) = n.peers.entry(0);
    assert_eq!(ip, "unknown");
    assert_eq!(info.addr, node());
    assert_eq!(info.user_name, "?");
    assert_eq!(info.role, Role::Client);
    assert_eq!(info.last_seen, 99);
    assert_eq!(info.rtt, None);
    let saved = &s.saved.networks[0];
    assert_eq!(saved.role, "client");
    assert_eq!(saved.remote_addr.as_deref(), Some("1.2.3.4:51820"));
    assert_eq!(saved.virtual_ip.as_deref(), Some("10.0.0.1"));
}

#[test]
fn user_without_a_name_creates_nothing() {
    let mut s = unnamed();
    assert_eq!(
        s.create_network(text("home"), text("secret")).err(),
        Some(Refusal::NoUserName)
    );
    assert_eq!(
        s.create_network_from_saved(text("home"), text("secret"), Some(text("10.0.0.5"))).err(),
        Some(Refusal::NoUserName)
    );
    assert_eq!(
        s.connect_to_network(text("home"), text("secret"), text("1.2.3.4:1"), Some(node()), 0)
            .err(),
        Some(Refusal::NoUserName)
    );
    assert!(s.saved.networks.is_empty());
}

#[test]
fn user_without_a_name_rejoins_a_saved_network() {
    let mut s = unnamed();
    let n = s
        .connect_to_network_from_saved(
            text("work"),
            text("pass"),
            text("1.2.3.4:51820"),
            Some(node()),
            Some(text("10.0.0.8")),
            0,
        )
        .ok()
        .unwrap();
    assert_eq!(n.my_virtual_ip, "10.0.0.8");
}

#[test]
fn taken_names_are_refused() {
    let mut s = named();
    assert!(s.create_network(text("home"), text("secret")).is_ok());
    assert_eq!(
        s.create_network(text("home"), text("other")).err(),
        Some(Refusal::SsidTaken)
    );
    assert_eq!(
        s.create_network_from_saved(text("home"), text("other"), None).err(),
        Some(Refusal::SsidTaken)
    );
    assert_eq!(
        s.connect_to_network(text("home"), text("x"), text("1.2.3.4:1"), Some(node()), 0).err(),
        Some(Refusal::SsidTaken)
    );
    assert_eq!(
        s.connect_to_network_from_saved(
            text("home"),
            text("x"),
            text("1.2.3.4:1"),
            Some(node()),
            None,
            0
        )
        .err(),
        Some(Refusal::SsidTaken)
    );
    assert_eq!(s.saved.networks.len(), 1);
    assert_eq!(s.saved.networks[0].password, "secret");
}

#[test]
fn bad_addresses_are_refused() {
    let mut s = named();
    assert_eq!(
        s.connect_to_network(text("work"), text("p"), text("nowhere"), None, 0).err(),
        Some(Refusal::BadAddress)
    );
    assert_eq!(
        s.connect_to_network_from_saved(
            text("work"),
            text("p"),
            text("nowhere"),
            None,
            Some(text("10.0.0.8")),
            0
        )
        .err(),
        Some(Refusal::BadAddress)
    );
    assert!(s.saved.networks.is_empty());
}

#[test]
fn random_addresses_lie_in_the_subnet() {
    let mut s = named();
    for i in 0..50 {
        let n = s.create_network(format!("net{i}"), text("secret")).ok().unwrap();
        let host: u8 = n.my_virtual_ip.strip_prefix("10.0.0.").unwrap().parse().unwrap();
        assert!(1 <= host && host <= 253);
        assert_eq!(s.saved.networks[i].virtual_ip.as_deref(), Some(n.my_virtual_ip.as_str()));
    }
}

#[test]
fn members_share_the_key() {
    let created = named().create_network(text("home"), text("secret")).ok().unwrap();
    let joined = named()
        .connect_to_network(text("home"), text("secret"), text("1.2.3.4:1"), Some(node()), 0)
        .ok()
        .unwrap();
    assert_eq!(created.config.key, joined.config.key);
}

#[test]
fn created_network_reopens_as_it_was() {
    let mut s = named();
    let first = s.create_network(text("home"), text("secret")).ok().unwrap();
    let (ssid, password, ip) = match s.saved.choose_network(Some(0)) {
        SavedChoice::Create { ssid, password, virtual_ip } => (ssid, password, virtual_ip),
        other => panic!("{other:?}"),
    };
    let again = s.create_network_from_saved(ssid, password, ip).ok().unwrap();
    assert_eq!(again.my_virtual_ip, first.my_virtual_ip);
    assert_eq!(again.config.key, first.config.key);
    assert_eq!(again.my_role, Role::Creator);
    assert_eq!(s.saved.networks.len(), 1);
    assert_eq!(s.saved.networks[0].virtual_ip, Some(first.my_virtual_ip));
}

#[test]
fn joined_network_reopens_as_it_was() {
    let mut s = named();
    let first = s
        .connect_to_network(text("work"), text("p"), text("1.2.3.4:51820"), Some(node()), 1)
        .ok()
        .unwrap();
    let (ssid, password, remote, ip) = match s.saved.choose_network(Some(0)) {
        SavedChoice::Connect { ssid, password, remote, virtual_ip } => {
            (ssid, password, remote, virtual_ip)
        }
        other => panic!("{other:?}"),
    };
    assert_eq!(remote, "1.2.3.4:51820");
    let again = s
        .connect_to_network_from_saved(ssid, password, remote, Some(node()), ip, 2)
        .ok()
        .unwrap();
    assert_eq!(again.my_virtual_ip, first.my_virtual_ip);
    assert_eq!(again.config.key, first.config.key);
    assert_eq!(again.peers.entry(0).1.last_seen, 2);
    assert_eq!(s.saved.networks.len(), 1);
}

#[test]
fn only_the_first_network_is_stopped() {
    let mut s = named();
    assert_eq!(s.to_stop(Some(0)), None);
    s.activate(7);
    s.activate(8);
    s.activate(9);
    for selection in [None, Some(0), Some(1), Some(2), Some(4), Some(usize::MAX)] {
        assert_eq!(s.to_stop(selection), None);
    }
    assert_eq!(s.to_stop(Some(3)), Some(&7));
    assert_eq!(s.to_stop(Some(3)), Some(&7));
    assert_eq!(s.networks, vec![7, 8, 9]);
}

#[test]
fn new_networks_are_saved_behind_the_others() {
    let mut s = named();
    assert!(s.create_network(text("a"), text("p")).is_ok());
    assert!(s
        .connect_to_network(text("b"), text("p"), text("1.2.3.4:1"), Some(node()), 0)
        .is_ok());
    assert!(s.create_network(text("c"), text("p")).is_ok());
    assert!(s.create_network(text("a"), text("p")).is_err());
    assert_eq!(s.saved.ssids(), vec!["a", "b", "c"]);
    assert_eq!(s.saved.name.as_deref(), Some("ann"));
}
