use p2p_vpn::saved::{SavedChoice, SavedNetwork, SavedState};

fn saved(ssid: &str, role: &str, remote: Option<&str>, ip: Option<&str>) -> SavedNetwork {
    SavedNetwork {
        ssid: ssid.to_string(),
        password: format!("{ssid}-password"),
        role: role.to_string(),
        remote_addr: remote.map(|s| s.to_string()),
        virtual_ip: ip.map(|s| s.to_string()),
    }
}

fn three() -> SavedState {
    let mut s = SavedState::default();
    s.add(saved("home", "creator", None, Some("10.0.0.1")));
    s.add(saved("work", "client", Some("1.2.3.4:51820"), Some("10.0.0.2")));
    s.add(saved("old", "client", None, None));
    s
}

#[test]
fn nothing_is_saved_at_first() {
    let s = SavedState::default();
    assert_eq!(s.name, None);
    assert!(s.networks.is_empty());
    assert!(!s.contains_ssid("home"));
}

#[test]
fn load_takes_the_file_or_the_default() {
    let mut s = three();
    s.name = Some("ann".to_string());
    let loaded = SavedState::load(Some(s));
    assert_eq!(loaded.name.as_deref(), Some("ann"));
    assert_eq!(loaded.networks.len(), 3);
    let fresh = SavedState::load(None);
    assert_eq!(fresh.name, None);
    assert!(fresh.networks.is_empty());
}

#[test]
fn names_are_found() {
    let s = three();
    assert!(s.contains_ssid("home"));
    assert!(s.contains_ssid("old"));
    assert!(!s.contains_ssid("hom"));
    assert!(!s.contains_ssid("Home"));
    assert!(!s.contains_ssid(""));
    assert_eq!(s.ssids(), vec!["home", "work", "old"]);
}

#[test]
fn saved_menu_shows_networks_and_two_more_lines() {
    assert_eq!(
        three().menu_items(),
        vec![
            "home (creator) IP: 10.0.0.1",
            "work (client) IP: 10.0.0.2",
            "old (client) IP: -",
            "Удалить сохранённую сеть",
            "Назад",
        ]
    );
}

#[test]
fn created_networks_are_created_again() {
    match three().choose_network(Some(0)) {
        SavedChoice::Create { ssid, password, virtual_ip } => {
            assert_eq!(ssid, "home");
            assert_eq!(password, "home-password");
            assert_eq!(virtual_ip.as_deref(), Some("10.0.0.1"));
        }
        other => panic!("{other:?}"),
    }
}

#[test]
fn joined_networks_are_joined_again() {
    match three().choose_network(Some(1)) {
        SavedChoice::Connect { ssid, password, remote, virtual_ip } => {
            assert_eq!(ssid, "work");
            assert_eq!(password, "work-password");
            assert_eq!(remote, "1.2.3.4:51820");
            assert_eq!(virtual_ip.as_deref(), Some("10.0.0.2"));
        }
        other => panic!("{other:?}"),
    }
}

#[test]
fn network_without_a_node_is_sought_here() {
    match three().choose_network(Some(2)) {
        SavedChoice::Connect { remote, virtual_ip, .. } => {
            assert_eq!(remote, "127.0.0.1:51820");
            assert_eq!(virtual_ip, None);
        }
        other => panic!("{other:?}"),
    }
}

#[test]
fn lines_behind_the_networks() {
    let s = three();
    assert!(matches!(s.choose_network(Some(3)), SavedChoice::Delete));
    assert!(matches!(s.choose_network(Some(4)), SavedChoice::Back));
    assert!(matches!(s.choose_network(Some(usize::MAX)), SavedChoice::Back));
    assert!(matches!(s.choose_network(None), SavedChoice::Back));
    let empty = SavedState::default();
    assert!(matches!(empty.choose_network(Some(0)), SavedChoice::NothingToDelete));
    assert!(matches!(empty.choose_network(Some(1)), SavedChoice::Back));
}

#[test]
fn removing_a_network_keeps_the_others() {
    let mut s = three();
    s.remove_network(1);
    assert_eq!(s.ssids(), vec!["home", "old"]);
    s.remove_network(0);
    assert_eq!(s.ssids(), vec!["old"]);
}

#[test]
fn refreshing_notes_the_addresses() {
    let mut s = three();
    s.refresh(
        &"work".to_string(),
        "client",
        "10.0.0.77".to_string(),
        Some("5.6.7.8:1".to_string()),
    );
    assert_eq!(s.networks[1].virtual_ip.as_deref(), Some("10.0.0.77"));
    assert_eq!(s.networks[1].remote_addr.as_deref(), Some("5.6.7.8:1"));
    assert_eq!(s.networks[1].password, "work-password");
    assert_eq!(s.networks[0].virtual_ip.as_deref(), Some("10.0.0.1"));

    s.refresh(&"work".to_string(), "client", "10.0.0.78".to_string(), None);
    assert_eq!(s.networks[1].virtual_ip.as_deref(), Some("10.0.0.78"));
    assert_eq!(s.networks[1].remote_addr.as_deref(), Some("5.6.7.8:1"));
}

#[test]
fn refreshing_goes_by_name_and_role() {
    let mut s = three();
    s.refresh(&"work".to_string(), "creator", "10.0.0.9".to_string(), None);
    s.refresh(&"none".to_string(), "client", "10.0.0.9".to_string(), None);
    assert_eq!(s.networks[1].virtual_ip.as_deref(), Some("10.0.0.2"));
    assert_eq!(s.networks.len(), 3);

    s.add(saved("work", "client", None, None));
    s.refresh(&"work".to_string(), "client", "10.0.0.5".to_string(), None);
    assert_eq!(s.networks[1].virtual_ip.as_deref(), Some("10.0.0.5"));
    assert_eq!(s.networks[3].virtual_ip, None);
}
