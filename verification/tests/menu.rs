use p2p_vpn::menu::{
    active_menu_choice, active_menu_items, main_menu_action, main_menu_items, name_display,
    network_line, prompt_password_required, prompt_required, terminal_too_small, ActiveChoice,
    MainAction,
};
use p2p_vpn::network::{Network, NetworkConfig};
use p2p_vpn::peers::{Endpoint, PeerInfo, PeerTable};
use p2p_vpn::wire::Role;

fn peer(name: &str, role: Role, rtt: Option<u128>) -> PeerInfo {
    PeerInfo {
        addr: Endpoint::V4 { octets: [1, 2, 3, 4], port: 51820 },
        user_name: name.to_string(),
        role,
        last_seen: 0,
        rtt,
    }
}

fn network(owner: &str, my_role: Role, members: Vec<(&str, PeerInfo)>) -> Network {
    let mut peers = PeerTable::new();
    for (ip, info) in members {
        peers.insert(ip.to_string(), info);
    }
    Network {
        name: "home".to_string(),
        owner: owner.to_string(),
        my_role,
        my_virtual_ip: "10.0.0.1".to_string(),
        config: NetworkConfig {
            key: [0; 32],
            subnet_ip: "10.0.0.1".to_string(),
            subnet_mask: 24,
            port: 51820,
        },
        peers,
    }
}

#[test]
fn small_terminals() {
    assert!(!terminal_too_small(80, 25));
    assert!(terminal_too_small(79, 25));
    assert!(terminal_too_small(80, 24));
}

#[test]
fn name_or_its_absence() {
    assert_eq!(name_display(&Some("ann".to_string())), "ann");
    assert_eq!(name_display(&None), "не установлено");
}

#[test]
fn shortest_main_menu() {
    assert_eq!(
        main_menu_items("ann", false, false),
        vec![
            "Имя пользователя [ann]",
            "Подключиться к сети",
            "Создать сеть",
            "Обновить программу",
        ]
    );
}

#[test]
fn longest_main_menu() {
    assert_eq!(
        main_menu_items("ann", true, true),
        vec![
            "Имя пользователя [ann]",
            "Сохранённые сети",
            "Активные сети",
            "Подключиться к сети",
            "Создать сеть",
            "Обновить программу",
        ]
    );
}

#[test]
fn actions_stand_where_their_items_do() {
    for has_saved in [false, true] {
        for has_active in [false, true] {
            let items = main_menu_items("ann", has_saved, has_active);
            for (i, item) in items.iter().enumerate() {
                let expected = match item.as_str() {
                    "Имя пользователя [ann]" => MainAction::SetName,
                    "Сохранённые сети" => MainAction::SavedNetworks,
                    "Активные сети" => MainAction::ActiveNetworks,
                    "Подключиться к сети" => MainAction::Connect,
                    "Создать сеть" => MainAction::Create,
                    "Обновить программу" => MainAction::Update,
                    other => panic!("{other}"),
                };
                assert_eq!(main_menu_action(Some(i), has_saved, has_active), expected);
            }
            assert_eq!(
                main_menu_action(Some(items.len()), has_saved, has_active),
                MainAction::Nothing
            );
            assert_eq!(main_menu_action(None, has_saved, has_active), MainAction::Exit);
        }
    }
}

#[test]
fn network_without_members() {
    assert_eq!(
        network_line(&network("ann", Role::Creator, vec![])),
        "Сеть: home, владелец: ann, участники: []"
    );
    assert_eq!(
        network_line(&network("", Role::Client, vec![])),
        "Сеть: home, владелец: неизвестен, участники: []"
    );
}

#[test]
fn network_with_members() {
    let n = network(
        "",
        Role::Client,
        vec![
            ("unknown", peer("?", Role::Client, None)),
            ("10.0.0.2", peer("bob", Role::Client, None)),
            ("10.0.0.3", peer("ann", Role::Creator, Some(12_999_999))),
            ("10.0.0.4", peer("eve", Role::Creator, Some(999_999))),
        ],
    );
    assert_eq!(
        network_line(&n),
        "Сеть: home, владелец: ann, участники: [bob (10.0.0.2), пинг ?ms, \
         ann (10.0.0.3), пинг 12ms, eve (10.0.0.4), пинг 0ms]"
    );
}

#[test]
fn own_network_is_owned_by_the_user() {
    let n = network("ann", Role::Creator, vec![("10.0.0.4", peer("eve", Role::Creator, None))]);
    assert_eq!(
        network_line(&n),
        "Сеть: home, владелец: ann, участники: [eve (10.0.0.4), пинг ?ms]"
    );
}

#[test]
fn menu_of_running_networks() {
    let items = active_menu_items(vec!["a".to_string(), "b".to_string()]);
    assert_eq!(items, vec!["a", "b", "Остановить сеть", "Назад"]);
    assert_eq!(active_menu_choice(Some(0), 2), ActiveChoice::Inspect);
    assert_eq!(active_menu_choice(Some(1), 2), ActiveChoice::Inspect);
    assert_eq!(active_menu_choice(Some(2), 2), ActiveChoice::StopFirst);
    assert_eq!(active_menu_choice(Some(3), 2), ActiveChoice::Back);
    assert_eq!(active_menu_choice(None, 2), ActiveChoice::Back);
    assert_eq!(active_menu_choice(Some(0), 0), ActiveChoice::Nothing);
}

#[test]
fn required_input_is_trimmed() {
    assert_eq!(prompt_required("  ann \t\n").as_deref(), Some("ann"));
    assert_eq!(prompt_required("a b").as_deref(), Some("a b"));
    assert_eq!(prompt_required(""), None);
    assert_eq!(prompt_required(" \t\r\n\u{a0}\u{3000}"), None);
}

#[test]
fn every_kind_of_white_space_is_trimmed() {
    let spaces = [
        0x9u32, 0xa, 0xb, 0xc, 0xd, 0x20, 0x85, 0xa0, 0x1680, 0x2000, 0x2001, 0x2002, 0x2003,
        0x2004, 0x2005, 0x2006, 0x2007, 0x2008, 0x2009, 0x200a, 0x2028, 0x2029, 0x202f, 0x205f,
        0x3000,
    ];
    for code in 0..=0x10ffffu32 {
        if let Some(c) = char::from_u32(code) {
            let blank = prompt_required(&c.to_string()).is_none();
            assert_eq!(blank, spaces.contains(&code));
        }
    }
}

#[test]
fn passwords_are_kept_as_they_are() {
    assert_eq!(
        prompt_password_required(" secret ".to_string()).as_deref(),
        Some(" secret ")
    );
    assert_eq!(prompt_password_required("   ".to_string()), None);
    assert_eq!(prompt_password_required(String::new()), None);
}
