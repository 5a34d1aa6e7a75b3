use p2p_vpn::wire::{ControlMessage, Role};
use serde::ser::{Serialize, SerializeStructVariant, Serializer};

/// The same messages as serde sees them.
enum Plain {
    PeerAnnounce(&'static str, &'static str, PlainRole, &'static str),
    Ping(u64, &'static str),
    Pong(u64, &'static str),
}

enum PlainRole {
    Creator,
    Client,
}

impl Serialize for PlainRole {
    fn serialize<S: Serializer>(&self, s: S) -> Result<S::Ok, S::Error> {
        match self {
            PlainRole::Creator => s.serialize_unit_variant("Role", 0, "Creator"),
            PlainRole::Client => s.serialize_unit_variant("Role", 1, "Client"),
        }
    }
}

impl Serialize for Plain {
    fn serialize<S: Serializer>(&self, s: S) -> Result<S::Ok, S::Error> {
        match self {
            Plain::PeerAnnounce(user, network, role, ip) => {
                let mut v = s.serialize_struct_variant("ControlMessage", 0, "PeerAnnounce", 4)?;
                v.serialize_field("user_name", user)?;
                v.serialize_field("network_name", network)?;
                v.serialize_field("role", role)?;
                v.serialize_field("virtual_ip", ip)?;
                v.end()
            }
            Plain::Ping(id, ip) => {
                let mut v = s.serialize_struct_variant("ControlMessage", 1, "Ping", 2)?;
                v.serialize_field("id", id)?;
                v.serialize_field("virtual_ip", ip)?;
                v.end()
            }
            Plain::Pong(id, ip) => {
                let mut v = s.serialize_struct_variant("ControlMessage", 2, "Pong", 2)?;
                v.serialize_field("id", id)?;
                v.serialize_field("virtual_ip", ip)?;
                v.end()
            }
        }
    }
}

fn announce(user: &str, network: &str, role: Role, ip: &str) -> ControlMessage {
    ControlMessage::PeerAnnounce {
        user_name: user.to_string(),
        network_name: network.to_string(),
        role,
        virtual_ip: ip.to_string(),
    }
}

fn ping(id: u64, ip: &str) -> ControlMessage {
    ControlMessage::Ping { id, virtual_ip: ip.to_string() }
}

fn pong(id: u64, ip: &str) -> ControlMessage {
    ControlMessage::Pong { id, virtual_ip: ip.to_string() }
}

fn shown(m: &Option<ControlMessage>) -> String {
    format!("{m:?}")
}

#[test]
fn ping_bytes() {
    let expected: Vec<u8> = vec![
        1, 0, 0, 0, 8, 7, 6, 5, 4, 3, 2, 1, 3, 0, 0, 0, 0, 0, 0, 0, b'a', b'.', b'b',
    ];
    assert_eq!(ping(0x0102_0304_0506_0708, "a.b").encode(), expected);
}

#[test]
fn pong_bytes() {
    let expected: Vec<u8> = vec![2, 0, 0, 0, 9, 0, 0, 0, 0, 0, 0, 0, 0, 0, 0, 0, 0, 0, 0, 0];
    assert_eq!(pong(9, "").encode(), expected);
}

#[test]
fn announcement_bytes() {
    let expected: Vec<u8> = vec![
        0, 0, 0, 0, 2, 0, 0, 0, 0, 0, 0, 0, 0xd1, 0x8f, 1, 0, 0, 0, 0, 0, 0, 0, b'n', 1, 0, 0, 0,
        2, 0, 0, 0, 0, 0, 0, 0, b'i', b'p',
    ];
    assert_eq!(announce("я", "n", Role::Client, "ip").encode(), expected);
}

#[test]
fn format_is_that_of_the_enum() {
    assert_eq!(
        announce("Алиса", "home", Role::Creator, "10.0.0.1").encode(),
        bincode::serialize(&Plain::PeerAnnounce(
            "Алиса",
            "home",
            PlainRole::Creator,
            "10.0.0.1"
        ))
        .unwrap()
    );
    assert_eq!(
        announce("", "", Role::Client, "").encode(),
        bincode::serialize(&Plain::PeerAnnounce("", "", PlainRole::Client, "")).unwrap()
    );
    assert_eq!(
        ping(u64::MAX, "10.0.0.2").encode(),
        bincode::serialize(&Plain::Ping(u64::MAX, "10.0.0.2")).unwrap()
    );
    assert_eq!(
        pong(0, "10.0.0.3").encode(),
        bincode::serialize(&Plain::Pong(0, "10.0.0.3")).unwrap()
    );
}

#[test]
fn messages_come_back() {
    let messages = [
        announce("bob", "сеть", Role::Creator, "10.0.0.7"),
        announce("", "", Role::Client, ""),
        ping(1, "10.0.0.7"),
        pong(u64::MAX, "😀"),
    ];
    for m in messages {
        let text = format!("{m:?}");
        assert_eq!(shown(&ControlMessage::decode(&m.encode())), format!("Some({text})"));
    }
}

#[test]
fn what_follows_a_message_does_not_matter() {
    let m = ping(5, "10.0.0.9");
    let mut bytes = m.encode();
    bytes.extend_from_slice(&[0xff; 16]);
    assert_eq!(shown(&ControlMessage::decode(&bytes)), format!("Some({m:?})"));
}

#[test]
fn cut_messages_are_refused() {
    for m in [announce("bob", "net", Role::Client, "10.0.0.7"), ping(1, "x"), pong(2, "y")] {
        let bytes = m.encode();
        for n in 0..bytes.len() {
            assert!(ControlMessage::decode(&bytes[..n]).is_none());
        }
    }
}

#[test]
fn unknown_variants_are_refused() {
    let mut bytes = ping(1, "x").encode();
    bytes[0] = 3;
    assert!(ControlMessage::decode(&bytes).is_none());
    bytes[0] = 1;
    bytes[3] = 1;
    assert!(ControlMessage::decode(&bytes).is_none());
}

#[test]
fn unknown_roles_are_refused() {
    let mut bytes = announce("", "", Role::Client, "").encode();
    assert_eq!(bytes[20], 1);
    bytes[20] = 2;
    assert!(ControlMessage::decode(&bytes).is_none());
}

#[test]
fn text_that_is_not_utf8_is_refused() {
    let mut bytes = ping(1, "x").encode();
    let last = bytes.len() - 1;
    bytes[last] = 0xff;
    assert!(ControlMessage::decode(&bytes).is_none());
}

#[test]
fn ipv4_packets_are_no_messages() {
    let mut packet = vec![0u8; 200];
    packet[0] = 0x45;
    assert!(ControlMessage::decode(&packet).is_none());
}
