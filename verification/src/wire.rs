//! Control messages between the members of a network and their wire format.
//!
//! A message is its variant's number, as four bytes, and its fields in order.
//! Integers are little-endian, and a string is the number of its bytes, as eight
//! bytes, followed by its UTF-8 encoding.

use vstd::prelude::*;
use vstd::string::*;
use vstd::utf8::{encode_utf8, encode_utf8_decode_utf8};

verus! {

/// The part that a member plays in a network.
#[derive(Clone, Copy, Debug, PartialEq, Eq, Structural)]
pub enum Role {
    Creator,
    Client,
}

/// A control message.
#[derive(Debug)]
pub enum ControlMessage {
    PeerAnnounce { user_name: String, network_name: String, role: Role, virtual_ip: String },
    Ping { id: u64, virtual_ip: String },
    Pong { id: u64, virtual_ip: String },
}

/// What a control message says.
pub enum MessageView {
    PeerAnnounce {
        user_name: Seq<char>,
        network_name: Seq<char>,
        role: Role,
        virtual_ip: Seq<char>,
    },
    Ping { id: u64, virtual_ip: Seq<char> },
    Pong { id: u64, virtual_ip: Seq<char> },
}

impl View for ControlMessage {
    type V = MessageView;

    open spec fn view(&self) -> MessageView {
        match self {
            ControlMessage::PeerAnnounce { user_name, network_name, role, virtual_ip } =>
                MessageView::PeerAnnounce {
                    user_name: user_name@,
                    network_name: network_name@,
                    role: *role,
                    virtual_ip: virtual_ip@,
                },
            ControlMessage::Ping { id, virtual_ip } => MessageView::Ping {
                id: *id,
                virtual_ip: virtual_ip@,
            },
            ControlMessage::Pong { id, virtual_ip } => MessageView::Pong {
                id: *id,
                virtual_ip: virtual_ip@,
            },
        }
    }
}

/// The `width` low bytes of `n`, the lowest first.
pub open spec fn le_bytes(n: nat, width: nat) -> Seq<u8>
    decreases width,
{
    if width == 0 {
        Seq::empty()
    } else {
        seq![(n % 256) as u8] + le_bytes(n / 256, (width - 1) as nat)
    }
}

/// A string on the wire.
pub open spec fn string_bytes(s: Seq<char>) -> Seq<u8> {
    le_bytes(encode_utf8(s).len(), 8) + encode_utf8(s)
}

/// The bytes of a number, a second number and a string.
pub open spec fn probe_bytes(tag: u32, id: u64, ip: Seq<char>) -> Seq<u8> {
    le_bytes(tag as nat, 4) + le_bytes(id as nat, 8) + string_bytes(ip)
}

/// The bytes of a number, two strings, a second number and a third string.
pub open spec fn announce_bytes(
    tag: u32,
    user: Seq<char>,
    network: Seq<char>,
    role: u32,
    ip: Seq<char>,
) -> Seq<u8> {
    le_bytes(tag as nat, 4) + string_bytes(user) + string_bytes(network) + le_bytes(
        role as nat,
        4,
    ) + string_bytes(ip)
}

/// The number of a role on the wire.
pub open spec fn role_number(role: Role) -> u32 {
    match role {
        Role::Creator => 0,
        Role::Client => 1,
    }
}

/// A message on the wire.
pub open spec fn encoding(m: MessageView) -> Seq<u8> {
    match m {
        MessageView::PeerAnnounce { user_name, network_name, role, virtual_ip } => announce_bytes(
            0,
            user_name,
            network_name,
            role_number(role),
            virtual_ip,
        ),
        MessageView::Ping { id, virtual_ip } => probe_bytes(1, id, virtual_ip),
        MessageView::Pong { id, virtual_ip } => probe_bytes(2, id, virtual_ip),
    }
}

/// Whether `bytes` starts with `head`.
pub open spec fn begins_with(bytes: Seq<u8>, head: Seq<u8>) -> bool {
    head.len() <= bytes.len() && bytes.take(head.len() as int) == head
}

/// Whether `bytes` starts with the encoding of `m`.
pub open spec fn holds_message(bytes: Seq<u8>, m: MessageView) -> bool {
    begins_with(bytes, encoding(m))
}

/// The message that `bytes` starts with. What follows it is not looked at.
pub open spec fn decoded(bytes: Seq<u8>) -> Option<MessageView> {
    if exists|m: MessageView| holds_message(bytes, m) {
        Some(choose|m: MessageView| holds_message(bytes, m))
    } else {
        None
    }
}

/// `bincode::serialize` for a tuple of two numbers and a string: their bytes, one
/// after the other.
#[verifier::external_body]
fn write_probe(tag: u32, id: u64, ip: &str) -> (bytes: Vec<u8>)
    requires
        probe_bytes(tag, id, ip@).len() <= isize::MAX,
    ensures
        bytes@ == probe_bytes(tag, id, ip@),
{
    bincode::serialize(&(tag, id, ip)).unwrap()
}

/// `bincode::serialize` for a tuple of a number, two strings, a number and a
/// string: their bytes, one after the other.
#[verifier::external_body]
fn write_announce(tag: u32, user: &str, network: &str, role: u32, ip: &str) -> (bytes: Vec<u8>)
    requires
        announce_bytes(tag, user@, network@, role, ip@).len() <= isize::MAX,
    ensures
        bytes@ == announce_bytes(tag, user@, network@, role, ip@),
{
    bincode::serialize(&(tag, user, network, role, ip)).unwrap()
}

/// `bincode::deserialize` for a tuple of two numbers and a string: the tuple whose
/// bytes `bytes` starts with, or `None` where it starts with those of no such
/// tuple. Bytes behind the tuple do not matter.
#[verifier::external_body]
fn read_probe(bytes: &[u8]) -> (r: Option<(u32, u64, String)>)
    ensures
        match r {
            Some((tag, id, ip)) => begins_with(bytes@, probe_bytes(tag, id, ip@)),
            None => forall|tag: u32, id: u64, ip: Seq<char>|
                !begins_with(bytes@, #[trigger] probe_bytes(tag, id, ip)),
        },
{
    bincode::deserialize(bytes).ok()
}

/// `bincode::deserialize` for a tuple of a number, two strings, a number and a
/// string: the tuple whose bytes `bytes` starts with, or `None` where it starts
/// with those of no such tuple. Bytes behind the tuple do not matter.
#[verifier::external_body]
fn read_announce(bytes: &[u8]) -> (r: Option<(u32, String, String, u32, String)>)
    ensures
        match r {
            Some((tag, user, network, role, ip)) => begins_with(
                bytes@,
                announce_bytes(tag, user@, network@, role, ip@),
            ),
            None => forall|tag: u32, user: Seq<char>, network: Seq<char>, role: u32, ip: Seq<char>|
                !begins_with(bytes@, #[trigger] announce_bytes(tag, user, network, role, ip)),
        },
{
    bincode::deserialize(bytes).ok()
}

/// One more than the largest number that `width` bytes hold.
spec fn le_bound(width: nat) -> nat
    decreases width,
{
    if width == 0 {
        1
    } else {
        256 * le_bound((width - 1) as nat)
    }
}

/// A number takes as many bytes as its width says.
pub proof fn lemma_le_len(n: nat, width: nat)
    ensures
        le_bytes(n, width).len() == width,
    decreases width,
{
    if width > 0 {
        lemma_le_len(n / 256, (width - 1) as nat);
    }
}

proof fn lemma_le_injective(a: nat, b: nat, width: nat)
    requires
        a < le_bound(width),
        b < le_bound(width),
        le_bytes(a, width) == le_bytes(b, width),
    ensures
        a == b,
    decreases width,
{
    if width > 0 {
        let w = (width - 1) as nat;
        let x = le_bytes(a, width);
        let y = le_bytes(b, width);
        assert(x.drop_first() =~= le_bytes(a / 256, w));
        assert(y.drop_first() =~= le_bytes(b / 256, w));
        assert(x[0] == (a % 256) as u8 && y[0] == (b % 256) as u8);
        lemma_le_injective(a / 256, b / 256, w);
    }
}

proof fn lemma_le_bounds()
    ensures
        le_bound(4) == 0x1_0000_0000,
        le_bound(8) == 0x1_0000_0000_0000_0000,
{
    reveal_with_fuel(le_bound, 9);
}

/// Numbers of one width that stand at the same place are equal.
proof fn lemma_number_prefix(a: nat, b: nat, width: nat, x: Seq<u8>, y: Seq<u8>)
    requires
        a < le_bound(width),
        b < le_bound(width),
        le_bytes(a, width) + x == le_bytes(b, width) + y,
    ensures
        a == b,
        x == y,
{
    lemma_le_len(a, width);
    lemma_le_len(b, width);
    let l = le_bytes(a, width) + x;
    let r = le_bytes(b, width) + y;
    assert(l.take(width as int) =~= le_bytes(a, width));
    assert(r.take(width as int) =~= le_bytes(b, width));
    assert(l.skip(width as int) =~= x);
    assert(r.skip(width as int) =~= y);
    lemma_le_injective(a, b, width);
}

/// Strings that stand at the same place are equal.
proof fn lemma_string_prefix(s: Seq<char>, t: Seq<char>, x: Seq<u8>, y: Seq<u8>)
    requires
        encode_utf8(s).len() <= u64::MAX,
        encode_utf8(t).len() <= u64::MAX,
        string_bytes(s) + x == string_bytes(t) + y,
    ensures
        s == t,
        x == y,
{
    let a = encode_utf8(s);
    let b = encode_utf8(t);
    lemma_le_bounds();
    assert(string_bytes(s) + x =~= le_bytes(a.len(), 8) + (a + x));
    assert(string_bytes(t) + y =~= le_bytes(b.len(), 8) + (b + y));
    lemma_number_prefix(a.len(), b.len(), 8, a + x, b + y);
    assert((a + x).take(a.len() as int) =~= a);
    assert((b + y).take(b.len() as int) =~= b);
    assert((a + x).skip(a.len() as int) =~= x);
    assert((b + y).skip(b.len() as int) =~= y);
    encode_utf8_decode_utf8(s);
    encode_utf8_decode_utf8(t);
}

/// Concatenation is associative, over the parts of an announcement.
proof fn lemma_nest(a: Seq<u8>, b: Seq<u8>, c: Seq<u8>, d: Seq<u8>, e: Seq<u8>, r: Seq<u8>)
    ensures
        (a + b + c + d + e) + r == a + (b + (c + (d + (e + r)))),
{
    assert((a + b + c + d + e) + r =~= a + (b + (c + (d + (e + r)))));
}

proof fn lemma_probe_prefix(
    tag1: u32,
    id1: u64,
    ip1: Seq<char>,
    tag2: u32,
    id2: u64,
    ip2: Seq<char>,
    bytes: Seq<u8>,
)
    requires
        bytes.len() <= u64::MAX,
        begins_with(bytes, probe_bytes(tag1, id1, ip1)),
        begins_with(bytes, probe_bytes(tag2, id2, ip2)),
    ensures
        tag1 == tag2,
        id1 == id2,
        ip1 == ip2,
{
    let p1 = probe_bytes(tag1, id1, ip1);
    let p2 = probe_bytes(tag2, id2, ip2);
    let r1 = bytes.skip(p1.len() as int);
    let r2 = bytes.skip(p2.len() as int);
    lemma_le_bounds();
    assert(bytes =~= p1 + r1);
    assert(bytes =~= p2 + r2);
    let y1 = string_bytes(ip1) + r1;
    let y2 = string_bytes(ip2) + r2;
    let x1 = le_bytes(id1 as nat, 8) + y1;
    let x2 = le_bytes(id2 as nat, 8) + y2;
    assert(bytes =~= le_bytes(tag1 as nat, 4) + x1);
    assert(bytes =~= le_bytes(tag2 as nat, 4) + x2);
    lemma_number_prefix(tag1 as nat, tag2 as nat, 4, x1, x2);
    lemma_number_prefix(id1 as nat, id2 as nat, 8, y1, y2);
    lemma_string_prefix(ip1, ip2, r1, r2);
}

proof fn lemma_announce_prefix(
    tag1: u32,
    user1: Seq<char>,
    network1: Seq<char>,
    role1: u32,
    ip1: Seq<char>,
    tag2: u32,
    user2: Seq<char>,
    network2: Seq<char>,
    role2: u32,
    ip2: Seq<char>,
    bytes: Seq<u8>,
)
    requires
        bytes.len() <= u64::MAX,
        begins_with(bytes, announce_bytes(tag1, user1, network1, role1, ip1)),
        begins_with(bytes, announce_bytes(tag2, user2, network2, role2, ip2)),
    ensures
        tag1 == tag2,
        user1 == user2,
        network1 == network2,
        role1 == role2,
        ip1 == ip2,
{
    let p1 = announce_bytes(tag1, user1, network1, role1, ip1);
    let p2 = announce_bytes(tag2, user2, network2, role2, ip2);
    let r1 = bytes.skip(p1.len() as int);
    let r2 = bytes.skip(p2.len() as int);
    lemma_le_bounds();
    assert(bytes =~= p1 + r1);
    assert(bytes =~= p2 + r2);
    let z1 = string_bytes(ip1) + r1;
    let z2 = string_bytes(ip2) + r2;
    let y1 = le_bytes(role1 as nat, 4) + z1;
    let y2 = le_bytes(role2 as nat, 4) + z2;
    let x1 = string_bytes(network1) + y1;
    let x2 = string_bytes(network2) + y2;
    let w1 = string_bytes(user1) + x1;
    let w2 = string_bytes(user2) + x2;
    lemma_nest(
        le_bytes(tag1 as nat, 4),
        string_bytes(user1),
        string_bytes(network1),
        le_bytes(role1 as nat, 4),
        string_bytes(ip1),
        r1,
    );
    lemma_nest(
        le_bytes(tag2 as nat, 4),
        string_bytes(user2),
        string_bytes(network2),
        le_bytes(role2 as nat, 4),
        string_bytes(ip2),
        r2,
    );
    lemma_number_prefix(tag1 as nat, tag2 as nat, 4, w1, w2);
    lemma_string_prefix(user1, user2, x1, x2);
    lemma_string_prefix(network1, network2, y1, y2);
    lemma_number_prefix(role1 as nat, role2 as nat, 4, z1, z2);
    lemma_string_prefix(ip1, ip2, r1, r2);
}

/// The variant's number stands first.
proof fn lemma_tag_prefix(bytes: Seq<u8>, tag: u32, rest: Seq<u8>)
    requires
        begins_with(bytes, le_bytes(tag as nat, 4) + rest),
    ensures
        bytes.take(4) == le_bytes(tag as nat, 4),
{
    lemma_le_len(tag as nat, 4);
    let head = le_bytes(tag as nat, 4) + rest;
    assert(bytes.take(4) =~= head.take(4));
    assert(head.take(4) =~= le_bytes(tag as nat, 4));
}

/// The number of a message's variant on the wire.
spec fn message_tag(m: MessageView) -> u32 {
    match m {
        MessageView::PeerAnnounce { .. } => 0,
        MessageView::Ping { .. } => 1,
        MessageView::Pong { .. } => 2,
    }
}

proof fn lemma_message_tag(bytes: Seq<u8>, m: MessageView)
    requires
        holds_message(bytes, m),
    ensures
        bytes.take(4) == le_bytes(message_tag(m) as nat, 4),
{
    let tag = message_tag(m);
    match m {
        MessageView::PeerAnnounce { user_name, network_name, role, virtual_ip } => {
            let rest = string_bytes(user_name) + string_bytes(network_name) + le_bytes(
                role_number(role) as nat,
                4,
            ) + string_bytes(virtual_ip);
            assert(encoding(m) =~= le_bytes(tag as nat, 4) + rest);
            lemma_tag_prefix(bytes, tag, rest);
        },
        MessageView::Ping { id, virtual_ip } => {
            let rest = le_bytes(id as nat, 8) + string_bytes(virtual_ip);
            assert(encoding(m) =~= le_bytes(tag as nat, 4) + rest);
            lemma_tag_prefix(bytes, tag, rest);
        },
        MessageView::Pong { id, virtual_ip } => {
            let rest = le_bytes(id as nat, 8) + string_bytes(virtual_ip);
            assert(encoding(m) =~= le_bytes(tag as nat, 4) + rest);
            lemma_tag_prefix(bytes, tag, rest);
        },
    }
}

/// Bytes start with the encoding of at most one message: the wire format is
/// unambiguous, whatever follows a message.
pub proof fn law_unambiguous(bytes: Seq<u8>, m1: MessageView, m2: MessageView)
    requires
        bytes.len() <= u64::MAX,
        holds_message(bytes, m1),
        holds_message(bytes, m2),
    ensures
        m1 == m2,
{
    lemma_message_tag(bytes, m1);
    lemma_message_tag(bytes, m2);
    lemma_le_bounds();
    lemma_le_injective(message_tag(m1) as nat, message_tag(m2) as nat, 4);
    match (m1, m2) {
        (
            MessageView::PeerAnnounce {
                user_name: u1,
                network_name: n1,
                role: r1,
                virtual_ip: v1,
            },
            MessageView::PeerAnnounce {
                user_name: u2,
                network_name: n2,
                role: r2,
                virtual_ip: v2,
            },
        ) => {
            lemma_announce_prefix(
                0,
                u1,
                n1,
                role_number(r1),
                v1,
                0,
                u2,
                n2,
                role_number(r2),
                v2,
                bytes,
            );
        },
        (MessageView::Ping { id: i1, virtual_ip: v1 }, MessageView::Ping { id: i2, virtual_ip: v2 })
            => {
            lemma_probe_prefix(1, i1, v1, 1, i2, v2, bytes);
        },
        (MessageView::Pong { id: i1, virtual_ip: v1 }, MessageView::Pong { id: i2, virtual_ip: v2 })
            => {
            lemma_probe_prefix(2, i1, v1, 2, i2, v2, bytes);
        },
        _ => {},
    }
}

/// Bytes that start with the encoding of a message decode to it.
pub proof fn law_decoded(bytes: Seq<u8>, m: MessageView)
    requires
        bytes.len() <= u64::MAX,
        holds_message(bytes, m),
    ensures
        decoded(bytes) == Some(m),
{
    let found = choose|x: MessageView| holds_message(bytes, x);
    law_unambiguous(bytes, found, m);
}

/// Decoding gives back the message that was encoded, whatever stands behind it.
pub proof fn law_decode_encode(m: MessageView, rest: Seq<u8>)
    requires
        (encoding(m) + rest).len() <= u64::MAX,
    ensures
        decoded(encoding(m) + rest) == Some(m),
{
    let bytes = encoding(m) + rest;
    assert(bytes.take(encoding(m).len() as int) =~= encoding(m));
    law_decoded(bytes, m);
}

/// No IPv4 packet is taken for a control message, since its first byte, which holds
/// the version number, is larger than 2.
pub proof fn law_packet_is_no_message(bytes: Seq<u8>)
    requires
        bytes.len() > 0,
        bytes[0] > 2,
    ensures
        decoded(bytes) is None,
{
    assert forall|m: MessageView| !holds_message(bytes, m) by {
        if holds_message(bytes, m) {
            let tag = message_tag(m);
            lemma_message_tag(bytes, m);
            lemma_le_len(tag as nat, 4);
            assert(bytes.take(4)[0] == bytes[0]);
            assert(le_bytes(tag as nat, 4)[0] == (tag as nat % 256) as u8);
        }
    }
}

impl ControlMessage {
    /// Writes the message in its wire format.
    pub fn encode(&self) -> (bytes: Vec<u8>)
        requires
            encoding(self@).len() <= isize::MAX,
        ensures
            bytes@ == encoding(self@),
    {
        match self {
            ControlMessage::PeerAnnounce { user_name, network_name, role, virtual_ip } => {
                let number: u32 = match role {
                    Role::Creator => 0,
                    Role::Client => 1,
                };
                write_announce(
                    0,
                    user_name.as_str(),
                    network_name.as_str(),
                    number,
                    virtual_ip.as_str(),
                )
            },
            ControlMessage::Ping { id, virtual_ip } => write_probe(1, *id, virtual_ip.as_str()),
            ControlMessage::Pong { id, virtual_ip } => write_probe(2, *id, virtual_ip.as_str()),
        }
    }

    /// Reads the message that `bytes` starts with.
    pub fn decode(bytes: &[u8]) -> (r: Option<ControlMessage>)
        ensures
            r is Some <==> decoded(bytes@) is Some,
            r matches Some(m) ==> decoded(bytes@) == Some(m@),
    {
        assert(bytes@.len() == bytes.len());
        let probe = read_probe(bytes);
        let ghost probe_read = probe;
        if let Some((tag, id, virtual_ip)) = probe {
            if tag == 1 {
                let m = ControlMessage::Ping { id, virtual_ip };
                proof {
                    law_decoded(bytes@, m@);
                }
                return Some(m);
            }
            if tag == 2 {
                let m = ControlMessage::Pong { id, virtual_ip };
                proof {
                    law_decoded(bytes@, m@);
                }
                return Some(m);
            }
        }
        let announce = read_announce(bytes);
        let ghost announce_read = announce;
        if let Some((tag, user_name, network_name, number, virtual_ip)) = announce {
            if tag == 0 && number == 0 {
                let m = ControlMessage::PeerAnnounce {
                    user_name,
                    network_name,
                    role: Role::Creator,
                    virtual_ip,
                };
                proof {
                    law_decoded(bytes@, m@);
                }
                return Some(m);
            }
            if tag == 0 && number == 1 {
                let m = ControlMessage::PeerAnnounce {
                    user_name,
                    network_name,
                    role: Role::Client,
                    virtual_ip,
                };
                proof {
                    law_decoded(bytes@, m@);
                }
                return Some(m);
            }
        }
        proof {
            assert forall|m: MessageView| !holds_message(bytes@, m) by {
                if holds_message(bytes@, m) {
                    lemma_read(bytes@, m, probe_read, announce_read);
                }
            }
        }
        None
    }
}

/// What the two readers find in bytes that start with a message.
proof fn lemma_read(
    bytes: Seq<u8>,
    m: MessageView,
    probe: Option<(u32, u64, String)>,
    announce: Option<(u32, String, String, u32, String)>,
)
    requires
        bytes.len() <= u64::MAX,
        holds_message(bytes, m),
        match probe {
            Some((tag, id, ip)) => begins_with(bytes, probe_bytes(tag, id, ip@)),
            None => forall|tag: u32, id: u64, ip: Seq<char>|
                !begins_with(bytes, #[trigger] probe_bytes(tag, id, ip)),
        },
        match announce {
            Some((tag, user, network, role, ip)) => begins_with(
                bytes,
                announce_bytes(tag, user@, network@, role, ip@),
            ),
            None => forall|tag: u32, user: Seq<char>, network: Seq<char>, role: u32, ip: Seq<char>|
                !begins_with(bytes, #[trigger] announce_bytes(tag, user, network, role, ip)),
        },
    ensures
        match m {
            MessageView::PeerAnnounce { .. } => announce is Some && announce.unwrap().0 == 0
                && announce.unwrap().3 <= 1,
            MessageView::Ping { .. } => probe is Some && probe.unwrap().0 == 1,
            MessageView::Pong { .. } => probe is Some && probe.unwrap().0 == 2,
        },
{
    match m {
        MessageView::PeerAnnounce { user_name, network_name, role, virtual_ip } => {
            let (tag, user, network, number, ip) = announce->0;
            lemma_announce_prefix(
                tag,
                user@,
                network@,
                number,
                ip@,
                0,
                user_name,
                network_name,
                role_number(role),
                virtual_ip,
                bytes,
            );
        },
        MessageView::Ping { id, virtual_ip } => {
            let (tag, number, ip) = probe->0;
            lemma_probe_prefix(tag, number, ip@, 1, id, virtual_ip, bytes);
        },
        MessageView::Pong { id, virtual_ip } => {
            let (tag, number, ip) = probe->0;
            lemma_probe_prefix(tag, number, ip@, 2, id, virtual_ip, bytes);
        },
    }
}

/// The number that bytes stand for, the lowest first.
pub open spec fn le_value(bytes: Seq<u8>) -> int
    decreases bytes.len(),
{
    if bytes.len() == 0 {
        0
    } else {
        bytes[0] as int + 256 * le_value(bytes.drop_first())
    }
}

proof fn lemma_le_value(n: nat, width: nat)
    requires
        n < le_bound(width),
    ensures
        le_value(le_bytes(n, width)) == n,
    decreases width,
{
    if width > 0 {
        let w = (width - 1) as nat;
        let x = le_bytes(n, width);
        assert(x.drop_first() =~= le_bytes(n / 256, w));
        assert(x[0] == (n % 256) as u8);
        lemma_le_value(n / 256, w);
    }
}

/// The four or eight bytes of a number that they can hold stand for that number.
pub proof fn law_le_bytes(n: nat)
    ensures
        n < 0x1_0000_0000 ==> le_bytes(n, 4).len() == 4 && le_value(le_bytes(n, 4)) == n,
        n < 0x1_0000_0000_0000_0000 ==> le_bytes(n, 8).len() == 8 && le_value(le_bytes(n, 8)) == n,
{
    lemma_le_bounds();
    lemma_le_len(n, 4);
    lemma_le_len(n, 8);
    if n < 0x1_0000_0000 {
        lemma_le_value(n, 4);
    }
    if n < 0x1_0000_0000_0000_0000 {
        lemma_le_value(n, 8);
    }
}

/// A ping and a pong on the wire, by position: the variant's number, the ping's number,
/// the length of the address, and the address. A ping is the variant 1, a pong the
/// variant 2.
pub proof fn law_probe_layout(id: u64, ip: Seq<char>)
    requires
        encode_utf8(ip).len() <= u64::MAX,
    ensures
        ({
            let ping = encoding(MessageView::Ping { id, virtual_ip: ip });
            let pong = encoding(MessageView::Pong { id, virtual_ip: ip });
            &&& ping.len() == 20 + encode_utf8(ip).len()
            &&& le_value(ping.subrange(0, 4)) == 1
            &&& le_value(ping.subrange(4, 12)) == id
            &&& le_value(ping.subrange(12, 20)) == encode_utf8(ip).len()
            &&& ping.skip(20) == encode_utf8(ip)
            &&& pong.len() == ping.len()
            &&& le_value(pong.subrange(0, 4)) == 2
            &&& pong.skip(4) == ping.skip(4)
        }),
{
    let ping = encoding(MessageView::Ping { id, virtual_ip: ip });
    let pong = encoding(MessageView::Pong { id, virtual_ip: ip });
    law_le_bytes(1);
    law_le_bytes(2);
    law_le_bytes(id as nat);
    law_le_bytes(encode_utf8(ip).len());
    assert(ping.subrange(0, 4) =~= le_bytes(1, 4));
    assert(ping.subrange(4, 12) =~= le_bytes(id as nat, 8));
    assert(ping.subrange(12, 20) =~= le_bytes(encode_utf8(ip).len(), 8));
    assert(ping.skip(20) =~= encode_utf8(ip));
    assert(pong.subrange(0, 4) =~= le_bytes(2, 4));
    assert(pong.skip(4) =~= ping.skip(4));
}

/// An announcement on the wire, by position: the variant's number, which is 0, the
/// user's name and the network's name, each behind its length, the number of the role,
/// 0 for the creator and 1 for a client, and the address behind its length.
pub proof fn law_announce_layout(user: Seq<char>, network: Seq<char>, role: Role, ip: Seq<char>)
    requires
        encode_utf8(user).len() <= u64::MAX,
        encode_utf8(network).len() <= u64::MAX,
        encode_utf8(ip).len() <= u64::MAX,
    ensures
        ({
            let e = encoding(
                MessageView::PeerAnnounce {
                    user_name: user,
                    network_name: network,
                    role,
                    virtual_ip: ip,
                },
            );
            let u = encode_utf8(user).len() as int;
            let n = encode_utf8(network).len() as int;
            let i = encode_utf8(ip).len() as int;
            &&& e.len() == 32 + u + n + i
            &&& le_value(e.subrange(0, 4)) == 0
            &&& le_value(e.subrange(4, 12)) == u
            &&& e.subrange(12, 12 + u) == encode_utf8(user)
            &&& le_value(e.subrange(12 + u, 20 + u)) == n
            &&& e.subrange(20 + u, 20 + u + n) == encode_utf8(network)
            &&& le_value(e.subrange(20 + u + n, 24 + u + n)) == match role {
                Role::Creator => 0int,
                Role::Client => 1int,
            }
            &&& le_value(e.subrange(24 + u + n, 32 + u + n)) == i
            &&& e.skip(32 + u + n) == encode_utf8(ip)
        }),
{
    let e = encoding(
        MessageView::PeerAnnounce { user_name: user, network_name: network, role, virtual_ip: ip },
    );
    let u = encode_utf8(user).len() as int;
    let n = encode_utf8(network).len() as int;
    let i = encode_utf8(ip).len() as int;
    let number = role_number(role) as nat;
    law_le_bytes(0);
    law_le_bytes(u as nat);
    law_le_bytes(n as nat);
    law_le_bytes(number);
    law_le_bytes(i as nat);
    assert(e.subrange(0, 4) =~= le_bytes(0, 4));
    assert(e.subrange(4, 12) =~= le_bytes(u as nat, 8));
    assert(e.subrange(12, 12 + u) =~= encode_utf8(user));
    assert(e.subrange(12 + u, 20 + u) =~= le_bytes(n as nat, 8));
    assert(e.subrange(20 + u, 20 + u + n) =~= encode_utf8(network));
    assert(e.subrange(20 + u + n, 24 + u + n) =~= le_bytes(number, 4));
    assert(e.subrange(24 + u + n, 32 + u + n) =~= le_bytes(i as nat, 8));
    assert(e.skip(32 + u + n) =~= encode_utf8(ip));
}

/// What is read as a message starts with the bytes of that message.
pub proof fn law_decoded_is_there(bytes: Seq<u8>, m: MessageView)
    requires
        decoded(bytes) == Some(m),
    ensures
        encoding(m).len() <= bytes.len(),
        bytes == encoding(m) + bytes.skip(encoding(m).len() as int),
{
    let found = choose|x: MessageView| holds_message(bytes, x);
    assert(holds_message(bytes, found));
    assert(bytes =~= encoding(m) + bytes.skip(encoding(m).len() as int));
}

} // verus!
