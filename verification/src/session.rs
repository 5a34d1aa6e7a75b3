//! What a running network does with packets, datagrams and the passing of time.
//!
//! The caller reads the tunnel device, the socket, the clock and the stop flag, and
//! hands in what it read. It gets back what to send, what to write to the tunnel
//! device, and what to do next.

use crate::crypto::{
    carries, decrypt_message, decrypted, encrypt_message, law_carried_comes_back, law_layout,
    tag_of, MAX_PLAIN_LEN,
};
use crate::network::{Network, NetworkView};
use crate::peers::{
    addresses, distinct, law_lookup, law_lookup_absent, law_with_peer, law_with_peer_in_place,
    law_with_rtt, law_with_rtt_in_place, lookup, name_taken, with_peer, with_rtt, Endpoint,
    PeerInfo, PeerTable, PeerView,
};
use crate::random::random_id;
use crate::subnet::{host_octet, virtual_ip};
use crate::text::{
    decimal, digit_char, dotted, dotted_quad, ends_with, is_numeral, law_decimal, push_decimal,
};
use crate::wire::{
    decoded, encoding, law_decode_encode, law_packet_is_no_message, lemma_le_len, ControlMessage,
    MessageView, Role,
};
use std::collections::HashMap;
use vstd::prelude::*;
use vstd::string::*;
use vstd::utf8::encode_utf8;

verus! {

broadcast use vstd::std_specs::hash::group_hash_axioms;

/// The time between two announcements, in nanoseconds.
pub const ANNOUNCE_INTERVAL: u128 = 2_000_000_000;

/// The length of the shortest IPv4 header, in bytes.
pub const IP_HEADER_LEN: usize = 20;

/// A ping that has not been answered yet.
#[derive(Debug)]
pub struct PendingPing {
    pub sent: u128,
    pub addr: Endpoint,
    pub peer_ip: String,
}

/// The content of a `PendingPing`.
pub struct PendingView {
    pub sent: u128,
    pub addr: Endpoint,
    pub peer_ip: Seq<char>,
}

impl View for PendingPing {
    type V = PendingView;

    open spec fn view(&self) -> PendingView {
        PendingView { sent: self.sent, addr: self.addr, peer_ip: self.peer_ip@ }
    }
}

/// The state of a running network, apart from the table of its members.
pub struct Session {
    key: [u8; 32],
    network_name: String,
    my_name: String,
    my_role: Role,
    my_ip: String,
    pending: HashMap<u64, PendingPing>,
    name_suffix: u32,
    last_hello: u128,
}

/// The content of a `Session`.
pub struct SessionView {
    pub key: Seq<u8>,
    pub network_name: Seq<char>,
    pub my_name: Seq<char>,
    pub my_role: Role,
    pub my_ip: Seq<char>,
    pub pending: Map<u64, PendingView>,
    pub name_suffix: u32,
    pub last_hello: u128,
}

impl View for Session {
    type V = SessionView;

    closed spec fn view(&self) -> SessionView {
        SessionView {
            key: self.key@,
            network_name: self.network_name@,
            my_name: self.my_name@,
            my_role: self.my_role,
            my_ip: self.my_ip@,
            pending: self.pending@.map_values(|p: PendingPing| p@),
            name_suffix: self.name_suffix,
            last_hello: self.last_hello,
        }
    }
}

/// A session together with the table of the members.
pub struct NodeView {
    pub session: SessionView,
    pub peers: Seq<(Seq<char>, PeerView)>,
}

/// The content of a session and of the table that goes with it.
pub open spec fn node_of(session: SessionView, peers: Seq<(Seq<char>, PeerView)>) -> NodeView {
    NodeView { session, peers }
}

/// What an accepted plaintext calls for.
#[derive(Debug)]
pub enum Reaction {
    /// A message to the sender.
    Send(ControlMessage),
    /// The plaintext goes to the tunnel device.
    Deliver,
    /// Nothing.
    Nothing,
}

/// The content of a `Reaction`.
pub enum ReactionView {
    Send(MessageView),
    Deliver,
    Nothing,
}

impl View for Reaction {
    type V = ReactionView;

    open spec fn view(&self) -> ReactionView {
        match self {
            Reaction::Send(m) => ReactionView::Send(m@),
            Reaction::Deliver => ReactionView::Deliver,
            Reaction::Nothing => ReactionView::Nothing,
        }
    }
}

/// A datagram and where it goes.
#[derive(Debug)]
pub struct Outgoing {
    pub to: Endpoint,
    pub datagram: Vec<u8>,
}

/// What the caller does after the sends and writes of a step.
#[derive(Clone, Copy, Debug, PartialEq, Eq, Structural)]
pub enum Next {
    /// Read the tunnel device.
    ReadTun,
    /// Read the socket.
    ReadUdp,
    /// Pause, and begin a round.
    Sleep,
    /// Stop running the network.
    Exit,
}

/// The result of handing in something that was read.
#[derive(Debug)]
pub struct Step {
    pub sends: Vec<Outgoing>,
    pub to_tun: Option<Vec<u8>>,
    pub next: Next,
}

/// What came of reading the tunnel device.
#[derive(Clone, Copy, Debug)]
pub enum TunRead<'a> {
    Packet(&'a [u8]),
    WouldBlock,
    Failed,
}

/// What came of reading the socket.
#[derive(Clone, Copy, Debug)]
pub enum UdpRead<'a> {
    Datagram { data: &'a [u8], src: Endpoint },
    WouldBlock,
    Failed,
}

impl SessionView {
    /// The announcement that this member makes of itself.
    pub open spec fn announcement(self) -> MessageView {
        MessageView::PeerAnnounce {
            user_name: self.my_name,
            network_name: self.network_name,
            role: self.my_role,
            virtual_ip: self.my_ip,
        }
    }

    /// Whether the announcement is short enough to be encrypted.
    pub open spec fn fits(self) -> bool {
        &&& encoding(self.announcement()).len() <= MAX_PLAIN_LEN
        &&& encoding(self.announcement()).len() <= isize::MAX
    }
}

/// The session that starts for a network at time `now`.
pub open spec fn started(network: NetworkView, now: u128) -> SessionView {
    SessionView {
        key: network.config.key,
        network_name: network.name,
        my_name: network.owner,
        my_role: network.my_role,
        my_ip: network.my_virtual_ip,
        pending: Map::empty(),
        name_suffix: 0,
        last_hello: now,
    }
}

/// The number that follows `n` in the counting of repeated names, which goes back
/// to zero after the largest.
pub open spec fn next_suffix(n: u32) -> u32 {
    if n == u32::MAX {
        0
    } else {
        (n + 1) as u32
    }
}

/// A user name told apart by a number.
pub open spec fn numbered_name(name: Seq<char>, number: u32) -> Seq<char> {
    name + seq!['_'] + decimal(number as nat)
}

/// The source address of a packet.
pub open spec fn source_ip(packet: Seq<u8>) -> Seq<char> {
    dotted(packet.subrange(12, 16))
}

/// The destination address of a packet.
pub open spec fn destination_ip(packet: Seq<u8>) -> Seq<char> {
    dotted(packet.subrange(16, 20))
}

/// Whether an address stands for all members.
pub open spec fn is_broadcast(ip: Seq<char>) -> bool {
    ends_with(ip, seq!['.', '2', '5', '5']) || ip == dotted(seq![255u8, 255u8, 255u8, 255u8])
}

/// Where a packet from the tunnel device goes: to every member, to the member under
/// its destination address, or nowhere.
pub open spec fn route(peers: Seq<(Seq<char>, PeerView)>, packet: Seq<u8>) -> Seq<Endpoint> {
    if packet.len() < IP_HEADER_LEN {
        Seq::empty()
    } else if is_broadcast(destination_ip(packet)) {
        addresses(peers)
    } else {
        match lookup(peers, destination_ip(packet)) {
            Some(info) => seq![info.addr],
            None => Seq::empty(),
        }
    }
}

/// What is known of a member from a packet alone.
pub open spec fn stranger(src: Endpoint, now: u128) -> PeerView {
    PeerView {
        addr: src,
        user_name: seq!['u', 'n', 'k', 'n', 'o', 'w', 'n'],
        role: Role::Client,
        last_seen: now,
        rtt: None,
    }
}

/// What is entered of a member that announces itself: under a numbered name, where
/// some member shows its name already.
pub open spec fn announced_peer(
    node: NodeView,
    user_name: Seq<char>,
    role: Role,
    src: Endpoint,
    now: u128,
) -> PeerView {
    let shown = if name_taken(node.peers, user_name) {
        numbered_name(user_name, next_suffix(node.session.name_suffix))
    } else {
        user_name
    };
    PeerView { addr: src, user_name: shown, role, last_seen: now, rtt: None }
}

/// What an announcement does. The member is entered under its address in the
/// virtual network and is sent a ping, which is noted as pending.
pub open spec fn on_announce(
    node: NodeView,
    user_name: Seq<char>,
    role: Role,
    virtual_ip: Seq<char>,
    src: Endpoint,
    now: u128,
    ping_id: u64,
) -> (NodeView, ReactionView) {
    let suffix = if name_taken(node.peers, user_name) {
        next_suffix(node.session.name_suffix)
    } else {
        node.session.name_suffix
    };
    let pending = PendingView { sent: now, addr: src, peer_ip: virtual_ip };
    (
        NodeView {
            session: SessionView {
                pending: node.session.pending.insert(ping_id, pending),
                name_suffix: suffix,
                ..node.session
            },
            peers: with_peer(
                node.peers,
                virtual_ip,
                announced_peer(node, user_name, role, src, now),
            ),
        },
        ReactionView::Send(MessageView::Ping { id: ping_id, virtual_ip: node.session.my_ip }),
    )
}

/// The time from `sent` to `now`; none where `now` is not later.
pub open spec fn elapsed(sent: u128, now: u128) -> u128 {
    if now >= sent {
        (now - sent) as u128
    } else {
        0
    }
}

/// What the answer to a ping does. The ping is no longer pending, and the time it
/// took is noted for the member that it was sent to. An answer to no pending ping
/// does nothing.
pub open spec fn on_pong(node: NodeView, id: u64, now: u128) -> (NodeView, ReactionView) {
    if node.session.pending.contains_key(id) {
        let ping = node.session.pending[id];
        (
            NodeView {
                session: SessionView {
                    pending: node.session.pending.remove(id),
                    ..node.session
                },
                peers: with_rtt(node.peers, ping.peer_ip, elapsed(ping.sent, now)),
            },
            ReactionView::Nothing,
        )
    } else {
        (node, ReactionView::Nothing)
    }
}

/// What a packet from another member does. It goes to the tunnel device, and its
/// sender is entered if nothing is known under its source address.
pub open spec fn on_packet(node: NodeView, packet: Seq<u8>, src: Endpoint, now: u128) -> (
    NodeView,
    ReactionView,
) {
    let peers = match lookup(node.peers, source_ip(packet)) {
        Some(_) => node.peers,
        None => with_peer(node.peers, source_ip(packet), stranger(src, now)),
    };
    (NodeView { peers, ..node }, ReactionView::Deliver)
}

/// What an accepted plaintext does and calls for. What is no control message and
/// is long enough for an IPv4 header is a packet.
pub open spec fn react(
    node: NodeView,
    plain: Seq<u8>,
    src: Endpoint,
    now: u128,
    ping_id: u64,
) -> (NodeView, ReactionView) {
    match decoded(plain) {
        Some(MessageView::PeerAnnounce { user_name, role, virtual_ip, .. }) => on_announce(
            node,
            user_name,
            role,
            virtual_ip,
            src,
            now,
            ping_id,
        ),
        Some(MessageView::Ping { id, .. }) => (
            node,
            ReactionView::Send(MessageView::Pong { id, virtual_ip: node.session.my_ip }),
        ),
        Some(MessageView::Pong { id, .. }) => on_pong(node, id, now),
        None => if plain.len() >= IP_HEADER_LEN {
            on_packet(node, plain, src, now)
        } else {
            (node, ReactionView::Nothing)
        },
    }
}

/// Whether `sends` carries `plain` to each of `targets`, in order, once each.
pub open spec fn reaches(
    sends: Seq<Outgoing>,
    key: Seq<u8>,
    plain: Seq<u8>,
    targets: Seq<Endpoint>,
) -> bool {
    &&& sends.len() == targets.len()
    &&& forall|i: int|
        0 <= i < sends.len() ==> (#[trigger] sends[i]).to == targets[i] && carries(
            key,
            sends[i].datagram@,
            plain,
        )
}

impl Step {
    /// Whether the step sends and writes nothing.
    pub open spec fn is_quiet(self) -> bool {
        self.sends@.len() == 0 && self.to_tun is None
    }

    /// Whether the step does what `reaction` to `plain` from `src` calls for.
    pub open spec fn performs(
        self,
        reaction: ReactionView,
        key: Seq<u8>,
        plain: Seq<u8>,
        src: Endpoint,
    ) -> bool {
        match reaction {
            ReactionView::Send(m) => {
                &&& reaches(self.sends@, key, encoding(m), seq![src])
                &&& self.to_tun is None
            },
            ReactionView::Deliver => {
                &&& self.sends@.len() == 0
                &&& self.to_tun matches Some(written) && written@ == plain
            },
            ReactionView::Nothing => self.is_quiet(),
        }
    }
}

/// Whether the node and the step `r` are what an accepted plaintext makes of them,
/// with this number for a ping.
pub open spec fn answered(
    before: NodeView,
    plain: Seq<u8>,
    src: Endpoint,
    now: u128,
    ping_id: u64,
    after: NodeView,
    r: Step,
) -> bool {
    let (node, reaction) = react(before, plain, src, now, ping_id);
    &&& after == node
    &&& r.performs(reaction, before.session.key, plain, src)
}

/// Whether the node and the step `r` are what reading the socket makes of them. The
/// number of a ping is a random one.
pub open spec fn udp_step(
    before: NodeView,
    read: UdpRead,
    now: u128,
    after: NodeView,
    r: Step,
) -> bool {
    match read {
        UdpRead::Datagram { data, src } => {
            &&& r.next == Next::ReadUdp
            &&& if decrypted(before.session.key, data@) is Some {
                let plain = decrypted(before.session.key, data@).unwrap();
                exists|ping_id: u64| #[trigger]
                    answered(before, plain, src, now, ping_id, after, r)
            } else {
                r.is_quiet() && after == before
            }
        },
        UdpRead::WouldBlock => r.next == Next::Sleep && r.is_quiet() && after == before,
        UdpRead::Failed => r.next == Next::Exit && r.is_quiet() && after == before,
    }
}

/// The decimal notation of an octet, digit by digit.
proof fn lemma_octet_digits(n: u8)
    ensures
        n < 10 ==> decimal(n as nat) == seq![digit_char(n as nat)],
        10 <= n < 100 ==> decimal(n as nat) == seq![
            digit_char(n as nat / 10),
            digit_char(n as nat % 10),
        ],
        100 <= n ==> decimal(n as nat) == seq![
            digit_char(n as nat / 100),
            digit_char(n as nat / 10 % 10),
            digit_char(n as nat % 10),
        ],
{
    reveal_with_fuel(decimal, 3);
    if n >= 100 {
        assert(n as nat / 10 / 10 == n as nat / 100);
        assert(decimal(n as nat) =~= seq![
            digit_char(n as nat / 100),
            digit_char(n as nat / 10 % 10),
            digit_char(n as nat % 10),
        ]);
    } else if n >= 10 {
        assert(decimal(n as nat) =~= seq![digit_char(n as nat / 10), digit_char(n as nat % 10)]);
    }
}

/// An address stands for all members if and only if its last octet is 255.
pub proof fn law_broadcast(octets: Seq<u8>)
    requires
        octets.len() == 4,
    ensures
        is_broadcast(dotted(octets)) <==> octets[3] == 255,
{
    let text = dotted(octets);
    let head = decimal(octets[0] as nat) + seq!['.'] + decimal(octets[1] as nat) + seq!['.']
        + decimal(octets[2] as nat) + seq!['.'];
    let last = decimal(octets[3] as nat);
    let n = text.len() as int;
    let suffix = seq!['.', '2', '5', '5'];
    lemma_octet_digits(octets[0]);
    lemma_octet_digits(octets[1]);
    lemma_octet_digits(octets[2]);
    lemma_octet_digits(octets[3]);
    assert(text =~= head + last);
    assert(head.len() >= 6 && head.last() == '.');
    if octets[3] == 255 {
        assert(text.subrange(n - 4, n) =~= suffix);
    } else {
        let tail = text.subrange(n - 4, n);
        if octets[3] < 10 {
            assert(tail[2] == '.');
        } else if octets[3] < 100 {
            assert(tail[1] == '.');
        } else {
            assert(tail[1] == last[0] && tail[2] == last[1] && tail[3] == last[2]);
        }
        assert(tail != suffix);
        if text == dotted(seq![255u8, 255u8, 255u8, 255u8]) {
            let all = seq![255u8, 255u8, 255u8, 255u8];
            lemma_octet_digits(255);
            let all_text = dotted(all);
            assert(all_text.subrange(all_text.len() - 4, all_text.len() as int) =~= suffix);
        }
    }
}

/// The address that a random byte selects never stands for all members.
pub proof fn law_own_address_is_no_broadcast(byte: u8)
    ensures
        !is_broadcast(virtual_ip(byte)),
{
    law_broadcast(seq![10u8, 0u8, 0u8, host_octet(byte)]);
}

/// How long messages are on the wire.
proof fn lemma_lengths(session: SessionView, id: u64)
    ensures
        encoding(MessageView::Ping { id, virtual_ip: session.my_ip }).len() <= encoding(
            session.announcement(),
        ).len(),
        encoding(MessageView::Pong { id, virtual_ip: session.my_ip }).len() <= encoding(
            session.announcement(),
        ).len(),
{
    lemma_le_len(id as nat, 8);
    lemma_le_len(0, 4);
    lemma_le_len(1, 4);
    lemma_le_len(2, 4);
    lemma_le_len(encode_utf8(session.my_name).len(), 8);
    lemma_le_len(encode_utf8(session.network_name).len(), 8);
}

/// Encrypts `plain` once for each of `targets`.
fn send_each(key: &[u8; 32], plain: &[u8], targets: &Vec<Endpoint>) -> (sends: Vec<Outgoing>)
    requires
        plain@.len() <= MAX_PLAIN_LEN,
    ensures
        reaches(sends@, key@, plain@, targets@),
{
    let mut sends: Vec<Outgoing> = Vec::new();
    let mut i: usize = 0;
    while i < targets.len()
        invariant
            plain@.len() <= MAX_PLAIN_LEN,
            i <= targets@.len(),
            reaches(sends@, key@, plain@, targets@.take(i as int)),
        decreases targets@.len() - i,
    {
        let datagram = encrypt_message(key, plain);
        sends.push(Outgoing { to: targets[i], datagram });
        i += 1;
    }
    assert(targets@.take(i as int) =~= targets@);
    sends
}

/// Addresses one datagram to each of `targets`.
fn send_copies(datagram: &Vec<u8>, targets: &Vec<Endpoint>) -> (sends: Vec<Outgoing>)
    ensures
        sends@.len() == targets@.len(),
        forall|i: int|
            0 <= i < sends@.len() ==> (#[trigger] sends@[i]).to == targets@[i]
                && sends@[i].datagram@ == datagram@,
{
    let mut sends: Vec<Outgoing> = Vec::new();
    let mut i: usize = 0;
    while i < targets.len()
        invariant
            i <= targets@.len(),
            sends@.len() == i,
            forall|j: int|
                0 <= j < i ==> (#[trigger] sends@[j]).to == targets@[j] && sends@[j].datagram@
                    == datagram@,
        decreases targets@.len() - i,
    {
        let copy: Vec<u8> = datagram.clone();
        assert(copy@ =~= datagram@);
        sends.push(Outgoing { to: targets[i], datagram: copy });
        i += 1;
    }
    sends
}

impl Session {
    /// Starts the session of a network.
    pub fn new(network: &Network, now: u128) -> (s: Session)
        requires
            started(network@, now).fits(),
        ensures
            s@ == started(network@, now),
            s@.fits(),
    {
        let s = Session {
            key: network.config.key,
            network_name: network.name.clone(),
            my_name: network.owner.clone(),
            my_role: network.my_role,
            my_ip: network.my_virtual_ip.clone(),
            pending: HashMap::new(),
            name_suffix: 0,
            last_hello: now,
        };
        assert(s@.pending =~= Map::<u64, PendingView>::empty());
        s
    }

    /// Begins a round: stops if asked to, and makes the announcement to every member
    /// if it is due.
    pub fn begin_round(&mut self, peers: &PeerTable, shutdown: bool, now: u128) -> (r: Step)
        requires
            old(self)@.fits(),
        ensures
            final(self)@.fits(),
            r.to_tun is None,
            shutdown ==> r.next == Next::Exit && r.sends@.len() == 0 && final(self)@ == old(self)@,
            !shutdown ==> r.next == Next::ReadTun,
            !shutdown && now < old(self)@.last_hello + 2_000_000_000 ==> r.sends@.len() == 0
                && final(self)@ == old(self)@,
            !shutdown && now >= old(self)@.last_hello + 2_000_000_000 ==> {
                &&& r.sends@.len() == peers@.len()
                &&& forall|i: int|
                    0 <= i < r.sends@.len() ==> (#[trigger] r.sends@[i]).to == peers@[i].1.addr
                &&& reaches(
                    r.sends@,
                    old(self)@.key,
                    encoding(old(self)@.announcement()),
                    addresses(peers@),
                )
                &&& forall|i: int, j: int|
                    0 <= i < j < r.sends@.len() ==> (#[trigger] r.sends@[i]).datagram@ == (
                    #[trigger] r.sends@[j]).datagram@
                &&& final(self)@ == (SessionView { last_hello: now, ..old(self)@ })
            },
    {
        if shutdown {
            return Step { sends: Vec::new(), to_tun: None, next: Next::Exit };
        }
        if now >= self.last_hello && now - self.last_hello >= ANNOUNCE_INTERVAL {
            let announcement = ControlMessage::PeerAnnounce {
                user_name: self.my_name.clone(),
                network_name: self.network_name.clone(),
                role: self.my_role,
                virtual_ip: self.my_ip.clone(),
            };
            let serialized = announcement.encode();
            let encrypted = encrypt_message(&self.key, serialized.as_slice());
            let targets = peers.addresses();
            let sends = send_copies(&encrypted, &targets);
            self.last_hello = now;
            return Step { sends, to_tun: None, next: Next::ReadTun };
        }
        Step { sends: Vec::new(), to_tun: None, next: Next::ReadTun }
    }

    /// The members that a packet from the tunnel device goes to.
    pub fn route_packet(peers: &PeerTable, packet: &[u8]) -> (targets: Vec<Endpoint>)
        requires
            peers.wf(),
        ensures
            targets@ == route(peers@, packet@),
    {
        if packet.len() < IP_HEADER_LEN {
            return Vec::new();
        }
        proof {
            assert(packet@.subrange(16, 20) =~= seq![packet[16], packet[17], packet[18], packet[19]]);
            law_broadcast(packet@.subrange(16, 20));
        }
        if packet[19] == 255 {
            return peers.addresses();
        }
        let destination = dotted_quad(packet[16], packet[17], packet[18], packet[19]);
        let mut targets: Vec<Endpoint> = Vec::new();
        if let Some(info) = peers.get(&destination) {
            targets.push(info.addr);
        }
        assert(targets@ =~= route(peers@, packet@));
        targets
    }

    /// Takes what came of reading the tunnel device. A packet is encrypted anew for
    /// each member that it goes to.
    pub fn handle_tun(&self, peers: &PeerTable, read: TunRead) -> (r: Step)
        requires
            peers.wf(),
            read matches TunRead::Packet(packet) ==> packet@.len() <= MAX_PLAIN_LEN,
        ensures
            r.to_tun is None,
            match read {
                TunRead::Packet(packet) => {
                    &&& r.next == if packet@.len() == 0 {
                        Next::ReadUdp
                    } else {
                        Next::ReadTun
                    }
                    &&& reaches(r.sends@, self@.key, packet@, route(peers@, packet@))
                },
                TunRead::WouldBlock => r.next == Next::ReadUdp && r.is_quiet(),
                TunRead::Failed => r.next == Next::Exit && r.is_quiet(),
            },
    {
        match read {
            TunRead::Packet(packet) => {
                let next = if packet.len() == 0 {
                    Next::ReadUdp
                } else {
                    Next::ReadTun
                };
                let targets = Session::route_packet(peers, packet);
                let sends = send_each(&self.key, packet, &targets);
                Step { sends, to_tun: None, next }
            },
            TunRead::WouldBlock => Step { sends: Vec::new(), to_tun: None, next: Next::ReadUdp },
            TunRead::Failed => Step { sends: Vec::new(), to_tun: None, next: Next::Exit },
        }
    }

    /// Takes an announcement; `ping_id` is the number of the ping that it calls for.
    fn take_announce(
        &mut self,
        peers: &mut PeerTable,
        user_name: String,
        role: Role,
        virtual_ip: String,
        src: Endpoint,
        now: u128,
        ping_id: u64,
    ) -> (r: Reaction)
        requires
            old(peers).wf(),
        ensures
            final(peers).wf(),
            (node_of(final(self)@, final(peers)@), r@) == on_announce(
                node_of(old(self)@, old(peers)@),
                user_name@,
                role,
                virtual_ip@,
                src,
                now,
                ping_id,
            ),
    {
        let ghost before = self@.pending;
        let ghost ip = virtual_ip@;
        let mut shown: String = user_name.clone();
        if peers.has_name(&user_name) {
            self.name_suffix = self.name_suffix.wrapping_add(1);
            proof {
                reveal_strlit("_");
                assert("_"@ =~= seq!['_']);
            }
            shown.append("_");
            push_decimal(&mut shown, self.name_suffix as u128);
        }
        peers.insert(
            virtual_ip.clone(),
            PeerInfo { addr: src, user_name: shown, role, last_seen: now, rtt: None },
        );
        let pending = PendingPing { sent: now, addr: src, peer_ip: virtual_ip };
        self.pending.insert(ping_id, pending);
        assert(self@.pending =~= before.insert(
            ping_id,
            PendingView { sent: now, addr: src, peer_ip: ip },
        ));
        Reaction::Send(ControlMessage::Ping { id: ping_id, virtual_ip: self.my_ip.clone() })
    }

    /// Takes the answer to a ping.
    fn take_pong(&mut self, peers: &mut PeerTable, id: u64, now: u128)
        requires
            old(peers).wf(),
        ensures
            final(peers).wf(),
            node_of(final(self)@, final(peers)@) == on_pong(
                node_of(old(self)@, old(peers)@),
                id,
                now,
            ).0,
    {
        let ghost before = self@.pending;
        match self.pending.remove(&id) {
            Some(ping) => {
                assert(self@.pending =~= before.remove(id));
                let rtt: u128 = now.saturating_sub(ping.sent);
                peers.set_rtt(&ping.peer_ip, rtt);
            },
            None => {
                assert(self@.pending =~= before);
            },
        }
    }

    /// Takes a plaintext that passed authentication; `ping_id` is the number of the
    /// ping to send, should it be an announcement.
    pub fn handle_plain(
        &mut self,
        peers: &mut PeerTable,
        plain: &[u8],
        src: Endpoint,
        now: u128,
        ping_id: u64,
    ) -> (r: Reaction)
        requires
            old(peers).wf(),
        ensures
            final(peers).wf(),
            (node_of(final(self)@, final(peers)@), r@) == react(
                node_of(old(self)@, old(peers)@),
                plain@,
                src,
                now,
                ping_id,
            ),
    {
        match ControlMessage::decode(plain) {
            Some(ControlMessage::PeerAnnounce { user_name, role, virtual_ip, .. }) => {
                self.take_announce(peers, user_name, role, virtual_ip, src, now, ping_id)
            },
            Some(ControlMessage::Ping { id, virtual_ip: _ }) => {
                Reaction::Send(ControlMessage::Pong { id, virtual_ip: self.my_ip.clone() })
            },
            Some(ControlMessage::Pong { id, virtual_ip: _ }) => {
                self.take_pong(peers, id, now);
                Reaction::Nothing
            },
            None => {
                if plain.len() < IP_HEADER_LEN {
                    return Reaction::Nothing;
                }
                assert(plain@.subrange(12, 16) =~= seq![plain[12], plain[13], plain[14], plain[15]]);
                let source = dotted_quad(plain[12], plain[13], plain[14], plain[15]);
                let known = peers.get(&source).is_some();
                if !known {
                    proof {
                        reveal_strlit("unknown");
                        assert("unknown"@ =~= seq!['u', 'n', 'k', 'n', 'o', 'w', 'n']);
                    }
                    peers.insert(
                        source,
                        PeerInfo {
                            addr: src,
                            user_name: "unknown".to_owned(),
                            role: Role::Client,
                            last_seen: now,
                            rtt: None,
                        },
                    );
                }
                Reaction::Deliver
            },
        }
    }

    /// Takes what came of reading the socket. What does not decrypt is dropped.
    pub fn handle_udp(&mut self, peers: &mut PeerTable, read: UdpRead, now: u128) -> (r: Step)
        requires
            old(self)@.fits(),
            old(peers).wf(),
        ensures
            final(self)@.fits(),
            final(peers).wf(),
            udp_step(
                node_of(old(self)@, old(peers)@),
                read,
                now,
                node_of(final(self)@, final(peers)@),
                r,
            ),
    {
        let ghost before = node_of(self@, peers@);
        let (data, src) = match read {
            UdpRead::Datagram { data, src } => (data, src),
            UdpRead::WouldBlock => {
                return Step { sends: Vec::new(), to_tun: None, next: Next::Sleep };
            },
            UdpRead::Failed => {
                return Step { sends: Vec::new(), to_tun: None, next: Next::Exit };
            },
        };
        let plain = match decrypt_message(&self.key, data) {
            Some(plain) => plain,
            None => {
                return Step { sends: Vec::new(), to_tun: None, next: Next::ReadUdp };
            },
        };
        let ghost text = decrypted(before.session.key, data@).unwrap();
        let ping_id: u64 = random_id();
        let reaction = self.handle_plain(peers, plain.as_slice(), src, now, ping_id);
        let ghost after = node_of(self@, peers@);
        proof {
            law_react_keeps(before, plain@, src, now, ping_id);
        }
        let r = match reaction {
            Reaction::Send(message) => {
                proof {
                    lemma_reply(before, text, src, now, ping_id);
                }
                let serialized = message.encode();
                let datagram = encrypt_message(&self.key, serialized.as_slice());
                let mut sends: Vec<Outgoing> = Vec::new();
                sends.push(Outgoing { to: src, datagram });
                Step { sends, to_tun: None, next: Next::ReadUdp }
            },
            Reaction::Deliver => Step {
                sends: Vec::new(),
                to_tun: Some(plain),
                next: Next::ReadUdp,
            },
            Reaction::Nothing => Step { sends: Vec::new(), to_tun: None, next: Next::ReadUdp },
        };
        assert(answered(before, text, src, now, ping_id, after, r));
        assert(udp_step(before, read, now, after, r));
        r
    }
}

/// Whatever arrives, this member stays who it is, its key and the time of its last
/// announcement stay as they are, and no address occurs twice in the table.
pub proof fn law_react_keeps(
    node: NodeView,
    plain: Seq<u8>,
    src: Endpoint,
    now: u128,
    ping_id: u64,
)
    requires
        distinct(node.peers),
    ensures
        ({
            let after = react(node, plain, src, now, ping_id).0;
            &&& after.session.key == node.session.key
            &&& after.session.my_ip == node.session.my_ip
            &&& after.session.announcement() == node.session.announcement()
            &&& after.session.last_hello == node.session.last_hello
            &&& distinct(after.peers)
        }),
{
    match decoded(plain) {
        Some(MessageView::PeerAnnounce { user_name, role, virtual_ip, .. }) => {
            law_with_peer(
                node.peers,
                virtual_ip,
                announced_peer(node, user_name, role, src, now),
            );
        },
        Some(MessageView::Pong { id, .. }) => {
            let ping = node.session.pending[id];
            law_with_rtt(node.peers, ping.peer_ip, elapsed(ping.sent, now));
        },
        None => {
            law_with_peer(node.peers, source_ip(plain), stranger(src, now));
        },
        _ => {},
    }
}

/// No member is ever forgotten: whatever arrives, every address in the table stays
/// in it.
pub proof fn law_react_forgets_nobody(
    node: NodeView,
    plain: Seq<u8>,
    src: Endpoint,
    now: u128,
    ping_id: u64,
    ip: Seq<char>,
)
    requires
        distinct(node.peers),
        lookup(node.peers, ip) is Some,
    ensures
        lookup(react(node, plain, src, now, ping_id).0.peers, ip) is Some,
{
    match decoded(plain) {
        Some(MessageView::PeerAnnounce { user_name, role, virtual_ip, .. }) => {
            law_with_peer(
                node.peers,
                virtual_ip,
                announced_peer(node, user_name, role, src, now),
            );
        },
        Some(MessageView::Pong { id, .. }) => {
            let ping = node.session.pending[id];
            law_with_rtt(node.peers, ping.peer_ip, elapsed(ping.sent, now));
        },
        None => {
            law_with_peer(node.peers, source_ip(plain), stranger(src, now));
        },
        _ => {},
    }
}

/// Every ping is answered: with a pong that has its number and this member's
/// address, and with no change of state. `rest` is what stands behind the message.
pub proof fn law_ping_is_answered(
    node: NodeView,
    id: u64,
    ip: Seq<char>,
    rest: Seq<u8>,
    src: Endpoint,
    now: u128,
    ping_id: u64,
)
    requires
        (encoding(MessageView::Ping { id, virtual_ip: ip }) + rest).len() <= u64::MAX,
    ensures
        react(
            node,
            encoding(MessageView::Ping { id, virtual_ip: ip }) + rest,
            src,
            now,
            ping_id,
        ) == (
            node,
            ReactionView::Send(MessageView::Pong { id, virtual_ip: node.session.my_ip }),
        ),
{
    law_decode_encode(MessageView::Ping { id, virtual_ip: ip }, rest);
}

/// A member that announced itself and answered the ping that followed is in the
/// table under its address, where the announcement came from, with its role and
/// with the time from the ping to the answer. The ping is then no longer pending,
/// and every other pending ping is as it was.
pub proof fn law_round_trip_time(
    node: NodeView,
    announce: Seq<u8>,
    user_name: Seq<char>,
    network_name: Seq<char>,
    role: Role,
    ip: Seq<char>,
    src: Endpoint,
    sent: u128,
    ping_id: u64,
    pong: Seq<u8>,
    pong_ip: Seq<char>,
    pong_src: Endpoint,
    received: u128,
    other_id: u64,
)
    requires
        distinct(node.peers),
        decoded(announce) == Some(
            MessageView::PeerAnnounce { user_name, network_name, role, virtual_ip: ip },
        ),
        decoded(pong) == Some(MessageView::Pong { id: ping_id, virtual_ip: pong_ip }),
    ensures
        ({
            let middle = react(node, announce, src, sent, ping_id).0;
            let after = react(middle, pong, pong_src, received, other_id).0;
            let info = lookup(after.peers, ip);
            &&& info is Some
            &&& info->0.addr == src
            &&& info->0.role == role
            &&& info->0.rtt == Some(elapsed(sent, received))
            &&& after.session.pending == node.session.pending.remove(ping_id)
        }),
{
    let middle = react(node, announce, src, sent, ping_id).0;
    let after = react(middle, pong, pong_src, received, other_id).0;
    law_with_peer(
        node.peers,
        ip,
        announced_peer(node, user_name, role, src, sent),
    );
    law_with_rtt(middle.peers, ip, elapsed(sent, received));
    assert(after.session.pending =~= node.session.pending.remove(ping_id));
}

/// A packet to the address that a member announced goes to where the announcement
/// came from, and to nobody else.
pub proof fn law_announced_member_is_reached(
    node: NodeView,
    announce: Seq<u8>,
    user_name: Seq<char>,
    network_name: Seq<char>,
    role: Role,
    src: Endpoint,
    now: u128,
    ping_id: u64,
    packet: Seq<u8>,
)
    requires
        distinct(node.peers),
        packet.len() >= 20,
        packet[19] != 255,
        decoded(announce) == Some(
            MessageView::PeerAnnounce {
                user_name,
                network_name,
                role,
                virtual_ip: destination_ip(packet),
            },
        ),
    ensures
        route(react(node, announce, src, now, ping_id).0.peers, packet) == seq![src],
{
    law_with_peer(
        node.peers,
        destination_ip(packet),
        announced_peer(node, user_name, role, src, now),
    );
    law_broadcast(packet.subrange(16, 20));
}

/// A packet to a broadcast address goes to every member of the table once.
pub proof fn law_broadcast_reaches_all(peers: Seq<(Seq<char>, PeerView)>, packet: Seq<u8>, i: int)
    requires
        packet.len() >= 20,
        packet[19] == 255,
        0 <= i < peers.len(),
    ensures
        route(peers, packet).len() == peers.len(),
        route(peers, packet)[i] == peers[i].1.addr,
{
    law_broadcast(packet.subrange(16, 20));
}

/// What one member encrypts, another member with the same key takes up: the IPv4
/// packet in a datagram goes to the tunnel device, followed by the datagram's tag,
/// and packets to its source address find the way back.
pub proof fn law_packet_is_delivered(
    node: NodeView,
    packet: Seq<u8>,
    data: Seq<u8>,
    src: Endpoint,
    now: u128,
    ping_id: u64,
)
    requires
        distinct(node.peers),
        packet.len() >= 20,
        packet[0] > 2,
        carries(node.session.key, data, packet),
    ensures
        ({
            let plain = packet + tag_of(data);
            let (after, reaction) = react(node, plain, src, now, ping_id);
            &&& decrypted(node.session.key, data) == Some(plain)
            &&& reaction == ReactionView::Deliver
            &&& after.session == node.session
            &&& lookup(after.peers, source_ip(packet)) == match lookup(
                node.peers,
                source_ip(packet),
            ) {
                Some(info) => Some(info),
                None => Some(stranger(src, now)),
            }
        }),
{
    let plain = packet + tag_of(data);
    law_packet_is_no_message(plain);
    assert(plain.subrange(12, 16) =~= packet.subrange(12, 16));
    law_with_peer(node.peers, source_ip(packet), stranger(src, now));
}

/// What one member encrypts, another member with the same key reads: the control
/// message in a datagram is the one that was sent.
pub proof fn law_message_is_read(key: Seq<u8>, m: MessageView, data: Seq<u8>)
    requires
        data.len() <= u64::MAX,
        carries(key, data, encoding(m)),
    ensures
        decrypted(key, data) is Some,
        decoded(decrypted(key, data)->0) == Some(m),
{
    law_decode_encode(m, tag_of(data));
}

/// Members with the same key come to know each other. The announcement of `other`,
/// in the datagram `hello`, makes `node` send a ping; the ping, in the datagram
/// `ping`, makes `other` send a pong, and changes nothing there; the pong, in the
/// datagram `pong`, is answered with nothing. `node` then has `other` in its table,
/// under the address and with the role that it announced, reached where the
/// announcement came from, and with the time that the exchange took.
pub proof fn law_exchange(
    node: NodeView,
    other: NodeView,
    hello: Seq<u8>,
    ping: Seq<u8>,
    pong: Seq<u8>,
    other_addr: Endpoint,
    node_addr: Endpoint,
    sent: u128,
    seen: u128,
    received: u128,
    ping_id: u64,
    unused_id: u64,
)
    requires
        distinct(node.peers),
        node.session.key == other.session.key,
        hello.len() <= u64::MAX,
        ping.len() <= u64::MAX,
        pong.len() <= u64::MAX,
        carries(node.session.key, hello, encoding(other.session.announcement())),
        carries(
            node.session.key,
            ping,
            encoding(MessageView::Ping { id: ping_id, virtual_ip: node.session.my_ip }),
        ),
        carries(
            node.session.key,
            pong,
            encoding(MessageView::Pong { id: ping_id, virtual_ip: other.session.my_ip }),
        ),
    ensures
        ({
            let key = node.session.key;
            let heard = react(node, decrypted(key, hello)->0, other_addr, sent, ping_id);
            let asked = react(other, decrypted(key, ping)->0, node_addr, seen, unused_id);
            let after = react(heard.0, decrypted(key, pong)->0, other_addr, received, unused_id);
            let info = lookup(after.0.peers, other.session.my_ip);
            &&& decrypted(key, hello) is Some
            &&& decrypted(key, ping) is Some
            &&& decrypted(key, pong) is Some
            &&& heard.1 == ReactionView::Send(
                MessageView::Ping { id: ping_id, virtual_ip: node.session.my_ip },
            )
            &&& asked == (
                other,
                ReactionView::Send(
                    MessageView::Pong { id: ping_id, virtual_ip: other.session.my_ip },
                ),
            )
            &&& after.1 == ReactionView::Nothing
            &&& info is Some
            &&& info->0.addr == other_addr
            &&& info->0.role == other.session.my_role
            &&& info->0.rtt == Some(elapsed(sent, received))
        }),
{
    let key = node.session.key;
    law_message_is_read(key, other.session.announcement(), hello);
    law_message_is_read(
        key,
        MessageView::Ping { id: ping_id, virtual_ip: node.session.my_ip },
        ping,
    );
    law_message_is_read(
        key,
        MessageView::Pong { id: ping_id, virtual_ip: other.session.my_ip },
        pong,
    );
    law_round_trip_time(
        node,
        decrypted(key, hello)->0,
        other.session.my_name,
        other.session.network_name,
        other.session.my_role,
        other.session.my_ip,
        other_addr,
        sent,
        ping_id,
        decrypted(key, pong)->0,
        other.session.my_ip,
        other_addr,
        received,
        unused_id,
    );
}

/// A packet never changes what is known of members that are in the table already.
pub proof fn law_packet_keeps_members(
    node: NodeView,
    packet: Seq<u8>,
    src: Endpoint,
    now: u128,
    ip: Seq<char>,
)
    requires
        distinct(node.peers),
        lookup(node.peers, ip) is Some,
    ensures
        lookup(on_packet(node, packet, src, now).0.peers, ip) == lookup(node.peers, ip),
{
    law_with_peer(node.peers, source_ip(packet), stranger(src, now));
}

/// A reply is no longer than the announcement.
proof fn lemma_reply(node: NodeView, plain: Seq<u8>, src: Endpoint, now: u128, ping_id: u64)
    ensures
        react(node, plain, src, now, ping_id).1 matches ReactionView::Send(m) ==> encoding(m).len()
            <= encoding(node.session.announcement()).len(),
{
    lemma_lengths(node.session, ping_id);
    match decoded(plain) {
        Some(MessageView::Ping { id, .. }) => {
            lemma_lengths(node.session, id);
        },
        _ => {},
    }
}

/// Time passes as on a clock: from `a` to a later `b` it is the difference, and from a
/// later time to an earlier one it is none.
pub proof fn law_elapsed(a: u128, b: u128)
    ensures
        a <= b ==> elapsed(a, b) == b - a,
        a > b ==> elapsed(a, b) == 0,
{
}

/// A packet to the address of a member goes to where that member is reached, and to
/// nobody else, whatever else is known of the member: its name, its role, when it was
/// last heard of, and how long its answer took.
pub proof fn law_member_is_reached(peers: Seq<(Seq<char>, PeerView)>, packet: Seq<u8>, i: int)
    requires
        distinct(peers),
        0 <= i < peers.len(),
        packet.len() >= 20,
        packet[19] != 255,
        peers[i].0 == dotted(seq![packet[16], packet[17], packet[18], packet[19]]),
    ensures
        route(peers, packet).len() == 1,
        route(peers, packet)[0] == peers[i].1.addr,
{
    assert(packet.subrange(16, 20) =~= seq![packet[16], packet[17], packet[18], packet[19]]);
    law_broadcast(packet.subrange(16, 20));
    law_lookup(peers, i);
}

/// A packet goes nowhere if it is too short for a header, or if it is no broadcast and
/// no member has its destination address.
pub proof fn law_nobody_is_reached(peers: Seq<(Seq<char>, PeerView)>, packet: Seq<u8>)
    requires
        packet.len() < 20 || (packet[19] != 255 && forall|i: int|
            0 <= i < peers.len() ==> (#[trigger] peers[i]).0 != dotted(
                seq![packet[16], packet[17], packet[18], packet[19]],
            )),
    ensures
        route(peers, packet).len() == 0,
{
    if packet.len() >= 20 {
        assert(packet.subrange(16, 20) =~= seq![packet[16], packet[17], packet[18], packet[19]]);
        law_broadcast(packet.subrange(16, 20));
        law_lookup_absent(peers, destination_ip(packet));
    }
}

/// A packet goes to the tunnel device and leaves the session as it is. Where no member
/// has its source address, its sender is entered behind the others, with the very
/// endpoint that the datagram came from, address and port, and of the rest only what
/// is true of any stranger; a `reply` to the source address goes to that endpoint and
/// to nobody else.
pub proof fn law_sender_is_entered(
    node: NodeView,
    packet: Seq<u8>,
    src: Endpoint,
    now: u128,
    ping_id: u64,
    reply: Seq<u8>,
)
    requires
        distinct(node.peers),
        decoded(packet) is None,
        packet.len() >= 20,
        forall|i: int|
            0 <= i < node.peers.len() ==> (#[trigger] node.peers[i]).0 != dotted(
                seq![packet[12], packet[13], packet[14], packet[15]],
            ),
    ensures
        ({
            let (after, reaction) = react(node, packet, src, now, ping_id);
            let entry = after.peers[node.peers.len() as int];
            &&& reaction == ReactionView::Deliver
            &&& after.session == node.session
            &&& after.peers.len() == node.peers.len() + 1
            &&& after.peers.drop_last() == node.peers
            &&& entry.0 == dotted(seq![packet[12], packet[13], packet[14], packet[15]])
            &&& entry.1.addr == src
            &&& entry.1.user_name == "unknown"@
            &&& entry.1.role == Role::Client
            &&& entry.1.last_seen == now
            &&& entry.1.rtt is None
            &&& reply.len() >= 20 && reply[19] != 255 && reply[16] == packet[12] && reply[17]
                == packet[13] && reply[18] == packet[14] && reply[19] == packet[15] ==> route(
                after.peers,
                reply,
            ) == seq![src]
        }),
{
    let ip = seq![packet[12], packet[13], packet[14], packet[15]];
    let after = react(node, packet, src, now, ping_id).0;
    assert(packet.subrange(12, 16) =~= ip);
    law_lookup_absent(node.peers, dotted(ip));
    law_with_peer(node.peers, dotted(ip), stranger(src, now));
    law_with_peer_in_place(node.peers, dotted(ip), stranger(src, now), 0);
    reveal_strlit("unknown");
    assert("unknown"@ =~= seq!['u', 'n', 'k', 'n', 'o', 'w', 'n']);
    if reply.len() >= 20 && reply[19] != 255 && reply[16] == packet[12] && reply[17] == packet[13]
        && reply[18] == packet[14] && reply[19] == packet[15] {
        assert(seq![reply[16], reply[17], reply[18], reply[19]] =~= ip);
        law_member_is_reached(after.peers, reply, node.peers.len() as int);
        assert(route(after.peers, reply) =~= seq![src]);
    }
}

/// A packet whose source address a member has goes to the tunnel device and changes
/// nothing.
pub proof fn law_known_sender_changes_nothing(
    node: NodeView,
    packet: Seq<u8>,
    src: Endpoint,
    now: u128,
    ping_id: u64,
    i: int,
)
    requires
        distinct(node.peers),
        decoded(packet) is None,
        packet.len() >= 20,
        0 <= i < node.peers.len(),
        node.peers[i].0 == dotted(seq![packet[12], packet[13], packet[14], packet[15]]),
    ensures
        react(node, packet, src, now, ping_id) == (node, ReactionView::Deliver),
{
    assert(packet.subrange(12, 16) =~= seq![packet[12], packet[13], packet[14], packet[15]]);
    law_lookup(node.peers, i);
}

/// What is neither a message nor long enough for a packet is dropped.
pub proof fn law_scrap_is_dropped(
    node: NodeView,
    plain: Seq<u8>,
    src: Endpoint,
    now: u128,
    ping_id: u64,
)
    requires
        decoded(plain) is None,
        plain.len() < 20,
    ensures
        react(node, plain, src, now, ping_id) == (node, ReactionView::Nothing),
{
}

/// What an announcement does. The member stands under the address that it announced,
/// with its role, reached where the announcement came from, last heard of now, and
/// with no time of an answer. It shows the name that it announced, where no member of
/// the table showed that name before, and the counter of repeated names stays. Where
/// some member did, it shows that name, an underscore and the `next` number, which is
/// one more than the counter was, and which the counter becomes; behind the largest
/// number comes zero. What stands under other addresses stays as it was. The member is sent a
/// ping with the given number, which is noted as pending, and nothing else of the
/// session changes.
pub proof fn law_announcement_is_entered(
    node: NodeView,
    announce: Seq<u8>,
    user_name: Seq<char>,
    network_name: Seq<char>,
    role: Role,
    ip: Seq<char>,
    src: Endpoint,
    now: u128,
    ping_id: u64,
    next: int,
)
    requires
        node.session.name_suffix < 0xffff_ffff ==> next == node.session.name_suffix + 1,
        node.session.name_suffix == 0xffff_ffff ==> next == 0,
        distinct(node.peers),
        decoded(announce) == Some(
            MessageView::PeerAnnounce { user_name, network_name, role, virtual_ip: ip },
        ),
    ensures
        ({
            let (after, reaction) = react(node, announce, src, now, ping_id);
            let info = lookup(after.peers, ip);
            let taken = exists|i: int|
                0 <= i < node.peers.len() && (#[trigger] node.peers[i]).1.user_name == user_name;
            let count = node.session.name_suffix;
            &&& distinct(after.peers)
            &&& info is Some
            &&& info->0.addr == src
            &&& info->0.role == role
            &&& info->0.last_seen == now
            &&& info->0.rtt is None
            &&& !taken ==> info->0.user_name == user_name && after.session.name_suffix == count
            &&& taken ==> after.session.name_suffix == next && exists|digits: Seq<char>| #[trigger]
                is_numeral(digits, next) && info->0.user_name == user_name + seq!['_'] + digits
            &&& forall|k: Seq<char>|
                k != ip ==> #[trigger] lookup(after.peers, k) == lookup(node.peers, k)
            &&& reaction == ReactionView::Send(
                MessageView::Ping { id: ping_id, virtual_ip: node.session.my_ip },
            )
            &&& after.session.pending == node.session.pending.insert(
                ping_id,
                PendingView { sent: now, addr: src, peer_ip: ip },
            )
            &&& after.session == (SessionView {
                pending: after.session.pending,
                name_suffix: after.session.name_suffix,
                ..node.session
            })
        }),
{
    law_with_peer(node.peers, ip, announced_peer(node, user_name, role, src, now));
    law_decimal(next as nat);
    assert(is_numeral(decimal(next as nat), next));
    if name_taken(node.peers, user_name) {
        assert(next_suffix(node.session.name_suffix) == next);
        let info = lookup(react(node, announce, src, now, ping_id).0.peers, ip)->0;
        assert(info.user_name == user_name + seq!['_'] + decimal(next as nat));
    }
}

/// Where an announcement is entered: in the place of the entry under the same address,
/// or behind all entries.
pub proof fn law_announcement_keeps_order(
    node: NodeView,
    announce: Seq<u8>,
    user_name: Seq<char>,
    network_name: Seq<char>,
    role: Role,
    ip: Seq<char>,
    src: Endpoint,
    now: u128,
    ping_id: u64,
    j: int,
)
    requires
        distinct(node.peers),
        decoded(announce) == Some(
            MessageView::PeerAnnounce { user_name, network_name, role, virtual_ip: ip },
        ),
        0 <= j < node.peers.len(),
    ensures
        ({
            let after = react(node, announce, src, now, ping_id).0.peers;
            &&& after[j].0 == node.peers[j].0
            &&& node.peers[j].0 != ip ==> after[j] == node.peers[j]
            &&& node.peers[j].0 == ip ==> after.len() == node.peers.len()
            &&& (forall|i: int| 0 <= i < node.peers.len() ==> (#[trigger] node.peers[i]).0 != ip)
                ==> after.len() == node.peers.len() + 1 && after[node.peers.len() as int].0 == ip
        }),
{
    let info = announced_peer(node, user_name, role, src, now);
    law_with_peer_in_place(node.peers, ip, info, j);
    if exists|i: int| 0 <= i < node.peers.len() && (#[trigger] node.peers[i]).0 == ip {
        let i = choose|i: int| 0 <= i < node.peers.len() && (#[trigger] node.peers[i]).0 == ip;
        law_with_peer_in_place(node.peers, ip, info, i);
    } else {
        let after = with_peer(node.peers, ip, info);
        assert(after.drop_last()[j] == node.peers[j]);
    }
}

/// What the answer to a pending ping does. The ping is no longer pending, the others
/// are; the member under the address that the ping was for has the time since it was
/// sent, and every entry is otherwise as it was. An answer to no pending ping does
/// nothing.
pub proof fn law_pong_is_noted(
    node: NodeView,
    pong: Seq<u8>,
    id: u64,
    pong_ip: Seq<char>,
    src: Endpoint,
    now: u128,
    ping_id: u64,
    i: int,
)
    requires
        distinct(node.peers),
        decoded(pong) == Some(MessageView::Pong { id, virtual_ip: pong_ip }),
        0 <= i < node.peers.len(),
    ensures
        ({
            let (after, reaction) = react(node, pong, src, now, ping_id);
            let ping = node.session.pending[id];
            &&& reaction == ReactionView::Nothing
            &&& !node.session.pending.contains_key(id) ==> after == node
            &&& node.session.pending.contains_key(id) ==> {
                &&& after.session == (SessionView {
                    pending: node.session.pending.remove(id),
                    ..node.session
                })
                &&& after.peers.len() == node.peers.len()
                &&& after.peers[i].0 == node.peers[i].0
                &&& after.peers[i].1.addr == node.peers[i].1.addr
                &&& after.peers[i].1.user_name == node.peers[i].1.user_name
                &&& after.peers[i].1.role == node.peers[i].1.role
                &&& after.peers[i].1.last_seen == node.peers[i].1.last_seen
                &&& node.peers[i].0 != ping.peer_ip ==> after.peers[i].1.rtt
                    == node.peers[i].1.rtt
                &&& node.peers[i].0 == ping.peer_ip && now >= ping.sent ==> after.peers[i].1.rtt
                    == Some((now - ping.sent) as u128)
                &&& node.peers[i].0 == ping.peer_ip && now < ping.sent ==> after.peers[i].1.rtt
                    == Some(0u128)
            }
        }),
{
    if node.session.pending.contains_key(id) {
        let ping = node.session.pending[id];
        law_with_rtt_in_place(node.peers, ping.peer_ip, elapsed(ping.sent, now), i);
    }
}

/// An answer to a ping enters nobody into the table.
pub proof fn law_pong_enters_nobody(
    node: NodeView,
    pong: Seq<u8>,
    id: u64,
    pong_ip: Seq<char>,
    src: Endpoint,
    now: u128,
    ping_id: u64,
)
    requires
        distinct(node.peers),
        decoded(pong) == Some(MessageView::Pong { id, virtual_ip: pong_ip }),
    ensures
        react(node, pong, src, now, ping_id).0.peers.len() == node.peers.len(),
{
    if node.peers.len() > 0 {
        law_pong_is_noted(node, pong, id, pong_ip, src, now, ping_id, 0);
    } else {
        law_lookup_absent(node.peers, node.session.pending[id].peer_ip);
    }
}

/// What reaches its targets is one datagram for each, in order. Decrypting one gives
/// what was sent, with the last sixteen bytes of the datagram behind it.
pub proof fn law_targets_are_served(
    sends: Seq<Outgoing>,
    key: Seq<u8>,
    plain: Seq<u8>,
    targets: Seq<Endpoint>,
    i: int,
)
    requires
        reaches(sends, key, plain, targets),
    ensures
        sends.len() == targets.len(),
        0 <= i < targets.len() ==> {
            let data = sends[i].datagram@;
            &&& sends[i].to == targets[i]
            &&& data.len() == plain.len() + 28
            &&& decrypted(key, data) == Some(
                plain + data.subrange(data.len() - 16, data.len() as int),
            )
        },
{
    if 0 <= i < targets.len() {
        law_layout(key, sends[i].datagram@, plain);
        law_carried_comes_back(key, sends[i].datagram@, plain, plain);
    }
}

/// What a step does about an accepted plaintext: a message is sent to the sender, in
/// one datagram, and nothing is written; what is delivered is written as it stands, and
/// nothing is sent; else nothing is sent or written. The node becomes what the
/// plaintext makes of it.
pub proof fn law_answer_is_given(
    before: NodeView,
    plain: Seq<u8>,
    src: Endpoint,
    now: u128,
    ping_id: u64,
    after: NodeView,
    r: Step,
)
    requires
        answered(before, plain, src, now, ping_id, after, r),
    ensures
        after == react(before, plain, src, now, ping_id).0,
        match react(before, plain, src, now, ping_id).1 {
            ReactionView::Send(m) => {
                &&& r.sends@.len() == 1
                &&& r.sends@[0].to == src
                &&& carries(before.session.key, r.sends@[0].datagram@, encoding(m))
                &&& r.to_tun is None
            },
            ReactionView::Deliver => {
                &&& r.sends@.len() == 0
                &&& r.to_tun is Some
                &&& r.to_tun->0@ == plain
            },
            ReactionView::Nothing => r.sends@.len() == 0 && r.to_tun is None,
        },
{
}

/// What reading the socket does. A datagram that decrypts is answered, with some number
/// for a ping; one that does not is dropped; either way the socket is read again. Where
/// there is no datagram, the round ends; where reading fails, the network stops.
pub proof fn law_socket_is_read(
    before: NodeView,
    read: UdpRead,
    now: u128,
    after: NodeView,
    r: Step,
)
    requires
        udp_step(before, read, now, after, r),
    ensures
        match read {
            UdpRead::Datagram { data, src } => {
                let plain = decrypted(before.session.key, data@);
                &&& r.next == Next::ReadUdp
                &&& plain is None ==> r.sends@.len() == 0 && r.to_tun is None && after == before
                &&& plain is Some ==> exists|ping_id: u64| #[trigger]
                    answered(before, plain.unwrap(), src, now, ping_id, after, r)
            },
            UdpRead::WouldBlock => {
                &&& r.next == Next::Sleep
                &&& r.sends@.len() == 0 && r.to_tun is None
                &&& after == before
            },
            UdpRead::Failed => {
                &&& r.next == Next::Exit
                &&& r.sends@.len() == 0 && r.to_tun is None
                &&& after == before
            },
        },
{
}

/// A quiet step sends nothing and writes nothing.
pub proof fn law_quiet(r: Step)
    ensures
        r.is_quiet() <==> r.sends@.len() == 0 && r.to_tun is None,
{
}

/// A session starts with the key of its network and announces the network's name, and
/// of this member the user's name, the role and the address in the virtual network. No
/// ping is pending, no name has been repeated, and the first announcement is due two
/// seconds after the start.
pub proof fn law_session_starts(network: NetworkView, now: u128)
    ensures
        ({
            let s = started(network, now);
            &&& s.key == network.config.key
            &&& s.announcement() == (MessageView::PeerAnnounce {
                user_name: network.owner,
                network_name: network.name,
                role: network.my_role,
                virtual_ip: network.my_virtual_ip,
            })
            &&& s.my_ip == network.my_virtual_ip
            &&& s.pending.dom().is_empty()
            &&& s.name_suffix == 0
            &&& s.last_hello == now
        }),
{
}

/// A session can run wherever the names and the address of its announcement, with 32
/// bytes more, are no longer than what the cipher takes and what memory holds.
pub proof fn law_session_fits(s: SessionView)
    ensures
        ({
            let len = 32 + encode_utf8(s.my_name).len() + encode_utf8(s.network_name).len()
                + encode_utf8(s.my_ip).len();
            s.fits() <==> len <= 274_877_906_880 && len <= isize::MAX
        }),
{
    lemma_le_len(0, 4);
    lemma_le_len(1, 4);
    lemma_le_len(encode_utf8(s.my_name).len(), 8);
    lemma_le_len(encode_utf8(s.network_name).len(), 8);
    lemma_le_len(encode_utf8(s.my_ip).len(), 8);
}

} // verus!
