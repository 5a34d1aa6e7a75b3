//! The members of a network that are known so far.

use crate::wire::Role;
use vstd::prelude::*;

verus! {

/// The address and port from which a member sends its datagrams.
#[derive(Clone, Copy, Debug, PartialEq, Eq)]
pub enum Endpoint {
    V4 { octets: [u8; 4], port: u16 },
    V6 { segments: [u16; 8], port: u16, flow_info: u32, scope_id: u32 },
}

/// What is known of a member. Times are in nanoseconds, on a clock that never goes
/// back.
#[derive(Debug)]
pub struct PeerInfo {
    pub addr: Endpoint,
    pub user_name: String,
    pub role: Role,
    pub last_seen: u128,
    pub rtt: Option<u128>,
}

/// The content of a `PeerInfo`.
pub struct PeerView {
    pub addr: Endpoint,
    pub user_name: Seq<char>,
    pub role: Role,
    pub last_seen: u128,
    pub rtt: Option<u128>,
}

impl View for PeerInfo {
    type V = PeerView;

    open spec fn view(&self) -> PeerView {
        PeerView {
            addr: self.addr,
            user_name: self.user_name@,
            role: self.role,
            last_seen: self.last_seen,
            rtt: self.rtt,
        }
    }
}

/// The known members, each under the address that it has in the virtual network.
#[derive(Debug)]
pub struct PeerTable {
    entries: Vec<(String, PeerInfo)>,
}

impl View for PeerTable {
    type V = Seq<(Seq<char>, PeerView)>;

    closed spec fn view(&self) -> Seq<(Seq<char>, PeerView)> {
        self.entries@.map_values(|e: (String, PeerInfo)| (e.0@, e.1@))
    }
}

/// Whether entry `i` of the table stands under `ip`.
pub open spec fn stands_at(peers: Seq<(Seq<char>, PeerView)>, ip: Seq<char>, i: int) -> bool {
    0 <= i < peers.len() && peers[i].0 == ip
}

/// What the table holds under `ip`.
pub open spec fn lookup(peers: Seq<(Seq<char>, PeerView)>, ip: Seq<char>) -> Option<PeerView> {
    if exists|i: int| stands_at(peers, ip, i) {
        Some(peers[choose|i: int| stands_at(peers, ip, i)].1)
    } else {
        None
    }
}

/// Whether no two entries stand under the same address.
pub open spec fn distinct(peers: Seq<(Seq<char>, PeerView)>) -> bool {
    forall|i: int, j: int|
        0 <= i < peers.len() && 0 <= j < peers.len() && i != j ==> peers[i].0 != peers[j].0
}

/// The table with `info` under `ip`: in place of what stood there, or else at the
/// end.
pub open spec fn with_peer(
    peers: Seq<(Seq<char>, PeerView)>,
    ip: Seq<char>,
    info: PeerView,
) -> Seq<(Seq<char>, PeerView)> {
    if exists|i: int| stands_at(peers, ip, i) {
        peers.update(choose|i: int| stands_at(peers, ip, i), (ip, info))
    } else {
        peers.push((ip, info))
    }
}

/// The table with `rtt` noted for the member under `ip`, if there is one.
pub open spec fn with_rtt(
    peers: Seq<(Seq<char>, PeerView)>,
    ip: Seq<char>,
    rtt: u128,
) -> Seq<(Seq<char>, PeerView)> {
    match lookup(peers, ip) {
        Some(info) => with_peer(peers, ip, PeerView { rtt: Some(rtt), ..info }),
        None => peers,
    }
}

/// Whether some member shows this user name.
pub open spec fn name_taken(peers: Seq<(Seq<char>, PeerView)>, name: Seq<char>) -> bool {
    exists|i: int| 0 <= i < peers.len() && #[trigger] peers[i].1.user_name == name
}

/// The addresses of all members, in the order of the table.
pub open spec fn addresses(peers: Seq<(Seq<char>, PeerView)>) -> Seq<Endpoint> {
    peers.map_values(|e: (Seq<char>, PeerView)| e.1.addr)
}

/// In a table without repetition, an entry is what its address leads to.
pub proof fn law_lookup(peers: Seq<(Seq<char>, PeerView)>, i: int)
    requires
        distinct(peers),
        0 <= i < peers.len(),
    ensures
        lookup(peers, peers[i].0) == Some(peers[i].1),
{
    assert(stands_at(peers, peers[i].0, i));
}

/// Putting a member into the table leaves no address twice. Under the member's own
/// address the table then holds the member, and under every other address what it
/// held before.
pub proof fn law_with_peer(peers: Seq<(Seq<char>, PeerView)>, ip: Seq<char>, info: PeerView)
    requires
        distinct(peers),
    ensures
        distinct(with_peer(peers, ip, info)),
        forall|k: Seq<char>| #[trigger]
            lookup(with_peer(peers, ip, info), k) == if k == ip {
                Some(info)
            } else {
                lookup(peers, k)
            },
{
    let after = with_peer(peers, ip, info);
    let at = if exists|i: int| stands_at(peers, ip, i) {
        choose|i: int| stands_at(peers, ip, i)
    } else {
        peers.len() as int
    };
    assert(stands_at(after, ip, at));
    assert forall|i: int, j: int|
        0 <= i < after.len() && 0 <= j < after.len() && i != j implies after[i].0
        != after[j].0 by {
        assert(i != at ==> !stands_at(peers, ip, i) && after[i] == peers[i]);
        assert(j != at ==> !stands_at(peers, ip, j) && after[j] == peers[j]);
    }
    assert forall|k: Seq<char>| #[trigger]
        lookup(after, k) == if k == ip {
            Some(info)
        } else {
            lookup(peers, k)
        } by {
        if k == ip {
            law_lookup(after, at);
        } else if exists|i: int| stands_at(peers, k, i) {
            let i = choose|i: int| stands_at(peers, k, i);
            assert(stands_at(after, k, i));
            law_lookup(after, i);
            law_lookup(peers, i);
        } else if exists|i: int| stands_at(after, k, i) {
            let i = choose|i: int| stands_at(after, k, i);
            assert(stands_at(peers, k, i));
        }
    }
}

/// Noting a round-trip time changes nothing else: no address comes or goes, and
/// every member keeps its address, name, role and time of last contact.
pub proof fn law_with_rtt(peers: Seq<(Seq<char>, PeerView)>, ip: Seq<char>, rtt: u128)
    requires
        distinct(peers),
    ensures
        distinct(with_rtt(peers, ip, rtt)),
        forall|k: Seq<char>| #[trigger]
            lookup(with_rtt(peers, ip, rtt), k) == match lookup(peers, k) {
                Some(info) if k == ip => Some(PeerView { rtt: Some(rtt), ..info }),
                other => other,
            },
{
    if lookup(peers, ip) is Some {
        law_with_peer(peers, ip, PeerView { rtt: Some(rtt), ..lookup(peers, ip)->0 });
    }
}

impl PeerTable {
    /// Whether no two entries stand under the same address.
    pub open spec fn wf(&self) -> bool {
        distinct(self@)
    }

    /// A table without members.
    pub fn new() -> (t: PeerTable)
        ensures
            t.wf(),
            t@ == Seq::<(Seq<char>, PeerView)>::empty(),
    {
        let t = PeerTable { entries: Vec::new() };
        assert(t@ =~= Seq::<(Seq<char>, PeerView)>::empty());
        t
    }

    /// The number of members.
    pub fn len(&self) -> (n: usize)
        ensures
            n == self@.len(),
    {
        self.entries.len()
    }

    /// The entry at position `i`.
    pub fn entry(&self, i: usize) -> (e: (&String, &PeerInfo))
        requires
            i < self@.len(),
        ensures
            (e.0@, e.1@) == self@[i as int],
    {
        let e = &self.entries[i];
        (&e.0, &e.1)
    }

    /// The position of the entry under `ip`.
    fn position(&self, ip: &String) -> (r: Option<usize>)
        ensures
            match r {
                Some(i) => stands_at(self@, ip@, i as int),
                None => forall|i: int| !stands_at(self@, ip@, i),
            },
    {
        let mut i: usize = 0;
        while i < self.entries.len()
            invariant
                i <= self.entries@.len(),
                forall|j: int| 0 <= j < i ==> !stands_at(self@, ip@, j),
            decreases self.entries@.len() - i,
        {
            if self.entries[i].0 == *ip {
                return Some(i);
            }
            i += 1;
        }
        None
    }

    /// What is known of the member under `ip`.
    pub fn get(&self, ip: &String) -> (r: Option<&PeerInfo>)
        requires
            self.wf(),
        ensures
            r is Some <==> lookup(self@, ip@) is Some,
            r matches Some(info) ==> lookup(self@, ip@) == Some(info@),
    {
        match self.position(ip) {
            Some(i) => {
                proof {
                    law_lookup(self@, i as int);
                }
                Some(&self.entries[i].1)
            },
            None => None,
        }
    }

    /// Whether some member shows this user name.
    pub fn has_name(&self, name: &String) -> (r: bool)
        ensures
            r == name_taken(self@, name@),
    {
        let mut i: usize = 0;
        while i < self.entries.len()
            invariant
                i <= self.entries@.len(),
                forall|j: int| 0 <= j < i ==> (#[trigger] self@[j]).1.user_name != name@,
            decreases self.entries@.len() - i,
        {
            assert(self@[i as int] == (self.entries@[i as int].0@, self.entries@[i as int].1@));
            if self.entries[i].1.user_name == *name {
                assert(self@[i as int].1.user_name == name@);
                return true;
            }
            i += 1;
        }
        false
    }

    /// Puts `info` under `ip`, in place of what stood there.
    pub fn insert(&mut self, ip: String, info: PeerInfo)
        requires
            old(self).wf(),
        ensures
            final(self).wf(),
            final(self)@ == with_peer(old(self)@, ip@, info@),
    {
        proof {
            law_with_peer(self@, ip@, info@);
        }
        let ghost before = self@;
        let ghost key = ip@;
        match self.position(&ip) {
            Some(i) => {
                assert(stands_at(before, key, i as int));
                let ghost at = choose|k: int| stands_at(before, key, k);
                assert(at == i);
                self.entries.set(i, (ip, info));
                assert(self@ =~= before.update(i as int, (key, info@)));
            },
            None => {
                self.entries.push((ip, info));
                assert(self@ =~= before.push((key, info@)));
            },
        }
    }

    /// Notes `rtt` for the member under `ip`, if there is one.
    pub fn set_rtt(&mut self, ip: &String, rtt: u128)
        requires
            old(self).wf(),
        ensures
            final(self).wf(),
            final(self)@ == with_rtt(old(self)@, ip@, rtt),
    {
        proof {
            law_with_rtt(self@, ip@, rtt);
        }
        let ghost before = self@;
        match self.position(ip) {
            Some(i) => {
                proof {
                    law_lookup(before, i as int);
                    assert(stands_at(before, ip@, i as int));
                    let at = choose|k: int| stands_at(before, ip@, k);
                    assert(at == i);
                }
                self.entries[i].1.rtt = Some(rtt);
                assert(self@ =~= with_rtt(before, ip@, rtt));
            },
            None => {},
        }
    }

    /// The addresses of all members.
    pub fn addresses(&self) -> (r: Vec<Endpoint>)
        ensures
            r@ == addresses(self@),
    {
        let mut r: Vec<Endpoint> = Vec::new();
        let mut i: usize = 0;
        while i < self.entries.len()
            invariant
                i <= self.entries@.len(),
                r@ =~= addresses(self@.take(i as int)),
            decreases self.entries@.len() - i,
        {
            r.push(self.entries[i].1.addr);
            i += 1;
        }
        assert(self@.take(i as int) =~= self@);
        r
    }
}

/// Under an address that no entry stands under, nothing is found.
pub proof fn law_lookup_absent(peers: Seq<(Seq<char>, PeerView)>, ip: Seq<char>)
    requires
        forall|i: int| 0 <= i < peers.len() ==> (#[trigger] peers[i]).0 != ip,
    ensures
        lookup(peers, ip) is None,
{
}

/// Where a member is put: in the place of the entry under the same address, with all
/// other entries as they were; or, if there is none, behind all entries.
pub proof fn law_with_peer_in_place(
    peers: Seq<(Seq<char>, PeerView)>,
    ip: Seq<char>,
    info: PeerView,
    i: int,
)
    requires
        distinct(peers),
    ensures
        ({
            let after = with_peer(peers, ip, info);
            &&& 0 <= i < peers.len() && peers[i].0 == ip ==> {
                &&& after.len() == peers.len()
                &&& after[i] == (ip, info)
                &&& forall|j: int| 0 <= j < peers.len() && j != i ==> after[j] == peers[j]
            }
            &&& (forall|j: int| 0 <= j < peers.len() ==> (#[trigger] peers[j]).0 != ip) ==> {
                &&& after.len() == peers.len() + 1
                &&& after[peers.len() as int] == (ip, info)
                &&& after.drop_last() == peers
            }
        }),
{
    let after = with_peer(peers, ip, info);
    if 0 <= i < peers.len() && peers[i].0 == ip {
        assert(stands_at(peers, ip, i));
        let at = choose|k: int| stands_at(peers, ip, k);
        assert(at == i);
    }
    if forall|j: int| 0 <= j < peers.len() ==> (#[trigger] peers[j]).0 != ip {
        assert(!exists|k: int| stands_at(peers, ip, k));
        assert(after.drop_last() =~= peers);
    }
}

/// Noting a round-trip time leaves the table as it is but for that time: it stands
/// with the entry under the address, if there is one, and nowhere else.
pub proof fn law_with_rtt_in_place(
    peers: Seq<(Seq<char>, PeerView)>,
    ip: Seq<char>,
    rtt: u128,
    i: int,
)
    requires
        distinct(peers),
        0 <= i < peers.len(),
    ensures
        ({
            let after = with_rtt(peers, ip, rtt);
            &&& after.len() == peers.len()
            &&& after[i].0 == peers[i].0
            &&& after[i].1.addr == peers[i].1.addr
            &&& after[i].1.user_name == peers[i].1.user_name
            &&& after[i].1.role == peers[i].1.role
            &&& after[i].1.last_seen == peers[i].1.last_seen
            &&& after[i].1.rtt == if peers[i].0 == ip {
                Some(rtt)
            } else {
                peers[i].1.rtt
            }
        }),
{
    if exists|k: int| stands_at(peers, ip, k) {
        let k = choose|k: int| stands_at(peers, ip, k);
        law_lookup(peers, k);
    } else if peers[i].0 == ip {
        assert(stands_at(peers, ip, i));
    }
}

/// The addresses of the members are as many as the entries, and are those of the
/// entries, in order.
pub proof fn law_addresses(peers: Seq<(Seq<char>, PeerView)>, i: int)
    requires
        0 <= i < peers.len(),
    ensures
        addresses(peers).len() == peers.len(),
        addresses(peers)[i] == peers[i].1.addr,
{
}

/// The content of a member's entry is what its fields hold.
pub proof fn law_peer_view(info: PeerInfo)
    ensures
        info@.addr == info.addr,
        info@.user_name == info.user_name@,
        info@.role == info.role,
        info@.last_seen == info.last_seen,
        info@.rtt == info.rtt,
{
}

} // verus!
