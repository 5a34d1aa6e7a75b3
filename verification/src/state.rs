//! The state of the program: who the user is, which networks run, and what is kept
//! between runs.

use crate::crypto::{credentials_fit, derive_key, network_key};
use crate::menu::{active_choice, active_menu_choice, ActiveChoice};
use crate::network::{ConfigView, Network, NetworkConfig, NetworkView};
use crate::peers::{Endpoint, PeerInfo, PeerTable, PeerView};
use crate::random::random_byte;
use crate::saved::{
    is_first, law_refreshed, law_ssids_stay_distinct, refreshed, reopening, ssid_known,
    ssids_distinct, text_of, SavedChoiceView, SavedNetwork, SavedNetworkView, SavedState,
    SavedView,
};
use crate::subnet::{virtual_ip, virtual_ip_from};
use crate::wire::Role;
use vstd::prelude::*;
use vstd::string::*;

verus! {

/// The number of leading one bits in the netmask of every network.
pub const SUBNET_MASK: u8 = 24;

/// The port on which the members of every network receive datagrams.
pub const PORT: u16 = 51820;

/// The state of the program. `N` is the handle by which the program holds a running
/// network.
pub struct AppState<N> {
    pub name: Option<String>,
    pub networks: Vec<N>,
    pub saved: SavedState,
}

/// The content of an `AppState`, apart from the running networks.
pub struct AppView {
    pub name: Option<Seq<char>>,
    pub saved: SavedView,
}

impl<N> View for AppState<N> {
    type V = AppView;

    open spec fn view(&self) -> AppView {
        AppView { name: text_of(self.name), saved: self.saved@ }
    }
}

/// Why a network is not opened.
#[derive(Clone, Copy, Debug, PartialEq, Eq, Structural)]
pub enum Refusal {
    /// The user has not set a name.
    NoUserName,
    /// A network of this name is saved already.
    SsidTaken,
    /// The address of the remote node is not an address.
    BadAddress,
}

/// The member of which nothing is known but where it receives datagrams.
pub open spec fn first_contact(addr: Endpoint, now: u128) -> Seq<(Seq<char>, PeerView)> {
    seq![
        (
            "unknown"@,
            PeerView { addr, user_name: "?"@, role: Role::Client, last_seen: now, rtt: None },
        ),
    ]
}

/// The address of this machine in a network: the one that was saved, or else the
/// one that a random byte selects.
pub open spec fn chosen_ip(saved_ip: Option<Seq<char>>, byte: u8) -> Seq<char> {
    match saved_ip {
        Some(ip) => ip,
        None => virtual_ip(byte),
    }
}

/// The setup of a network on this machine.
pub open spec fn config_for(ssid: Seq<char>, password: Seq<char>, ip: Seq<char>) -> ConfigView {
    ConfigView {
        key: network_key(ssid, password),
        subnet_ip: ip,
        subnet_mask: SUBNET_MASK,
        port: PORT,
    }
}

/// What creating a network leads to: what is saved then, and the network. A network
/// with a saved address is one that was created before; one without must have a
/// name that is not saved yet.
pub open spec fn creation(
    app: AppView,
    ssid: Seq<char>,
    password: Seq<char>,
    saved_ip: Option<Seq<char>>,
    byte: u8,
) -> Result<(SavedView, NetworkView), Refusal> {
    if app.name is None {
        Err(Refusal::NoUserName)
    } else if saved_ip is None && ssid_known(app.saved.networks, ssid) {
        Err(Refusal::SsidTaken)
    } else {
        let ip = chosen_ip(saved_ip, byte);
        let networks = if saved_ip is None {
            app.saved.networks.push(
                SavedNetworkView {
                    ssid,
                    password,
                    role: "creator"@,
                    remote_addr: None,
                    virtual_ip: Some(ip),
                },
            )
        } else {
            refreshed(app.saved.networks, ssid, "creator"@, ip, None)
        };
        let network = NetworkView {
            name: ssid,
            owner: app.name->0,
            my_role: Role::Creator,
            my_virtual_ip: ip,
            config: config_for(ssid, password, ip),
            peers: Seq::empty(),
        };
        Ok((SavedView { networks, ..app.saved }, network))
    }
}

/// What connecting to a network leads to: what is saved then, and the network.
/// `remote` is the text of the address of some node, and `addr` is that address, or
/// `None` where the text is not one. A network with a saved address is one that was
/// connected to before; one without must have a name that is not saved yet.
pub open spec fn connection(
    app: AppView,
    ssid: Seq<char>,
    password: Seq<char>,
    remote: Seq<char>,
    addr: Option<Endpoint>,
    saved_ip: Option<Seq<char>>,
    now: u128,
    byte: u8,
) -> Result<(SavedView, NetworkView), Refusal> {
    if addr is None {
        Err(Refusal::BadAddress)
    } else if saved_ip is None && ssid_known(app.saved.networks, ssid) {
        Err(Refusal::SsidTaken)
    } else {
        let ip = chosen_ip(saved_ip, byte);
        let networks = if saved_ip is None {
            app.saved.networks.push(
                SavedNetworkView {
                    ssid,
                    password,
                    role: "client"@,
                    remote_addr: Some(remote),
                    virtual_ip: Some(ip),
                },
            )
        } else {
            refreshed(app.saved.networks, ssid, "client"@, ip, Some(remote))
        };
        let network = NetworkView {
            name: ssid,
            owner: Seq::empty(),
            my_role: Role::Client,
            my_virtual_ip: ip,
            config: config_for(ssid, password, ip),
            peers: first_contact(addr->0, now),
        };
        Ok((SavedView { networks, ..app.saved }, network))
    }
}

/// What connecting to a network for the first time leads to. Other than for one
/// that was saved, the user must have a name.
pub open spec fn first_connection(
    app: AppView,
    ssid: Seq<char>,
    password: Seq<char>,
    remote: Seq<char>,
    addr: Option<Endpoint>,
    now: u128,
    byte: u8,
) -> Result<(SavedView, NetworkView), Refusal> {
    if app.name is None {
        Err(Refusal::NoUserName)
    } else {
        connection(app, ssid, password, remote, addr, None, now, byte)
    }
}

/// Whether `r` and the state `after` are as planned: the network, and what is saved
/// with it; or the refusal, and no change.
pub open spec fn goes_as(
    planned: Result<(SavedView, NetworkView), Refusal>,
    before: AppView,
    after: AppView,
    r: Result<Network, Refusal>,
) -> bool {
    match planned {
        Ok((saved, network)) => {
            &&& r matches Ok(n) && n@ == network && n.peers.wf()
            &&& after == (AppView { saved, ..before })
        },
        Err(refusal) => {
            &&& r matches Err(e) && e == refusal
            &&& after == before
        },
    }
}

/// Sets up a network on this machine.
fn configure(ssid: &String, password: &String, ip: &String) -> (config: NetworkConfig)
    requires
        credentials_fit(ssid@, password@),
    ensures
        config@ == config_for(ssid@, password@, ip@),
{
    NetworkConfig {
        key: derive_key(ssid.as_str(), password.as_str()),
        subnet_ip: ip.clone(),
        subnet_mask: SUBNET_MASK,
        port: PORT,
    }
}

impl<N> AppState<N> {
    /// The state at the start of the program.
    pub fn new(saved: SavedState) -> (s: AppState<N>)
        ensures
            s@ == (AppView { name: saved@.name, saved: saved@ }),
            s.networks@.len() == 0,
    {
        AppState { name: saved.name.clone(), networks: Vec::new(), saved }
    }

    /// Sets the user's name, for this run and the next ones.
    pub fn set_name(&mut self, new_name: String)
        ensures
            final(self)@ == (AppView {
                name: Some(new_name@),
                saved: (SavedView { name: Some(new_name@), ..old(self)@.saved }),
            }),
            final(self).networks == old(self).networks,
    {
        self.name = Some(new_name.clone());
        self.saved.name = Some(new_name);
    }

    /// Adds a network to the running ones.
    pub fn activate(&mut self, network: N)
        ensures
            final(self)@ == old(self)@,
            final(self).networks@ == old(self).networks@.push(network),
    {
        self.networks.push(network);
    }

    /// The running network that a selection in the menu of running networks stops, if
    /// it stops one: the first.
    pub fn to_stop(&self, selection: Option<usize>) -> (r: Option<&N>)
        ensures
            r is Some <==> selection == Some(self.networks.len()) && self.networks@.len() > 0,
            r is Some <==> active_choice(selection, self.networks.len())
                == ActiveChoice::StopFirst,
            r matches Some(n) ==> *n == self.networks@[0],
    {
        if active_menu_choice(selection, self.networks.len()) == ActiveChoice::StopFirst {
            Some(&self.networks[0])
        } else {
            None
        }
    }

    /// Creates a network; `byte` selects its address, unless one was saved.
    pub fn create_with_byte(
        &mut self,
        ssid: String,
        password: String,
        saved_ip: Option<String>,
        byte: u8,
    ) -> (r: Result<Network, Refusal>)
        requires
            credentials_fit(ssid@, password@),
        ensures
            goes_as(
                creation(old(self)@, ssid@, password@, text_of(saved_ip), byte),
                old(self)@,
                final(self)@,
                r,
            ),
            final(self).networks == old(self).networks,
    {
        let owner: String = match &self.name {
            Some(name) => name.clone(),
            None => {
                return Err(Refusal::NoUserName);
            },
        };
        let is_new = saved_ip.is_none();
        if is_new && self.saved.contains_ssid(ssid.as_str()) {
            return Err(Refusal::SsidTaken);
        }
        let ip: String = match saved_ip {
            Some(ip) => ip,
            None => virtual_ip_from(byte),
        };
        let config = configure(&ssid, &password, &ip);
        let network = Network {
            name: ssid.clone(),
            owner,
            my_role: Role::Creator,
            my_virtual_ip: ip.clone(),
            config,
            peers: PeerTable::new(),
        };
        if is_new {
            self.saved.add(
                SavedNetwork {
                    ssid,
                    password,
                    role: "creator".to_owned(),
                    remote_addr: None,
                    virtual_ip: Some(ip),
                },
            );
        } else {
            self.saved.refresh(&ssid, "creator", ip, None);
        }
        Ok(network)
    }

    /// Creates a network that was saved, or a new one where no address is given. The
    /// address of a new one is random.
    pub fn create_network_from_saved(
        &mut self,
        ssid: String,
        password: String,
        virtual_ip: Option<String>,
    ) -> (r: Result<Network, Refusal>)
        requires
            credentials_fit(ssid@, password@),
        ensures
            exists|byte: u8|
                goes_as(
                    #[trigger] creation(old(self)@, ssid@, password@, text_of(virtual_ip), byte),
                    old(self)@,
                    final(self)@,
                    r,
                ),
            final(self).networks == old(self).networks,
    {
        let byte: u8 = random_byte();
        self.create_with_byte(ssid, password, virtual_ip, byte)
    }

    /// Creates a new network under a random address.
    pub fn create_network(&mut self, ssid: String, password: String) -> (r: Result<
        Network,
        Refusal,
    >)
        requires
            credentials_fit(ssid@, password@),
        ensures
            exists|byte: u8|
                goes_as(
                    #[trigger] creation(old(self)@, ssid@, password@, None, byte),
                    old(self)@,
                    final(self)@,
                    r,
                ),
            final(self).networks == old(self).networks,
    {
        let byte: u8 = random_byte();
        self.create_with_byte(ssid, password, None, byte)
    }

    /// Connects to a network; `byte` selects this machine's address in it, unless one
    /// was saved.
    pub fn connect_with_byte(
        &mut self,
        ssid: String,
        password: String,
        remote: String,
        addr: Option<Endpoint>,
        saved_ip: Option<String>,
        now: u128,
        byte: u8,
    ) -> (r: Result<Network, Refusal>)
        requires
            credentials_fit(ssid@, password@),
        ensures
            goes_as(
                connection(
                    old(self)@,
                    ssid@,
                    password@,
                    remote@,
                    addr,
                    text_of(saved_ip),
                    now,
                    byte,
                ),
                old(self)@,
                final(self)@,
                r,
            ),
            final(self).networks == old(self).networks,
    {
        let node: Endpoint = match addr {
            Some(node) => node,
            None => {
                return Err(Refusal::BadAddress);
            },
        };
        let is_new = saved_ip.is_none();
        if is_new && self.saved.contains_ssid(ssid.as_str()) {
            return Err(Refusal::SsidTaken);
        }
        let ip: String = match saved_ip {
            Some(ip) => ip,
            None => virtual_ip_from(byte),
        };
        let config = configure(&ssid, &password, &ip);
        let mut peers = PeerTable::new();
        peers.insert(
            "unknown".to_owned(),
            PeerInfo {
                addr: node,
                user_name: "?".to_owned(),
                role: Role::Client,
                last_seen: now,
                rtt: None,
            },
        );
        assert(peers@ =~= first_contact(node, now));
        let network = Network {
            name: ssid.clone(),
            owner: String::new(),
            my_role: Role::Client,
            my_virtual_ip: ip.clone(),
            config,
            peers,
        };
        if is_new {
            self.saved.add(
                SavedNetwork {
                    ssid,
                    password,
                    role: "client".to_owned(),
                    remote_addr: Some(remote),
                    virtual_ip: Some(ip),
                },
            );
        } else {
            self.saved.refresh(&ssid, "client", ip, Some(remote));
        }
        Ok(network)
    }

    /// Connects to a network that was saved, or to a new one where no address of this
    /// machine is given. This machine's address in a new one is random. `remote` is
    /// the text of the address of some node, and `addr` is that address, or `None`
    /// where the text is not one.
    pub fn connect_to_network_from_saved(
        &mut self,
        ssid: String,
        password: String,
        remote: String,
        addr: Option<Endpoint>,
        virtual_ip: Option<String>,
        now: u128,
    ) -> (r: Result<Network, Refusal>)
        requires
            credentials_fit(ssid@, password@),
        ensures
            exists|byte: u8|
                goes_as(
                    #[trigger] connection(
                        old(self)@,
                        ssid@,
                        password@,
                        remote@,
                        addr,
                        text_of(virtual_ip),
                        now,
                        byte,
                    ),
                    old(self)@,
                    final(self)@,
                    r,
                ),
            final(self).networks == old(self).networks,
    {
        let byte: u8 = random_byte();
        self.connect_with_byte(ssid, password, remote, addr, virtual_ip, now, byte)
    }

    /// Connects to a network for the first time, under a random address. `remote` is
    /// the text of the address of some node, and `addr` is that address, or `None`
    /// where the text is not one.
    pub fn connect_to_network(
        &mut self,
        ssid: String,
        password: String,
        remote: String,
        addr: Option<Endpoint>,
        now: u128,
    ) -> (r: Result<Network, Refusal>)
        requires
            credentials_fit(ssid@, password@),
        ensures
            exists|byte: u8|
                goes_as(
                    #[trigger] first_connection(
                        old(self)@,
                        ssid@,
                        password@,
                        remote@,
                        addr,
                        now,
                        byte,
                    ),
                    old(self)@,
                    final(self)@,
                    r,
                ),
            final(self).networks == old(self).networks,
    {
        let byte: u8 = random_byte();
        let ghost planned = first_connection(self@, ssid@, password@, remote@, addr, now, byte);
        let r = if self.name.is_none() {
            Err(Refusal::NoUserName)
        } else {
            self.connect_with_byte(ssid, password, remote, addr, None, now, byte)
        };
        assert(goes_as(planned, old(self)@, self@, r));
        r
    }
}

/// Which of the running networks have been told to stop, after a selection in their
/// menu.
pub open spec fn told_to_stop(told: Seq<bool>, selection: Option<usize>) -> Seq<bool> {
    if active_choice(selection, told.len() as usize) == ActiveChoice::StopFirst {
        told.update(0, true)
    } else {
        told
    }
}

/// Which of the running networks have been told to stop, after some selections in
/// their menu, one after the other.
pub open spec fn told_after(told: Seq<bool>, picks: Seq<Option<usize>>) -> Seq<bool>
    decreases picks.len(),
{
    if picks.len() == 0 {
        told
    } else {
        told_to_stop(told_after(told, picks.drop_last()), picks.last())
    }
}

/// Whatever is selected in the menu of running networks, however often: none that was
/// told to stop is taken back, none but the first is told to stop, and the first is
/// told if and only if the line behind the networks was selected.
pub proof fn law_only_the_first_is_stopped(told: Seq<bool>, picks: Seq<Option<usize>>)
    requires
        told.len() <= usize::MAX,
    ensures
        told_after(told, picks).len() == told.len(),
        forall|i: int|
            0 < i < told.len() ==> #[trigger] told_after(told, picks)[i] == told[i],
        told.len() > 0 ==> told_after(told, picks)[0] == (told[0] || picks.contains(
            Some(told.len() as usize),
        )),
    decreases picks.len(),
{
    let stop = Some(told.len() as usize);
    if picks.len() > 0 {
        let before = picks.drop_last();
        law_only_the_first_is_stopped(told, before);
        assert(picks =~= before.push(picks.last()));
        if before.contains(stop) {
            let k = choose|k: int| 0 <= k < before.len() && before[k] == stop;
            assert(picks[k] == stop);
        }
        if picks.contains(stop) && picks.last() != stop {
            let k = choose|k: int| 0 <= k < picks.len() && picks[k] == stop;
            assert(before[k] == stop);
        }
        if picks.last() == stop {
            assert(picks[picks.len() - 1] == stop);
        }
    }
}

/// A network that is created or connected to for the first time is saved behind those
/// that were saved before, which stay as they are. Nothing else is saved.
pub proof fn law_new_network_is_appended(
    app: AppView,
    ssid: Seq<char>,
    password: Seq<char>,
    remote: Seq<char>,
    addr: Option<Endpoint>,
    now: u128,
    byte: u8,
)
    ensures
        creation(app, ssid, password, None, byte) matches Ok((saved, _)) ==> {
            &&& saved.name == app.saved.name
            &&& saved.networks.len() == app.saved.networks.len() + 1
            &&& saved.networks.drop_last() == app.saved.networks
        },
        connection(app, ssid, password, remote, addr, None, now, byte) matches Ok((saved, _)) ==> {
            &&& saved.name == app.saved.name
            &&& saved.networks.len() == app.saved.networks.len() + 1
            &&& saved.networks.drop_last() == app.saved.networks
        },
{
    if let Ok((saved, _)) = creation(app, ssid, password, None, byte) {
        assert(saved.networks.drop_last() =~= app.saved.networks);
    }
    if let Ok((saved, _)) = connection(app, ssid, password, remote, addr, None, now, byte) {
        assert(saved.networks.drop_last() =~= app.saved.networks);
    }
}

/// Whatever is created or connected to, no name occurs twice among the saved
/// networks.
pub proof fn law_ssids_distinct(
    app: AppView,
    ssid: Seq<char>,
    password: Seq<char>,
    remote: Seq<char>,
    addr: Option<Endpoint>,
    saved_ip: Option<Seq<char>>,
    now: u128,
    byte: u8,
)
    requires
        ssids_distinct(app.saved.networks),
    ensures
        creation(app, ssid, password, saved_ip, byte) matches Ok((saved, _)) ==> ssids_distinct(
            saved.networks,
        ),
        connection(app, ssid, password, remote, addr, saved_ip, now, byte) matches Ok((saved, _))
            ==> ssids_distinct(saved.networks),
{
    let ip = chosen_ip(saved_ip, byte);
    law_refreshed(app.saved.networks, ssid, "creator"@, ip, None);
    law_refreshed(app.saved.networks, ssid, "client"@, ip, Some(remote));
    let created = SavedNetworkView {
        ssid,
        password,
        role: "creator"@,
        remote_addr: None,
        virtual_ip: Some(ip),
    };
    let joined = SavedNetworkView {
        ssid,
        password,
        role: "client"@,
        remote_addr: Some(remote),
        virtual_ip: Some(ip),
    };
    law_ssids_stay_distinct(app.saved.networks, created, 0);
    law_ssids_stay_distinct(app.saved.networks, joined, 0);
}

/// The creator of a network and those who connect to it, with the same name and
/// password, have the same key.
pub proof fn law_members_share_the_key(
    creator: AppView,
    client: AppView,
    ssid: Seq<char>,
    password: Seq<char>,
    creator_ip: Option<Seq<char>>,
    client_ip: Option<Seq<char>>,
    remote: Seq<char>,
    addr: Option<Endpoint>,
    now: u128,
    byte: u8,
    other_byte: u8,
)
    ensures
        creation(creator, ssid, password, creator_ip, byte) matches Ok((_, created)) ==> connection(
            client,
            ssid,
            password,
            remote,
            addr,
            client_ip,
            now,
            other_byte,
        ) matches Ok((_, joined)) ==> created.config.key == joined.config.key,
{
}

/// A network that was created is saved last. Opening it again from what was saved
/// gives the same network, under the same address and with the same key, and changes
/// nothing in what is saved.
pub proof fn law_created_network_reopens(
    app: AppView,
    ssid: Seq<char>,
    password: Seq<char>,
    byte: u8,
    later_byte: u8,
)
    ensures
        creation(app, ssid, password, None, byte) matches Ok((saved, network)) ==> {
            let ip = network.my_virtual_ip;
            &&& reopening(saved.networks.last()) == (SavedChoiceView::Create {
                ssid,
                password,
                virtual_ip: Some(ip),
            })
            &&& creation((AppView { saved, ..app }), ssid, password, Some(ip), later_byte) == Ok::<
                _,
                Refusal,
            >((saved, network))
        },
{
    if let Ok((saved, network)) = creation(app, ssid, password, None, byte) {
        let last = saved.networks.len() - 1;
        assert forall|j: int| 0 <= j < last implies (#[trigger] saved.networks[j]).ssid != ssid by {
            assert(saved.networks[j] == app.saved.networks[j]);
        }
        assert(is_first(saved.networks, ssid, "creator"@, last));
        let i = choose|i: int| is_first(saved.networks, ssid, "creator"@, i);
        assert(i == last);
        let again = refreshed(
            saved.networks,
            ssid,
            "creator"@,
            network.my_virtual_ip,
            None,
        );
        assert(again =~= saved.networks);
    }
}

/// A network that was connected to is saved last. Opening it again from what was
/// saved, with the same node, gives the same network, under the same address and
/// with the same key, and changes nothing in what is saved; only the time of the
/// first contact is another.
pub proof fn law_joined_network_reopens(
    app: AppView,
    ssid: Seq<char>,
    password: Seq<char>,
    remote: Seq<char>,
    addr: Endpoint,
    now: u128,
    later: u128,
    byte: u8,
    later_byte: u8,
)
    ensures
        connection(app, ssid, password, remote, Some(addr), None, now, byte) matches Ok((saved, network))
            ==> {
            let ip = network.my_virtual_ip;
            &&& reopening(saved.networks.last()) == (SavedChoiceView::Connect {
                ssid,
                password,
                remote,
                virtual_ip: Some(ip),
            })
            &&& connection(
                (AppView { saved, ..app }),
                ssid,
                password,
                remote,
                Some(addr),
                Some(ip),
                later,
                later_byte,
            ) == Ok::<_, Refusal>(
                (saved, (NetworkView { peers: first_contact(addr, later), ..network })),
            )
        },
{
    reveal_strlit("creator");
    reveal_strlit("client");
    assert("creator"@.len() != "client"@.len());
    if let Ok((saved, network)) = connection(
        app,
        ssid,
        password,
        remote,
        Some(addr),
        None,
        now,
        byte,
    ) {
        let last = saved.networks.len() - 1;
        assert forall|j: int| 0 <= j < last implies (#[trigger] saved.networks[j]).ssid != ssid by {
            assert(saved.networks[j] == app.saved.networks[j]);
        }
        assert(is_first(saved.networks, ssid, "client"@, last));
        let i = choose|i: int| is_first(saved.networks, ssid, "client"@, i);
        assert(i == last);
        let again = refreshed(
            saved.networks,
            ssid,
            "client"@,
            network.my_virtual_ip,
            Some(remote),
        );
        assert(again =~= saved.networks);
    }
}

/// What creating a network comes to. Without a user's name it is refused; so is a new
/// network whose name some saved network has. Else the network has the name and the
/// key of the credentials, is owned by the user, who is its creator, has the address
/// that was saved, or the one that the byte selects, a netmask of 24 bits and the port
/// 51820, and knows of no members.
pub proof fn law_creation(
    app: AppView,
    ssid: Seq<char>,
    password: Seq<char>,
    saved_ip: Option<Seq<char>>,
    byte: u8,
)
    ensures
        ({
            let result = creation(app, ssid, password, saved_ip, byte);
            let known = exists|i: int|
                0 <= i < app.saved.networks.len() && (#[trigger] app.saved.networks[i]).ssid
                    == ssid;
            let refused = app.name is None || (saved_ip is None && known);
            &&& app.name is None ==> result is Err && result->Err_0 == Refusal::NoUserName
            &&& app.name is Some && refused ==> result is Err && result->Err_0 == Refusal::SsidTaken
            &&& result is Ok <==> !refused
            &&& result matches Ok((saved, network)) ==> {
                &&& saved.name == app.saved.name
                &&& network.name == ssid
                &&& app.name == Some(network.owner)
                &&& network.my_role == Role::Creator
                &&& saved_ip is Some ==> network.my_virtual_ip == saved_ip->0
                &&& saved_ip is None ==> network.my_virtual_ip == virtual_ip(byte)
                &&& network.config.key == network_key(ssid, password)
                &&& network.config.subnet_ip == network.my_virtual_ip
                &&& network.config.subnet_mask == 24
                &&& network.config.port == 51820
                &&& network.peers.len() == 0
            }
        }),
{
}

/// What is saved when a network is created: a new one behind the others, with its
/// credentials, as the creator's, without a node, and with its address; for one that
/// was saved, its address is noted with the first network of that name that was saved
/// as the creator's.
pub proof fn law_creation_is_saved(
    app: AppView,
    ssid: Seq<char>,
    password: Seq<char>,
    saved_ip: Option<Seq<char>>,
    byte: u8,
)
    ensures
        creation(app, ssid, password, saved_ip, byte) matches Ok((saved, network)) ==> {
            &&& saved_ip is None ==> {
                let last = saved.networks[app.saved.networks.len() as int];
                &&& saved.networks.len() == app.saved.networks.len() + 1
                &&& saved.networks.drop_last() == app.saved.networks
                &&& last.ssid == ssid
                &&& last.password == password
                &&& last.role == "creator"@
                &&& last.remote_addr is None
                &&& last.virtual_ip == Some(network.my_virtual_ip)
            }
            &&& saved_ip is Some ==> saved.networks == refreshed(
                app.saved.networks,
                ssid,
                "creator"@,
                saved_ip->0,
                None,
            )
        },
{
    if saved_ip is None {
        law_new_network_is_appended(app, ssid, password, Seq::empty(), None, 0, byte);
    }
}

/// What connecting to a network comes to. Without the address of a node it is refused;
/// so is a new network whose name some saved network has. Else the network has the
/// name and the key of the credentials, has no owner that is known, this machine being
/// a client, has the address that was saved, or the one that the byte selects, a
/// netmask of 24 bits and the port 51820, and knows of one member, reached at the
/// address of the node.
pub proof fn law_connection(
    app: AppView,
    ssid: Seq<char>,
    password: Seq<char>,
    remote: Seq<char>,
    addr: Option<Endpoint>,
    saved_ip: Option<Seq<char>>,
    now: u128,
    byte: u8,
)
    ensures
        ({
            let result = connection(app, ssid, password, remote, addr, saved_ip, now, byte);
            let known = exists|i: int|
                0 <= i < app.saved.networks.len() && (#[trigger] app.saved.networks[i]).ssid
                    == ssid;
            let refused = addr is None || (saved_ip is None && known);
            &&& addr is None ==> result is Err && result->Err_0 == Refusal::BadAddress
            &&& addr is Some && refused ==> result is Err && result->Err_0 == Refusal::SsidTaken
            &&& result is Ok <==> !refused
            &&& result matches Ok((saved, network)) ==> {
                &&& saved.name == app.saved.name
                &&& network.name == ssid
                &&& network.owner.len() == 0
                &&& network.my_role == Role::Client
                &&& saved_ip is Some ==> network.my_virtual_ip == saved_ip->0
                &&& saved_ip is None ==> network.my_virtual_ip == virtual_ip(byte)
                &&& network.config.key == network_key(ssid, password)
                &&& network.config.subnet_ip == network.my_virtual_ip
                &&& network.config.subnet_mask == 24
                &&& network.config.port == 51820
                &&& network.peers.len() == 1
                &&& network.peers[0].0 == "unknown"@
                &&& addr == Some(network.peers[0].1.addr)
                &&& network.peers[0].1.user_name == "?"@
                &&& network.peers[0].1.role == Role::Client
                &&& network.peers[0].1.last_seen == now
                &&& network.peers[0].1.rtt is None
            }
        }),
{
}

/// What is saved when a network is connected to: a new one behind the others, with its
/// credentials, as a client's, with the text of the node's address, and with its own
/// address; for one that was saved, both addresses are noted with the first network of
/// that name that was saved as a client's.
pub proof fn law_connection_is_saved(
    app: AppView,
    ssid: Seq<char>,
    password: Seq<char>,
    remote: Seq<char>,
    addr: Option<Endpoint>,
    saved_ip: Option<Seq<char>>,
    now: u128,
    byte: u8,
)
    ensures
        connection(app, ssid, password, remote, addr, saved_ip, now, byte) matches Ok((saved, network))
            ==> {
            &&& saved_ip is None ==> {
                let last = saved.networks[app.saved.networks.len() as int];
                &&& saved.networks.len() == app.saved.networks.len() + 1
                &&& saved.networks.drop_last() == app.saved.networks
                &&& last.ssid == ssid
                &&& last.password == password
                &&& last.role == "client"@
                &&& last.remote_addr == Some(remote)
                &&& last.virtual_ip == Some(network.my_virtual_ip)
            }
            &&& saved_ip is Some ==> saved.networks == refreshed(
                app.saved.networks,
                ssid,
                "client"@,
                saved_ip->0,
                Some(remote),
            )
        },
{
    if saved_ip is None {
        law_new_network_is_appended(app, ssid, password, remote, addr, now, byte);
    }
}

/// Connecting for the first time is refused without a user's name, and is else as
/// connecting to a network without a saved address.
pub proof fn law_first_connection(
    app: AppView,
    ssid: Seq<char>,
    password: Seq<char>,
    remote: Seq<char>,
    addr: Option<Endpoint>,
    now: u128,
    byte: u8,
)
    ensures
        app.name is None ==> first_connection(app, ssid, password, remote, addr, now, byte)
            == Err::<(SavedView, NetworkView), _>(Refusal::NoUserName),
        app.name is Some ==> first_connection(app, ssid, password, remote, addr, now, byte)
            == connection(app, ssid, password, remote, addr, None, now, byte),
{
}

/// What goes as planned gives the network that was planned and saves what was planned,
/// with the user's name as it was; what is refused as planned gives that refusal and
/// changes nothing.
pub proof fn law_goes_as(
    planned: Result<(SavedView, NetworkView), Refusal>,
    before: AppView,
    after: AppView,
    r: Result<Network, Refusal>,
)
    requires
        goes_as(planned, before, after, r),
    ensures
        r is Ok <==> planned is Ok,
        after.name == before.name,
        planned is Ok ==> r.unwrap()@ == planned->Ok_0.1 && after.saved == planned->Ok_0.0,
        planned is Err ==> r->Err_0 == planned->Err_0 && after.saved == before.saved,
{
}

} // verus!
