//! What is kept between runs: the user's name and the networks joined before.

use crate::text::texts;
use vstd::prelude::*;
use vstd::string::*;

verus! {

/// A network joined before.
#[derive(Debug)]
pub struct SavedNetwork {
    pub ssid: String,
    pub password: String,
    pub role: String,
    pub remote_addr: Option<String>,
    pub virtual_ip: Option<String>,
}

/// The content of a `SavedNetwork`.
pub struct SavedNetworkView {
    pub ssid: Seq<char>,
    pub password: Seq<char>,
    pub role: Seq<char>,
    pub remote_addr: Option<Seq<char>>,
    pub virtual_ip: Option<Seq<char>>,
}

/// The text of an optional string.
pub open spec fn text_of(s: Option<String>) -> Option<Seq<char>> {
    match s {
        Some(s) => Some(s@),
        None => None,
    }
}

impl View for SavedNetwork {
    type V = SavedNetworkView;

    open spec fn view(&self) -> SavedNetworkView {
        SavedNetworkView {
            ssid: self.ssid@,
            password: self.password@,
            role: self.role@,
            remote_addr: text_of(self.remote_addr),
            virtual_ip: text_of(self.virtual_ip),
        }
    }
}

/// All that is kept between runs.
#[derive(Debug)]
pub struct SavedState {
    pub name: Option<String>,
    pub networks: Vec<SavedNetwork>,
}

/// The content of a `SavedState`.
pub struct SavedView {
    pub name: Option<Seq<char>>,
    pub networks: Seq<SavedNetworkView>,
}

impl View for SavedState {
    type V = SavedView;

    open spec fn view(&self) -> SavedView {
        SavedView {
            name: text_of(self.name),
            networks: self.networks@.map_values(|n: SavedNetwork| n@),
        }
    }
}

/// What is kept before the first run.
pub open spec fn nothing_saved() -> SavedView {
    SavedView { name: None, networks: Seq::empty() }
}

/// Whether a network of this name is saved.
pub open spec fn ssid_known(networks: Seq<SavedNetworkView>, ssid: Seq<char>) -> bool {
    exists|i: int| 0 <= i < networks.len() && #[trigger] networks[i].ssid == ssid
}

/// Whether no two saved networks have the same name.
pub open spec fn ssids_distinct(networks: Seq<SavedNetworkView>) -> bool {
    forall|i: int, j: int|
        0 <= i < j < networks.len() ==> (#[trigger] networks[i]).ssid != (
        #[trigger] networks[j]).ssid
}

/// Whether entry `i` is the first of this name and role.
pub open spec fn is_first(
    networks: Seq<SavedNetworkView>,
    ssid: Seq<char>,
    role: Seq<char>,
    i: int,
) -> bool {
    &&& 0 <= i < networks.len()
    &&& networks[i].ssid == ssid
    &&& networks[i].role == role
    &&& forall|j: int|
        0 <= j < i ==> !((#[trigger] networks[j]).ssid == ssid && networks[j].role == role)
}

/// The saved networks with the address, and the remote address if one is given,
/// noted for the first of this name and role, if there is one.
pub open spec fn refreshed(
    networks: Seq<SavedNetworkView>,
    ssid: Seq<char>,
    role: Seq<char>,
    virtual_ip: Seq<char>,
    remote: Option<Seq<char>>,
) -> Seq<SavedNetworkView> {
    if exists|i: int| is_first(networks, ssid, role, i) {
        let i = choose|i: int| is_first(networks, ssid, role, i);
        let entry = networks[i];
        networks.update(
            i,
            SavedNetworkView {
                virtual_ip: Some(virtual_ip),
                remote_addr: if remote is Some {
                    remote
                } else {
                    entry.remote_addr
                },
                ..entry
            },
        )
    } else {
        networks
    }
}

/// The line that shows a saved network.
pub open spec fn saved_line(n: SavedNetworkView) -> Seq<char> {
    n.ssid + " ("@ + n.role + ") IP: "@ + match n.virtual_ip {
        Some(ip) => ip,
        None => "-"@,
    }
}

/// The items of the menu of saved networks.
pub open spec fn saved_items(networks: Seq<SavedNetworkView>) -> Seq<Seq<char>> {
    networks.map_values(|n: SavedNetworkView| saved_line(n)).push(
        "Удалить сохранённую сеть"@,
    ).push("Назад"@)
}

/// What was chosen in the menu of saved networks.
#[derive(Debug)]
pub enum SavedChoice {
    /// Create the saved network again.
    Create { ssid: String, password: String, virtual_ip: Option<String> },
    /// Connect to the saved network again.
    Connect { ssid: String, password: String, remote: String, virtual_ip: Option<String> },
    /// Ask which network to delete.
    Delete,
    /// Say that there is no network to delete.
    NothingToDelete,
    /// Leave the menu.
    Back,
}

/// The content of a `SavedChoice`.
pub enum SavedChoiceView {
    Create { ssid: Seq<char>, password: Seq<char>, virtual_ip: Option<Seq<char>> },
    Connect {
        ssid: Seq<char>,
        password: Seq<char>,
        remote: Seq<char>,
        virtual_ip: Option<Seq<char>>,
    },
    Delete,
    NothingToDelete,
    Back,
}

impl View for SavedChoice {
    type V = SavedChoiceView;

    open spec fn view(&self) -> SavedChoiceView {
        match self {
            SavedChoice::Create { ssid, password, virtual_ip } => SavedChoiceView::Create {
                ssid: ssid@,
                password: password@,
                virtual_ip: text_of(*virtual_ip),
            },
            SavedChoice::Connect { ssid, password, remote, virtual_ip } =>
                SavedChoiceView::Connect {
                    ssid: ssid@,
                    password: password@,
                    remote: remote@,
                    virtual_ip: text_of(*virtual_ip),
                },
            SavedChoice::Delete => SavedChoiceView::Delete,
            SavedChoice::NothingToDelete => SavedChoiceView::NothingToDelete,
            SavedChoice::Back => SavedChoiceView::Back,
        }
    }
}

/// How a saved network is opened again. One without the address of a node is sought
/// on this machine.
pub open spec fn reopening(n: SavedNetworkView) -> SavedChoiceView {
    if n.role == "creator"@ {
        SavedChoiceView::Create { ssid: n.ssid, password: n.password, virtual_ip: n.virtual_ip }
    } else {
        SavedChoiceView::Connect {
            ssid: n.ssid,
            password: n.password,
            remote: match n.remote_addr {
                Some(remote) => remote,
                None => "127.0.0.1:51820"@,
            },
            virtual_ip: n.virtual_ip,
        }
    }
}

/// What a selection in the menu of saved networks means.
pub open spec fn saved_choice(
    networks: Seq<SavedNetworkView>,
    selection: Option<usize>,
) -> SavedChoiceView {
    match selection {
        Some(s) => if s < networks.len() {
            reopening(networks[s as int])
        } else if s == networks.len() {
            if networks.len() == 0 {
                SavedChoiceView::NothingToDelete
            } else {
                SavedChoiceView::Delete
            }
        } else {
            SavedChoiceView::Back
        },
        None => SavedChoiceView::Back,
    }
}

impl Default for SavedState {
    fn default() -> (s: SavedState)
        ensures
            s@ == nothing_saved(),
    {
        let s = SavedState { name: None, networks: Vec::new() };
        assert(s@.networks =~= Seq::<SavedNetworkView>::empty());
        s
    }
}

impl SavedState {
    /// What was read from the configuration file, or the default where there is no
    /// file or it cannot be read.
    pub fn load(read: Option<SavedState>) -> (s: SavedState)
        ensures
            match read {
                Some(state) => s == state,
                None => s@ == nothing_saved(),
            },
    {
        match read {
            Some(state) => state,
            None => SavedState::default(),
        }
    }

    /// Whether a network of this name is saved.
    pub fn contains_ssid(&self, ssid: &str) -> (r: bool)
        ensures
            r == ssid_known(self@.networks, ssid@),
    {
        let wanted: String = ssid.to_owned();
        let mut i: usize = 0;
        while i < self.networks.len()
            invariant
                wanted@ == ssid@,
                i <= self.networks@.len(),
                forall|j: int| 0 <= j < i ==> (#[trigger] self@.networks[j]).ssid != ssid@,
            decreases self.networks@.len() - i,
        {
            assert(self@.networks[i as int] == self.networks@[i as int]@);
            if self.networks[i].ssid == wanted {
                assert(self@.networks[i as int].ssid == ssid@);
                return true;
            }
            i += 1;
        }
        false
    }

    /// Adds a network at the end.
    pub fn add(&mut self, network: SavedNetwork)
        ensures
            final(self)@ == (SavedView {
                networks: old(self)@.networks.push(network@),
                ..old(self)@
            }),
    {
        let ghost before = self@.networks;
        self.networks.push(network);
        assert(self@.networks =~= before.push(network@));
    }

    /// Notes the address, and the remote address if one is given, for the first
    /// network of this name and role, if there is one.
    pub fn refresh(
        &mut self,
        ssid: &String,
        role: &str,
        virtual_ip: String,
        remote: Option<String>,
    )
        ensures
            final(self)@ == (SavedView {
                networks: refreshed(
                    old(self)@.networks,
                    ssid@,
                    role@,
                    virtual_ip@,
                    text_of(remote),
                ),
                ..old(self)@
            }),
    {
        let ghost before = self@;
        let wanted: String = role.to_owned();
        let mut i: usize = 0;
        while i < self.networks.len()
            invariant
                wanted@ == role@,
                before == old(self)@,
                self@ == before,
                i <= self.networks@.len(),
                forall|j: int|
                    0 <= j < i ==> !((#[trigger] before.networks[j]).ssid == ssid@
                        && before.networks[j].role == role@),
            decreases self.networks@.len() - i,
        {
            assert(before.networks[i as int] == self.networks@[i as int]@);
            if self.networks[i].ssid == *ssid && self.networks[i].role == wanted {
                proof {
                    assert(is_first(before.networks, ssid@, role@, i as int));
                    let first = choose|k: int| is_first(before.networks, ssid@, role@, k);
                    assert(first == i);
                }
                let ghost ip = virtual_ip@;
                let ghost address = text_of(remote);
                self.networks[i].virtual_ip = Some(virtual_ip);
                if remote.is_some() {
                    self.networks[i].remote_addr = remote;
                }
                assert(self@.networks =~= refreshed(
                    before.networks,
                    ssid@,
                    role@,
                    ip,
                    address,
                ));
                return ;
            }
            i += 1;
        }
        assert(forall|k: int| !is_first(before.networks, ssid@, role@, k));
    }

    /// Removes the network at position `idx`.
    pub fn remove_network(&mut self, idx: usize)
        requires
            idx < old(self)@.networks.len(),
        ensures
            final(self)@ == (SavedView {
                networks: old(self)@.networks.remove(idx as int),
                ..old(self)@
            }),
    {
        let ghost before = self@.networks;
        self.networks.remove(idx);
        assert(self@.networks =~= before.remove(idx as int));
    }

    /// The names of the saved networks.
    pub fn ssids(&self) -> (r: Vec<String>)
        ensures
            texts(r@) == self@.networks.map_values(|n: SavedNetworkView| n.ssid),
    {
        let mut r: Vec<String> = Vec::new();
        let mut i: usize = 0;
        while i < self.networks.len()
            invariant
                i <= self.networks@.len(),
                r@.len() == i,
                forall|j: int| 0 <= j < i ==> (#[trigger] r@[j])@ == self@.networks[j].ssid,
            decreases self.networks@.len() - i,
        {
            assert(self@.networks[i as int] == self.networks@[i as int]@);
            r.push(self.networks[i].ssid.clone());
            i += 1;
        }
        assert(texts(r@) =~= self@.networks.map_values(|n: SavedNetworkView| n.ssid));
        r
    }

    /// The items of the menu of saved networks: a line for each network, then one to
    /// delete a network and one to go back.
    pub fn menu_items(&self) -> (r: Vec<String>)
        ensures
            texts(r@) == saved_items(self@.networks),
    {
        let mut r: Vec<String> = Vec::new();
        let mut i: usize = 0;
        while i < self.networks.len()
            invariant
                i <= self.networks@.len(),
                r@.len() == i,
                forall|j: int| 0 <= j < i ==> (#[trigger] r@[j])@ == saved_line(self@.networks[j]),
            decreases self.networks@.len() - i,
        {
            let n = &self.networks[i];
            assert(self@.networks[i as int] == n@);
            let mut line: String = n.ssid.clone();
            line.append(" (");
            line.append(n.role.as_str());
            line.append(") IP: ");
            match &n.virtual_ip {
                Some(ip) => line.append(ip.as_str()),
                None => line.append("-"),
            }
            assert(line@ =~= saved_line(n@));
            r.push(line);
            i += 1;
        }
        r.push("Удалить сохранённую сеть".to_owned());
        r.push("Назад".to_owned());
        assert(texts(r@) =~= saved_items(self@.networks));
        r
    }

    /// What a selection in the menu of saved networks means; `None` is no selection.
    pub fn choose_network(&self, selection: Option<usize>) -> (r: SavedChoice)
        ensures
            r@ == saved_choice(self@.networks, selection),
    {
        let s: usize = match selection {
            Some(s) => s,
            None => {
                return SavedChoice::Back;
            },
        };
        if s < self.networks.len() {
            let n = &self.networks[s];
            assert(self@.networks[s as int] == n@);
            let creator: String = "creator".to_owned();
            let ssid = n.ssid.clone();
            let password = n.password.clone();
            let virtual_ip = n.virtual_ip.clone();
            if n.role == creator {
                SavedChoice::Create { ssid, password, virtual_ip }
            } else {
                let remote: String = match &n.remote_addr {
                    Some(remote) => remote.clone(),
                    None => "127.0.0.1:51820".to_owned(),
                };
                SavedChoice::Connect { ssid, password, remote, virtual_ip }
            }
        } else if s == self.networks.len() {
            if self.networks.len() == 0 {
                SavedChoice::NothingToDelete
            } else {
                SavedChoice::Delete
            }
        } else {
            SavedChoice::Back
        }
    }
}

/// Each line of the menu of saved networks stands where selecting it opens the
/// network that it shows; the two lines behind them delete a network and go back.
pub proof fn law_saved_menu(networks: Seq<SavedNetworkView>, s: usize)
    requires
        networks.len() > 0,
    ensures
        saved_items(networks).len() == networks.len() + 2,
        s < networks.len() ==> saved_items(networks)[s as int] == saved_line(networks[s as int])
            && saved_choice(networks, Some(s)) == reopening(networks[s as int]),
        s == networks.len() ==> saved_items(networks)[s as int] == "Удалить сохранённую сеть"@
            && saved_choice(networks, Some(s)) is Delete,
        s == networks.len() + 1 ==> saved_items(networks)[s as int] == "Назад"@ && saved_choice(
            networks,
            Some(s),
        ) is Back,
{
}

/// Noting an address for a saved network leaves all names, passwords and roles as
/// they are, and every other network untouched.
pub proof fn law_refreshed(
    networks: Seq<SavedNetworkView>,
    ssid: Seq<char>,
    role: Seq<char>,
    virtual_ip: Seq<char>,
    remote: Option<Seq<char>>,
)
    ensures
        ({
            let after = refreshed(networks, ssid, role, virtual_ip, remote);
            &&& after.len() == networks.len()
            &&& forall|i: int|
                0 <= i < networks.len() ==> {
                    &&& (#[trigger] after[i]).ssid == networks[i].ssid
                    &&& after[i].password == networks[i].password
                    &&& after[i].role == networks[i].role
                    &&& !is_first(networks, ssid, role, i) ==> after[i] == networks[i]
                }
            &&& ssids_distinct(networks) ==> ssids_distinct(after)
        }),
{
}

/// A network whose name is not saved yet can be added, and any network can be
/// removed, without a name occurring twice.
pub proof fn law_ssids_stay_distinct(
    networks: Seq<SavedNetworkView>,
    added: SavedNetworkView,
    removed: int,
)
    requires
        ssids_distinct(networks),
    ensures
        !ssid_known(networks, added.ssid) ==> ssids_distinct(networks.push(added)),
        0 <= removed < networks.len() ==> ssids_distinct(networks.remove(removed)),
{
    if !ssid_known(networks, added.ssid) {
        let after = networks.push(added);
        assert forall|i: int, j: int| 0 <= i < j < after.len() implies (#[trigger] after[i]).ssid
            != (#[trigger] after[j]).ssid by {
            assert(networks[i].ssid != added.ssid);
        }
    }
}

/// The text of an optional string is that of the string, where there is one.
pub proof fn law_text_of(s: Option<String>)
    ensures
        s is Some <==> text_of(s) is Some,
        s is Some ==> text_of(s) == Some(s.unwrap()@),
{
}

/// Before the first run neither a name nor a network is kept.
pub proof fn law_nothing_saved()
    ensures
        nothing_saved().name is None,
        nothing_saved().networks.len() == 0,
{
}

/// The content of a saved network is what its fields hold.
pub proof fn law_saved_network_view(n: SavedNetwork)
    ensures
        n@.ssid == n.ssid@,
        n@.password == n.password@,
        n@.role == n.role@,
        n.remote_addr is Some <==> n@.remote_addr is Some,
        n.remote_addr is Some ==> n@.remote_addr->0 == n.remote_addr.unwrap()@,
        n.virtual_ip is Some <==> n@.virtual_ip is Some,
        n.virtual_ip is Some ==> n@.virtual_ip->0 == n.virtual_ip.unwrap()@,
{
}

/// The first network of a name and role has the address that was noted, and the remote
/// address that was given, or else the one it had. Its name, password and role stay,
/// and so do all other networks, those of the same name and role behind it too.
pub proof fn law_first_is_refreshed(
    networks: Seq<SavedNetworkView>,
    ssid: Seq<char>,
    role: Seq<char>,
    virtual_ip: Seq<char>,
    remote: Option<Seq<char>>,
    i: int,
    j: int,
)
    requires
        0 <= i < networks.len(),
        networks[i].ssid == ssid,
        networks[i].role == role,
        forall|k: int|
            0 <= k < i ==> (#[trigger] networks[k]).ssid != ssid || networks[k].role != role,
        0 <= j < networks.len(),
        i != j,
    ensures
        ({
            let after = refreshed(networks, ssid, role, virtual_ip, remote);
            &&& after.len() == networks.len()
            &&& after[i].virtual_ip == Some(virtual_ip)
            &&& remote is Some ==> after[i].remote_addr == remote
            &&& remote is None ==> after[i].remote_addr == networks[i].remote_addr
            &&& after[i].ssid == ssid
            &&& after[i].role == role
            &&& after[i].password == networks[i].password
            &&& after[j] == networks[j]
        }),
{
    assert(is_first(networks, ssid, role, i));
    let first = choose|k: int| is_first(networks, ssid, role, k);
    assert(is_first(networks, ssid, role, first));
    assert(first == i);
}

/// The same for a network that is the only one.
pub proof fn law_only_one_is_refreshed(
    network: SavedNetworkView,
    virtual_ip: Seq<char>,
    remote: Option<Seq<char>>,
)
    ensures
        ({
            let after = refreshed(
                seq![network],
                network.ssid,
                network.role,
                virtual_ip,
                remote,
            );
            &&& after.len() == 1
            &&& after[0].virtual_ip == Some(virtual_ip)
            &&& remote is Some ==> after[0].remote_addr == remote
            &&& remote is None ==> after[0].remote_addr == network.remote_addr
            &&& after[0].ssid == network.ssid
            &&& after[0].role == network.role
            &&& after[0].password == network.password
        }),
{
    let networks = seq![network];
    assert(is_first(networks, network.ssid, network.role, 0));
}

/// Where no network has the name and role, noting an address changes nothing.
pub proof fn law_none_is_refreshed(
    networks: Seq<SavedNetworkView>,
    ssid: Seq<char>,
    role: Seq<char>,
    virtual_ip: Seq<char>,
    remote: Option<Seq<char>>,
)
    requires
        forall|k: int|
            0 <= k < networks.len() ==> (#[trigger] networks[k]).ssid != ssid || networks[k].role
                != role,
    ensures
        refreshed(networks, ssid, role, virtual_ip, remote) == networks,
{
}

/// The line of a saved network: its name, its role in brackets, and its address, or a
/// dash where it has none.
pub proof fn law_saved_line(n: SavedNetworkView)
    ensures
        ({
            let head = n.ssid + seq![' ', '('] + n.role + seq![')', ' ', 'I', 'P', ':', ' '];
            &&& n.virtual_ip matches Some(ip) ==> saved_line(n) == head + ip
            &&& n.virtual_ip is None ==> saved_line(n) == head + seq!['-']
        }),
{
    reveal_strlit(" (");
    reveal_strlit(") IP: ");
    reveal_strlit("-");
    assert(" ("@ =~= seq![' ', '(']);
    assert(") IP: "@ =~= seq![')', ' ', 'I', 'P', ':', ' ']);
    assert("-"@ =~= seq!['-']);
}

/// A network that was saved as the creator's is created again; every other one is
/// connected to again, at the node that was saved with it, or else at this machine.
/// Either way name, password and address are those that were saved.
pub proof fn law_reopening(n: SavedNetworkView)
    ensures
        n.role == "creator"@ ==> reopening(n) == (SavedChoiceView::Create {
            ssid: n.ssid,
            password: n.password,
            virtual_ip: n.virtual_ip,
        }),
        n.role != "creator"@ && n.remote_addr is Some ==> reopening(n)
            == (SavedChoiceView::Connect {
            ssid: n.ssid,
            password: n.password,
            remote: n.remote_addr->0,
            virtual_ip: n.virtual_ip,
        }),
        n.role != "creator"@ && n.remote_addr is None ==> reopening(n)
            == (SavedChoiceView::Connect {
            ssid: n.ssid,
            password: n.password,
            remote: "127.0.0.1:51820"@,
            virtual_ip: n.virtual_ip,
        }),
{
}

/// No selection, and every selection behind the lines, leaves the menu of saved
/// networks; where no network is saved, there is none to delete.
pub proof fn law_saved_menu_is_left(networks: Seq<SavedNetworkView>, s: usize)
    ensures
        saved_choice(networks, None) is Back,
        s > networks.len() ==> saved_choice(networks, Some(s)) is Back,
        networks.len() == 0 ==> saved_choice(networks, Some(0)) is NothingToDelete,
{
}

} // verus!
