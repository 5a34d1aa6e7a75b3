//! The menus: what they show, what a selection means, and which input is accepted.

use crate::network::{Network, NetworkView};
use crate::peers::{PeerInfo, PeerView};
use crate::text::{decimal, is_numeral, law_decimal, push_decimal, texts, trim, trimmed};
use crate::wire::Role;
use vstd::prelude::*;
use vstd::string::*;

verus! {

/// Nanoseconds in a millisecond.
pub const NANOS_PER_MILLI: u128 = 1_000_000;

/// What was chosen in the main menu.
#[derive(Clone, Copy, Debug, PartialEq, Eq, Structural)]
pub enum MainAction {
    SetName,
    SavedNetworks,
    ActiveNetworks,
    Connect,
    Create,
    Update,
    /// The selection is none of the items.
    Nothing,
    /// Nothing was selected.
    Exit,
}

/// What was chosen in the menu of running networks.
#[derive(Clone, Copy, Debug, PartialEq, Eq, Structural)]
pub enum ActiveChoice {
    /// Stay at the line of a network.
    Inspect,
    /// Stop the first network.
    StopFirst,
    /// There is no network to stop.
    Nothing,
    /// Leave the menu.
    Back,
}

/// The text of the item for an action of the main menu.
pub open spec fn main_label(action: MainAction, name_label: Seq<char>) -> Seq<char> {
    match action {
        MainAction::SetName => "Имя пользователя ["@ + name_label + "]"@,
        MainAction::SavedNetworks => "Сохранённые сети"@,
        MainAction::ActiveNetworks => "Активные сети"@,
        MainAction::Connect => "Подключиться к сети"@,
        MainAction::Create => "Создать сеть"@,
        MainAction::Update => "Обновить программу"@,
        _ => Seq::empty(),
    }
}

/// The actions that the main menu offers, in order. Saved and running networks are
/// offered only if there are any.
pub open spec fn main_actions(has_saved: bool, has_active: bool) -> Seq<MainAction> {
    let first = seq![MainAction::SetName];
    let saved = if has_saved {
        first.push(MainAction::SavedNetworks)
    } else {
        first
    };
    let active = if has_active {
        saved.push(MainAction::ActiveNetworks)
    } else {
        saved
    };
    active.push(MainAction::Connect).push(MainAction::Create).push(MainAction::Update)
}

/// What a selection in the main menu means.
pub open spec fn main_action(
    selection: Option<usize>,
    has_saved: bool,
    has_active: bool,
) -> MainAction {
    match selection {
        Some(s) => if s < main_actions(has_saved, has_active).len() {
            main_actions(has_saved, has_active)[s as int]
        } else {
            MainAction::Nothing
        },
        None => MainAction::Exit,
    }
}

/// The items of the main menu.
pub open spec fn main_items(
    name_label: Seq<char>,
    has_saved: bool,
    has_active: bool,
) -> Seq<Seq<char>> {
    main_actions(has_saved, has_active).map_values(|a: MainAction| main_label(a, name_label))
}

/// Whether the terminal is smaller than the menus were made for.
pub fn terminal_too_small(cols: u16, rows: u16) -> (r: bool)
    ensures
        r == (cols < 80 || rows < 25),
{
    cols < 80 || rows < 25
}

/// How the user's name is shown.
pub fn name_display(name: &Option<String>) -> (s: String)
    ensures
        s@ == match *name {
            Some(n) => n@,
            None => "не установлено"@,
        },
{
    match name {
        Some(n) => n.clone(),
        None => "не установлено".to_owned(),
    }
}

/// The items of the main menu; `name_label` is how the user's name is shown.
pub fn main_menu_items(name_label: &str, has_saved: bool, has_active: bool) -> (r: Vec<String>)
    ensures
        texts(r@) == main_items(name_label@, has_saved, has_active),
{
    let mut first: String = "Имя пользователя [".to_owned();
    first.append(name_label);
    first.append("]");
    let mut r: Vec<String> = Vec::new();
    r.push(first);
    if has_saved {
        r.push("Сохранённые сети".to_owned());
    }
    if has_active {
        r.push("Активные сети".to_owned());
    }
    r.push("Подключиться к сети".to_owned());
    r.push("Создать сеть".to_owned());
    r.push("Обновить программу".to_owned());
    assert(texts(r@) =~= main_items(name_label@, has_saved, has_active));
    r
}

/// What a selection in the main menu means; `None` is no selection.
pub fn main_menu_action(selection: Option<usize>, has_saved: bool, has_active: bool) -> (r:
    MainAction)
    ensures
        r == main_action(selection, has_saved, has_active),
{
    let s: usize = match selection {
        Some(s) => s,
        None => {
            return MainAction::Exit;
        },
    };
    let mut idx: usize = 0;
    if s == idx {
        return MainAction::SetName;
    }
    idx += 1;
    if has_saved {
        if s == idx {
            return MainAction::SavedNetworks;
        }
        idx += 1;
    }
    if has_active {
        if s == idx {
            return MainAction::ActiveNetworks;
        }
        idx += 1;
    }
    if s == idx {
        MainAction::Connect
    } else if s == idx + 1 {
        MainAction::Create
    } else if s == idx + 2 {
        MainAction::Update
    } else {
        MainAction::Nothing
    }
}

/// The items of the main menu and the actions go together: there is one item for
/// each action that is offered, it shows the action's text, and no action is offered
/// twice.
pub proof fn law_main_menu(name_label: Seq<char>, has_saved: bool, has_active: bool, s: usize)
    ensures
        ({
            let items = main_items(name_label, has_saved, has_active);
            let action = main_action(Some(s), has_saved, has_active);
            &&& items.len() == main_actions(has_saved, has_active).len()
            &&& s < items.len() ==> items[s as int] == main_label(action, name_label) && action
                != MainAction::Nothing && action != MainAction::Exit
            &&& s >= items.len() ==> action == MainAction::Nothing
            &&& action == MainAction::SavedNetworks ==> has_saved
            &&& action == MainAction::ActiveNetworks ==> has_active
            &&& forall|t: usize|
                t < items.len() && t != s && s < items.len() ==> action != #[trigger] main_action(
                    Some(t),
                    has_saved,
                    has_active,
                )
        }),
{
}

/// The user name of the first member of the table that is the creator.
pub open spec fn first_creator(peers: Seq<(Seq<char>, PeerView)>) -> Option<Seq<char>>
    decreases peers.len(),
{
    if peers.len() == 0 {
        None
    } else if peers[0].1.role == Role::Creator {
        Some(peers[0].1.user_name)
    } else {
        first_creator(peers.drop_first())
    }
}

/// Who is shown as the owner of a network: the user who created it here, or else the
/// member that is known as the creator.
pub open spec fn owner_shown(network: NetworkView) -> Seq<char> {
    if network.my_role == Role::Creator {
        network.owner
    } else {
        match first_creator(network.peers) {
            Some(name) => name,
            None => "неизвестен"@,
        }
    }
}

/// How a round-trip time is shown, in whole milliseconds.
pub open spec fn ping_shown(rtt: Option<u128>) -> Seq<char> {
    match rtt {
        Some(nanos) => decimal((nanos / NANOS_PER_MILLI) as nat) + "ms"@,
        None => "?ms"@,
    }
}

/// How a member is shown.
pub open spec fn participant(entry: (Seq<char>, PeerView)) -> Seq<char> {
    entry.1.user_name + " ("@ + entry.0 + "), пинг "@ + ping_shown(entry.1.rtt)
}

/// How the members are shown whose address in the virtual network is known.
pub open spec fn participants(peers: Seq<(Seq<char>, PeerView)>) -> Seq<Seq<char>>
    decreases peers.len(),
{
    if peers.len() == 0 {
        Seq::empty()
    } else if peers.last().0 == "unknown"@ {
        participants(peers.drop_last())
    } else {
        participants(peers.drop_last()).push(participant(peers.last()))
    }
}

/// Texts one after the other, with `", "` between them.
pub open spec fn joined(parts: Seq<Seq<char>>) -> Seq<char>
    decreases parts.len(),
{
    if parts.len() == 0 {
        Seq::empty()
    } else if parts.len() == 1 {
        parts[0]
    } else {
        joined(parts.drop_last()) + ", "@ + parts.last()
    }
}

/// The line that shows a running network.
pub open spec fn network_line_text(network: NetworkView) -> Seq<char> {
    "Сеть: "@ + network.name + ", владелец: "@ + owner_shown(network) + ", участники: ["@ + joined(
        participants(network.peers),
    ) + "]"@
}

/// Who is shown as the owner of a network.
fn owner_of(network: &Network) -> (s: String)
    ensures
        s@ == owner_shown(network@),
{
    if network.my_role == Role::Creator {
        return network.owner.clone();
    }
    let n: usize = network.peers.len();
    let mut i: usize = 0;
    assert(network.peers@.skip(0) =~= network.peers@);
    while i < n
        invariant
            n == network.peers@.len(),
            i <= n,
            network.my_role != Role::Creator,
            first_creator(network.peers@) == first_creator(network.peers@.skip(i as int)),
        decreases n - i,
    {
        let (_, info) = network.peers.entry(i);
        assert(network.peers@.skip(i as int)[0] == network.peers@[i as int]);
        assert(network.peers@.skip(i as int).drop_first() =~= network.peers@.skip(i + 1));
        if info.role == Role::Creator {
            return info.user_name.clone();
        }
        i += 1;
    }
    "неизвестен".to_owned()
}

/// How a member is shown.
fn participant_of(ip: &String, info: &PeerInfo) -> (s: String)
    ensures
        s@ == participant((ip@, info@)),
{
    let mut s: String = info.user_name.clone();
    s.append(" (");
    s.append(ip.as_str());
    s.append("), пинг ");
    let ghost head = s@;
    match info.rtt {
        Some(nanos) => {
            push_decimal(&mut s, nanos / NANOS_PER_MILLI);
            s.append("ms");
        },
        None => {
            s.append("?ms");
        },
    }
    assert(s@ =~= head + ping_shown(info.rtt));
    s
}

/// The line that shows a running network: its name, its owner and its members.
pub fn network_line(network: &Network) -> (s: String)
    ensures
        s@ == network_line_text(network@),
{
    let owner = owner_of(network);
    let unknown: String = "unknown".to_owned();
    let n: usize = network.peers.len();
    let mut list: String = String::new();
    let mut empty: bool = true;
    let mut i: usize = 0;
    while i < n
        invariant
            unknown@ == "unknown"@,
            n == network.peers@.len(),
            i <= n,
            empty == (participants(network.peers@.take(i as int)).len() == 0),
            list@ == joined(participants(network.peers@.take(i as int))),
        decreases n - i,
    {
        let (ip, info) = network.peers.entry(i);
        let ghost shorter = participants(network.peers@.take(i as int));
        let ghost longer = participants(network.peers@.take(i + 1));
        proof {
            let prefix = network.peers@.take(i + 1);
            assert(prefix.drop_last() =~= network.peers@.take(i as int));
            assert(prefix.last() == network.peers@[i as int]);
        }
        if *ip != unknown {
            let text = participant_of(ip, info);
            assert(longer.drop_last() =~= shorter);
            if !empty {
                list.append(", ");
            }
            list.append(text.as_str());
            empty = false;
            assert(list@ =~= joined(longer));
        }
        i += 1;
    }
    assert(network.peers@.take(i as int) =~= network.peers@);
    let mut line: String = "Сеть: ".to_owned();
    line.append(network.name.as_str());
    line.append(", владелец: ");
    line.append(owner.as_str());
    line.append(", участники: [");
    line.append(list.as_str());
    line.append("]");
    line
}

/// The items of the menu of running networks.
pub open spec fn active_items(lines: Seq<Seq<char>>) -> Seq<Seq<char>> {
    lines.push("Остановить сеть"@).push("Назад"@)
}

/// What a selection in the menu of running networks means.
pub open spec fn active_choice(selection: Option<usize>, count: usize) -> ActiveChoice {
    match selection {
        Some(s) => if s < count {
            ActiveChoice::Inspect
        } else if s > count {
            ActiveChoice::Back
        } else if count == 0 {
            ActiveChoice::Nothing
        } else {
            ActiveChoice::StopFirst
        },
        None => ActiveChoice::Back,
    }
}

/// The items of the menu of running networks: their lines, then one to stop a
/// network and one to go back.
pub fn active_menu_items(lines: Vec<String>) -> (r: Vec<String>)
    ensures
        texts(r@) == active_items(texts(lines@)),
{
    let ghost before = lines@;
    let mut r = lines;
    r.push("Остановить сеть".to_owned());
    r.push("Назад".to_owned());
    assert(texts(r@) =~= active_items(texts(before)));
    r
}

/// What a selection in the menu of `count` running networks means; `None` is no
/// selection.
pub fn active_menu_choice(selection: Option<usize>, count: usize) -> (r: ActiveChoice)
    ensures
        r == active_choice(selection, count),
{
    let s: usize = match selection {
        Some(s) => s,
        None => {
            return ActiveChoice::Back;
        },
    };
    if s < count {
        ActiveChoice::Inspect
    } else if s > count {
        ActiveChoice::Back
    } else if count == 0 {
        ActiveChoice::Nothing
    } else {
        ActiveChoice::StopFirst
    }
}

/// The lines of the menu of running networks stand where selecting one stays at it;
/// the two lines behind them stop a network and go back.
pub proof fn law_active_menu(lines: Seq<Seq<char>>, s: usize)
    requires
        0 < lines.len() <= usize::MAX,
    ensures
        ({
            let items = active_items(lines);
            let choice = active_choice(Some(s), lines.len() as usize);
            &&& items.len() == lines.len() + 2
            &&& s < lines.len() ==> items[s as int] == lines[s as int] && choice
                == ActiveChoice::Inspect
            &&& s == lines.len() ==> items[s as int] == "Остановить сеть"@ && choice
                == ActiveChoice::StopFirst
            &&& s == lines.len() + 1 ==> items[s as int] == "Назад"@ && choice
                == ActiveChoice::Back
        }),
{
}

/// Accepts input for a required field: without the white space at its ends, if
/// anything is left of it.
pub fn prompt_required(input: &str) -> (r: Option<String>)
    ensures
        r is Some <==> trimmed(input@).len() > 0,
        r matches Some(s) ==> s@ == trimmed(input@),
{
    let text = trim(input);
    if text.is_empty() {
        None
    } else {
        Some(text.to_owned())
    }
}

/// Accepts a password: as it stands, unless it is nothing but white space.
pub fn prompt_password_required(input: String) -> (r: Option<String>)
    ensures
        r is Some <==> trimmed(input@).len() > 0,
        r matches Some(s) ==> s == input,
{
    if trim(input.as_str()).is_empty() {
        None
    } else {
        Some(input)
    }
}

/// The main menu, by position. The user's name comes first; saved networks come next,
/// then running ones, each if there are any; connecting, creating and updating come
/// last.
pub proof fn law_main_menu_order(label: Seq<char>, has_saved: bool, has_active: bool)
    ensures
        ({
            let items = main_items(label, has_saved, has_active);
            let active_at: int = if has_saved {
                2
            } else {
                1
            };
            let rest_at: int = if has_active {
                active_at + 1
            } else {
                active_at
            };
            &&& items.len() == rest_at + 3
            &&& items[0] == "Имя пользователя ["@ + label + "]"@
            &&& main_action(Some(0), has_saved, has_active) == MainAction::SetName
            &&& has_saved ==> items[1] == "Сохранённые сети"@ && main_action(
                Some(1),
                has_saved,
                has_active,
            ) == MainAction::SavedNetworks
            &&& has_active ==> items[active_at] == "Активные сети"@ && main_action(
                Some(active_at as usize),
                has_saved,
                has_active,
            ) == MainAction::ActiveNetworks
            &&& items[rest_at] == "Подключиться к сети"@
            &&& main_action(Some(rest_at as usize), has_saved, has_active) == MainAction::Connect
            &&& items[rest_at + 1] == "Создать сеть"@
            &&& main_action(Some((rest_at + 1) as usize), has_saved, has_active)
                == MainAction::Create
            &&& items[rest_at + 2] == "Обновить программу"@
            &&& main_action(Some((rest_at + 2) as usize), has_saved, has_active)
                == MainAction::Update
            &&& main_action(None, has_saved, has_active) == MainAction::Exit
        }),
{
}

/// The creator that is found is the first member with that role. Where no member has
/// it, none is found.
pub proof fn law_first_creator(peers: Seq<(Seq<char>, PeerView)>, i: int)
    requires
        0 <= i <= peers.len(),
        forall|j: int| 0 <= j < i ==> (#[trigger] peers[j]).1.role != Role::Creator,
    ensures
        i < peers.len() && peers[i].1.role == Role::Creator ==> first_creator(peers) == Some(
            peers[i].1.user_name,
        ),
        i == peers.len() ==> first_creator(peers) is None,
    decreases peers.len(),
{
    if i > 0 {
        let rest = peers.drop_first();
        assert(peers[0].1.role != Role::Creator);
        assert forall|j: int| 0 <= j < i - 1 implies (#[trigger] rest[j]).1.role
            != Role::Creator by {
            assert(rest[j] == peers[j + 1]);
        }
        law_first_creator(rest, i - 1);
    }
}

/// The owner that is shown: on the creator's machine the user; elsewhere the creator
/// among the members, and where there is none, that the owner is unknown.
pub proof fn law_owner_shown(network: NetworkView)
    ensures
        network.my_role == Role::Creator ==> owner_shown(network) == network.owner,
        network.my_role == Role::Client ==> match first_creator(network.peers) {
            Some(name) => owner_shown(network) == name,
            None => owner_shown(network) == "неизвестен"@,
        },
{
}

/// A time is shown in whole milliseconds, rounded down.
pub proof fn law_ping_shown(nanos: u128, millis: int)
    requires
        millis * 1_000_000 <= nanos < (millis + 1) * 1_000_000,
    ensures
        exists|digits: Seq<char>| #[trigger]
            is_numeral(digits, millis) && ping_shown(Some(nanos)) == digits + seq!['m', 's'],
        ping_shown(None) == seq!['?', 'm', 's'],
{
    reveal_strlit("ms");
    reveal_strlit("?ms");
    assert("ms"@ =~= seq!['m', 's']);
    assert("?ms"@ =~= seq!['?', 'm', 's']);
    assert(nanos / NANOS_PER_MILLI == millis);
    law_decimal(millis as nat);
    assert(is_numeral(decimal(millis as nat), millis));
}

/// A member is shown by its name, its address in brackets, and its time.
pub proof fn law_participant(ip: Seq<char>, info: PeerView)
    ensures
        participant((ip, info)) == info.user_name + seq![' ', '('] + ip + "), пинг "@ + ping_shown(
            info.rtt,
        ),
{
    reveal_strlit(" (");
    assert(" ("@ =~= seq![' ', '(']);
}

/// One member more is shown behind the others, unless its address is unknown; then it
/// is not shown. Without members nothing is shown.
pub proof fn law_participants(
    peers: Seq<(Seq<char>, PeerView)>,
    ip: Seq<char>,
    info: PeerView,
)
    ensures
        participants(Seq::empty()).len() == 0,
        ip == "unknown"@ ==> participants(peers.push((ip, info))) == participants(peers),
        ip != "unknown"@ ==> participants(peers.push((ip, info))) == participants(peers).push(
            participant((ip, info)),
        ),
{
    assert(peers.push((ip, info)).drop_last() =~= peers);
}

/// Texts are joined in order, with a comma and a space before each but the first.
pub proof fn law_joined(parts: Seq<Seq<char>>, part: Seq<char>)
    ensures
        joined(Seq::empty()).len() == 0,
        joined(seq![part]) == part,
        parts.len() > 0 ==> joined(parts.push(part)) == joined(parts) + seq![',', ' '] + part,
{
    reveal_strlit(", ");
    assert(", "@ =~= seq![',', ' ']);
    assert(parts.push(part).drop_last() =~= parts);
}

/// The line of a running network names the network, its owner and its members, in this
/// order.
pub proof fn law_network_line(network: NetworkView)
    ensures
        network_line_text(network) == "Сеть: "@ + network.name + ", владелец: "@ + owner_shown(
            network,
        ) + ", участники: ["@ + joined(participants(network.peers)) + seq![']'],
{
    reveal_strlit("]");
    assert("]"@ =~= seq![']']);
}

/// No selection, and every selection behind the lines, leaves the menu of running
/// networks; where none runs, there is none to stop.
pub proof fn law_active_menu_is_left(s: usize, count: usize)
    ensures
        active_choice(None, count) == ActiveChoice::Back,
        s > count ==> active_choice(Some(s), count) == ActiveChoice::Back,
        active_choice(Some(0), 0) == ActiveChoice::Nothing,
{
}

} // verus!
