//! Whether the program is to be updated.

use crate::text::{
    bytes_at_most, law_bytes_at_most_total, law_first_difference_decides, str_at_most,
};
use vstd::prelude::*;
use vstd::string::*;
use vstd::utf8::{encode_utf8, encode_utf8_decode_utf8};

verus! {

/// What follows from the list of releases.
#[derive(Debug, PartialEq, Eq)]
pub enum UpdateCheck {
    /// There are no releases.
    NoReleases,
    /// There is no newer release; the text states the current version.
    UpToDate(String),
    /// There is a newer release, which is not to be installed now; the text states
    /// its version.
    Pending(String),
    /// The newer release is to be installed.
    Install,
}

/// The content of an `UpdateCheck`.
pub enum UpdateView {
    NoReleases,
    UpToDate(Seq<char>),
    Pending(Seq<char>),
    Install,
}

impl View for UpdateCheck {
    type V = UpdateView;

    open spec fn view(&self) -> UpdateView {
        match self {
            UpdateCheck::NoReleases => UpdateView::NoReleases,
            UpdateCheck::UpToDate(s) => UpdateView::UpToDate(s@),
            UpdateCheck::Pending(s) => UpdateView::Pending(s@),
            UpdateCheck::Install => UpdateView::Install,
        }
    }
}

/// Whether a release is newer than the current version: its version comes later in
/// the order of strings.
pub open spec fn is_newer(latest: Seq<char>, current: Seq<char>) -> bool {
    !bytes_at_most(encode_utf8(latest), encode_utf8(current))
}

/// What follows from the version of the latest release, if there is one.
pub open spec fn verdict(
    latest: Option<Seq<char>>,
    current: Seq<char>,
    do_update: bool,
) -> UpdateView {
    match latest {
        None => UpdateView::NoReleases,
        Some(version) => if !is_newer(version, current) {
            UpdateView::UpToDate("v"@ + current)
        } else if do_update {
            UpdateView::Install
        } else {
            UpdateView::Pending("ожидание (новая: v"@ + version + ")"@)
        },
    }
}

/// Decides from the version of the latest release, if there is one, whether to
/// update. Nothing is installed unless `do_update` is set.
pub fn check_for_updates(latest: Option<&str>, current: &str, do_update: bool) -> (r: UpdateCheck)
    ensures
        r@ == verdict(
            match latest {
                Some(version) => Some(version@),
                None => None,
            },
            current@,
            do_update,
        ),
{
    match latest {
        None => UpdateCheck::NoReleases,
        Some(version) => {
            if str_at_most(version, current) {
                let mut text: String = "v".to_owned();
                text.append(current);
                UpdateCheck::UpToDate(text)
            } else if do_update {
                UpdateCheck::Install
            } else {
                let mut text: String = "ожидание (новая: v".to_owned();
                text.append(version);
                text.append(")");
                UpdateCheck::Pending(text)
            }
        },
    }
}

/// The version of the latest release, by the versions of all releases in the order
/// in which they are listed: the first of them.
pub open spec fn latest_of(versions: Seq<String>) -> Option<Seq<char>> {
    if versions.len() == 0 {
        None
    } else {
        Some(versions[0]@)
    }
}

/// Decides from the versions of the releases, in the order in which they are listed,
/// whether to update. Only the first of them counts, whatever the others are.
pub fn check_releases(versions: &Vec<String>, current: &str, do_update: bool) -> (r: UpdateCheck)
    ensures
        r@ == verdict(latest_of(versions@), current@, do_update),
{
    if versions.len() == 0 {
        check_for_updates(None, current, do_update)
    } else {
        check_for_updates(Some(versions[0].as_str()), current, do_update)
    }
}

/// An update is installed only if it is asked for and newer; the version that runs
/// is never newer than itself, and of two different versions exactly one is newer than
/// the other.
pub proof fn law_updates_are_newer(a: Seq<char>, b: Seq<char>, do_update: bool)
    ensures
        verdict(Some(a), b, do_update) is Install <==> do_update && is_newer(a, b),
        !is_newer(a, a),
        !(is_newer(a, b) && is_newer(b, a)),
        a != b ==> is_newer(a, b) || is_newer(b, a),
{
    encode_utf8_decode_utf8(a);
    encode_utf8_decode_utf8(b);
    law_bytes_at_most_total(encode_utf8(a), encode_utf8(b));
    law_bytes_at_most_total(encode_utf8(a), encode_utf8(a));
}

/// Of two versions whose texts agree in their first `k` bytes, the one with the larger
/// byte behind them is newer; so is a version of which the other is a proper prefix.
/// No version is newer than one that it is a prefix of.
pub proof fn law_first_difference_is_newer(latest: Seq<char>, current: Seq<char>, k: int)
    requires
        0 <= k <= encode_utf8(latest).len(),
        k <= encode_utf8(current).len(),
        forall|i: int| 0 <= i < k ==> encode_utf8(latest)[i] == encode_utf8(current)[i],
    ensures
        ({
            let a = encode_utf8(latest);
            let b = encode_utf8(current);
            &&& k < a.len() && k < b.len() && a[k] != b[k] ==> (is_newer(latest, current)
                <==> a[k] > b[k])
            &&& k == b.len() && k < a.len() ==> is_newer(latest, current)
            &&& k == a.len() ==> !is_newer(latest, current)
        }),
{
    law_first_difference_decides(encode_utf8(latest), encode_utf8(current), k);
}

/// What is decided, for each outcome of comparing the two texts byte by byte. Without
/// a release there is nothing to decide. Where the latest release's text is at most
/// the current version's, the answer is `v` and the current version; where it is not,
/// the release is installed, if that is asked for, and else named.
pub proof fn law_verdict(latest: Seq<char>, current: Seq<char>, do_update: bool, k: int)
    requires
        0 <= k <= encode_utf8(latest).len(),
        k <= encode_utf8(current).len(),
        forall|i: int| 0 <= i < k ==> encode_utf8(latest)[i] == encode_utf8(current)[i],
        k < encode_utf8(latest).len() && k < encode_utf8(current).len() ==> encode_utf8(latest)[k]
            != encode_utf8(current)[k],
    ensures
        ({
            let a = encode_utf8(latest);
            let b = encode_utf8(current);
            let at_most = k == a.len() || (k < b.len() && a[k] < b[k]);
            let decision = verdict(Some(latest), current, do_update);
            &&& decision is UpToDate <==> at_most
            &&& at_most ==> decision == UpdateView::UpToDate(seq!['v'] + current)
            &&& decision is Install <==> !at_most && do_update
            &&& !at_most && !do_update ==> decision == UpdateView::Pending(
                "ожидание (новая: v"@ + latest + seq![')'],
            )
            &&& verdict(None, current, do_update) is NoReleases
        }),
{
    law_first_difference_is_newer(latest, current, k);
    reveal_strlit("v");
    reveal_strlit(")");
    assert("v"@ =~= seq!['v']);
    assert(")"@ =~= seq![')']);
}

/// Whatever releases follow the first one in the list, they change nothing: the first
/// alone is compared. An empty list has no latest release.
pub proof fn law_first_release_counts(versions: Seq<String>, more: Seq<String>)
    ensures
        versions.len() > 0 ==> latest_of(versions) == Some(versions[0]@) && latest_of(
            versions + more,
        ) == latest_of(versions),
        latest_of(Seq::empty()) is None,
{
}

} // verus!
