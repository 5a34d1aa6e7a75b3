use p2p_vpn::updater::{check_for_updates, check_releases, UpdateCheck};

#[test]
fn no_releases() {
    assert_eq!(check_for_updates(None, "0.1.0", true), UpdateCheck::NoReleases);
    assert_eq!(check_for_updates(None, "0.1.0", false), UpdateCheck::NoReleases);
}

#[test]
fn same_version_is_up_to_date() {
    assert_eq!(
        check_for_updates(Some("0.1.0"), "0.1.0", true),
        UpdateCheck::UpToDate("v0.1.0".to_string())
    );
}

#[test]
fn older_release_is_up_to_date() {
    assert_eq!(
        check_for_updates(Some("0.0.9"), "0.1.0", false),
        UpdateCheck::UpToDate("v0.1.0".to_string())
    );
}

#[test]
fn newer_release_waits() {
    assert_eq!(
        check_for_updates(Some("0.2.0"), "0.1.0", false),
        UpdateCheck::Pending("ожидание (новая: v0.2.0)".to_string())
    );
}

#[test]
fn newer_release_is_installed_when_asked_for() {
    assert_eq!(check_for_updates(Some("0.2.0"), "0.1.0", true), UpdateCheck::Install);
}

#[test]
fn versions_are_ordered_as_strings() {
    assert_eq!(
        check_for_updates(Some("0.10.0"), "0.9.0", true),
        UpdateCheck::UpToDate("v0.9.0".to_string())
    );
    assert_eq!(check_for_updates(Some("0.9.0"), "0.10.0", true), UpdateCheck::Install);
    assert_eq!(check_for_updates(Some("0.1.0.1"), "0.1.0", true), UpdateCheck::Install);
}

fn versions(list: &[&str]) -> Vec<String> {
    list.iter().map(|v| v.to_string()).collect()
}

#[test]
fn only_the_first_release_counts() {
    assert_eq!(
        check_releases(&versions(&["0.1.0", "0.3.0"]), "0.2.0", false),
        UpdateCheck::UpToDate("v0.2.0".to_string())
    );
    assert_eq!(
        check_releases(&versions(&["0.3.0", "0.1.0"]), "0.2.0", false),
        UpdateCheck::Pending("ожидание (новая: v0.3.0)".to_string())
    );
    assert_eq!(
        check_releases(&versions(&["0.3.0", "0.4.0"]), "0.2.0", true),
        UpdateCheck::Install
    );
}

#[test]
fn empty_list_of_releases() {
    assert_eq!(check_releases(&versions(&[]), "0.2.0", true), UpdateCheck::NoReleases);
}
