use displaymux::domain::{MonitorFingerprint, MonitorIdentityLink};
use displaymux::monitor_identity::{
    identities_for, is_same_display, merged_links, needs_push, primary_for, with_link,
    MAX_SHARED_LINKS,
};

fn fingerprint(product: &str) -> MonitorFingerprint {
    MonitorFingerprint::new("MSI", product, None::<String>)
}

fn link(alias: &str, primary: Option<&str>, updated_at_ms: u64) -> MonitorIdentityLink {
    MonitorIdentityLink {
        alias: fingerprint(alias),
        primary: primary.map(fingerprint),
        updated_at_ms,
    }
}

#[test]
fn an_identity_without_a_claim_is_its_own_primary() {
    let alone = fingerprint("3CF0");

    assert_eq!(primary_for(&[], &alone), &alone);
}

#[test]
fn a_claimed_identity_resolves_to_the_display_it_was_merged_into() {
    let links = [link("7CF0", Some("3CF0"), 10)];

    assert_eq!(
        primary_for(&links, &fingerprint("7CF0")),
        &fingerprint("3CF0")
    );
    assert!(is_same_display(
        &links,
        &fingerprint("3CF0"),
        &fingerprint("7CF0")
    ));
}

#[test]
fn a_withdrawn_claim_stops_resolving() {
    let links = with_link(
        &[link("7CF0", Some("3CF0"), 10)],
        &fingerprint("7CF0"),
        None,
        20,
    );

    assert_eq!(
        primary_for(&links, &fingerprint("7CF0")),
        &fingerprint("7CF0")
    );
    assert!(!is_same_display(
        &links,
        &fingerprint("3CF0"),
        &fingerprint("7CF0")
    ));
}

#[test]
fn a_stored_selection_that_is_itself_an_alias_still_matches_its_display() {
    // A selection stored under the alias must still recognise itself and
    // the display it points at; otherwise nothing matches it and every
    // "add to shared" makes another copy.
    let links = [link("7CF0", Some("3CF0"), 10)];

    assert!(is_same_display(
        &links,
        &fingerprint("7CF0"),
        &fingerprint("7CF0")
    ));
    assert!(is_same_display(
        &links,
        &fingerprint("7CF0"),
        &fingerprint("3CF0")
    ));
}

#[test]
fn two_aliases_of_one_display_name_the_same_display() {
    let links = [
        link("7CF0", Some("3CF0"), 10),
        link("5CF0", Some("3CF0"), 10),
    ];

    assert!(is_same_display(
        &links,
        &fingerprint("7CF0"),
        &fingerprint("5CF0")
    ));
}

#[test]
fn an_unrelated_identity_is_never_treated_as_the_shared_display() {
    let links = [link("7CF0", Some("3CF0"), 10)];

    assert!(!is_same_display(
        &links,
        &fingerprint("3CF0"),
        &MonitorFingerprint::new("ACR", "0725", Some("576726074".to_owned()))
    ));
}

#[test]
fn a_serial_number_still_separates_two_displays_of_the_same_model() {
    let ours = MonitorFingerprint::new("DEL", "A1B2", Some("first".to_owned()));
    let theirs = MonitorFingerprint::new("DEL", "A1B2", Some("second".to_owned()));

    assert!(!is_same_display(&[], &ours, &theirs));
}

#[test]
fn a_chain_of_claims_resolves_to_the_end_of_the_chain() {
    let links = [
        link("7CF0", Some("5CF0"), 10),
        link("5CF0", Some("3CF0"), 10),
    ];

    assert_eq!(
        primary_for(&links, &fingerprint("7CF0")),
        &fingerprint("3CF0")
    );
}

#[test]
fn a_looping_claim_resolves_instead_of_spinning() {
    let links = [
        link("7CF0", Some("3CF0"), 10),
        link("3CF0", Some("7CF0"), 10),
    ];

    // Either end is an acceptable answer; not hanging is the point.
    let start = fingerprint("7CF0");
    let resolved = primary_for(&links, &start);
    assert!(resolved == &fingerprint("3CF0") || resolved == &fingerprint("7CF0"));
}

#[test]
fn every_alias_of_a_display_is_listed_with_the_primary_first() {
    let links = [
        link("7CF0", Some("3CF0"), 10),
        link("5CF0", Some("3CF0"), 10),
    ];

    assert_eq!(
        identities_for(&links, &fingerprint("3CF0")),
        vec![
            fingerprint("3CF0"),
            fingerprint("7CF0"),
            fingerprint("5CF0")
        ]
    );
}

#[test]
fn a_display_without_claims_lists_only_itself() {
    assert_eq!(
        identities_for(&[], &fingerprint("3CF0")),
        vec![fingerprint("3CF0")]
    );
}

#[test]
fn setting_a_claim_again_moves_its_timestamp_forward() {
    let first = with_link(&[], &fingerprint("7CF0"), Some(&fingerprint("3CF0")), 10);
    let second = with_link(&first, &fingerprint("7CF0"), None, 5);

    assert_eq!(second.len(), 1);
    assert_eq!(second[0].updated_at_ms, 11);
}

#[test]
fn a_paired_host_claim_is_adopted_and_an_older_one_is_ignored() {
    let ours = [link("7CF0", Some("3CF0"), 20)];

    assert_eq!(merged_links(&ours, &[link("7CF0", None, 10)]), None);
    assert_eq!(
        merged_links(&ours, &[link("7CF0", None, 30)]),
        Some(vec![link("7CF0", None, 30)])
    );
}

#[test]
fn a_claim_an_identity_makes_about_itself_is_skipped() {
    assert_eq!(merged_links(&[], &[link("3CF0", Some("3CF0"), 10)]), None);
}

#[test]
fn an_oversized_notice_is_rejected_whole() {
    let incoming = (0..=MAX_SHARED_LINKS)
        .map(|index| link(&format!("{index:04X}"), Some("3CF0"), 10))
        .collect::<Vec<_>>();

    assert_eq!(merged_links(&[], &incoming), None);
}

#[test]
fn a_notice_is_only_pushed_when_the_paired_host_is_behind() {
    let ours = [link("7CF0", Some("3CF0"), 20)];

    assert!(needs_push(&ours, &[]));
    assert!(needs_push(&ours, &[link("7CF0", Some("3CF0"), 10)]));
    assert!(!needs_push(&ours, &[link("7CF0", Some("3CF0"), 20)]));
}
