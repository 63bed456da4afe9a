use displaymux::agent::{AgentAction, AgentDisplayRoute, AgentResponse, AGENT_PROTOCOL_VERSION};
use displaymux::domain::{
    DestinationHost, DiscoveredPeer, DisplayInput, HostAlias, InputLabel, MonitorDescriptor,
    MonitorFingerprint, MonitorId, MonitorIdentityLink, SwitchOutcome,
};
use displaymux::error::DisplayMuxError;
use displaymux::host_alias::{alias_for, merged_aliases, with_alias, AliasError};
use displaymux::input_label::{label_for, with_label, LabelError};
use displaymux::inventory::{reconcile_monitor_selection, MonitorSelectionChange};
use displaymux::locale::UiLocale;
use displaymux::monitor_identity::{
    is_same_display, merged_links, needs_push, primary_for, with_link,
};
use displaymux::network::LocalHostIdentity;
use displaymux::routes::{adopt_peer_routes, apply_verified_peer_route, PeerRouteOutcome};
use displaymux::settings::{
    input_options, monitor_key, refresh_paired_endpoints, remove_peer, remove_shared_monitor,
    settle_local_host_id, share_monitor, upsert_discovered_peer, with_protected_fields, AppSettings, HostRoute,
    SelectedMonitor,
};
use displaymux::sharing::{
    adopt_alias_settings, adopt_layout, agent_notice_response, alias_error_text, apply_notice,
    is_exchange_due, label_error_text, ordered_routes, pairing_key, pending_notices, ping_response,
    resolve_switch_request, route_host_names, set_host_name, set_host_order, set_input_label,
    set_monitor_identity_link, switch_response, AnnouncedInputs, NoticeEffect,
};

const EN: UiLocale = UiLocale::English;
const ZH: UiLocale = UiLocale::TraditionalChinese;

fn input(value: u32) -> DisplayInput {
    DisplayInput::new(value).unwrap()
}

fn monitor(id: &str) -> MonitorDescriptor {
    MonitorDescriptor {
        id: MonitorId::new(id),
        name: id.to_owned(),
        fingerprint: MonitorFingerprint::new("ACM", id, Some(format!("serial-{id}"))),
        active: true,
        built_in: false,
        max_resolution: None,
        resolution_source: None,
        connection: None,
    }
}

fn peer(id: &str) -> HostRoute {
    HostRoute {
        id: id.to_owned(),
        name: format!("Host {id}"),
        platform: DestinationHost::Mac,
        address: "192.168.1.20".to_owned(),
        port: 1,
        mac_address: String::new(),
        inputs: Vec::new(),
    }
}

fn settings() -> AppSettings {
    AppSettings {
        shared_monitors: vec![SelectedMonitor {
            local_input: Some(input(0x0f)),
            supported_inputs: Some(vec![input(0x0f), input(0x11), input(0x12)]),
            ..SelectedMonitor::from(&monitor("shared"))
        }],
        peers: vec![peer("a"), peer("b")],
        shared_key: "pairing-password".to_owned(),
        ..AppSettings::default()
    }
}

fn discovered(id: &str, name: &str) -> DiscoveredPeer {
    DiscoveredPeer {
        id: id.to_owned(),
        name: name.to_owned(),
        platform: DestinationHost::Windows,
        address: "10.0.0.9".to_owned(),
        port: 9,
        mac_address: Some("AA:BB:CC:DD:EE:FF".to_owned()),
    }
}

fn route(display: &MonitorDescriptor, value: u32, confirmed: bool) -> AgentDisplayRoute {
    AgentDisplayRoute {
        monitor: display.fingerprint.clone(),
        input: input(value),
        confirmed,
    }
}

#[test]
fn a_host_order_that_was_saved_is_shown_again() {
    let mut settings = settings();
    settings.host_order = vec!["far".to_owned(), "a".to_owned()];
    settings.host_order_updated_at_ms = 500;
    let shown = vec!["b".to_owned(), "local".to_owned(), "a".to_owned()];
    assert_eq!(set_host_order(EN, &mut settings, &shown, "me", 100), Ok(()));
    assert_eq!(settings.host_order, vec!["b", "me", "a", "far"]);
    assert_eq!(settings.host_order_updated_at_ms, 501);
    assert_eq!(ordered_routes(&settings, "me"), shown);
    let before = settings.clone();
    assert_eq!(
        set_host_order(EN, &mut settings, &shown[..2], "me", 100),
        Err("The host list changed. Refresh and reorder again.".to_owned())
    );
    assert_eq!(settings, before);
}

#[test]
fn renaming_a_host_is_taken_over_by_holders_of_the_previous_name() {
    let mut ours = settings();
    ours.host_aliases = vec![HostAlias {
        host_id: "a".to_owned(),
        name: "Old".to_owned(),
        updated_at_ms: 900,
    }];
    let theirs = ours.host_aliases.clone();
    assert_eq!(set_host_name(EN, &mut ours, "a", "  Studio ", "me", 10), Ok(()));
    assert_eq!(set_host_name(EN, &mut ours, "local", "Desk", "me", 20), Ok(()));
    let merged = merged_aliases(&theirs, &ours.host_aliases).unwrap();
    assert_eq!(alias_for(&merged, "a"), Some("Studio"));
    assert_eq!(alias_for(&merged, "me"), Some("Desk"));
    let names = route_host_names(&ours, "me");
    assert_eq!(names.len(), 2);
    assert_eq!((names[0].route.as_str(), names[0].name.as_str()), ("local", "Desk"));
    assert_eq!((names[1].route.as_str(), names[1].name.as_str()), ("a", "Studio"));

    let before = ours.clone();
    assert_eq!(
        set_host_name(EN, &mut ours, "nobody", "x", "me", 10),
        Err("This host was not found. Refresh and try again.".to_owned())
    );
    assert_eq!(
        set_host_name(ZH, &mut ours, "a", "a\nb", "me", 10),
        Err(alias_error_text(ZH, AliasError::ControlCharacter))
    );
    assert_eq!(
        set_host_name(EN, &mut ours, "a", &"x".repeat(33), "me", 10),
        Err("Host names can be at most 32 characters".to_owned())
    );
    assert_eq!(ours, before);
}

#[test]
fn renaming_one_host_leaves_the_others() {
    let aliases = with_alias(&[], "a", "A".to_owned(), 1);
    let aliases = with_alias(&aliases, "b", "B".to_owned(), 1);
    let renamed = with_alias(&aliases, "a", String::new(), 1);
    assert_eq!(alias_for(&renamed, "a"), None);
    assert_eq!(alias_for(&renamed, "b"), Some("B"));
    assert_eq!(renamed.len(), 2);
}

#[test]
fn two_hosts_agree_after_they_exchanged_their_names() {
    let name = |id: &str, name: &str, at: u64| HostAlias {
        host_id: id.to_owned(),
        name: name.to_owned(),
        updated_at_ms: at,
    };
    let ours = vec![name("a", "A1", 10), name("b", "B1", 5)];
    let theirs = vec![name("b", "B2", 6), name("c", "C2", 1)];
    let here = merged_aliases(&ours, &theirs).unwrap();
    let there = merged_aliases(&theirs, &ours).unwrap();
    for id in ["a", "b", "c"] {
        assert_eq!(alias_for(&here, id), alias_for(&there, id));
    }
    assert_eq!(merged_aliases(&here, &theirs), None);
    assert_eq!(merged_aliases(&here, &there), None);
}

#[test]
fn a_note_is_set_for_one_input_of_a_shared_display() {
    let mut settings = settings();
    let key = monitor_key(&settings.shared_monitors[0].fingerprint);
    assert_eq!(set_input_label(EN, &mut settings, &key, 0x11, " Console ", 7), Ok(()));
    assert_eq!(set_input_label(EN, &mut settings, &key, 0x12, "TV", 7), Ok(()));
    let options = input_options(EN, &settings, &key).unwrap();
    assert_eq!(options.len(), 3);
    assert_eq!(options[0].name, "DP");
    assert_eq!(options[1].value, 0x11);
    assert_eq!(options[1].name, "Console (HDMI 1)");
    assert_eq!(options[1].base_name, "HDMI 1");
    assert_eq!(options[1].label, "Console");
    assert_eq!(input_options(ZH, &settings, &key).unwrap()[1].name, "Console（HDMI 1）");

    let before = settings.clone();
    assert_eq!(
        set_input_label(EN, &mut settings, "none", 0x11, "x", 7),
        Err("This shared display was not found. Refresh and try again.".to_owned())
    );
    assert_eq!(
        set_input_label(EN, &mut settings, &key, 0, "x", 7),
        Err(DisplayMuxError::InvalidInput(0).localized_message(false))
    );
    assert_eq!(
        set_input_label(EN, &mut settings, &key, 0x11, "a\tb", 7),
        Err(label_error_text(EN, LabelError::ControlCharacter))
    );
    assert_eq!(
        set_input_label(ZH, &mut settings, &key, 0x11, &"字".repeat(25), 7),
        Err("輸入備註最多 24 個字".to_owned())
    );
    assert_eq!(settings, before);
    assert!(input_options(EN, &settings, "none").is_err());
}

#[test]
fn displays_without_reported_inputs_offer_the_common_ones() {
    let mut settings = settings();
    settings.shared_monitors[0].supported_inputs = Some(Vec::new());
    let key = monitor_key(&settings.shared_monitors[0].fingerprint);
    let values: Vec<u32> = input_options(EN, &settings, &key)
        .unwrap()
        .iter()
        .map(|option| option.value)
        .collect();
    assert_eq!(values, vec![0x01, 0x03, 0x0f, 0x11, 0x12, 0x1b]);
}

#[test]
fn what_a_peer_shares_is_adopted_and_what_it_misses_is_sent() {
    let mut ours = settings();
    ours.host_aliases = vec![HostAlias {
        host_id: "a".to_owned(),
        name: "Ours".to_owned(),
        updated_at_ms: 5,
    }];
    ours.monitor_identity_links = vec![MonitorIdentityLink {
        alias: monitor("x").fingerprint,
        primary: None,
        updated_at_ms: 5,
    }];
    ours.host_order = vec!["a".to_owned()];
    ours.host_order_updated_at_ms = 5;
    let mut theirs = ping_response(EN, Some(&AppSettings::default()));
    theirs.host_order = vec!["b".to_owned()];
    theirs.host_order_updated_at_ms = 9;
    theirs.input_labels = vec![InputLabel {
        monitor: MonitorFingerprint::new("ACM", "shared", None),
        input: input(0x11),
        label: "TV".to_owned(),
        updated_at_ms: 3,
    }];

    let changes = adopt_layout(&mut ours, &theirs);
    assert!(changes.order && changes.labels && !changes.names && !changes.identities);
    assert_eq!(ours.host_order, vec!["b"]);
    assert_eq!(
        label_for(&ours.input_labels, &monitor("shared").fingerprint, input(0x11)),
        Some("TV")
    );
    let notices = pending_notices(&ours, &theirs);
    assert_eq!(notices.len(), 2);
    assert!(matches!(&notices[0], AgentAction::HostAliasesChanged { aliases } if aliases.len() == 1));
    assert!(matches!(&notices[1], AgentAction::MonitorIdentitiesChanged { links } if links.len() == 1));

    let again = adopt_layout(&mut ours, &theirs);
    assert!(!again.order && !again.names && !again.labels && !again.identities);
    let answer = ping_response(EN, Some(&ours));
    assert!(pending_notices(&ours, &answer).is_empty());
    let older = AgentResponse {
        host_order_updated_at_ms: 8,
        ..answer
    };
    assert!(matches!(
        pending_notices(&ours, &older).as_slice(),
        [AgentAction::HostOrderChanged { updated_at_ms: 9, .. }]
    ));
}

#[test]
fn an_exchange_is_due_after_half_a_minute() {
    assert!(is_exchange_due(30_000, 0));
    assert!(!is_exchange_due(29_999, 0));
    assert!(!is_exchange_due(5, 100));
    assert!(is_exchange_due(u64::MAX, 0));
}

#[test]
fn notices_change_only_what_they_speak_of() {
    let mut ours = settings();
    let display = monitor("shared");
    ours.peers[0].set_input_for(&display.fingerprint, Some(input(0x11)));
    let confirmed = AgentAction::LocalInputConfirmed {
        host_id: "b".to_owned(),
        monitor: display.fingerprint.clone(),
        input: input(0x12),
    };
    assert_eq!(apply_notice(&mut ours, confirmed.clone(), 1), NoticeEffect::PeerInputs);
    assert_eq!(ours.peers[1].input_for(&display.fingerprint), Some(input(0x12)));
    assert_eq!(apply_notice(&mut ours, confirmed, 1), NoticeEffect::Nothing);
    let moved = AgentAction::ActiveInputChanged {
        monitor: display.fingerprint.clone(),
        input: input(0x11),
    };
    assert_eq!(apply_notice(&mut ours, moved, 42), NoticeEffect::ActiveRoute);
    assert_eq!(ours.shared_monitors[0].active_route.as_deref(), Some("a"));
    assert_eq!(ours.shared_monitors[0].active_route_confirmed_at_ms, 42);
    let order = AgentAction::HostOrderChanged {
        order: vec!["b".to_owned()],
        updated_at_ms: 1,
    };
    assert_eq!(apply_notice(&mut ours, order, 1), NoticeEffect::HostOrder);
    let names = AgentAction::HostAliasesChanged {
        aliases: vec![HostAlias {
            host_id: "a".to_owned(),
            name: "A".to_owned(),
            updated_at_ms: 1,
        }],
    };
    assert_eq!(apply_notice(&mut ours, names, 1), NoticeEffect::HostNames);
    let labels = AgentAction::InputLabelsChanged {
        labels: vec![InputLabel {
            monitor: display.fingerprint.clone(),
            input: input(0x11),
            label: "TV".to_owned(),
            updated_at_ms: 1,
        }],
    };
    assert_eq!(apply_notice(&mut ours, labels, 1), NoticeEffect::InputLabels);
    let links = AgentAction::MonitorIdentitiesChanged {
        links: vec![MonitorIdentityLink {
            alias: monitor("x").fingerprint,
            primary: Some(display.fingerprint.clone()),
            updated_at_ms: 1,
        }],
    };
    assert_eq!(apply_notice(&mut ours, links, 1), NoticeEffect::MonitorIdentities);
    let before = ours.clone();
    assert_eq!(apply_notice(&mut ours, AgentAction::Ping, 1), NoticeEffect::Nothing);
    assert_eq!(ours, before);
}

#[test]
fn a_notice_is_answered_with_what_became_of_it() {
    let done = agent_notice_response(EN, Ok(()));
    assert!(done.ready);
    assert_eq!(done.message, "Settings synced");
    let failed = agent_notice_response(EN, Err("disk full".to_owned()));
    assert!(!failed.ready);
    assert_eq!(failed.message, "disk full");
    assert_eq!(failed.protocol_version, AGENT_PROTOCOL_VERSION);
}

#[test]
fn a_ping_is_answered_with_inputs_and_shared_data() {
    let mut ours = settings();
    ours.shared_monitors[0].active_route = Some("a".to_owned());
    ours.shared_monitors
        .push(SelectedMonitor::from(&monitor("unread")));
    ours.host_order = vec!["a".to_owned()];
    let answer = ping_response(ZH, Some(&ours));
    assert!(answer.ready);
    assert_eq!(answer.message, "DisplayMux Agent 已就緒");
    assert_eq!(answer.display_routes, vec![route(&monitor("shared"), 0x0f, false)]);
    assert_eq!(answer.display_route, Some(route(&monitor("shared"), 0x0f, false)));
    assert_eq!(answer.host_order, vec!["a"]);
    let bare = ping_response(EN, None);
    assert!(bare.ready && bare.display_routes.is_empty() && bare.display_route.is_none());
}

#[test]
fn a_switch_request_never_guesses_the_display() {
    let mut ours = settings();
    let found = resolve_switch_request(EN, Some(&ours), &None).unwrap();
    assert_eq!(found.identities, vec![monitor("shared").fingerprint]);
    assert!(!found.vendor_indexed);
    let named = Some(monitor("elsewhere").fingerprint);
    let refused = resolve_switch_request(EN, Some(&ours), &named).unwrap_err();
    assert_eq!(
        refused.message,
        "The requested shared display was not found; confirm both hosts' selections match"
    );
    ours.shared_monitors
        .push(SelectedMonitor::from(&monitor("second")));
    assert!(resolve_switch_request(EN, Some(&ours), &None)
        .unwrap_err()
        .message
        .contains("update this computer"));
    assert!(resolve_switch_request(EN, Some(&AppSettings::default()), &None)
        .unwrap_err()
        .message
        .contains("No shared display"));
    assert!(resolve_switch_request(EN, None, &None)
        .unwrap_err()
        .message
        .contains("Unable to read"));
}

#[test]
fn a_switch_request_is_answered_with_its_outcome() {
    let outcome = SwitchOutcome::AlreadySelected {
        target: monitor("shared"),
        input: input(0x11),
    };
    let done = switch_response(EN, true, input(0x11), Ok(Ok(outcome)));
    assert!(done.ready);
    assert_eq!(done.message, "The remote host switched to Input 17");
    let failed = switch_response(EN, false, input(0x11), Ok(Err(DisplayMuxError::TargetNotFound)));
    assert!(!failed.ready);
    assert_eq!(failed.message, DisplayMuxError::TargetNotFound.localized_message(false));
    let broken = switch_response(EN, false, input(0x11), Err("cancelled".to_owned()));
    assert_eq!(broken.message, "The switching task could not run: cancelled");
}

#[test]
fn an_input_is_announced_only_while_it_is_news() {
    let mut ours = settings();
    let mut announced = AnnouncedInputs::new();
    assert!(announced.announce_confirmed_local_inputs(&ours, "").is_empty());
    let first = announced.announce_confirmed_local_inputs(&ours, "me");
    assert_eq!(
        first,
        vec![AgentAction::LocalInputConfirmed {
            host_id: "me".to_owned(),
            monitor: monitor("shared").fingerprint,
            input: input(0x0f),
        }]
    );
    assert!(announced.announce_confirmed_local_inputs(&ours, "me").is_empty());
    ours.shared_monitors[0].local_input = Some(input(0x11));
    ours.shared_monitors[0].active_route = Some("a".to_owned());
    assert!(announced.announce_confirmed_local_inputs(&ours, "me").is_empty());
    ours.shared_monitors[0].active_route = Some("local".to_owned());
    assert_eq!(announced.announce_confirmed_local_inputs(&ours, "me").len(), 1);
}

#[test]
fn merging_two_identities_folds_one_into_the_other() {
    let mut ours = settings();
    let primary = monitor("shared");
    let alias = monitor("mode");
    ours.shared_monitors.push(SelectedMonitor::from(&alias));
    ours.peers[0].set_input_for(&alias.fingerprint, Some(input(0x11)));
    let key = monitor_key(&primary.fingerprint);
    ours.input_labels = vec![InputLabel {
        monitor: alias.fingerprint.clone(),
        input: input(0x11),
        label: "TV".to_owned(),
        updated_at_ms: 5,
    }];
    assert_eq!(
        set_monitor_identity_link(EN, &mut ours, &alias.fingerprint, Some(&key), 7),
        Ok(())
    );
    assert!(is_same_display(
        &ours.monitor_identity_links,
        &alias.fingerprint,
        &primary.fingerprint
    ));
    assert_eq!(ours.shared_monitors.len(), 1);
    assert_eq!(ours.peers[0].input_for(&primary.fingerprint), Some(input(0x11)));
    assert_eq!(ours.peers[0].input_for(&alias.fingerprint), None);
    assert_eq!(
        label_for(&ours.input_labels, &primary.fingerprint, input(0x11)),
        Some("TV")
    );
    assert_eq!(label_for(&ours.input_labels, &alias.fingerprint, input(0x11)), None);

    assert_eq!(
        set_monitor_identity_link(EN, &mut ours, &alias.fingerprint, None, 8),
        Ok(())
    );
    assert!(!is_same_display(
        &ours.monitor_identity_links,
        &alias.fingerprint,
        &primary.fingerprint
    ));
    let before = ours.clone();
    assert_eq!(
        set_monitor_identity_link(EN, &mut ours, &primary.fingerprint, Some(&key), 9),
        Err("A display cannot be merged into itself".to_owned())
    );
    assert!(set_monitor_identity_link(EN, &mut ours, &alias.fingerprint, Some("none"), 9).is_err());
    assert_eq!(ours, before);
}

#[test]
fn merging_never_overwrites_a_note_of_the_display_it_joins() {
    let mut ours = settings();
    let primary = monitor("shared");
    let alias = monitor("mode");
    let note = |display: &MonitorDescriptor, text: &str| InputLabel {
        monitor: display.fingerprint.clone(),
        input: input(0x11),
        label: text.to_owned(),
        updated_at_ms: 5,
    };
    ours.input_labels = vec![note(&primary, "kept"), note(&alias, "dropped")];
    adopt_alias_settings(&mut ours, &alias.fingerprint, &primary.fingerprint, 7);
    assert_eq!(
        label_for(&ours.input_labels, &primary.fingerprint, input(0x11)),
        Some("kept")
    );
    assert_eq!(label_for(&ours.input_labels, &alias.fingerprint, input(0x11)), None);
}

#[test]
fn a_claim_takes_effect_and_leaves_other_claims() {
    let [a, b, c] = ["a", "b", "c"].map(|id| monitor(id).fingerprint);
    let links = with_link(&[], &a, Some(&b), 1);
    let links = with_link(&links, &b, Some(&c), 1);
    assert_eq!(primary_for(&links, &a), &c);
    let links = with_link(&links, &b, None, 1);
    assert_eq!(primary_for(&links, &a), &b);
    assert_eq!(primary_for(&links, &b), &b);
}

#[test]
fn adopting_routes_says_what_became_of_each() {
    let mut ours = settings();
    let display = monitor("shared");
    let mut answer = AgentResponse::default();
    let nothing = adopt_peer_routes(EN, &mut ours, "a", &answer);
    assert!(nothing.warning && !nothing.applied);
    assert!(nothing.detail.contains("reported no input"));

    answer.display_route = Some(route(&display, 0x11, false));
    let applied = adopt_peer_routes(EN, &mut ours, "a", &answer);
    assert!(applied.applied && !applied.warning);
    assert_eq!(applied.detail, "shared set to HDMI 1.");
    let again = adopt_peer_routes(EN, &mut ours, "a", &answer);
    assert!(!again.applied && !again.warning);
    assert_eq!(again.detail, "shared was already HDMI 1.");

    answer.display_routes = vec![
        route(&display, 0x12, false),
        route(&display, 0x0f, true),
        route(&monitor("other"), 0x0f, true),
        route(&display, 0x1b, true),
    ];
    let mixed = adopt_peer_routes(ZH, &mut ours, "a", &answer);
    assert!(!mixed.applied && mixed.warning);
    assert_eq!(
        mixed.detail,
        "shared 回報 HDMI 2，但這台主機目前不在螢幕上，讀到的可能是別台，因此保留原本的設定。 shared 的 DP 已指派給其他主機；請確認兩台主機接在不同的 Port，或先切換到這台主機再試一次。 這台主機回報了一台這裡沒有共用的螢幕。 shared 沒有 Type-C 這個輸入。"
    );
    let unknown = adopt_peer_routes(EN, &mut ours, "gone", &answer);
    assert!(unknown.detail.contains("no longer in the added list"));
}

#[test]
fn two_hosts_never_end_up_on_one_port() {
    let mut ours = settings();
    let display = monitor("shared");
    assert_eq!(
        apply_verified_peer_route(&mut ours, "a", route(&display, 0x11, true)),
        PeerRouteOutcome::Applied
    );
    assert_eq!(
        apply_verified_peer_route(&mut ours, "b", route(&display, 0x11, true)),
        PeerRouteOutcome::Taken
    );
    assert_eq!(
        apply_verified_peer_route(&mut ours, "nobody", route(&display, 0x12, true)),
        PeerRouteOutcome::UnknownPeer
    );
    assert_eq!(ours.peers[1].input_for(&display.fingerprint), None);
}

#[test]
fn discovered_hosts_are_added_updated_and_removed() {
    let mut ours = settings();
    let display = monitor("shared");
    ours.peers[0].set_input_for(&display.fingerprint, Some(input(0x11)));
    upsert_discovered_peer(&mut ours, &discovered("a", "Renamed"));
    upsert_discovered_peer(&mut ours, &discovered("new", "New"));
    assert_eq!(ours.peers.len(), 3);
    assert_eq!(ours.peers[0].name, "Renamed");
    assert_eq!(ours.peers[0].mac_address, "AA:BB:CC:DD:EE:FF");
    assert_eq!(ours.peers[0].input_for(&display.fingerprint), Some(input(0x11)));
    assert!(ours.peers[2].inputs.is_empty());
    assert!(!refresh_paired_endpoints(&mut ours, &[discovered("a", "Renamed"), discovered("far", "Far")]));
    assert!(refresh_paired_endpoints(&mut ours, &[discovered("a", "Again")]));
    assert_eq!(ours.peers.len(), 3);
    remove_peer(&mut ours, "a");
    assert_eq!(ours.peers.iter().map(|p| p.id.as_str()).collect::<Vec<_>>(), vec!["b", "new"]);
}

#[test]
fn a_shared_display_is_added_once_and_removed_with_its_inputs() {
    let mut ours = AppSettings {
        peers: vec![peer("a")],
        ..AppSettings::default()
    };
    let display = monitor("shared");
    assert_eq!(share_monitor(&mut ours, &display), 0);
    assert_eq!(share_monitor(&mut ours, &display), 0);
    assert_eq!(share_monitor(&mut ours, &monitor("second")), 1);
    assert!(ours.shared_monitors_chosen);
    ours.peers[0].set_input_for(&display.fingerprint, Some(input(0x11)));
    ours.peers[0].set_input_for(&monitor("second").fingerprint, Some(input(0x12)));
    assert_eq!(
        remove_shared_monitor(EN, &mut ours, &monitor_key(&display.fingerprint)),
        Ok(())
    );
    assert_eq!(ours.shared_monitors.len(), 1);
    assert_eq!(ours.peers[0].input_for(&display.fingerprint), None);
    assert_eq!(
        ours.peers[0].input_for(&monitor("second").fingerprint),
        Some(input(0x12))
    );
    assert!(remove_shared_monitor(EN, &mut ours, "none").is_err());
}

#[test]
fn a_settings_form_cannot_change_what_it_does_not_own() {
    let protected = settings();
    let mut incoming = AppSettings::default();
    incoming.shared_key = "another password".to_owned();
    incoming.local_host = DestinationHost::Mac;
    incoming.wait_seconds = 7;
    let result = with_protected_fields(incoming, protected.clone());
    assert_eq!(result.shared_monitors, protected.shared_monitors);
    assert_eq!(result.local_host, protected.local_host);
    assert_eq!(result.shared_key, "another password");
    assert_eq!(result.wait_seconds, 7);
    assert!(result.peers.is_empty());
}

#[test]
fn the_id_of_this_computer_is_fixed_once() {
    let mut ours = AppSettings::default();
    let first = LocalHostIdentity::from_parts("Desk", DestinationHost::Mac, None);
    let later = LocalHostIdentity::from_parts(
        "Renamed",
        DestinationHost::Mac,
        Some("01:02:03:04:05:06".to_owned()),
    );
    let (identity, is_new) = settle_local_host_id(&mut ours, first);
    assert!(is_new);
    assert_eq!(identity.id, "desk-mac");
    assert_eq!(ours.local_host_id, "desk-mac");
    let (identity, is_new) = settle_local_host_id(&mut ours, later);
    assert!(!is_new);
    assert_eq!(identity.id, "desk-mac");
    assert_eq!(identity.name, "Renamed");
    assert_eq!(identity.mac_address.as_deref(), Some("01:02:03:04:05:06"));
    assert_eq!(ours.local_host_id, "desk-mac");
}

#[test]
fn a_given_password_is_used_where_it_is_long_enough() {
    let ours = settings();
    assert_eq!(
        pairing_key(&ours, Some("12345678".to_owned())),
        Some("12345678".to_owned())
    );
    assert_eq!(
        pairing_key(&ours, Some("short".to_owned())),
        Some("pairing-password".to_owned())
    );
    assert_eq!(pairing_key(&AppSettings::default(), None), None);
}

#[test]
fn a_selection_is_refreshed_only_from_an_exact_match() {
    let at_4k = MonitorFingerprint::new("MSI", "3CF0", None);
    let at_1080 = MonitorFingerprint::new("MSI", "7CF0", None);
    let mut ours = AppSettings {
        shared_monitors: vec![SelectedMonitor {
            fingerprint: at_4k.clone(),
            ..SelectedMonitor::from(&monitor("shared"))
        }],
        monitor_identity_links: with_link(&[], &at_1080, Some(&at_4k), 10),
        ..AppSettings::default()
    };
    let before = ours.clone();
    let mut present = monitor("renamed");
    present.fingerprint = at_1080;
    assert!(reconcile_monitor_selection(&mut ours, &[present.clone()]).is_empty());
    assert_eq!(ours, before);

    let mut exact = monitor("exact");
    exact.fingerprint = at_4k.clone();
    assert_eq!(
        reconcile_monitor_selection(&mut ours, &[present, exact]),
        vec![MonitorSelectionChange::RefreshedMetadata {
            name: "exact".to_owned()
        }]
    );
    assert_eq!(ours.shared_monitors[0].name, "exact");
    assert_eq!(ours.shared_monitors[0].fingerprint, at_4k);
}

#[test]
fn behind_the_last_time_there_is_a_change_keeps_it() {
    let alias = |name: &str| HostAlias {
        host_id: "pc".to_owned(),
        name: name.to_owned(),
        updated_at_ms: u64::MAX,
    };
    assert_eq!(
        with_alias(&[alias("A")], "pc", "B".to_owned(), 100),
        vec![alias("B")]
    );
    let display = monitor("shared").fingerprint;
    let noted = with_label(&[], &display, input(0x11), "TV".to_owned(), u64::MAX);
    let renoted = with_label(&noted, &display, input(0x11), "PC".to_owned(), 5);
    assert_eq!(renoted.len(), 1);
    assert_eq!(renoted[0].label, "PC");
    assert_eq!(renoted[0].updated_at_ms, u64::MAX);
    let claimed = with_link(&[], &display, None, u64::MAX);
    let again = with_link(&claimed, &display, Some(&monitor("x").fingerprint), 5);
    assert_eq!(again[0].updated_at_ms, u64::MAX);
    assert!(again[0].primary.is_some());

    let mut ours = settings();
    ours.host_order_updated_at_ms = u64::MAX;
    ours.host_aliases = vec![HostAlias {
        host_id: "a".to_owned(),
        ..alias("A")
    }];
    let shown = vec!["b".to_owned(), "local".to_owned(), "a".to_owned()];
    assert_eq!(set_host_order(EN, &mut ours, &shown, "me", 100), Ok(()));
    assert_eq!(ours.host_order_updated_at_ms, u64::MAX);
    assert_eq!(set_host_name(EN, &mut ours, "a", "B", "me", 100), Ok(()));
    assert_eq!(set_host_name(EN, &mut ours, "b", "Other", "me", 100), Ok(()));
    assert_eq!(alias_for(&ours.host_aliases, "a"), Some("B"));
    assert_eq!(alias_for(&ours.host_aliases, "b"), Some("Other"));
}

#[test]
fn a_recognized_notice_starts_the_settle_period_on_an_unchanged_route() {
    let mut ours = settings();
    let shown_here = |value: u32| AgentAction::ActiveInputChanged {
        monitor: monitor("shared").fingerprint,
        input: input(value),
    };
    assert_eq!(
        apply_notice(&mut ours, shown_here(0x0f), 77),
        NoticeEffect::ActiveRoute
    );
    assert_eq!(ours.shared_monitors[0].active_route, None);
    assert_eq!(ours.shared_monitors[0].active_route_confirmed_at_ms, 77);
    let before = ours.clone();
    assert_eq!(
        apply_notice(&mut ours, shown_here(0x12), 99),
        NoticeEffect::Nothing
    );
    assert_eq!(ours, before);
}

#[test]
fn claims_are_sent_exactly_where_they_change_something() {
    let [a, b, c] = ["a", "b", "c"].map(|id| monitor(id).fingerprint);
    let ours = with_link(&with_link(&[], &a, Some(&c), 10), &b, None, 20);
    let older = with_link(&with_link(&[], &a, None, 9), &b, None, 20);
    for (theirs, misses) in [(ours.clone(), false), (older, true), (Vec::new(), true)] {
        assert_eq!(needs_push(&ours, &theirs), misses);
        assert_eq!(merged_links(&theirs, &ours).is_some(), misses);
    }
}
