use std::collections::HashSet;

use displaymux::agent::{AgentDisplayRoute, AGENT_PROTOCOL_VERSION, DEFAULT_AGENT_PORT};
use displaymux::connection::{HostOutput, MonitorConnection, SinkInterface};
use displaymux::dashboard::{shared_display_state, SharedDisplayState};
use displaymux::domain::{
    DestinationHost, DisplayInput, InputLabel, MonitorDescriptor, MonitorFingerprint, MonitorId,
    MonitorResolution, ResolutionSource, SwitchOutcome,
};
use displaymux::error::DisplayMuxError;
use displaymux::inventory::{
    connection_input_conflict, monitor_inventory, reconcile_monitor_selection,
    refresh_selected_input_data, sync_active_routes_with_live_inputs, uncontrollable_monitors,
    vendor_index_inputs, CurrentInput, MonitorInventory, MonitorSelectionChange,
    ACTIVE_ROUTE_SETTLE_MS,
};
use displaymux::locale::{input_label, locale_from_tag, localized_input_name, UiLocale};
use displaymux::messages::launched_from_autostart;
use displaymux::migration::{
    migrate_legacy_settings, migrate_single_monitor_settings, settings_from_value, LegacySettings,
    SingleMonitorHostRoute, SingleMonitorSettings, StoredSettings,
};
use displaymux::monitor_identity;
use displaymux::port::MonitorControl;
use displaymux::routes::{
    apply_active_input_notice, apply_verified_peer_route, shared_monitor_index_for_peer,
    shows_this_host, PeerRouteOutcome,
};
use displaymux::settings::{
    common_input_sources, find_shared_monitor, has_valid_shared_key, is_selected_display,
    monitor_identity_claims, monitor_key, noted_input_label, settings_after_reset,
    settings_for_current_build, AppSettings, HostRoute, MonitorInputAssignment, ResetScope,
    SelectedMonitor, DEFAULT_HOST_SWITCHER_SHORTCUT,
};
use displaymux::sharing::{
    adopt_alias_settings, adopt_input_labels, apply_host_order_notice, fingerprint_for_ui_id,
    host_order_is_newer_than, set_active_route,
};
use displaymux::switching::{outcome_result, plan_switch_input, NetworkPreparation};
use displaymux::validation::{
    validate_host_switcher_shortcut, validate_settings, SettingsChecks, Shortcut, ShortcutKey,
};

const EN: UiLocale = UiLocale::English;

/// What the platform says of settings whose addresses are all well formed.
fn checks_for(settings: &AppSettings) -> SettingsChecks {
    SettingsChecks {
        local_host: settings.local_host,
        shortcut: None,
        peer_addresses: vec![true; settings.peers.len()],
        broadcast_address: true,
    }
}

struct SelectionController {
    monitors: Vec<MonitorDescriptor>,
    controllable: HashSet<String>,
}

impl MonitorControl for SelectionController {
    fn enumerate(&self) -> Result<Vec<MonitorDescriptor>, DisplayMuxError> {
        Ok(self.monitors.clone())
    }

    fn read_input(
        &self,
        monitor: &MonitorId,
    ) -> Result<DisplayInput, DisplayMuxError> {
        if self.controllable.contains(monitor.as_str()) {
            DisplayInput::new(0x0f)
        } else {
            Err(DisplayMuxError::Backend("DDC/CI unavailable".to_owned()))
        }
    }

    fn supported_inputs(
        &self,
        monitor: &MonitorId,
    ) -> Result<Vec<DisplayInput>, DisplayMuxError> {
        if self.controllable.contains(monitor.as_str()) {
            Ok(vec![
                DisplayInput::new(0x0f).unwrap(),
                DisplayInput::new(0x11).unwrap(),
                DisplayInput::new(0x1b).unwrap(),
            ])
        } else {
            Err(DisplayMuxError::Backend(
                "capabilities unavailable".to_owned(),
            ))
        }
    }

    fn write_input(
        &self,
        _monitor: &MonitorId,
        _input: DisplayInput,
    ) -> Result<(), DisplayMuxError> {
        unreachable!("selection tests never write an input")
    }
}

fn monitor(id: &str) -> MonitorDescriptor {
    MonitorDescriptor {
        id: MonitorId::new(id),
        name: id.to_owned(),
        fingerprint: MonitorFingerprint::new("ACM", id, Some(format!("serial-{id}"))),
        active: true,
        built_in: false,
        max_resolution: Some(MonitorResolution::new(2560, 1440)),
        resolution_source: Some(ResolutionSource::WindowsDisplayMode),
        connection: None,
    }
}

#[test]
fn uncontrollable_monitors_list_detected_externals_that_ddc_cannot_reach() {
    let external = monitor("external");
    let mut internal = monitor("internal");
    internal.built_in = true;
    let unreachable = monitor("unreachable");
    let controller = SelectionController {
        monitors: vec![internal, unreachable.clone(), external.clone()],
        controllable: HashSet::from(["internal".to_owned(), external.id.as_str().to_owned()]),
    };
    let inventory = monitor_inventory(&controller).unwrap();

    assert_eq!(uncontrollable_monitors(&inventory), vec![unreachable]);
}

fn hdmi_connection() -> MonitorConnection {
    MonitorConnection::classify(
        Some(HostOutput::UsbC),
        None,
        Some(SinkInterface::Hdmi),
        false,
    )
}

fn selected_with_input(value: u32, vendor_indexed: bool) -> SelectedMonitor {
    let mut selected = SelectedMonitor::from(&monitor("shared"));
    selected.local_input = DisplayInput::new(value).ok();
    selected.vendor_indexed_inputs = vendor_indexed;
    selected
}

#[test]
fn recorded_displayport_input_on_an_hdmi_connection_is_flagged() {
    let connection = hdmi_connection();
    assert!(connection_input_conflict(
        &selected_with_input(0x0f, false),
        Some(&connection)
    ));
    assert!(!connection_input_conflict(
        &selected_with_input(0x11, false),
        Some(&connection)
    ));
}

#[test]
fn input_conflict_is_never_guessed_from_vague_data() {
    let connection = hdmi_connection();
    // Private index values, missing connection data, or no recorded input.
    assert!(!connection_input_conflict(
        &selected_with_input(0x0f, true),
        Some(&connection)
    ));
    assert!(!connection_input_conflict(
        &selected_with_input(0x0f, false),
        None
    ));
    let unset = SelectedMonitor::from(&monitor("shared"));
    assert!(!connection_input_conflict(&unset, Some(&connection)));
}

#[test]
fn shared_key_requires_at_least_eight_characters() {
    assert!(!has_valid_shared_key("1234567"));
    assert!(has_valid_shared_key("12345678"));
    assert!(has_valid_shared_key("配對密碼八個字元"));
}

#[test]
fn new_install_does_not_assume_a_monitor_or_input() {
    let settings = AppSettings::default();
    assert!(settings.shared_monitors.is_empty());
    assert!(settings.peers.is_empty());
    assert!(settings.check_updates);
    assert!(!settings.onboarding_completed);
    assert!(!settings.host_switcher_enabled);
    assert_eq!(
        settings.host_switcher_shortcut,
        DEFAULT_HOST_SWITCHER_SHORTCUT
    );
}

/// A shortcut as it is recognized from its text, where `CommandOrControl` is
/// the primary modifier of the platform.
fn recognized(text: &str, platform: DestinationHost) -> Option<Shortcut> {
    let mut shortcut = Shortcut {
        control: false,
        command: false,
        alt: false,
        shift: false,
        key: ShortcutKey::Other,
    };
    let mut parts: Vec<&str> = text.split('+').collect();
    let key = parts.pop()?;
    shortcut.key = match key.strip_prefix("Key") {
        Some(letter) => ShortcutKey::Letter(letter.chars().next()?),
        None if key == "Space" => ShortcutKey::Other,
        None => return None,
    };
    for part in parts {
        match (part, platform) {
            ("CommandOrControl", DestinationHost::Mac) | ("Super", _) => shortcut.command = true,
            ("CommandOrControl", DestinationHost::Windows) | ("Control", _) => {
                shortcut.control = true
            }
            ("Alt", _) => shortcut.alt = true,
            ("Shift", _) => shortcut.shift = true,
            _ => return None,
        }
    }
    Some(shortcut)
}

#[test]
fn host_switcher_shortcut_requires_a_non_shift_modifier() {
    for platform in [DestinationHost::Windows, DestinationHost::Mac] {
        let check =
            |text: &str| validate_host_switcher_shortcut(EN, recognized(text, platform), platform);
        assert!(check("CommandOrControl+Alt+Space").is_ok());
        assert!(check("CommandOrControl+KeyK").is_ok());
        assert!(check("CommandOrControl+Shift+KeyA").is_ok());
        assert!(check("Control+Super+KeyC").is_ok());
        assert!(check("CommandOrControl+KeyW").is_err());
        assert!(check("CommandOrControl+KeyS").is_err());
        assert!(check("CommandOrControl+Shift+KeyW").is_err());
        assert!(check("Shift+KeyK").is_err());
        assert!(check("KeyK").is_err());
        assert!(check("CommandOrControl+Alt+Shift+KeyA").is_err());
        assert!(check("not-a-shortcut").is_err());
    }
}

#[test]
fn existing_settings_receive_disabled_host_switcher_defaults() {
    let settings = settings_from_value(
        StoredSettings::Current(Some(AppSettings::default())),
        true,
        DestinationHost::Windows,
    );

    assert!(!settings.host_switcher_enabled);
    assert_eq!(
        settings.host_switcher_shortcut,
        DEFAULT_HOST_SWITCHER_SHORTCUT
    );
}

#[test]
fn existing_install_without_onboarding_marker_does_not_show_first_run_flow() {
    let settings = settings_from_value(
        StoredSettings::Current(Some(AppSettings::default())),
        false,
        DestinationHost::Windows,
    );

    assert!(settings.onboarding_completed);
}

#[test]
fn development_builds_do_not_register_autostart() {
    assert!(!settings_for_current_build(AppSettings::default(), true).autostart);
    assert!(settings_for_current_build(AppSettings::default(), false).autostart);
}

#[test]
fn only_the_explicit_login_argument_starts_windows_hidden() {
    assert!(launched_from_autostart(&[
        "DisplayMux.exe".to_owned(),
        "--autostart".to_owned(),
    ]));
    assert!(!launched_from_autostart(&["DisplayMux.exe".to_owned()]));
}

#[test]
fn automatic_switch_tracks_wake_and_network_fallback_state() {
    assert!(!NetworkPreparation::NotRequired.peer_woken());
    assert!(!NetworkPreparation::Ready { wake_sent: true }.warning());
    assert!(NetworkPreparation::Ready { wake_sent: true }.peer_woken());
    assert!(NetworkPreparation::Unavailable {
        wake_sent: false,
        reason: "offline".to_owned(),
    }
    .warning());
}

#[test]
fn migration_preserves_the_previous_two_host_configuration() {
    let cases = [
        (DestinationHost::Windows, DestinationHost::Mac),
        (DestinationHost::Mac, DestinationHost::Windows),
    ];

    for (local_host, peer_platform) in cases {
        let legacy = LegacySettings {
            local_host,
            peer_id: "peer".to_owned(),
            peer_name: "Peer computer".to_owned(),
            peer_ip: "192.168.1.20".to_owned(),
            ..LegacySettings::for_host(local_host)
        };
        let migrated = migrate_legacy_settings(legacy);
        // The legacy shape has no monitor identity to attach an input
        // guess to; upgrading requires an explicit re-selection.
        assert!(migrated.shared_monitors.is_empty());
        assert!(migrated.onboarding_completed);
        assert_eq!(migrated.peers[0].platform, peer_platform);
        assert!(migrated.peers[0].inputs.is_empty());
    }
}

#[test]
fn migrate_single_monitor_settings_carries_forward_selection_and_peer_input() {
    let selected = monitor("shared");
    let mut old = SingleMonitorSettings::for_host(DestinationHost::Mac);
    old.shared_monitor = Some(SelectedMonitor {
        max_resolution: None,
        resolution_source: None,
        ..SelectedMonitor::from(&selected)
    });
    old.local_input = Some(DisplayInput::new(15).unwrap());
    old.supported_inputs = Some(vec![
        DisplayInput::new(15).unwrap(),
        DisplayInput::new(17).unwrap(),
    ]);
    old.peers = vec![SingleMonitorHostRoute {
        id: "peer".to_owned(),
        name: "Peer computer".to_owned(),
        platform: DestinationHost::Windows,
        address: "192.168.1.20".to_owned(),
        port: DEFAULT_AGENT_PORT,
        mac_address: String::new(),
        input: Some(DisplayInput::new(17).unwrap()),
    }];

    let migrated = migrate_single_monitor_settings(old, true);

    assert_eq!(migrated.shared_monitors.len(), 1);
    let migrated_selection = &migrated.shared_monitors[0];
    assert!(migrated_selection
        .fingerprint
        .matches_exactly(&selected.fingerprint));
    assert_eq!(migrated_selection.local_input.unwrap().value(), 15);
    assert_eq!(
        migrated_selection
            .supported_inputs
            .as_ref()
            .unwrap()
            .iter()
            .map(|input| input.value())
            .collect::<Vec<_>>(),
        vec![15, 17]
    );
    assert_eq!(
        migrated.peers[0]
            .input_for(&selected.fingerprint)
            .unwrap()
            .value(),
        17
    );
}

#[test]
fn selects_and_persists_the_only_controllable_monitor() {
    let external = monitor("external");
    let mut internal = monitor("internal");
    internal.built_in = true;
    let uncontrollable = monitor("uncontrollable");
    let controller = SelectionController {
        monitors: vec![internal, uncontrollable, external.clone()],
        controllable: HashSet::from(["internal".to_owned(), external.id.as_str().to_owned()]),
    };
    let inventory = monitor_inventory(&controller).unwrap();
    assert_eq!(inventory.detected.len(), 3);
    assert_eq!(inventory.controllable.len(), 2);
    let mut settings = AppSettings::default();

    let changes = reconcile_monitor_selection(&mut settings, &inventory.controllable);

    assert_eq!(
        changes,
        vec![MonitorSelectionChange::SelectedOnlyMonitor {
            name: "external".to_owned()
        }]
    );
    assert_eq!(
        settings.shared_monitors,
        vec![SelectedMonitor::from(&external)]
    );
}

#[test]
fn selected_monitor_records_current_input_and_capability_values_without_writes() {
    let external = monitor("external");
    let controller = SelectionController {
        monitors: vec![external.clone()],
        controllable: HashSet::from([external.id.as_str().to_owned()]),
    };
    let mut selected = SelectedMonitor::from(&external);

    refresh_selected_input_data(&controller, &external, &mut selected).unwrap();

    assert_eq!(selected.local_input.unwrap().value(), 0x0f);
    assert_eq!(
        selected
            .supported_inputs
            .unwrap()
            .iter()
            .map(|input| input.value())
            .collect::<Vec<_>>(),
        vec![0x0f, 0x11, 0x1b]
    );
    assert!(!selected.vendor_indexed_inputs);
}

/// Mimics an MStar-style display: capabilities advertise MCCS codes it
/// never honours, while the live value and range use a private index.
struct VendorIndexedController {
    maximum: Option<u32>,
}

impl MonitorControl for VendorIndexedController {
    fn enumerate(&self) -> Result<Vec<MonitorDescriptor>, DisplayMuxError> {
        Ok(Vec::new())
    }

    fn read_input(
        &self,
        _monitor: &MonitorId,
    ) -> Result<DisplayInput, DisplayMuxError> {
        DisplayInput::new(0x08)
    }

    fn supported_inputs(
        &self,
        _monitor: &MonitorId,
    ) -> Result<Vec<DisplayInput>, DisplayMuxError> {
        Ok(vec![
            DisplayInput::new(0x0f).unwrap(),
            DisplayInput::new(0x11).unwrap(),
        ])
    }

    fn input_value_maximum(
        &self,
        _monitor: &MonitorId,
    ) -> Result<Option<u32>, DisplayMuxError> {
        Ok(self.maximum)
    }

    fn write_input(
        &self,
        _monitor: &MonitorId,
        _input: DisplayInput,
    ) -> Result<(), DisplayMuxError> {
        unreachable!("selection tests never write an input")
    }
}

#[test]
fn capabilities_that_omit_the_active_input_fall_back_to_the_private_index_range() {
    let external = monitor("external");
    let mut selected = SelectedMonitor::from(&external);

    refresh_selected_input_data(
        &VendorIndexedController {
            maximum: Some(0x0e),
        },
        &external,
        &mut selected,
    )
    .unwrap();

    assert_eq!(selected.local_input.unwrap().value(), 0x08);
    assert!(selected.vendor_indexed_inputs);
    assert_eq!(
        selected
            .supported_inputs
            .unwrap()
            .iter()
            .map(|input| input.value())
            .collect::<Vec<_>>(),
        (1..=0x0e).collect::<Vec<_>>()
    );
}

#[test]
fn capabilities_that_omit_the_active_input_without_a_range_use_the_common_list() {
    let external = monitor("external");
    let mut selected = SelectedMonitor::from(&external);

    refresh_selected_input_data(
        &VendorIndexedController { maximum: None },
        &external,
        &mut selected,
    )
    .unwrap();

    assert_eq!(selected.supported_inputs, None);
    assert!(!selected.vendor_indexed_inputs);
}

#[test]
fn vendor_index_inputs_always_include_the_active_value() {
    let current = DisplayInput::new(0x08).unwrap();
    let values = vendor_index_inputs(0x05, current)
        .iter()
        .map(|input| input.value())
        .collect::<Vec<_>>();
    assert_eq!(values, (1..=0x08).collect::<Vec<_>>());
}

#[test]
fn vendor_indexed_inputs_are_labelled_by_index_not_mccs_name() {
    let seven = DisplayInput::new(0x07).unwrap();
    assert!(input_label(EN, true, seven).ends_with(" 7"));
    assert!(!input_label(EN, false, seven).ends_with(" 7"));
}

#[test]
fn common_input_names_include_vga_dvi_dp_hdmi_and_type_c_without_codes() {
    let inputs = common_input_sources();
    for value in [0x01, 0x03, 0x0f, 0x11, 0x1b] {
        assert!(inputs.iter().any(|input| input.value() == value));
    }
    assert_eq!(
        localized_input_name(EN, DisplayInput::new(0x01).unwrap()),
        "VGA"
    );
    assert_eq!(
        localized_input_name(EN, DisplayInput::new(0x03).unwrap()),
        "DVI"
    );
    assert_eq!(localized_input_name(EN, DisplayInput::new(0x0f).unwrap()), "DP");
    assert_eq!(
        localized_input_name(EN, DisplayInput::new(0x1b).unwrap()),
        "Type-C"
    );
    assert!(!localized_input_name(EN, DisplayInput::new(0x11).unwrap()).contains("0x"));
}

#[test]
fn verified_peer_route_is_applied_only_for_the_same_monitor_and_free_port() {
    let selected = monitor("shared");
    let mut settings = AppSettings {
        shared_monitors: vec![SelectedMonitor {
            local_input: DisplayInput::new(0x0f).ok(),
            supported_inputs: Some(vec![
                DisplayInput::new(0x0f).unwrap(),
                DisplayInput::new(0x11).unwrap(),
                DisplayInput::new(0x12).unwrap(),
            ]),
            ..SelectedMonitor::from(&selected)
        }],
        ..AppSettings::default()
    };
    settings.peers.push(HostRoute {
        id: "peer".to_owned(),
        name: "Peer".to_owned(),
        platform: DestinationHost::Mac,
        address: "192.168.1.20".to_owned(),
        port: DEFAULT_AGENT_PORT,
        mac_address: String::new(),
        inputs: Vec::new(),
    });

    assert_eq!(
        apply_verified_peer_route(
            &mut settings,
            "peer",
            AgentDisplayRoute {
                monitor: selected.fingerprint.clone(),
                input: DisplayInput::new(0x11).unwrap(),
                confirmed: false,
            },
        ),
        PeerRouteOutcome::Applied
    );
    assert_eq!(
        settings.peers[0]
            .input_for(&selected.fingerprint)
            .unwrap()
            .value(),
        0x11
    );

    settings.peers[0].set_input_for(&selected.fingerprint, None);
    assert_eq!(
        apply_verified_peer_route(
            &mut settings,
            "peer",
            AgentDisplayRoute {
                monitor: monitor("different").fingerprint,
                input: DisplayInput::new(0x12).unwrap(),
                confirmed: false,
            },
        ),
        PeerRouteOutcome::UnknownMonitor
    );
    assert!(settings.peers[0].input_for(&selected.fingerprint).is_none());

    assert_eq!(
        apply_verified_peer_route(
            &mut settings,
            "peer",
            AgentDisplayRoute {
                monitor: selected.fingerprint.clone(),
                input: DisplayInput::new(0x0f).unwrap(),
                confirmed: false,
            },
        ),
        PeerRouteOutcome::Taken
    );
    assert!(settings.peers[0].input_for(&selected.fingerprint).is_none());
}

/// A host that is off screen reads whichever host *is* on screen, so its
/// report must not overwrite an input the user already has set.
#[test]
fn an_unconfirmed_report_keeps_the_input_a_peer_already_has() {
    let display = monitor("display");
    let mut settings = AppSettings {
        shared_monitors: vec![SelectedMonitor {
            supported_inputs: Some(vec![
                DisplayInput::new(0x0f).unwrap(),
                DisplayInput::new(0x11).unwrap(),
            ]),
            ..SelectedMonitor::from(&display)
        }],
        ..AppSettings::default()
    };
    settings.peers.push(peer_route("peer"));
    settings.peers[0].set_input_for(&display.fingerprint, DisplayInput::new(0x11).ok());

    assert_eq!(
        apply_verified_peer_route(
            &mut settings,
            "peer",
            AgentDisplayRoute {
                monitor: display.fingerprint.clone(),
                input: DisplayInput::new(0x0f).unwrap(),
                confirmed: false,
            },
        ),
        PeerRouteOutcome::Kept
    );
    assert_eq!(
        settings.peers[0]
            .input_for(&display.fingerprint)
            .unwrap()
            .value(),
        0x11
    );
}

/// A host that is on screen when it reads the input can only be reading
/// its own port, so it corrects a wrong value the user picked earlier.
#[test]
fn a_confirmed_report_corrects_the_input_a_peer_already_has() {
    let display = monitor("display");
    let mut settings = AppSettings {
        shared_monitors: vec![SelectedMonitor {
            supported_inputs: Some(vec![
                DisplayInput::new(0x0f).unwrap(),
                DisplayInput::new(0x11).unwrap(),
            ]),
            ..SelectedMonitor::from(&display)
        }],
        ..AppSettings::default()
    };
    settings.peers.push(peer_route("peer"));
    settings.peers[0].set_input_for(&display.fingerprint, DisplayInput::new(0x11).ok());

    assert_eq!(
        apply_verified_peer_route(
            &mut settings,
            "peer",
            AgentDisplayRoute {
                monitor: display.fingerprint.clone(),
                input: DisplayInput::new(0x0f).unwrap(),
                confirmed: true,
            },
        ),
        PeerRouteOutcome::Applied
    );
    assert_eq!(
        settings.peers[0]
            .input_for(&display.fingerprint)
            .unwrap()
            .value(),
        0x0f
    );
}

/// Re-reporting the value a peer already has is not a change to save.
#[test]
fn re_reporting_the_same_input_changes_nothing() {
    let display = monitor("display");
    let mut settings = AppSettings {
        shared_monitors: vec![SelectedMonitor {
            supported_inputs: Some(vec![DisplayInput::new(0x0f).unwrap()]),
            ..SelectedMonitor::from(&display)
        }],
        ..AppSettings::default()
    };
    settings.peers.push(peer_route("peer"));
    settings.peers[0].set_input_for(&display.fingerprint, DisplayInput::new(0x0f).ok());

    assert_eq!(
        apply_verified_peer_route(
            &mut settings,
            "peer",
            AgentDisplayRoute {
                monitor: display.fingerprint.clone(),
                input: DisplayInput::new(0x0f).unwrap(),
                confirmed: true,
            },
        ),
        PeerRouteOutcome::Unchanged
    );
}

/// A display this host does not offer cannot be assigned, however sure
/// the reporting host is.
#[test]
fn a_confirmed_report_of_an_unsupported_input_is_rejected() {
    let display = monitor("display");
    let mut settings = AppSettings {
        shared_monitors: vec![SelectedMonitor {
            supported_inputs: Some(vec![DisplayInput::new(0x0f).unwrap()]),
            ..SelectedMonitor::from(&display)
        }],
        ..AppSettings::default()
    };
    settings.peers.push(peer_route("peer"));

    assert_eq!(
        apply_verified_peer_route(
            &mut settings,
            "peer",
            AgentDisplayRoute {
                monitor: display.fingerprint.clone(),
                input: DisplayInput::new(0x11).unwrap(),
                confirmed: true,
            },
        ),
        PeerRouteOutcome::Unsupported
    );
    assert!(settings.peers[0].input_for(&display.fingerprint).is_none());
}

#[test]
fn a_display_never_switched_away_still_counts_as_showing_this_host() {
    let display = monitor("display");
    let mut selected = SelectedMonitor::from(&display);

    assert!(shows_this_host(&selected));

    selected.active_route = Some("local".to_owned());
    assert!(shows_this_host(&selected));

    selected.active_route = Some("peer".to_owned());
    assert!(!shows_this_host(&selected));
}

fn peer_route(id: &str) -> HostRoute {
    HostRoute {
        id: id.to_owned(),
        name: "Peer".to_owned(),
        platform: DestinationHost::Mac,
        address: "192.168.1.20".to_owned(),
        port: DEFAULT_AGENT_PORT,
        mac_address: String::new(),
        inputs: Vec::new(),
    }
}

#[test]
fn verified_peer_route_for_one_monitor_never_leaks_into_another() {
    let monitor_a = monitor("monitor-a");
    let monitor_b = monitor("monitor-b");
    let mut settings = AppSettings {
        shared_monitors: vec![
            SelectedMonitor {
                supported_inputs: Some(vec![DisplayInput::new(0x0f).unwrap()]),
                ..SelectedMonitor::from(&monitor_a)
            },
            SelectedMonitor {
                supported_inputs: Some(vec![DisplayInput::new(0x0f).unwrap()]),
                ..SelectedMonitor::from(&monitor_b)
            },
        ],
        ..AppSettings::default()
    };
    settings.peers.push(HostRoute {
        id: "peer".to_owned(),
        name: "Peer".to_owned(),
        platform: DestinationHost::Mac,
        address: "192.168.1.20".to_owned(),
        port: DEFAULT_AGENT_PORT,
        mac_address: String::new(),
        inputs: Vec::new(),
    });

    assert_eq!(
        apply_verified_peer_route(
            &mut settings,
            "peer",
            AgentDisplayRoute {
                monitor: monitor_b.fingerprint.clone(),
                input: DisplayInput::new(0x0f).unwrap(),
                confirmed: false,
            },
        ),
        PeerRouteOutcome::Applied
    );

    assert!(settings.peers[0]
        .input_for(&monitor_a.fingerprint)
        .is_none());
    assert_eq!(
        settings.peers[0]
            .input_for(&monitor_b.fingerprint)
            .unwrap()
            .value(),
        0x0f
    );
}

#[test]
fn set_active_route_updates_the_matching_monitor_only() {
    let monitor_a = monitor("monitor-a");
    let monitor_b = monitor("monitor-b");
    let mut settings = AppSettings {
        shared_monitors: vec![
            SelectedMonitor::from(&monitor_a),
            SelectedMonitor::from(&monitor_b),
        ],
        ..AppSettings::default()
    };

    assert!(set_active_route(
        &mut settings,
        &monitor_b.fingerprint,
        "peer",
        SETTLED_MS
    ));

    assert_eq!(settings.shared_monitors[0].active_route, None);
    assert_eq!(
        settings.shared_monitors[1].active_route,
        Some("peer".to_owned())
    );
}

#[test]
fn set_active_route_is_a_noop_for_an_unselected_monitor() {
    let selected = monitor("shared");
    let missing = monitor("missing");
    let mut settings = AppSettings {
        shared_monitors: vec![SelectedMonitor::from(&selected)],
        ..AppSettings::default()
    };

    assert!(!set_active_route(
        &mut settings,
        &missing.fingerprint,
        "peer",
        SETTLED_MS
    ));
    assert_eq!(settings.shared_monitors[0].active_route, None);
}

fn peer_using_input(id: &str, monitor: &MonitorDescriptor, input: u32) -> HostRoute {
    HostRoute {
        id: id.to_owned(),
        name: id.to_owned(),
        platform: DestinationHost::Windows,
        address: "192.168.1.30".to_owned(),
        port: DEFAULT_AGENT_PORT,
        mac_address: String::new(),
        inputs: vec![MonitorInputAssignment {
            monitor: monitor.fingerprint.clone(),
            input: DisplayInput::new(input).unwrap(),
        }],
    }
}

fn routed_settings(
    shared: &MonitorDescriptor,
    local_input: u32,
    peer_input: u32,
    active_route: Option<&str>,
) -> AppSettings {
    AppSettings {
        shared_monitors: vec![SelectedMonitor {
            local_input: DisplayInput::new(local_input).ok(),
            active_route: active_route.map(str::to_owned),
            ..SelectedMonitor::from(shared)
        }],
        peers: vec![peer_using_input("peer", shared, peer_input)],
        ..AppSettings::default()
    }
}

fn inventory_reading(monitor: &MonitorDescriptor, input: u32) -> MonitorInventory {
    MonitorInventory {
        detected: vec![monitor.clone()],
        controllable: vec![monitor.clone()],
        current_inputs: vec![CurrentInput {
            id: monitor.id.clone(),
            input: DisplayInput::new(input).unwrap(),
        }],
    }
}

#[test]
fn monitor_inventory_keeps_the_input_each_controllable_display_reported() {
    let external = monitor("external");
    let unreachable = monitor("unreachable");
    let controller = SelectionController {
        monitors: vec![unreachable.clone(), external.clone()],
        controllable: HashSet::from([external.id.as_str().to_owned()]),
    };

    let inventory = monitor_inventory(&controller).unwrap();

    assert_eq!(
        inventory.reported_input(&external.id),
        Some(DisplayInput::new(0x0f).unwrap())
    );
    assert!(inventory.reported_input(&unreachable.id).is_none());
}

#[test]
fn live_input_moves_active_route_to_the_peer_that_owns_it() {
    let shared = monitor("shared");
    let mut settings = routed_settings(&shared, 0x08, 0x07, Some("local"));

    let changed = sync_active_routes_with_live_inputs(
        &mut settings,
        &inventory_reading(&shared, 0x07),
        SETTLED_MS,
    );

    assert!(changed);
    assert_eq!(
        settings.shared_monitors[0].active_route.as_deref(),
        Some("peer")
    );
}

#[test]
fn live_input_moves_active_route_back_to_this_host_after_an_external_switch() {
    let shared = monitor("shared");
    let mut settings = routed_settings(&shared, 0x08, 0x07, Some("peer"));

    let changed = sync_active_routes_with_live_inputs(
        &mut settings,
        &inventory_reading(&shared, 0x08),
        SETTLED_MS,
    );

    assert!(changed);
    assert_eq!(
        settings.shared_monitors[0].active_route.as_deref(),
        Some("local")
    );
}

#[test]
fn live_input_matching_no_route_keeps_the_last_confirmed_route() {
    let shared = monitor("shared");
    let mut settings = routed_settings(&shared, 0x08, 0x07, Some("peer"));

    let changed = sync_active_routes_with_live_inputs(
        &mut settings,
        &inventory_reading(&shared, 0x03),
        SETTLED_MS,
    );

    assert!(!changed);
    assert_eq!(
        settings.shared_monitors[0].active_route.as_deref(),
        Some("peer")
    );
}

#[test]
fn live_input_shared_by_several_routes_keeps_the_last_confirmed_route() {
    let shared = monitor("shared");
    let mut settings = routed_settings(&shared, 0x07, 0x07, Some("peer"));

    let changed = sync_active_routes_with_live_inputs(
        &mut settings,
        &inventory_reading(&shared, 0x07),
        SETTLED_MS,
    );

    assert!(!changed);
    assert_eq!(
        settings.shared_monitors[0].active_route.as_deref(),
        Some("peer")
    );
}

#[test]
fn unreadable_display_keeps_the_last_confirmed_route() {
    let shared = monitor("shared");
    let mut settings = routed_settings(&shared, 0x08, 0x07, Some("peer"));
    let inventory = MonitorInventory {
        detected: vec![shared.clone()],
        controllable: Vec::new(),
        current_inputs: Vec::new(),
    };

    assert!(!sync_active_routes_with_live_inputs(
        &mut settings,
        &inventory,
        SETTLED_MS
    ));
    assert_eq!(
        settings.shared_monitors[0].active_route.as_deref(),
        Some("peer")
    );
}

#[test]
fn peer_notice_marks_this_host_active_when_it_names_the_local_input() {
    let shared = monitor("shared");
    let mut settings = routed_settings(&shared, 0x08, 0x07, Some("peer"));

    let changed = apply_active_input_notice(
        &mut settings,
        &shared.fingerprint,
        DisplayInput::new(0x08).unwrap(),
        SETTLED_MS,
    );

    assert!(changed);
    assert_eq!(
        settings.shared_monitors[0].active_route.as_deref(),
        Some("local")
    );
}

#[test]
fn peer_notice_marks_the_peer_that_owns_the_input_active() {
    let shared = monitor("shared");
    let mut settings = routed_settings(&shared, 0x08, 0x07, Some("local"));

    let changed = apply_active_input_notice(
        &mut settings,
        &shared.fingerprint,
        DisplayInput::new(0x07).unwrap(),
        SETTLED_MS,
    );

    assert!(changed);
    assert_eq!(
        settings.shared_monitors[0].active_route.as_deref(),
        Some("peer")
    );
}

#[test]
fn peer_notice_for_an_unknown_display_or_input_changes_nothing() {
    let shared = monitor("shared");
    let other = monitor("other");
    let mut settings = routed_settings(&shared, 0x08, 0x07, Some("peer"));

    assert!(!apply_active_input_notice(
        &mut settings,
        &other.fingerprint,
        DisplayInput::new(0x08).unwrap(),
        SETTLED_MS
    ));
    assert!(!apply_active_input_notice(
        &mut settings,
        &shared.fingerprint,
        DisplayInput::new(0x03).unwrap(),
        SETTLED_MS
    ));
    assert_eq!(
        settings.shared_monitors[0].active_route.as_deref(),
        Some("peer")
    );
}

/// How a paired host can describe `display`: same model, but it read a
/// different serial number (EDID text on Windows, a number or none on macOS).
fn as_seen_by_peer(display: &MonitorDescriptor) -> MonitorFingerprint {
    MonitorFingerprint {
        serial_number: Some("EDID-TEXT-SERIAL".to_owned()),
        ..display.fingerprint.clone()
    }
}

#[test]
fn peer_notice_matches_the_display_when_hosts_read_different_serials() {
    let shared = monitor("shared");
    let mut settings = routed_settings(&shared, 0x08, 0x07, Some("peer"));

    let changed = apply_active_input_notice(
        &mut settings,
        &as_seen_by_peer(&shared),
        DisplayInput::new(0x08).unwrap(),
        SETTLED_MS,
    );

    assert!(changed);
    assert_eq!(
        settings.shared_monitors[0].active_route.as_deref(),
        Some("local")
    );
}

#[test]
fn peer_display_is_not_guessed_between_two_shared_displays_of_the_same_model() {
    let left = monitor("twin");
    let right = MonitorDescriptor {
        id: MonitorId::new("twin-right"),
        fingerprint: MonitorFingerprint {
            serial_number: Some("serial-twin-right".to_owned()),
            ..left.fingerprint.clone()
        },
        ..left.clone()
    };
    let settings = AppSettings {
        shared_monitors: vec![SelectedMonitor::from(&left), SelectedMonitor::from(&right)],
        ..AppSettings::default()
    };

    assert_eq!(
        shared_monitor_index_for_peer(
            &settings.shared_monitors,
            &settings.monitor_identity_links,
            &as_seen_by_peer(&left)
        ),
        None
    );
    assert_eq!(
        shared_monitor_index_for_peer(
            &settings.shared_monitors,
            &settings.monitor_identity_links,
            &right.fingerprint
        ),
        Some(1)
    );
}

#[test]
fn display_state_explains_an_unreadable_display_that_another_host_is_showing() {
    let peer = Some("2cf05de0c029-windows");

    assert_eq!(shared_display_state(true, peer), SharedDisplayState::Ready);
    assert_eq!(
        shared_display_state(false, peer),
        SharedDisplayState::OnOtherHost
    );
    assert_eq!(
        shared_display_state(false, Some("local")),
        SharedDisplayState::Unavailable
    );
    assert_eq!(
        shared_display_state(false, None),
        SharedDisplayState::Unavailable
    );
}

#[test]
fn newer_host_order_from_a_peer_replaces_the_saved_order() {
    let mut settings = AppSettings {
        host_order: vec!["mac-a".to_owned(), "pc-b".to_owned()],
        host_order_updated_at_ms: 100,
        ..AppSettings::default()
    };

    let changed = apply_host_order_notice(
        &mut settings,
        vec!["pc-b".to_owned(), "mac-a".to_owned()],
        200,
    );

    assert!(changed);
    assert_eq!(settings.host_order, vec!["pc-b", "mac-a"]);
    assert_eq!(settings.host_order_updated_at_ms, 200);
}

#[test]
fn a_peer_needs_our_host_order_only_when_ours_is_newer() {
    let settings = AppSettings {
        host_order: vec!["mac-a".to_owned(), "pc-b".to_owned()],
        host_order_updated_at_ms: 200,
        ..AppSettings::default()
    };

    assert!(host_order_is_newer_than(&settings, 0));
    assert!(host_order_is_newer_than(&settings, 199));
    assert!(!host_order_is_newer_than(&settings, 200));
    assert!(!host_order_is_newer_than(&AppSettings::default(), 0));
}

#[test]
fn stale_or_malformed_host_order_from_a_peer_is_ignored() {
    let saved = vec!["mac-a".to_owned(), "pc-b".to_owned()];
    let mut settings = AppSettings {
        host_order: saved.clone(),
        host_order_updated_at_ms: 100,
        ..AppSettings::default()
    };

    assert!(!apply_host_order_notice(
        &mut settings,
        vec!["pc-b".to_owned()],
        100
    ));
    assert!(!apply_host_order_notice(
        &mut settings,
        vec!["pc-b".to_owned(), "pc-b".to_owned()],
        300
    ));
    assert_eq!(settings.host_order, saved);
    assert_eq!(settings.host_order_updated_at_ms, 100);
}

/// A time well past any settle period, for tests about other behaviour.
const SETTLED_MS: u64 = ACTIVE_ROUTE_SETTLE_MS * 100;

#[test]
fn live_input_right_after_a_confirmed_switch_does_not_revert_it() {
    let shared = monitor("shared");
    let mut settings = routed_settings(&shared, 0x08, 0x07, None);
    let switched_at = SETTLED_MS;
    assert!(set_active_route(
        &mut settings,
        &shared.fingerprint,
        "peer",
        switched_at
    ));
    // The display still reports the old input while it changes over.
    let stale = inventory_reading(&shared, 0x08);

    let changed_while_settling = sync_active_routes_with_live_inputs(
        &mut settings,
        &stale,
        switched_at + ACTIVE_ROUTE_SETTLE_MS - 1,
    );
    assert!(!changed_while_settling);
    assert_eq!(
        settings.shared_monitors[0].active_route.as_deref(),
        Some("peer")
    );

    let changed_after_settling = sync_active_routes_with_live_inputs(
        &mut settings,
        &stale,
        switched_at + ACTIVE_ROUTE_SETTLE_MS,
    );
    assert!(changed_after_settling);
    assert_eq!(
        settings.shared_monitors[0].active_route.as_deref(),
        Some("local")
    );
}

#[test]
fn peer_notice_starts_the_settle_period_even_when_the_route_already_matches() {
    let shared = monitor("shared");
    let mut settings = routed_settings(&shared, 0x08, 0x07, Some("peer"));

    let changed = apply_active_input_notice(
        &mut settings,
        &shared.fingerprint,
        DisplayInput::new(0x07).unwrap(),
        SETTLED_MS,
    );

    assert!(!changed);
    assert_eq!(
        settings.shared_monitors[0].active_route_confirmed_at_ms,
        SETTLED_MS
    );
    assert!(!sync_active_routes_with_live_inputs(
        &mut settings,
        &inventory_reading(&shared, 0x08),
        SETTLED_MS + 1
    ));
}

#[test]
fn unset_active_route_already_means_this_host() {
    let shared = monitor("shared");
    let mut settings = routed_settings(&shared, 0x08, 0x07, None);

    assert!(!sync_active_routes_with_live_inputs(
        &mut settings,
        &inventory_reading(&shared, 0x08),
        SETTLED_MS
    ));
    assert_eq!(settings.shared_monitors[0].active_route, None);
}

#[test]
fn settings_reject_duplicate_and_unadvertised_input_assignments() {
    let selected = monitor("shared");
    let mut settings = AppSettings {
        shared_monitors: vec![SelectedMonitor {
            local_input: DisplayInput::new(0x0f).ok(),
            supported_inputs: Some(vec![
                DisplayInput::new(0x0f).unwrap(),
                DisplayInput::new(0x11).unwrap(),
            ]),
            ..SelectedMonitor::from(&selected)
        }],
        ..AppSettings::default()
    };
    settings.peers.push(HostRoute {
        id: "peer".to_owned(),
        name: "Peer".to_owned(),
        platform: DestinationHost::Mac,
        address: "192.168.1.20".to_owned(),
        port: DEFAULT_AGENT_PORT,
        mac_address: String::new(),
        inputs: Vec::new(),
    });
    settings.peers[0].set_input_for(&selected.fingerprint, DisplayInput::new(0x0f).ok());
    assert!(validate_settings(EN, &settings, &checks_for(&settings)).is_err());

    settings.peers[0].set_input_for(&selected.fingerprint, DisplayInput::new(0x1b).ok());
    assert!(validate_settings(EN, &settings, &checks_for(&settings)).is_err());
}

#[test]
fn the_same_input_value_may_be_assigned_to_different_monitors() {
    let monitor_a = monitor("monitor-a");
    let monitor_b = monitor("monitor-b");
    let mut settings = AppSettings {
        shared_monitors: vec![
            SelectedMonitor::from(&monitor_a),
            SelectedMonitor::from(&monitor_b),
        ],
        ..AppSettings::default()
    };
    settings.peers.push(HostRoute {
        id: "peer".to_owned(),
        name: "Peer".to_owned(),
        platform: DestinationHost::Mac,
        address: "192.168.1.20".to_owned(),
        port: DEFAULT_AGENT_PORT,
        mac_address: String::new(),
        inputs: Vec::new(),
    });
    settings.peers[0].set_input_for(&monitor_a.fingerprint, DisplayInput::new(0x0f).ok());
    settings.peers[0].set_input_for(&monitor_b.fingerprint, DisplayInput::new(0x0f).ok());

    assert!(validate_settings(EN, &settings, &checks_for(&settings)).is_ok());
}

#[test]
fn emptying_the_shared_list_on_purpose_is_not_undone_by_auto_select() {
    // With one controllable display, removing it emptied the list and the
    // next refresh auto-selected it straight back, so it could never be
    // removed at all.
    let only = monitor("only");
    let mut settings = AppSettings {
        shared_monitors: Vec::new(),
        shared_monitors_chosen: true,
        ..AppSettings::default()
    };

    let changes = reconcile_monitor_selection(&mut settings, std::slice::from_ref(&only));

    assert!(changes.is_empty());
    assert!(settings.shared_monitors.is_empty());
}

#[test]
fn auto_select_still_runs_for_a_computer_that_has_never_chosen() {
    let only = monitor("only");
    let mut settings = AppSettings::default();

    let changes = reconcile_monitor_selection(&mut settings, std::slice::from_ref(&only));

    assert_eq!(
        changes,
        vec![MonitorSelectionChange::SelectedOnlyMonitor {
            name: "only".to_owned()
        }]
    );
    assert_eq!(settings.shared_monitors.len(), 1);
    assert!(
        settings.shared_monitors_chosen,
        "auto-select decides the list, so it must not run twice"
    );
}

fn configured_settings() -> AppSettings {
    let shared = monitor("shared");
    AppSettings {
        shared_monitors: vec![SelectedMonitor::from(&shared)],
        shared_monitors_chosen: true,
        monitor_identity_links: monitor_identity::with_link(
            &[],
            &MonitorFingerprint::new("MSI", "7CF0", None::<String>),
            Some(&MonitorFingerprint::new("MSI", "3CF0", None::<String>)),
            10,
        ),
        input_labels: vec![InputLabel {
            monitor: shared.fingerprint.clone(),
            input: DisplayInput::new(8).unwrap(),
            label: "USB-C".to_owned(),
            updated_at_ms: 10,
        }],
        peers: vec![peer_using_input("ITX-PC", &shared, 7)],
        shared_key: "pairing-password".to_owned(),
        host_switcher_shortcut: "Alt+Q".to_owned(),
        local_host_id: "kept-id".to_owned(),
        ..AppSettings::default()
    }
}

#[test]
fn a_reset_list_is_not_refilled_by_auto_select() {
    // Auto-select runs for a computer that has never chosen. A reset is a
    // choice, made by someone who is present, so the list stays empty
    // instead of the display reappearing on the next refresh.
    for scope in [ResetScope::Displays, ResetScope::Everything] {
        let mut settings = settings_after_reset(configured_settings(), scope);
        assert!(settings.shared_monitors.is_empty());

        let only = monitor("only");
        let changes = reconcile_monitor_selection(&mut settings, std::slice::from_ref(&only));

        assert!(changes.is_empty(), "{scope:?} refilled the list");
        assert!(
            settings.shared_monitors.is_empty(),
            "{scope:?} refilled the list"
        );
    }
}

#[test]
fn resetting_displays_keeps_the_pairing() {
    let settings = settings_after_reset(configured_settings(), ResetScope::Displays);

    assert!(settings.shared_monitors.is_empty());
    assert!(
        settings.shared_monitors_chosen,
        "emptied on purpose, so auto-select must not refill it"
    );
    assert!(settings.monitor_identity_links.is_empty());
    assert!(settings.input_labels.is_empty());
    assert_eq!(settings.peers.len(), 1, "the paired host survives");
    assert!(
        settings.peers[0].inputs.is_empty(),
        "its inputs named displays that are gone"
    );
    assert_eq!(settings.shared_key, "pairing-password");
    assert_eq!(settings.host_switcher_shortcut, "Alt+Q");
}

#[test]
fn resetting_everything_keeps_only_this_computer_identity() {
    let settings = settings_after_reset(configured_settings(), ResetScope::Everything);

    assert_eq!(
        settings.local_host_id, "kept-id",
        "paired hosts name this computer by its id, so a local reset must not change it"
    );
    assert!(settings.shared_monitors.is_empty());
    assert!(settings.peers.is_empty());
    assert!(settings.shared_key.is_empty());
    assert!(settings.monitor_identity_links.is_empty());
    assert_eq!(
        settings.host_switcher_shortcut,
        AppSettings::default().host_switcher_shortcut
    );
}

#[test]
fn a_withdrawn_claim_is_not_shown_as_one() {
    let at_4k = MonitorFingerprint::new("MSI", "3CF0", None::<String>);
    let at_1080 = MonitorFingerprint::new("MSI", "7CF0", None::<String>);
    let links = monitor_identity::with_link(
        &monitor_identity::with_link(&[], &at_1080, Some(&at_4k), 10),
        &at_1080,
        None,
        20,
    );
    let settings = AppSettings {
        monitor_identity_links: links,
        ..AppSettings::default()
    };

    assert!(monitor_identity_claims(&settings).is_empty());
}

#[test]
fn a_claim_is_shown_with_keys_that_withdraw_it() {
    // Neither identity is shared or present here, which is exactly the
    // state a claim left behind by earlier testing sits in.
    let at_4k = MonitorFingerprint::new("MSI", "3CF0", None::<String>);
    let at_1080 = MonitorFingerprint::new("MSI", "7CF0", None::<String>);
    let settings = AppSettings {
        monitor_identity_links: monitor_identity::with_link(&[], &at_1080, Some(&at_4k), 10),
        ..AppSettings::default()
    };

    let claims = monitor_identity_claims(&settings);
    assert_eq!(claims.len(), 1);
    assert_eq!(claims[0].alias_key, monitor_key(&at_1080));
    assert_eq!(claims[0].primary_label, "MSI / 3CF0");
    assert_eq!(
        fingerprint_for_ui_id(
            EN,
            &settings,
            &claims[0].alias_key,
            Err::<SelectionController, _>(DisplayMuxError::UnsupportedPlatform)
        ),
        Ok(at_1080)
    );
}

#[test]
fn a_shared_display_is_named_by_its_own_key_so_it_can_be_removed_while_absent() {
    // Removal used to enumerate and fail when the display was not present,
    // which left exactly the displays a user wants to drop — asleep, on
    // another host, or reporting an identity this host no longer knows —
    // as the only ones that could not be dropped.
    let absent = monitor("disconnected");
    let settings = AppSettings {
        shared_monitors: vec![SelectedMonitor::from(&absent)],
        ..AppSettings::default()
    };

    let key = monitor_key(&absent.fingerprint);
    assert_eq!(
        find_shared_monitor(EN, &settings, &key).map(|selected| selected.fingerprint.clone()),
        Ok(absent.fingerprint)
    );
}

#[test]
fn a_selection_stored_under_an_alias_is_not_added_a_second_time() {
    // Guards the shape that produced three byte-identical entries: the
    // stored selection was the alias, so it failed to recognise itself.
    let at_4k = MonitorFingerprint::new("MSI", "3CF0", None::<String>);
    let at_1080 = MonitorFingerprint::new("MSI", "7CF0", None::<String>);
    let mut selected = SelectedMonitor::from(&monitor("shared"));
    selected.fingerprint = at_4k.clone();
    let mut present = monitor("shared");
    present.fingerprint = at_4k.clone();
    let links = monitor_identity::with_link(&[], &at_4k, Some(&at_1080), 10);

    assert!(
        is_selected_display(&links, &selected, &present),
        "a display stored under an alias must recognise itself"
    );
}

#[test]
fn a_merged_identity_is_recognised_as_the_shared_display_everywhere() {
    // Reconciling kept the selection but the dashboard still reported it as
    // missing, so the display read as "not found" right after a merge.
    let at_4k = MonitorFingerprint::new("MSI", "3CF0", None::<String>);
    let at_1080 = MonitorFingerprint::new("MSI", "7CF0", None::<String>);
    let mut selected = SelectedMonitor::from(&monitor("shared"));
    selected.fingerprint = at_1080.clone();
    let mut present = monitor("shared");
    present.fingerprint = at_4k.clone();
    let links = monitor_identity::with_link(&[], &at_4k, Some(&at_1080), 10);

    assert!(is_selected_display(&links, &selected, &present));
    assert!(!is_selected_display(
        &links,
        &selected,
        &monitor("somebody-else")
    ));
}

#[test]
fn a_merged_identity_keeps_the_shared_display_available() {
    // The MSI MPG 274U publishes MSI:3CF0 at 4K and MSI:7CF0 at 1080. Once
    // the user says they are one panel, the display stays usable in both.
    let at_4k = MonitorFingerprint::new("MSI", "3CF0", None::<String>);
    let at_1080 = MonitorFingerprint::new("MSI", "7CF0", None::<String>);
    let mut selected = SelectedMonitor::from(&monitor("shared"));
    selected.fingerprint = at_4k.clone();
    let mut present = monitor("shared");
    present.fingerprint = at_1080.clone();
    let mut settings = AppSettings {
        shared_monitors: vec![selected],
        monitor_identity_links: monitor_identity::with_link(&[], &at_1080, Some(&at_4k), 10),
        ..AppSettings::default()
    };

    let changes = reconcile_monitor_selection(&mut settings, std::slice::from_ref(&present));

    assert!(changes.is_empty());
    assert_eq!(
        settings.shared_monitors[0].fingerprint, at_4k,
        "the stored identity stays put so paired hosts keep naming the same display"
    );
}

#[test]
fn an_unmerged_identity_of_the_same_model_is_still_a_different_display() {
    let at_4k = MonitorFingerprint::new("MSI", "3CF0", None::<String>);
    let at_1080 = MonitorFingerprint::new("MSI", "7CF0", None::<String>);
    let mut selected = SelectedMonitor::from(&monitor("shared"));
    selected.fingerprint = at_4k;
    let mut present = monitor("shared");
    present.fingerprint = at_1080;
    let mut settings = AppSettings {
        shared_monitors: vec![selected.clone()],
        ..AppSettings::default()
    };

    let changes = reconcile_monitor_selection(&mut settings, std::slice::from_ref(&present));

    assert!(changes.is_empty());
    assert_eq!(settings.shared_monitors, vec![selected]);
}

#[test]
fn a_merged_identity_names_the_same_display_to_a_paired_host() {
    let at_4k = MonitorFingerprint::new("MSI", "3CF0", None::<String>);
    let at_1080 = MonitorFingerprint::new("MSI", "7CF0", None::<String>);
    let mut selected = SelectedMonitor::from(&monitor("shared"));
    selected.fingerprint = at_4k.clone();
    let monitors = [selected];
    let links = monitor_identity::with_link(&[], &at_1080, Some(&at_4k), 10);

    assert_eq!(
        shared_monitor_index_for_peer(&monitors, &links, &at_1080),
        Some(0)
    );
    assert_eq!(
        shared_monitor_index_for_peer(
            &monitors,
            &links,
            &MonitorFingerprint::new("ACR", "0725", Some("576726074".to_owned()))
        ),
        None
    );
}

#[test]
fn merging_moves_a_paired_host_input_onto_the_display_it_joins() {
    let at_4k = MonitorFingerprint::new("MSI", "3CF0", None::<String>);
    let at_1080 = MonitorFingerprint::new("MSI", "7CF0", None::<String>);
    let input = DisplayInput::new(7).unwrap();
    let mut peer = peer_using_input("ITX-PC", &monitor("shared"), 1);
    peer.inputs.clear();
    peer.set_input_for(&at_1080, Some(input));
    let mut settings = AppSettings {
        peers: vec![peer],
        ..AppSettings::default()
    };

    adopt_alias_settings(&mut settings, &at_1080, &at_4k, SETTLED_MS);

    assert_eq!(settings.peers[0].input_for(&at_4k), Some(input));
    assert_eq!(settings.peers[0].input_for(&at_1080), None);
}

#[test]
fn merging_never_overwrites_an_input_already_set_for_the_display_it_joins() {
    let at_4k = MonitorFingerprint::new("MSI", "3CF0", None::<String>);
    let at_1080 = MonitorFingerprint::new("MSI", "7CF0", None::<String>);
    let kept = DisplayInput::new(7).unwrap();
    let mut peer = peer_using_input("ITX-PC", &monitor("shared"), 1);
    peer.inputs.clear();
    peer.set_input_for(&at_4k, Some(kept));
    peer.set_input_for(&at_1080, Some(DisplayInput::new(8).unwrap()));
    let mut settings = AppSettings {
        peers: vec![peer],
        ..AppSettings::default()
    };

    adopt_alias_settings(&mut settings, &at_1080, &at_4k, SETTLED_MS);

    assert_eq!(settings.peers[0].input_for(&at_4k), Some(kept));
}

#[test]
fn a_selection_whose_serial_stops_being_readable_is_kept() {
    // A display re-enumerated after a mode switch can report the same model
    // with no serial at all (an unreadable EDID on macOS, an empty WMI
    // SerialNumberID on Windows). That is a failure to identify it, not
    // proof it is gone, so the user's selection has to survive it.
    let selected_monitor = monitor("shared");
    let mut reappeared = selected_monitor.clone();
    reappeared.fingerprint = MonitorFingerprint::new("ACM", "shared", None::<String>);
    let mut settings = AppSettings {
        shared_monitors: vec![SelectedMonitor::from(&selected_monitor)],
        ..AppSettings::default()
    };

    let changes = reconcile_monitor_selection(&mut settings, std::slice::from_ref(&reappeared));

    assert!(changes.is_empty());
    assert_eq!(
        settings.shared_monitors,
        vec![SelectedMonitor::from(&selected_monitor)],
        "the stored identity must not be rewritten from an unproven reading"
    );
}

#[test]
fn a_selection_that_cannot_be_identified_is_kept_rather_than_reassigned() {
    let previous = monitor("disconnected");
    let replacement = monitor("replacement");
    let mut settings = AppSettings {
        shared_monitors: vec![SelectedMonitor::from(&previous)],
        ..AppSettings::default()
    };

    let changes =
        reconcile_monitor_selection(&mut settings, std::slice::from_ref(&replacement));

    assert!(changes.is_empty());
    assert_eq!(
        settings.shared_monitors,
        vec![SelectedMonitor::from(&previous)],
        "an unidentified selection is never reassigned to a different monitor"
    );
}

#[test]
fn a_paired_host_input_note_names_this_host_shared_display_input() {
    let ours = MonitorFingerprint::new("MSI", "3CF0", None::<String>);
    let theirs = MonitorFingerprint::new("MSI", "3CF0", Some("PC-SERIAL".to_owned()));
    let mut selected = SelectedMonitor::from(&monitor("mpg"));
    selected.fingerprint = ours.clone();
    selected.vendor_indexed_inputs = true;
    let mut settings = AppSettings {
        shared_monitors: vec![selected.clone()],
        ..AppSettings::default()
    };
    let input = DisplayInput::new(8).unwrap();
    let notice = [InputLabel {
        monitor: theirs,
        input,
        label: "USB-C".to_owned(),
        updated_at_ms: 10,
    }];

    assert!(adopt_input_labels(&mut settings, &notice));
    assert!(!adopt_input_labels(&mut settings, &notice));

    assert_eq!(settings.input_labels[0].monitor, ours);
    let name = noted_input_label(EN, &settings, &selected, input);
    assert!(name.starts_with("USB-C"));
    assert!(name.contains(&input_label(EN, true, input)));
    assert_eq!(
        noted_input_label(EN, &settings, &selected, DisplayInput::new(7).unwrap()),
        input_label(EN, true, DisplayInput::new(7).unwrap())
    );
}

#[test]
fn keeps_a_missing_selection_that_a_paired_host_is_showing() {
    let switched_away = monitor("switched-away");
    let stays = monitor("stays");
    let mut selected = SelectedMonitor::from(&switched_away);
    selected.active_route = Some("peer-a".to_owned());
    let mut settings = AppSettings {
        shared_monitors: vec![selected.clone(), SelectedMonitor::from(&stays)],
        peers: vec![peer_using_input("peer-a", &switched_away, 0x0f)],
        ..AppSettings::default()
    };
    let monitors = [stays.clone()];

    let changes = reconcile_monitor_selection(&mut settings, &monitors);

    assert!(changes.is_empty());
    assert_eq!(
        settings.shared_monitors,
        vec![selected, SelectedMonitor::from(&stays)]
    );
}

#[test]
fn a_missing_selection_is_kept_even_when_its_active_host_is_no_longer_paired() {
    let disconnected = monitor("disconnected");
    let mut selected = SelectedMonitor::from(&disconnected);
    selected.active_route = Some("removed-peer".to_owned());
    let mut settings = AppSettings {
        shared_monitors: vec![selected.clone()],
        ..AppSettings::default()
    };

    let changes = reconcile_monitor_selection(&mut settings, &[]);

    assert!(changes.is_empty());
    assert_eq!(settings.shared_monitors, vec![selected]);
}

#[test]
fn never_guesses_between_multiple_controllable_monitors() {
    let mut settings = AppSettings::default();
    let monitors = [monitor("first"), monitor("second")];

    assert!(reconcile_monitor_selection(&mut settings, &monitors).is_empty());
    assert!(settings.shared_monitors.is_empty());
}

#[test]
fn missing_selection_is_kept_and_not_replaced_when_multiple_candidates_remain() {
    let disconnected = monitor("disconnected");
    let mut settings = AppSettings {
        shared_monitors: vec![SelectedMonitor::from(&disconnected)],
        ..AppSettings::default()
    };
    let monitors = [monitor("first"), monitor("second")];

    let changes = reconcile_monitor_selection(&mut settings, &monitors);

    assert!(changes.is_empty());
    assert_eq!(
        settings.shared_monitors,
        vec![SelectedMonitor::from(&disconnected)]
    );
}

#[test]
fn one_monitor_disappearing_does_not_affect_another_independently_selected_monitor() {
    let stays = monitor("stays");
    let disconnected = monitor("disconnected");
    let mut settings = AppSettings {
        shared_monitors: vec![
            SelectedMonitor::from(&stays),
            SelectedMonitor::from(&disconnected),
        ],
        ..AppSettings::default()
    };
    let monitors = [stays.clone()];

    let changes = reconcile_monitor_selection(&mut settings, &monitors);

    assert!(changes.is_empty());
    assert_eq!(
        settings.shared_monitors,
        vec![
            SelectedMonitor::from(&stays),
            SelectedMonitor::from(&disconnected),
        ]
    );
}

#[test]
fn auto_select_never_adds_a_new_monitor_once_one_is_already_selected() {
    let already_selected = monitor("already-selected");
    let mut settings = AppSettings {
        shared_monitors: vec![SelectedMonitor::from(&already_selected)],
        ..AppSettings::default()
    };
    let monitors = [already_selected.clone(), monitor("new-arrival")];

    let changes = reconcile_monitor_selection(&mut settings, &monitors);

    assert!(changes.is_empty());
    assert_eq!(
        settings.shared_monitors,
        vec![SelectedMonitor::from(&already_selected)]
    );
}

#[test]
fn metadata_refresh_for_one_selected_monitor_does_not_touch_another() {
    let mut refreshed = monitor("refreshed");
    let unaffected = monitor("unaffected");
    let mut settings = AppSettings {
        shared_monitors: vec![
            SelectedMonitor::from(&refreshed),
            SelectedMonitor::from(&unaffected),
        ],
        ..AppSettings::default()
    };
    refreshed.name = "renamed".to_owned();
    let monitors = [refreshed.clone(), unaffected.clone()];

    let changes = reconcile_monitor_selection(&mut settings, &monitors);

    assert_eq!(
        changes,
        vec![MonitorSelectionChange::RefreshedMetadata {
            name: "renamed".to_owned()
        }]
    );
    assert_eq!(settings.shared_monitors[0].name, "renamed");
    assert_eq!(
        settings.shared_monitors[1],
        SelectedMonitor::from(&unaffected)
    );
}

#[test]
fn plan_switch_input_targets_v2_peers_by_fingerprint() {
    let fingerprint = monitor("target").fingerprint;
    assert_eq!(
        plan_switch_input(EN, AGENT_PROTOCOL_VERSION, 1, &fingerprint),
        Ok(Some(fingerprint.clone()))
    );
    assert_eq!(
        plan_switch_input(EN, AGENT_PROTOCOL_VERSION, 3, &fingerprint),
        Ok(Some(fingerprint))
    );
}

#[test]
fn plan_switch_input_falls_back_to_legacy_shape_for_a_single_monitor() {
    let fingerprint = monitor("target").fingerprint;
    assert_eq!(plan_switch_input(EN, 0, 1, &fingerprint), Ok(None));
    assert_eq!(plan_switch_input(EN, 0, 0, &fingerprint), Ok(None));
}

#[test]
fn plan_switch_input_refuses_to_guess_for_an_old_peer_with_multiple_monitors() {
    let fingerprint = monitor("target").fingerprint;
    assert!(plan_switch_input(EN, 0, 2, &fingerprint).is_err());
    assert!(plan_switch_input(EN, AGENT_PROTOCOL_VERSION - 1, 2, &fingerprint).is_err());
}

#[test]
fn automatic_offline_fallback_explains_the_black_screen_risk() {
    let target = monitor("external");
    let input = DisplayInput::new(0x11).unwrap();
    let preparation = NetworkPreparation::Unavailable {
        wake_sent: true,
        reason: "Agent 沒有回應".to_owned(),
    };
    let result = outcome_result(
        EN,
        SwitchOutcome::AlreadySelected { target, input },
        &preparation,
        |input: DisplayInput| input_label(EN, false, input),
    );

    assert!(result.warning);
    assert!(result.peer_woken);
    assert!(result
        .detail
        .contains("local DDC/CI was selected automatically"));
    assert!(result.detail.contains("temporarily blank"));
}

#[test]
fn locale_detection_uses_traditional_chinese_and_falls_back_to_english() {
    assert_eq!(locale_from_tag("zh-TW"), UiLocale::TraditionalChinese);
    assert_eq!(locale_from_tag("zh-Hant-HK"), UiLocale::TraditionalChinese);
    assert_eq!(locale_from_tag("en-US"), UiLocale::English);
    assert_eq!(locale_from_tag("ja-JP"), UiLocale::English);
    assert_eq!(locale_from_tag("zh-CN"), UiLocale::English);
}

#[test]
fn transient_ddc_failure_does_not_replace_a_still_detected_selection() {
    let selected = monitor("selected");
    let replacement = monitor("replacement");
    let mut settings = AppSettings {
        shared_monitors: vec![SelectedMonitor::from(&selected)],
        ..AppSettings::default()
    };

    // The selection is detected but unreadable, so it is absent from the
    // controllable list while another monitor is present in it.
    assert!(
        reconcile_monitor_selection(&mut settings, std::slice::from_ref(&replacement))
            .is_empty()
    );
    assert_eq!(
        settings.shared_monitors,
        vec![SelectedMonitor::from(&selected)]
    );
}
