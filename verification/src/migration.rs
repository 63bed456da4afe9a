//! Reading settings that earlier versions saved.

use crate::agent::DEFAULT_AGENT_PORT;
use crate::domain::{DestinationHost, DisplayInput};
use crate::settings::{
    is_fresh_install, nothing_shared, AppSettings, HostRoute,
    MonitorInputAssignment, SelectedMonitor, DEFAULT_HOST_SWITCHER_SHORTCUT,
};
use vstd::prelude::*;

verus! {

/// The first shape that was shipped: one peer and no display.
#[derive(Debug)]
pub struct LegacySettings {
    pub local_host: DestinationHost,
    pub peer_id: String,
    pub peer_name: String,
    pub peer_ip: String,
    pub peer_port: u16,
    pub peer_mac: String,
    pub broadcast_ip: String,
    pub wake_port: u16,
    pub shared_key: String,
    pub wait_seconds: u64,
    pub autostart: bool,
    pub check_updates: bool,
}

impl LegacySettings {
    /// What a missing field is read as.
    pub fn for_host(host: DestinationHost) -> (settings: Self)
        ensures
            settings.local_host == host,
            settings.peer_id@.len() == 0,
            settings.peer_name@.len() == 0,
            settings.peer_ip@.len() == 0,
            settings.peer_port == DEFAULT_AGENT_PORT,
            settings.peer_mac@.len() == 0,
            settings.broadcast_ip@ == "255.255.255.255"@,
            settings.wake_port == 9,
            settings.shared_key@.len() == 0,
            settings.wait_seconds == 45,
            settings.autostart,
            settings.check_updates,
    {
        LegacySettings {
            local_host: host,
            peer_id: String::new(),
            peer_name: String::new(),
            peer_ip: String::new(),
            peer_port: DEFAULT_AGENT_PORT,
            peer_mac: String::new(),
            broadcast_ip: "255.255.255.255".to_owned(),
            wake_port: 9,
            shared_key: String::new(),
            wait_seconds: 45,
            autostart: true,
            check_updates: true,
        }
    }
}

/// A paired host as it was saved before several displays could be shared: one
/// input for the one display.
#[derive(Debug)]
pub struct SingleMonitorHostRoute {
    pub id: String,
    pub name: String,
    pub platform: DestinationHost,
    pub address: String,
    pub port: u16,
    pub mac_address: String,
    pub input: Option<DisplayInput>,
}

impl SingleMonitorHostRoute {
    /// What a missing field is read as.
    pub fn for_host(host: DestinationHost) -> (route: Self)
        ensures
            route.id@.len() == 0,
            route.name@.len() == 0,
            route.platform == host,
            route.address@.len() == 0,
            route.port == DEFAULT_AGENT_PORT,
            route.mac_address@.len() == 0,
            route.input is None,
    {
        SingleMonitorHostRoute {
            id: String::new(),
            name: String::new(),
            platform: host,
            address: String::new(),
            port: DEFAULT_AGENT_PORT,
            mac_address: String::new(),
            input: None,
        }
    }
}

/// The shape shipped before several displays could be shared: a single optional
/// display whose inputs stand beside it. Kept to read settings saved then
/// without losing anything.
#[derive(Debug)]
pub struct SingleMonitorSettings {
    pub local_host: DestinationHost,
    pub shared_monitor: Option<SelectedMonitor>,
    pub local_input: Option<DisplayInput>,
    pub supported_inputs: Option<Vec<DisplayInput>>,
    pub peers: Vec<SingleMonitorHostRoute>,
    pub broadcast_ip: String,
    pub wake_port: u16,
    pub shared_key: String,
    pub wait_seconds: u64,
    pub autostart: bool,
    pub check_updates: bool,
    pub onboarding_completed: bool,
    pub host_switcher_enabled: bool,
    pub host_switcher_shortcut: String,
}

impl SingleMonitorSettings {
    /// What a missing field is read as.
    pub fn for_host(host: DestinationHost) -> (settings: Self)
        ensures
            settings.local_host == host,
            settings.shared_monitor is None,
            settings.local_input is None,
            settings.supported_inputs is None,
            settings.peers@.len() == 0,
            settings.broadcast_ip@ == "255.255.255.255"@,
            settings.wake_port == 9,
            settings.shared_key@.len() == 0,
            settings.wait_seconds == 45,
            settings.autostart,
            settings.check_updates,
            !settings.onboarding_completed,
            !settings.host_switcher_enabled,
            settings.host_switcher_shortcut@ == "CommandOrControl+Alt+Space"@,
    {
        SingleMonitorSettings {
            local_host: host,
            shared_monitor: None,
            local_input: None,
            supported_inputs: None,
            peers: Vec::new(),
            broadcast_ip: "255.255.255.255".to_owned(),
            wake_port: 9,
            shared_key: String::new(),
            wait_seconds: 45,
            autostart: true,
            check_updates: true,
            onboarding_completed: false,
            host_switcher_enabled: false,
            host_switcher_shortcut: DEFAULT_HOST_SWITCHER_SHORTCUT.to_owned(),
        }
    }
}

/// Whether a paired host is carried over, its input now for the one display.
pub open spec fn is_carried_over(
    old_route: SingleMonitorHostRoute,
    monitor: Option<SelectedMonitor>,
    route: HostRoute,
) -> bool {
    &&& route == (HostRoute {
        id: old_route.id,
        name: old_route.name,
        platform: old_route.platform,
        address: old_route.address,
        port: old_route.port,
        mac_address: old_route.mac_address,
        inputs: route.inputs,
    })
    &&& route.inputs@ == match (monitor, old_route.input) {
        (Some(selected), Some(input)) => seq![
            MonitorInputAssignment { monitor: selected.fingerprint, input },
        ],
        _ => seq![],
    }
}

/// Whether `after` is what settings for a single display became.
pub open spec fn is_single_monitor_migration(
    before: SingleMonitorSettings,
    existing_install: bool,
    after: AppSettings,
) -> bool {
    &&& after.shared_monitors@ == match before.shared_monitor {
        Some(selected) => seq![
            SelectedMonitor {
                local_input: before.local_input,
                supported_inputs: before.supported_inputs,
                ..selected
            },
        ],
        None => seq![],
    }
    &&& after.peers@.len() == before.peers@.len()
    &&& forall|k: int|
        0 <= k < before.peers@.len() ==> is_carried_over(
            before.peers@[k],
            before.shared_monitor,
            #[trigger] after.peers@[k],
        )
    &&& after == (AppSettings {
        local_host: before.local_host,
        broadcast_ip: before.broadcast_ip,
        wake_port: before.wake_port,
        shared_key: before.shared_key,
        wait_seconds: before.wait_seconds,
        autostart: before.autostart,
        check_updates: before.check_updates,
        onboarding_completed: before.onboarding_completed || existing_install,
        host_switcher_enabled: before.host_switcher_enabled,
        host_switcher_shortcut: before.host_switcher_shortcut,
        ..after
    })
    &&& nothing_shared(after)
    &&& !after.shared_monitors_chosen
    &&& after.local_host_id@.len() == 0
}

/// Settings for a single display, as settings for several. The display keeps
/// its inputs, and each host's input is now for that display.
pub fn migrate_single_monitor_settings(
    settings: SingleMonitorSettings,
    is_existing_install: bool,
) -> (result: AppSettings)
    ensures
        is_single_monitor_migration(settings, is_existing_install, result),
{
    let ghost before = settings;
    let mut rest = settings.peers;
    let mut peers: Vec<HostRoute> = Vec::new();
    let ghost all = rest@;
    let ghost mut done: int = 0;
    while rest.len() > 0
        invariant
            0 <= done <= all.len(),
            rest@ == all.skip(done),
            all == before.peers@,
            settings.shared_monitor == before.shared_monitor,
            peers@.len() == done,
            forall|k: int|
                0 <= k < done ==> is_carried_over(
                    all[k],
                    before.shared_monitor,
                    #[trigger] peers@[k],
                ),
        decreases rest@.len(),
    {
        let peer = rest.remove(0);
        proof {
            assert(peer == all[done]);
            assert(rest@ =~= all.skip(done + 1));
        }
        let mut inputs: Vec<MonitorInputAssignment> = Vec::new();
        if let (Some(selected), Some(input)) = (&settings.shared_monitor, peer.input) {
            inputs.push(
                MonitorInputAssignment { monitor: selected.fingerprint.clone(), input },
            );
            assert(inputs@ =~= seq![
                MonitorInputAssignment { monitor: selected.fingerprint, input },
            ]);
        } else {
            assert(inputs@ =~= seq![]);
        }
        peers.push(
            HostRoute {
                id: peer.id,
                name: peer.name,
                platform: peer.platform,
                address: peer.address,
                port: peer.port,
                mac_address: peer.mac_address,
                inputs,
            },
        );
        proof {
            assert(is_carried_over(all[done], before.shared_monitor, peers@[done]));
            done = done + 1;
        }
    }
    let mut shared_monitors: Vec<SelectedMonitor> = Vec::new();
    if let Some(mut selected) = settings.shared_monitor {
        selected.local_input = settings.local_input;
        selected.supported_inputs = settings.supported_inputs;
        shared_monitors.push(selected);
    }
    let result = AppSettings {
        local_host: settings.local_host,
        shared_monitors,
        peers,
        broadcast_ip: settings.broadcast_ip,
        wake_port: settings.wake_port,
        shared_key: settings.shared_key,
        wait_seconds: settings.wait_seconds,
        autostart: settings.autostart,
        check_updates: settings.check_updates,
        onboarding_completed: settings.onboarding_completed || is_existing_install,
        host_switcher_enabled: settings.host_switcher_enabled,
        host_switcher_shortcut: settings.host_switcher_shortcut,
        host_order: Vec::new(),
        host_order_updated_at_ms: 0,
        host_aliases: Vec::new(),
        input_labels: Vec::new(),
        monitor_identity_links: Vec::new(),
        shared_monitors_chosen: false,
        local_host_id: String::new(),
    };
    proof {
        match before.shared_monitor {
            Some(selected) => {
                assert(result.shared_monitors@ =~= seq![
                    SelectedMonitor {
                        local_input: before.local_input,
                        supported_inputs: before.supported_inputs,
                        ..selected
                    },
                ]);
            },
            None => {
                assert(result.shared_monitors@ =~= seq![]);
            },
        }
    }
    result
}

/// Whether `after` is what settings of the first shape became: the peer, where
/// it was known well enough, and no display, since none was saved.
pub open spec fn is_legacy_migration(before: LegacySettings, after: AppSettings) -> bool {
    &&& if before.peer_id@.len() == 0 || before.peer_ip@.len() == 0 {
        after.peers@.len() == 0
    } else {
        &&& after.peers@.len() == 1
        &&& after.peers@[0] == (HostRoute {
            id: before.peer_id,
            name: before.peer_name,
            platform: match before.local_host {
                DestinationHost::Windows => DestinationHost::Mac,
                DestinationHost::Mac => DestinationHost::Windows,
            },
            address: before.peer_ip,
            port: before.peer_port,
            mac_address: before.peer_mac,
            inputs: after.peers@[0].inputs,
        })
        &&& after.peers@[0].inputs@.len() == 0
    }
    &&& after.shared_monitors@.len() == 0
    &&& after == (AppSettings {
        local_host: before.local_host,
        broadcast_ip: before.broadcast_ip,
        wake_port: before.wake_port,
        shared_key: before.shared_key,
        wait_seconds: before.wait_seconds,
        autostart: before.autostart,
        check_updates: before.check_updates,
        onboarding_completed: true,
        host_switcher_enabled: false,
        ..after
    })
    &&& after.host_switcher_shortcut@ == "CommandOrControl+Alt+Space"@
    &&& nothing_shared(after)
    &&& !after.shared_monitors_chosen
    &&& after.local_host_id@.len() == 0
}

/// Settings of the first shape, as settings of today. The user is asked to
/// select a display anew, so that no assumption about hardware is carried over.
pub fn migrate_legacy_settings(legacy: LegacySettings) -> (result: AppSettings)
    ensures
        is_legacy_migration(legacy, result),
{
    let mut peers: Vec<HostRoute> = Vec::new();
    if !(legacy.peer_id.as_str().is_empty() || legacy.peer_ip.as_str().is_empty()) {
        peers.push(
            HostRoute {
                id: legacy.peer_id,
                name: legacy.peer_name,
                platform: match legacy.local_host {
                    DestinationHost::Windows => DestinationHost::Mac,
                    DestinationHost::Mac => DestinationHost::Windows,
                },
                address: legacy.peer_ip,
                port: legacy.peer_port,
                mac_address: legacy.peer_mac,
                inputs: Vec::new(),
            },
        );
    }
    AppSettings {
        local_host: legacy.local_host,
        shared_monitors: Vec::new(),
        peers,
        broadcast_ip: legacy.broadcast_ip,
        wake_port: legacy.wake_port,
        shared_key: legacy.shared_key,
        wait_seconds: legacy.wait_seconds,
        autostart: legacy.autostart,
        check_updates: legacy.check_updates,
        onboarding_completed: true,
        host_switcher_enabled: false,
        host_switcher_shortcut: DEFAULT_HOST_SWITCHER_SHORTCUT.to_owned(),
        host_order: Vec::new(),
        host_order_updated_at_ms: 0,
        host_aliases: Vec::new(),
        input_labels: Vec::new(),
        monitor_identity_links: Vec::new(),
        shared_monitors_chosen: false,
        local_host_id: String::new(),
    }
}

/// Which shape saved settings have.
#[derive(Clone, Copy, Debug, PartialEq, Eq, Structural)]
pub enum SettingsShape {
    Current,
    SingleMonitor,
    Legacy,
}

/// Which shape saved settings have, by the fields that they hold.
pub fn settings_shape(has_shared_monitors: bool, has_shared_monitor: bool, has_peers: bool) -> (shape:
    SettingsShape)
    ensures
        shape == if has_shared_monitors {
            SettingsShape::Current
        } else if has_shared_monitor || has_peers {
            SettingsShape::SingleMonitor
        } else {
            SettingsShape::Legacy
        },
{
    if has_shared_monitors {
        SettingsShape::Current
    } else if has_shared_monitor || has_peers {
        SettingsShape::SingleMonitor
    } else {
        SettingsShape::Legacy
    }
}

/// Saved settings, read by their shape; nothing where they could not be read.
pub enum StoredSettings {
    Current(Option<AppSettings>),
    SingleMonitor(Option<SingleMonitorSettings>),
    Legacy(Option<LegacySettings>),
}

/// Whether `result` is the settings to run with where `stored` was read.
pub open spec fn are_settings_of(
    stored: StoredSettings,
    has_onboarding_marker: bool,
    host: DestinationHost,
    result: AppSettings,
) -> bool {
    match stored {
        StoredSettings::Current(Some(settings)) => result == (AppSettings {
            onboarding_completed: settings.onboarding_completed || !has_onboarding_marker,
            ..settings
        }),
        StoredSettings::Current(None) => exists|fresh: AppSettings|
            #[trigger] is_fresh_install(fresh, host) && result == (AppSettings {
                onboarding_completed: !has_onboarding_marker,
                ..fresh
            }),
        StoredSettings::SingleMonitor(Some(settings)) => is_single_monitor_migration(
            settings,
            !has_onboarding_marker,
            result,
        ),
        StoredSettings::SingleMonitor(None) => exists|fresh: AppSettings|
            #[trigger] is_fresh_install(fresh, host) && result == (AppSettings {
                onboarding_completed: !has_onboarding_marker,
                ..fresh
            }),
        StoredSettings::Legacy(Some(settings)) => is_legacy_migration(settings, result),
        StoredSettings::Legacy(None) => is_fresh_install(result, host),
    }
}

/// The settings to run with. What cannot be read is replaced by a fresh
/// install's; an install from before the first-run flow counts as having seen
/// it.
pub fn settings_from_value(
    stored: StoredSettings,
    has_onboarding_marker: bool,
    host: DestinationHost,
) -> (result: AppSettings)
    ensures
        are_settings_of(stored, has_onboarding_marker, host, result),
{
    match stored {
        StoredSettings::Current(parsed) => {
            let mut settings = match parsed {
                Some(settings) => settings,
                None => AppSettings::for_host(host),
            };
            let ghost loaded = settings;
            if !has_onboarding_marker {
                settings.onboarding_completed = true;
            }
            assert(settings == (AppSettings {
                onboarding_completed: loaded.onboarding_completed || !has_onboarding_marker,
                ..loaded
            }));
            settings
        },
        StoredSettings::SingleMonitor(parsed) => {
            match parsed {
                Some(settings) => migrate_single_monitor_settings(settings, !has_onboarding_marker),
                None => {
                    let result = migrate_single_monitor_settings(
                        SingleMonitorSettings::for_host(host),
                        !has_onboarding_marker,
                    );
                    let ghost fresh = AppSettings { onboarding_completed: false, ..result };
                    assert(is_fresh_install(fresh, host));
                    result
                },
            }
        },
        StoredSettings::Legacy(parsed) => match parsed {
            Some(settings) => migrate_legacy_settings(settings),
            None => AppSettings::for_host(host),
        },
    }
}

} // verus!
