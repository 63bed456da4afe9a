use std::cell::RefCell;

use displaymux::agent::{AgentResponse, AGENT_PROTOCOL_VERSION};
use displaymux::dashboard::{
    add_shared_monitor, build_dashboard_state, shared_monitor_status_text, SharedDisplayState,
};
use displaymux::domain::{
    DestinationHost, DisplayInput, MonitorDescriptor, MonitorFingerprint, MonitorId, SwitchOutcome,
};
use displaymux::error::DisplayMuxError;
use displaymux::locale::UiLocale;
use displaymux::messages::{
    autostart_args, probe_result, settings_saved_result, shortcut_check_step,
    shortcut_conflict_text, shortcut_trial_result, update_error_text, update_install_error_text,
    ShortcutCheckStep,
};
use displaymux::monitor_identity::with_link;
use displaymux::network::HostAddress;
use displaymux::port::MonitorControl;
use displaymux::routes::RouteAdoption;
use displaymux::settings::{monitor_key, AppSettings, HostRoute, SelectedMonitor};
use displaymux::switching::{
    next_preparation, next_switch, peer_answer, plan_switch, request_target, route_endpoint,
    run_switch, wake_result, wake_target, NetworkPreparation, PreparationEvent, PreparationState,
    SwitchEvent, SwitchState,
};

const EN: UiLocale = UiLocale::English;
const ZH: UiLocale = UiLocale::TraditionalChinese;

struct Displays {
    monitors: Vec<MonitorDescriptor>,
    readable: bool,
    writes: RefCell<Vec<(String, DisplayInput)>>,
}

impl MonitorControl for Displays {
    fn enumerate(&self) -> Result<Vec<MonitorDescriptor>, DisplayMuxError> {
        Ok(self.monitors.clone())
    }

    fn read_input(&self, monitor: &MonitorId) -> Result<DisplayInput, DisplayMuxError> {
        if self.readable {
            DisplayInput::new(0x0f)
        } else {
            Err(DisplayMuxError::MonitorNoLongerAvailable(monitor.as_str().to_owned()))
        }
    }

    fn supported_inputs(&self, _: &MonitorId) -> Result<Vec<DisplayInput>, DisplayMuxError> {
        Ok(vec![input(0x0f), input(0x11)])
    }

    fn write_input(&self, monitor: &MonitorId, value: DisplayInput) -> Result<(), DisplayMuxError> {
        self.writes.borrow_mut().push((monitor.as_str().to_owned(), value));
        Ok(())
    }
}

fn displays(monitors: Vec<MonitorDescriptor>, readable: bool) -> Displays {
    Displays {
        monitors,
        readable,
        writes: RefCell::new(Vec::new()),
    }
}

fn input(value: u32) -> DisplayInput {
    DisplayInput::new(value).unwrap()
}

fn monitor(id: &str) -> MonitorDescriptor {
    MonitorDescriptor {
        id: MonitorId::new(id),
        name: id.to_owned(),
        fingerprint: MonitorFingerprint::new("ACM", id, None),
        active: true,
        built_in: false,
        max_resolution: None,
        resolution_source: None,
        connection: None,
    }
}

fn peer(id: &str) -> HostRoute {
    HostRoute {
        id: id.to_owned(),
        name: "Studio".to_owned(),
        platform: DestinationHost::Mac,
        address: "192.168.1.20".to_owned(),
        port: 7,
        mac_address: "01:02:03:04:05:06".to_owned(),
        inputs: Vec::new(),
    }
}

fn settings() -> AppSettings {
    let mut studio = peer("a");
    studio.set_input_for(&monitor("shared").fingerprint, Some(input(0x11)));
    AppSettings {
        shared_monitors: vec![SelectedMonitor {
            local_input: Some(input(0x0f)),
            ..SelectedMonitor::from(&monitor("shared"))
        }],
        peers: vec![studio],
        shared_key: "pairing-password".to_owned(),
        ..AppSettings::default()
    }
}

fn key() -> String {
    monitor_key(&monitor("shared").fingerprint)
}

#[test]
fn a_switch_is_planned_only_with_display_host_and_input_known() {
    let mut settings = settings();
    let plan = plan_switch(EN, &settings, &key(), "a").unwrap();
    assert_eq!((plan.monitor, plan.peer, plan.input), (0, Some(0), input(0x11)));
    let back = plan_switch(EN, &settings, &key(), "local").unwrap();
    assert_eq!((back.peer, back.input), (None, input(0x0f)));
    assert!(plan_switch(EN, &settings, "none", "a").unwrap_err().contains("shared display"));
    assert!(plan_switch(EN, &settings, &key(), "b").unwrap_err().contains("paired host"));
    settings.shared_monitors[0].local_input = None;
    assert_eq!(
        plan_switch(EN, &settings, &key(), "local"),
        Err("The display input for this host is not configured".to_owned())
    );
}

fn prepare(settings: &AppSettings, events: Vec<PreparationEvent>) -> PreparationState {
    let mut state = PreparationState::Waking;
    for event in events {
        state = next_preparation(EN, settings, "Studio", state, event);
    }
    state
}

fn asked(answered: bool) -> PreparationEvent {
    PreparationEvent::PeerAsked { answered }
}

#[test]
fn a_host_that_answers_is_ready() {
    let settings = settings();
    for (wake, wake_sent) in [(Ok(()), true), (Err("no MAC".to_owned()), false)] {
        match prepare(&settings, vec![PreparationEvent::WakeTried(wake), asked(true)]) {
            PreparationState::Finished(NetworkPreparation::Ready { wake_sent: sent }) => {
                assert_eq!(sent, wake_sent)
            }
            _ => panic!("expected a ready host"),
        }
    }
    match prepare(
        &settings,
        vec![PreparationEvent::WakeTried(Ok(())), asked(false), asked(false), asked(true)],
    ) {
        PreparationState::Finished(preparation) => {
            assert_eq!(preparation, NetworkPreparation::Ready { wake_sent: true })
        }
        _ => panic!("expected a ready host"),
    }
}

fn reason(state: PreparationState) -> (bool, String) {
    match state {
        PreparationState::Finished(NetworkPreparation::Unavailable { wake_sent, reason }) => {
            (wake_sent, reason)
        }
        _ => panic!("expected an unavailable host"),
    }
}

#[test]
fn a_silent_host_is_given_up_on_with_a_reason() {
    let mut settings = settings();
    assert_eq!(
        reason(prepare(
            &settings,
            vec![PreparationEvent::WakeTried(Err("no MAC".to_owned())), asked(false)]
        )),
        (false, "no MAC, and the Agent is not responding".to_owned())
    );
    settings.wait_seconds = 1;
    let mut events = vec![PreparationEvent::WakeTried(Ok(())), asked(false)];
    events.extend((0..5).map(|_| asked(false)));
    assert_eq!(
        reason(prepare(&settings, events)),
        (true, "Studio did not respond within 5 seconds after the wake signal".to_owned())
    );
    settings.shared_key = "short".to_owned();
    assert_eq!(
        reason(prepare(&settings, vec![PreparationEvent::WakeTried(Ok(()))])),
        (
            true,
            "The network Agent does not have a pairing password of at least 8 characters".to_owned()
        )
    );
}

fn step(state: SwitchState, event: SwitchEvent, settings: &AppSettings, target: &str) -> SwitchState {
    let plan = plan_switch(EN, settings, &key(), target).unwrap();
    next_switch(EN, settings, &plan, target, &NetworkPreparation::NotRequired, state, event)
}

#[test]
fn a_local_switch_is_told_with_the_inputs_named() {
    let settings = settings();
    let outcome = SwitchOutcome::Switched {
        target: monitor("shared"),
        previous: input(0x0f),
        selected: input(0x11),
    };
    match step(SwitchState::SwitchingHere, SwitchEvent::TriedHere(Ok(outcome)), &settings, "a") {
        SwitchState::Switched(result) => {
            assert_eq!(result.title, "Shared display switched");
            assert_eq!(result.detail, "shared switched from DP to HDMI 1.");
            assert!(!result.warning && !result.peer_woken);
        }
        _ => panic!("expected a switch"),
    }
}

#[test]
fn a_failed_local_switch_is_handed_to_the_paired_host() {
    let settings = settings();
    let failed = || SwitchEvent::TriedHere(Err(DisplayMuxError::TargetNotFound));
    let asking = step(SwitchState::SwitchingHere, failed(), &settings, "a");
    let telling = step(asking, SwitchEvent::VersionKnown(Ok(AGENT_PROTOCOL_VERSION)), &settings, "a");
    match &telling {
        SwitchState::AskingPeer { executor, monitor: named, .. } => {
            assert_eq!(*executor, 0);
            assert_eq!(*named, Some(monitor("shared").fingerprint));
        }
        _ => panic!("expected a request to the peer"),
    }
    match step(telling, SwitchEvent::PeerTried(Ok(())), &settings, "a") {
        SwitchState::Switched(result) => {
            assert_eq!(result.title, "Switch performed by Studio");
            assert_eq!(result.detail, "The remote host switched to HDMI 1.");
        }
        _ => panic!("expected a switch"),
    }
    let old = step(
        step(SwitchState::SwitchingHere, failed(), &settings, "local"),
        SwitchEvent::VersionKnown(Ok(0)),
        &settings,
        "local",
    );
    assert!(matches!(old, SwitchState::AskingPeer { monitor: None, .. }));
    let local = DisplayMuxError::TargetNotFound.localized_message(false);
    match step(old, SwitchEvent::PeerTried(Err("offline".to_owned())), &settings, "local") {
        SwitchState::Failed(text) => assert_eq!(
            text,
            format!("Neither this computer nor Studio could switch. Local: {local}; remote: offline")
        ),
        _ => panic!("expected a failure"),
    }
    match step(
        step(SwitchState::SwitchingHere, failed(), &settings, "a"),
        SwitchEvent::VersionKnown(Err("timeout".to_owned())),
        &settings,
        "a",
    ) {
        SwitchState::Failed(text) => assert!(text.ends_with("remote: timeout")),
        _ => panic!("expected a failure"),
    }
}

#[test]
fn coming_back_needs_exactly_one_paired_host_to_help() {
    let mut settings = settings();
    settings.peers.push(peer("b"));
    let failed = SwitchEvent::TriedHere(Err(DisplayMuxError::UnsupportedPlatform));
    match step(SwitchState::SwitchingHere, failed, &settings, "local") {
        SwitchState::Failed(text) => assert_eq!(
            text,
            format!(
                "Local switching failed and no other paired host can perform it: {}",
                DisplayMuxError::UnsupportedPlatform.localized_message(false)
            )
        ),
        _ => panic!("expected a failure"),
    }
}

#[test]
fn an_old_host_is_not_asked_to_guess_between_displays() {
    let mut settings = settings();
    settings
        .shared_monitors
        .push(SelectedMonitor::from(&monitor("second")));
    let state = SwitchState::AskingVersion {
        executor: 0,
        local_error: "x".to_owned(),
    };
    match step(state, SwitchEvent::VersionKnown(Ok(AGENT_PROTOCOL_VERSION - 1)), &settings, "a") {
        SwitchState::Failed(text) => assert!(text.contains("older DisplayMux version")),
        _ => panic!("expected a failure"),
    }
}

#[test]
fn the_identity_that_is_present_is_switched() {
    let at_4k = monitor("4k").fingerprint;
    let present = monitor("1080");
    let controller = displays(vec![present.clone()], true);
    let outcome = run_switch(controller, vec![at_4k.clone(), present.fingerprint.clone()], input(0x11));
    assert!(matches!(outcome, Ok(SwitchOutcome::Switched { .. })));
    assert_eq!(
        run_switch(displays(vec![present], true), vec![at_4k], input(0x11)),
        Err(DisplayMuxError::TargetNotFound)
    );
    assert_eq!(
        run_switch(displays(Vec::new(), true), Vec::new(), input(0x11)),
        Err(DisplayMuxError::TargetNotFound)
    );
}

#[test]
fn a_paired_host_is_asked_only_with_address_and_password() {
    let mut settings = settings();
    let route = peer("a");
    let address = HostAddress::V4([192, 168, 1, 20]);
    let endpoint = request_target(EN, &settings, &route, Some(address)).unwrap();
    assert_eq!((endpoint.address, endpoint.port), (address, 7));
    assert_eq!(
        request_target(EN, &settings, &route, None),
        Err("Studio has an invalid IP address".to_owned())
    );
    assert_eq!(
        route_endpoint(ZH, &route, None),
        Err(DisplayMuxError::PeerUnavailable("Studio 的 IP 位址無效".to_owned()))
    );
    settings.shared_key.clear();
    assert_eq!(
        request_target(EN, &settings, &route, Some(address)),
        Err("Configure a pairing password of at least 8 characters first".to_owned())
    );
    let ready = AgentResponse {
        ready: true,
        ..AgentResponse::default()
    };
    assert_eq!(peer_answer(EN, Ok(ready.clone())), Ok(ready.clone()));
    let busy = AgentResponse {
        ready: false,
        message: "busy".to_owned(),
        ..ready
    };
    assert_eq!(peer_answer(EN, Ok(busy)), Err("busy".to_owned()));
    assert_eq!(
        peer_answer(EN, Err(DisplayMuxError::WakeFailed("x".to_owned()))),
        Err("Unable to wake the host: x".to_owned())
    );
}

#[test]
fn a_host_is_woken_by_its_mac_address() {
    let settings = settings();
    let mut route = peer("a");
    let target = wake_target(EN, &settings, &route, Some([255, 255, 255, 255])).unwrap();
    assert_eq!(target.mac_address.octets(), [1, 2, 3, 4, 5, 6]);
    assert_eq!(target.port, 9);
    assert_eq!(
        wake_target(EN, &settings, &route, None),
        Err("Invalid broadcast address".to_owned())
    );
    route.mac_address = "zz".to_owned();
    assert_eq!(
        wake_target(EN, &settings, &route, None),
        Err("Invalid MAC address: zz".to_owned())
    );
    route.mac_address = "  ".to_owned();
    assert!(wake_target(EN, &settings, &route, None).unwrap_err().starts_with("Studio has no usable"));
    let result = wake_result(EN, &route);
    assert!(result.peer_woken && result.title == "Wake signal sent to Studio");
}

#[test]
fn the_dashboard_selects_reads_and_reports_the_only_display() {
    let mut settings = AppSettings::default();
    let controller = displays(vec![monitor("only")], true);
    let scan = build_dashboard_state(EN, Ok(controller), &mut settings, 1, "linux", "Desk");
    assert!(scan.scanned && scan.settings_changed);
    assert_eq!(settings.shared_monitors[0].local_input, Some(input(0x0f)));
    assert_eq!(
        scan.state.selection_notices,
        vec!["Automatically selected the only controllable DDC/CI display: only"]
    );
    assert_eq!(scan.state.shared.len(), 1);
    let status = &scan.state.shared[0];
    assert!(status.ddc_available);
    assert_eq!(status.display_state, SharedDisplayState::Ready);
    assert_eq!(status.status_text, "Shared display locked: only");
    assert_eq!(scan.state.local_host_name, "Desk");
    assert!(!scan.state.agent_configured);

    let again = build_dashboard_state(
        EN,
        Ok(displays(vec![monitor("only")], true)),
        &mut settings,
        2,
        "linux",
        "Desk",
    );
    assert!(!again.settings_changed);
}

#[test]
fn the_dashboard_explains_a_display_that_another_host_is_showing() {
    let mut settings = settings();
    settings.shared_monitors[0].active_route = Some("a".to_owned());
    let scan = build_dashboard_state(
        EN,
        Ok(displays(vec![monitor("shared")], false)),
        &mut settings,
        1,
        "linux",
        "",
    );
    let status = &scan.state.shared[0];
    assert_eq!(status.display_state, SharedDisplayState::OnOtherHost);
    assert_eq!(
        status.status_text,
        "shared is showing Studio. While it shows another host, it does not answer this computer's DDC/CI"
    );
    assert_eq!(scan.state.uncontrollable_monitors.len(), 1);
}

#[test]
fn a_scan_that_fails_leaves_the_settings_and_gives_the_reason() {
    let mut settings = settings();
    let before = settings.clone();
    let scan = build_dashboard_state(
        EN,
        Err::<Displays, _>(DisplayMuxError::UnsupportedPlatform),
        &mut settings,
        1,
        "linux",
        "",
    );
    assert_eq!(settings, before);
    assert!(!scan.scanned && !scan.settings_changed);
    assert_eq!(
        scan.state.shared[0].status_text,
        DisplayMuxError::UnsupportedPlatform.localized_message(false)
    );
    assert!(scan.state.agent_configured);
}

#[test]
fn status_texts_say_whether_a_display_was_detected() {
    let text = |locale, detected| {
        shared_monitor_status_text(locale, "X", SharedDisplayState::Unavailable, detected, None)
    };
    assert_eq!(text(EN, true), "X was detected, but its DDC/CI input cannot be read");
    assert_eq!(text(ZH, false), "找不到先前選擇的共用螢幕：X");
    assert!(shared_monitor_status_text(EN, "X", SharedDisplayState::OnOtherHost, true, None)
        .contains("another host"));
}

#[test]
fn a_display_that_does_not_answer_can_still_be_shared() {
    let mut settings = AppSettings::default();
    let quiet = displays(vec![monitor("quiet")], false);
    assert_eq!(add_shared_monitor(EN, &quiet, &mut settings, "quiet"), Ok(()));
    assert_eq!(settings.shared_monitors, vec![SelectedMonitor::from(&monitor("quiet"))]);
    let answering = displays(vec![monitor("quiet")], true);
    assert_eq!(add_shared_monitor(EN, &answering, &mut settings, "quiet"), Ok(()));
    assert_eq!(settings.shared_monitors.len(), 1);
    assert_eq!(settings.shared_monitors[0].local_input, Some(input(0x0f)));
    assert_eq!(
        add_shared_monitor(EN, &answering, &mut settings, "gone"),
        Err("This display was not found. Refresh and select it again.".to_owned())
    );
}

#[test]
fn a_display_shared_under_an_alias_is_not_added_again() {
    let mut settings = settings();
    settings.monitor_identity_links = with_link(
        &[],
        &monitor("mode").fingerprint,
        Some(&monitor("shared").fingerprint),
        1,
    );
    let controller = displays(vec![monitor("mode")], false);
    assert_eq!(add_shared_monitor(EN, &controller, &mut settings, "mode"), Ok(()));
    assert_eq!(settings.shared_monitors.len(), 1);
}

#[test]
fn small_messages_are_in_the_language_of_the_user() {
    assert_eq!(settings_saved_result(ZH).title, "設定已儲存");
    assert!(update_error_text(EN).starts_with("Unable to check for updates"));
    assert!(update_install_error_text(ZH).starts_with("更新下載或簽章驗證失敗"));
    assert!(shortcut_conflict_text(EN, "busy").ends_with("using it: busy"));
    let adoption = RouteAdoption {
        detail: "done".to_owned(),
        warning: true,
        applied: false,
    };
    let probed = probe_result(EN, "Studio", adoption);
    assert_eq!((probed.title.as_str(), probed.detail.as_str(), probed.warning), ("Studio connected", "done", true));
    assert_eq!(autostart_args(true), Some(vec!["--autostart"]));
    assert_eq!(autostart_args(false), None);
}

#[test]
fn a_shortcut_is_tried_only_where_nothing_is_known_of_it() {
    match shortcut_check_step(EN, true, true) {
        ShortcutCheckStep::Answer(result) => assert!(result.available),
        ShortcutCheckStep::TryRegistering => panic!("expected an answer"),
    }
    match shortcut_check_step(EN, false, true) {
        ShortcutCheckStep::Answer(result) => assert!(!result.available),
        ShortcutCheckStep::TryRegistering => panic!("expected an answer"),
    }
    assert_eq!(shortcut_check_step(EN, false, false), ShortcutCheckStep::TryRegistering);
    assert!(shortcut_trial_result(EN, true).available);
    assert!(shortcut_trial_result(EN, false).message.starts_with("Shortcut conflict"));
}

#[test]
fn a_platform_that_cannot_ask_knows_of_no_largest_input() {
    let controller = displays(vec![monitor("only")], true);
    assert_eq!(controller.input_value_maximum(&MonitorId::new("only")), Ok(None));
}
