//! Switching a shared display to a host: what is prepared, who carries it out,
//! and what the user is told.

use crate::agent::{AgentResponse, AGENT_PROTOCOL_VERSION};
use crate::dashboard::core_user_error;
use crate::domain::{
    DisplayInput, DisplayMuxProfile, MonitorDescriptor, MonitorFingerprint, SwitchMode, SwitchOutcome,
};
use crate::error::DisplayMuxError;
use crate::lists::{first_at, lemma_first_at, lemma_first_at_is};
use crate::locale::{text_in, ui_text, UiLocale};
use crate::network::{mac_of, HostAddress, MacAddress, PeerEndpoint, WakeTarget};
use crate::port::MonitorControl;
use crate::service::{switch_result, DisplayMuxService};
use crate::settings::{
    has_id, has_key, has_valid_shared_key, noted_input_label,
    noted_label_of, peer_index, peer_missing, shared_monitor_index, shared_monitor_missing,
    valid_key, AppSettings, HostRoute, SelectedMonitor, MIN_SHARED_KEY_LENGTH,
};
use crate::text::{
    decimal, decimal_text, join2, join3, join4, join5, same_text, trim, trimmed,
};
use vstd::prelude::*;

verus! {

/// The result of an operation, phrased for a toast.
#[derive(Debug, PartialEq, Eq)]
pub struct OperationResult {
    pub title: String,
    pub detail: String,
    pub peer_woken: bool,
    pub warning: bool,
}

/// Whether the target host was found ready before a switch.
#[derive(Debug, PartialEq, Eq)]
pub enum NetworkPreparation {
    NotRequired,
    Ready { wake_sent: bool },
    Unavailable { wake_sent: bool, reason: String },
}

impl NetworkPreparation {
    /// Whether a wake signal was sent.
    pub open spec fn woke(self) -> bool {
        match self {
            NetworkPreparation::NotRequired => false,
            NetworkPreparation::Ready { wake_sent } => wake_sent,
            NetworkPreparation::Unavailable { wake_sent, .. } => wake_sent,
        }
    }

    pub fn peer_woken(&self) -> (woken: bool)
        ensures
            woken == self.woke(),
    {
        match self {
            NetworkPreparation::NotRequired => false,
            NetworkPreparation::Ready { wake_sent } => *wake_sent,
            NetworkPreparation::Unavailable { wake_sent, .. } => *wake_sent,
        }
    }

    pub fn warning(&self) -> (warn: bool)
        ensures
            warn == (self is Unavailable),
    {
        match self {
            NetworkPreparation::Unavailable { .. } => true,
            _ => false,
        }
    }
}

/// How far the preparation of a switch has come.
pub enum PreparationState {
    /// A wake signal is to be sent.
    Waking,
    /// The host is to be asked whether it is there.
    Checking { wake: Result<(), String> },
    /// The host is to be asked again after a second, at most so many times.
    Waiting { attempts_left: u64 },
    /// Nothing is left to do.
    Finished(NetworkPreparation),
}

/// What happened in the preparation of a switch.
pub enum PreparationEvent {
    /// The wake signal was sent, or could not be.
    WakeTried(Result<(), String>),
    /// The host answered, or did not.
    PeerAsked { answered: bool },
}

/// How long a woken host is waited for, in seconds.
pub open spec fn wait_limit(wait_seconds: u64) -> u64 {
    if wait_seconds < 5 {
        5
    } else if wait_seconds > 120 {
        120
    } else {
        wait_seconds
    }
}

/// How long a woken host is waited for, in seconds.
pub fn wait_attempts(settings: &AppSettings) -> (attempts: u64)
    ensures
        attempts == wait_limit(settings.wait_seconds),
        5 <= attempts <= 120,
{
    if settings.wait_seconds < 5 {
        5
    } else if settings.wait_seconds > 120 {
        120
    } else {
        settings.wait_seconds
    }
}

/// What is said where no pairing password is set.
pub open spec fn no_key_reason(locale: UiLocale) -> Seq<char> {
    let least = decimal(MIN_SHARED_KEY_LENGTH as nat);
    match locale {
        UiLocale::TraditionalChinese => "網路 Agent 尚未設定至少 "@ + least + " 個字元的配對密碼"@,
        UiLocale::English => "The network Agent does not have a pairing password of at least "@
            + least + " characters"@,
    }
}

/// What is said where the wake signal failed and the host is silent.
pub open spec fn silent_reason(locale: UiLocale, wake_error: Seq<char>) -> Seq<char> {
    wake_error + text_in(
        locale,
        "，且 Agent 目前沒有回應"@,
        ", and the Agent is not responding"@,
    )
}

/// What is said where a woken host stays silent.
pub open spec fn timeout_reason(locale: UiLocale, name: Seq<char>, attempts: u64) -> Seq<char> {
    match locale {
        UiLocale::TraditionalChinese => name + " 在送出喚醒訊號後 "@ + decimal(attempts as nat)
            + " 秒內仍沒有回應"@,
        UiLocale::English => name + " did not respond within "@ + decimal(attempts as nat)
            + " seconds after the wake signal"@,
    }
}

/// Whether a preparation ended without the host being confirmed, for a reason.
pub open spec fn gave_up(state: PreparationState, wake_sent: bool, reason: Seq<char>) -> bool {
    state matches PreparationState::Finished(NetworkPreparation::Unavailable {
        wake_sent: sent,
        reason: said,
    }) && sent == wake_sent && said@ == reason
}

/// Whether `after` is where the preparation of a switch goes from `before` on
/// an event: waking comes first; without a password nobody can be asked; a host
/// that answers is ready; one that could not be woken is not waited for; and a
/// woken one is asked again until its time is up. An event that the state does
/// not wait for changes nothing.
pub open spec fn is_preparation_step(
    locale: UiLocale,
    settings: AppSettings,
    peer_name: Seq<char>,
    before: PreparationState,
    event: PreparationEvent,
    after: PreparationState,
) -> bool {
    match (before, event) {
        (PreparationState::Waking, PreparationEvent::WakeTried(wake)) => if !valid_key(
            settings.shared_key@,
        ) {
            gave_up(after, wake is Ok, no_key_reason(locale))
        } else {
            after == (PreparationState::Checking { wake })
        },
        (PreparationState::Checking { wake }, PreparationEvent::PeerAsked { answered }) => if answered {
            after == PreparationState::Finished(
                NetworkPreparation::Ready { wake_sent: wake is Ok },
            )
        } else {
            match wake {
                Err(error) => gave_up(after, false, silent_reason(locale, error@)),
                Ok(_) => after == (PreparationState::Waiting {
                    attempts_left: wait_limit(settings.wait_seconds),
                }),
            }
        },
        (PreparationState::Waiting { attempts_left }, PreparationEvent::PeerAsked { answered }) => if answered {
            after == PreparationState::Finished(NetworkPreparation::Ready { wake_sent: true })
        } else if attempts_left <= 1 {
            gave_up(
                after,
                true,
                timeout_reason(locale, peer_name, wait_limit(settings.wait_seconds)),
            )
        } else {
            after == (PreparationState::Waiting { attempts_left: (attempts_left - 1) as u64 })
        },
        _ => after == before,
    }
}

/// Where the preparation of a switch goes on an event.
pub fn next_preparation(
    locale: UiLocale,
    settings: &AppSettings,
    peer_name: &str,
    state: PreparationState,
    event: PreparationEvent,
) -> (next: PreparationState)
    ensures
        is_preparation_step(locale, *settings, peer_name@, state, event, next),
{
    match (state, event) {
        (PreparationState::Waking, PreparationEvent::WakeTried(wake)) => {
            if !has_valid_shared_key(&settings.shared_key) {
                let least = decimal_text(MIN_SHARED_KEY_LENGTH as u64);
                let reason = match locale {
                    UiLocale::TraditionalChinese => join3(
                        "網路 Agent 尚未設定至少 ",
                        &least,
                        " 個字元的配對密碼",
                    ),
                    UiLocale::English => join3(
                        "The network Agent does not have a pairing password of at least ",
                        &least,
                        " characters",
                    ),
                };
                return PreparationState::Finished(
                    NetworkPreparation::Unavailable { wake_sent: wake.is_ok(), reason },
                );
            }
            PreparationState::Checking { wake }
        },
        (PreparationState::Checking { wake }, PreparationEvent::PeerAsked { answered }) => {
            if answered {
                return PreparationState::Finished(
                    NetworkPreparation::Ready { wake_sent: wake.is_ok() },
                );
            }
            match wake {
                Err(error) => PreparationState::Finished(
                    NetworkPreparation::Unavailable {
                        wake_sent: false,
                        reason: join2(
                            &error,
                            ui_text(
                                locale,
                                "，且 Agent 目前沒有回應",
                                ", and the Agent is not responding",
                            ),
                        ),
                    },
                ),
                Ok(_) => PreparationState::Waiting { attempts_left: wait_attempts(settings) },
            }
        },
        (PreparationState::Waiting { attempts_left }, PreparationEvent::PeerAsked { answered }) => {
            if answered {
                return PreparationState::Finished(NetworkPreparation::Ready { wake_sent: true });
            }
            if attempts_left <= 1 {
                let limit = decimal_text(wait_attempts(settings));
                let reason = match locale {
                    UiLocale::TraditionalChinese => join4(
                        peer_name,
                        " 在送出喚醒訊號後 ",
                        &limit,
                        " 秒內仍沒有回應",
                    ),
                    UiLocale::English => join4(
                        peer_name,
                        " did not respond within ",
                        &limit,
                        " seconds after the wake signal",
                    ),
                };
                return PreparationState::Finished(
                    NetworkPreparation::Unavailable { wake_sent: true, reason },
                );
            }
            PreparationState::Waiting { attempts_left: attempts_left - 1 }
        },
        (state, _) => state,
    }
}

/// How many more events a preparation can take.
pub open spec fn steps_left(state: PreparationState, wait_seconds: u64) -> nat {
    match state {
        PreparationState::Waking => wait_limit(wait_seconds) as nat + 2,
        PreparationState::Checking { .. } => wait_limit(wait_seconds) as nat + 1,
        PreparationState::Waiting { attempts_left } => if attempts_left == 0 {
            1
        } else {
            attempts_left as nat
        },
        PreparationState::Finished(_) => 0,
    }
}

/// Whether an event is what the state waits for.
pub open spec fn is_awaited(state: PreparationState, event: PreparationEvent) -> bool {
    match state {
        PreparationState::Waking => event is WakeTried,
        PreparationState::Checking { .. } => event is PeerAsked,
        PreparationState::Waiting { .. } => event is PeerAsked,
        PreparationState::Finished(_) => false,
    }
}

/// Every preparation ends: each awaited event brings it nearer to its end.
pub proof fn every_preparation_ends(
    locale: UiLocale,
    settings: AppSettings,
    peer_name: Seq<char>,
    before: PreparationState,
    event: PreparationEvent,
    after: PreparationState,
)
    requires
        is_preparation_step(locale, settings, peer_name, before, event, after),
        is_awaited(before, event),
    ensures
        steps_left(after, settings.wait_seconds) < steps_left(before, settings.wait_seconds),
{
}

/// A host counts as ready only after it answered.
pub proof fn only_an_answer_makes_a_host_ready(
    locale: UiLocale,
    settings: AppSettings,
    peer_name: Seq<char>,
    before: PreparationState,
    event: PreparationEvent,
    after: PreparationState,
)
    requires
        is_preparation_step(locale, settings, peer_name, before, event, after),
        !(before is Finished),
        after matches PreparationState::Finished(NetworkPreparation::Ready { .. }),
    ensures
        event == (PreparationEvent::PeerAsked { answered: true }),
{
}

/// What a switch is to do: which shared display, to which input, for which
/// paired host (this computer where none).
#[derive(Debug, PartialEq, Eq)]
pub struct SwitchPlan {
    pub monitor: usize,
    pub peer: Option<usize>,
    pub input: DisplayInput,
}

/// What is said where the input of the target is not known.
pub open spec fn input_missing(locale: UiLocale) -> Seq<char> {
    text_in(
        locale,
        "尚未設定這台主機使用的螢幕輸入"@,
        "The display input for this host is not configured"@,
    )
}

/// The input that the target of a switch uses.
pub open spec fn target_input(settings: AppSettings, m: int, target_id: Seq<char>) -> Option<
    DisplayInput,
> {
    let selected = settings.shared_monitors@[m];
    if target_id == "local"@ {
        selected.local_input
    } else {
        settings.peers@[first_at(settings.peers@, has_id(target_id))].input_on(
            selected.fingerprint@,
        )
    }
}

/// Whether `result` is what a switch is to do, or why it cannot be done: the
/// display, the host and its input must be known, in this order.
pub open spec fn is_plan(
    locale: UiLocale,
    settings: AppSettings,
    monitor_id: Seq<char>,
    target_id: Seq<char>,
    result: Result<SwitchPlan, String>,
) -> bool {
    let m = first_at(settings.shared_monitors@, has_key(monitor_id));
    let p = first_at(settings.peers@, has_id(target_id));
    let no_monitor = m == settings.shared_monitors@.len();
    let no_peer = target_id != "local"@ && p == settings.peers@.len();
    match result {
        Err(message) => {
            ||| no_monitor && message@ == shared_monitor_missing(locale)
            ||| !no_monitor && no_peer && message@ == peer_missing(locale)
            ||| !no_monitor && !no_peer && target_input(settings, m, target_id) is None
                && message@ == input_missing(locale)
        },
        Ok(plan) => {
            &&& !no_monitor && !no_peer
            &&& plan.monitor == m && m < settings.shared_monitors@.len()
            &&& if target_id == "local"@ {
                plan.peer is None
            } else {
                plan.peer is Some && plan.peer->0 == p
            }
            &&& target_input(settings, m, target_id) == Some(plan.input)
        },
    }
}

/// What a switch is to do, or why it cannot be done: the display, the host and
/// its input must be known, in this order.
pub fn plan_switch(locale: UiLocale, settings: &AppSettings, monitor_id: &str, target_id: &str) -> (result:
    Result<SwitchPlan, String>)
    ensures
        is_plan(locale, *settings, monitor_id@, target_id@, result),
{
    proof {
        lemma_first_at(settings.shared_monitors@, has_key(monitor_id@));
        lemma_first_at(settings.peers@, has_id(target_id@));
    }
    let monitor = match shared_monitor_index(settings, monitor_id) {
        Some(monitor) => monitor,
        None => return Err(
            ui_text(
                locale,
                "找不到這台共用螢幕，請重新整理後再試一次",
                "This shared display was not found. Refresh and try again.",
            ).to_owned(),
        ),
    };
    let selected = &settings.shared_monitors[monitor];
    let (peer, input) = if same_text(target_id, "local") {
        (None, selected.local_input)
    } else {
        match peer_index(&settings.peers, target_id) {
            Some(p) => (Some(p), settings.peers[p].input_for(&selected.fingerprint)),
            None => return Err(
                ui_text(
                    locale,
                    "找不到這台已配對主機，請重新搜尋並加入",
                    "This paired host was not found. Search for it and add it again.",
                ).to_owned(),
            ),
        }
    };
    match input {
        Some(input) => Ok(SwitchPlan { monitor, peer, input }),
        None => Err(
            ui_text(
                locale,
                "尚未設定這台主機使用的螢幕輸入",
                "The display input for this host is not configured",
            ).to_owned(),
        ),
    }
}

/// Identities that a display present right now has.
pub open spec fn is_present(present: Seq<MonitorDescriptor>) -> spec_fn(MonitorFingerprint) -> bool {
    |identity: MonitorFingerprint|
        exists|k: int|
            0 <= k < present.len() && (#[trigger] present[k]).fingerprint@ == identity@
}

/// The identity to switch: the first that is present, else the first.
pub open spec fn identity_to_switch(
    identities: Seq<MonitorFingerprint>,
    present: Seq<MonitorDescriptor>,
) -> Option<MonitorFingerprint> {
    let i = first_at(identities, is_present(present));
    if i < identities.len() {
        Some(identities[i])
    } else if identities.len() > 0 {
        Some(identities[0])
    } else {
        None
    }
}

fn pick_identity(identities: &Vec<MonitorFingerprint>, present: &Vec<MonitorDescriptor>) -> (picked:
    Option<MonitorFingerprint>)
    ensures
        picked == identity_to_switch(identities@, present@),
{
    let ghost wanted = is_present(present@);
    let mut i: usize = 0;
    while i < identities.len()
        invariant
            i <= identities@.len(),
            wanted == is_present(present@),
            forall|j: int| 0 <= j < i ==> !wanted(#[trigger] identities@[j]),
        decreases identities@.len() - i,
    {
        let mut k: usize = 0;
        while k < present.len()
            invariant
                i < identities@.len(),
                k <= present@.len(),
                wanted == is_present(present@),
                forall|j: int| 0 <= j < i ==> !wanted(#[trigger] identities@[j]),
                forall|j: int|
                    0 <= j < k ==> (#[trigger] present@[j]).fingerprint@
                        != identities@[i as int]@,
            decreases present@.len() - k,
        {
            if identities[i].matches_exactly(&present[k].fingerprint) {
                proof {
                    assert(wanted(identities@[i as int]));
                    lemma_first_at_is(identities@, wanted, i as int);
                }
                return Some(identities[i].clone());
            }
            k += 1;
        }
        assert(!wanted(identities@[i as int]));
        i += 1;
    }
    proof {
        lemma_first_at_is(identities@, wanted, i as int);
    }
    if identities.len() > 0 {
        Some(identities[0].clone())
    } else {
        None
    }
}

/// Whether the display interface answered so that a switch of the display named
/// by `identities` came to `result`.
pub open spec fn is_switch_run<C: MonitorControl>(
    controller: &C,
    identities: Seq<MonitorFingerprint>,
    input: DisplayInput,
    present: Result<Vec<MonitorDescriptor>, DisplayMuxError>,
    listed: Result<Vec<MonitorDescriptor>, DisplayMuxError>,
    read: Result<DisplayInput, DisplayMuxError>,
    written: Result<(), DisplayMuxError>,
    result: Result<SwitchOutcome, DisplayMuxError>,
) -> bool {
    &&& call_ensures(C::enumerate, (controller,), present)
    &&& match present {
        Err(error) => result == Err::<SwitchOutcome, _>(error),
        Ok(monitors) => match identity_to_switch(identities, monitors@) {
            None => result == Err::<SwitchOutcome, _>(DisplayMuxError::TargetNotFound),
            Some(wanted) => switch_result(
                controller,
                wanted,
                input,
                SwitchMode::Apply,
                listed,
                read,
                written,
                result,
            ),
        },
    }
}

/// Switches the display named by `identities` - its own identity and any the
/// user merged into it. Exactly one of them is handed to the service, so a
/// merge decides *which* display is meant and never relaxes the exact
/// fingerprint match the write itself still demands.
pub fn run_switch<C: MonitorControl>(
    controller: C,
    identities: Vec<MonitorFingerprint>,
    input: DisplayInput,
) -> (result: Result<SwitchOutcome, DisplayMuxError>)
    ensures
        exists|
            present: Result<Vec<MonitorDescriptor>, DisplayMuxError>,
            listed: Result<Vec<MonitorDescriptor>, DisplayMuxError>,
            read: Result<DisplayInput, DisplayMuxError>,
            written: Result<(), DisplayMuxError>,
        | #[trigger]
            is_switch_run(
                &controller,
                identities@,
                input,
                present,
                listed,
                read,
                written,
                result,
            ),
{
    let present = controller.enumerate();
    let ghost p = present;
    let ghost unread: Result<DisplayInput, DisplayMuxError> = Ok(input);
    let ghost unwritten: Result<(), DisplayMuxError> = Ok(());
    let monitors = match present {
        Ok(monitors) => monitors,
        Err(error) => {
            let result = Err(error);
            assert(is_switch_run(&controller, identities@, input, p, p, unread, unwritten, result));
            return result;
        },
    };
    let shared_monitor = match pick_identity(&identities, &monitors) {
        Some(shared_monitor) => shared_monitor,
        None => {
            let result = Err(DisplayMuxError::TargetNotFound);
            assert(is_switch_run(&controller, identities@, input, p, p, unread, unwritten, result));
            return result;
        },
    };
    let ghost wanted = shared_monitor;
    let ghost g = controller;
    let service = DisplayMuxService::new(controller, DisplayMuxProfile { shared_monitor });
    let result = service.switch_to_input(input, SwitchMode::Apply);
    proof {
        let (listed, read, written) = choose|
            listed: Result<Vec<MonitorDescriptor>, DisplayMuxError>,
            read: Result<DisplayInput, DisplayMuxError>,
            written: Result<(), DisplayMuxError>,
        |
            switch_result(
                &service.controller,
                wanted,
                input,
                SwitchMode::Apply,
                listed,
                read,
                written,
                result,
            );
        assert(is_switch_run(&g, identities@, input, p, listed, read, written, result));
    }
    result
}

/// What is said where a paired host must be updated first.
pub open spec fn needs_update_text(locale: UiLocale) -> Seq<char> {
    text_in(
        locale,
        "此配對主機使用舊版 DisplayMux，僅支援單一共用螢幕；請將該主機更新到最新版本以切換多台螢幕"@,
        "This paired host is running an older DisplayMux version that only supports a single shared display; update it to switch multiple displays."@,
    )
}

/// Whether `result` is the display that a request to switch may name, if any, or why it
/// may not be made.
pub open spec fn is_display_told(
    locale: UiLocale,
    protocol_version: u32,
    shared_monitor_count: usize,
    target: MonitorFingerprint,
    result: Result<Option<MonitorFingerprint>, String>,
) -> bool {
    if protocol_version >= AGENT_PROTOCOL_VERSION {
        result == Ok::<_, String>(Some(target))
    } else if shared_monitor_count <= 1 {
        result == Ok::<Option<MonitorFingerprint>, String>(None)
    } else {
        result is Err && result->Err_0@ == needs_update_text(locale)
    }
}

/// Decides whether a request to switch may name a display, by the protocol
/// version of the host that is asked. Never guesses: a host that knows only one
/// display is asked only where there is just one shared here; otherwise it must
/// be updated first.
pub fn plan_switch_input(
    locale: UiLocale,
    protocol_version: u32,
    shared_monitor_count: usize,
    target: &MonitorFingerprint,
) -> (result: Result<Option<MonitorFingerprint>, String>)
    ensures
        is_display_told(locale, protocol_version, shared_monitor_count, *target, result),
{
    if protocol_version >= AGENT_PROTOCOL_VERSION {
        return Ok(Some(target.clone()));
    }
    if shared_monitor_count <= 1 {
        return Ok(None);
    }
    Err(
        ui_text(
            locale,
            "此配對主機使用舊版 DisplayMux，僅支援單一共用螢幕；請將該主機更新到最新版本以切換多台螢幕",
            "This paired host is running an older DisplayMux version that only supports a single shared display; update it to switch multiple displays.",
        ).to_owned(),
    )
}

/// Which paired host carries out a switch that this computer could not: the
/// target itself or, to come back here, the only paired host.
pub open spec fn executor_of(settings: AppSettings, target_id: Seq<char>) -> Option<int> {
    let p = first_at(settings.peers@, has_id(target_id));
    if target_id == "local"@ {
        if settings.peers@.len() == 1 {
            Some(0)
        } else {
            None
        }
    } else if p < settings.peers@.len() {
        Some(p)
    } else {
        None
    }
}

/// Whether `result` is the paired host that carries out a switch that this computer
/// could not, or what is said where none can.
pub open spec fn is_executor(
    locale: UiLocale,
    settings: AppSettings,
    target_id: Seq<char>,
    local_error: Seq<char>,
    result: Result<usize, String>,
) -> bool {
    match result {
        Ok(p) => executor_of(settings, target_id) == Some(p as int) && p
            < settings.peers@.len(),
        Err(message) => executor_of(settings, target_id) is None && message@ == text_in(
            locale,
            "本機無法切換，而且沒有其他已配對主機可代為執行："@,
            "Local switching failed and no other paired host can perform it: "@,
        ) + local_error,
    }
}

/// Which paired host carries out a switch that this computer could not, or what
/// is said where none can.
pub fn fallback_executor(
    locale: UiLocale,
    settings: &AppSettings,
    target_id: &str,
    local_error: &str,
) -> (result: Result<usize, String>)
    ensures
        is_executor(locale, *settings, target_id@, local_error@, result),
{
    let executor = if same_text(target_id, "local") {
        if settings.peers.len() == 1 {
            Some(0)
        } else {
            None
        }
    } else {
        peer_index(&settings.peers, target_id)
    };
    match executor {
        Some(p) => Ok(p),
        None => Err(
            join2(
                ui_text(
                    locale,
                    "本機無法切換，而且沒有其他已配對主機可代為執行：",
                    "Local switching failed and no other paired host can perform it: ",
                ),
                local_error,
            ),
        ),
    }
}

/// What is said where neither this computer nor the paired host could switch.
pub fn remote_failure_text(
    locale: UiLocale,
    executor_name: &str,
    local_error: &str,
    remote_error: &str,
) -> (text: String)
    ensures
        text@ == both_failed(locale, executor_name@, local_error@, remote_error@),
{
    match locale {
        UiLocale::TraditionalChinese => join2(
            &join5("本機與 ", executor_name, " 都無法切換。本機：", local_error, "；遠端："),
            remote_error,
        ),
        UiLocale::English => join2(
            &join5(
                "Neither this computer nor ",
                executor_name,
                " could switch. Local: ",
                local_error,
                "; remote: ",
            ),
            remote_error,
        ),
    }
}

/// What is said where a paired host carried the switch out.
pub fn remote_switch_result(
    locale: UiLocale,
    settings: &AppSettings,
    selected: &SelectedMonitor,
    executor_name: &str,
    input: DisplayInput,
    preparation: &NetworkPreparation,
) -> (result: OperationResult)
    ensures
        tells_of_remote_switch(
            locale,
            *settings,
            *selected,
            executor_name@,
            input,
            *preparation,
            result,
        ),
{
    let label = noted_input_label(locale, settings, selected, input);
    OperationResult {
        title: match locale {
            UiLocale::TraditionalChinese => join3("已由 ", executor_name, " 執行切換"),
            UiLocale::English => join2("Switch performed by ", executor_name),
        },
        detail: match locale {
            UiLocale::TraditionalChinese => join3("遠端主機已切換至 ", &label, "。"),
            UiLocale::English => join3("The remote host switched to ", &label, "."),
        },
        peer_woken: preparation.peer_woken(),
        warning: false,
    }
}

/// What is added where the target host could not be confirmed.
pub open spec fn unconfirmed_note(locale: UiLocale, preparation: NetworkPreparation) -> Seq<char> {
    match preparation {
        NetworkPreparation::Unavailable { wake_sent, reason } => match locale {
            UiLocale::TraditionalChinese => " "@ + (if wake_sent {
                "已先送出喚醒訊號，但"@
            } else {
                "無法送出喚醒訊號，且"@
            }) + "無法透過區域網路確認目標主機（"@ + reason@
                + "）；已自動改用本機 DDC/CI。若目標主機尚未就緒，螢幕可能暫時黑畫面。"@,
            UiLocale::English => " "@ + (if wake_sent {
                "A wake signal was sent, but "@
            } else {
                "A wake signal could not be sent, and "@
            }) + "the target host could not be confirmed over the local network ("@ + reason@
                + "); local DDC/CI was selected automatically. The display may be temporarily blank if the target host is not ready."@,
        },
        _ => seq![],
    }
}

/// The title of what a switch came to.
pub open spec fn outcome_title(locale: UiLocale, outcome: SwitchOutcome) -> Seq<char> {
    match outcome {
        SwitchOutcome::DryRun { .. } => text_in(locale, "檢查完成"@, "Check complete"@),
        SwitchOutcome::AlreadySelected { .. } => text_in(
            locale,
            "已在指定輸入"@,
            "Already on the assigned input"@,
        ),
        SwitchOutcome::Switched { .. } => text_in(
            locale,
            "共用螢幕已切換"@,
            "Shared display switched"@,
        ),
    }
}

/// What is said of what a switch came to; `first` and `second` are the names of
/// the inputs that it speaks of, in order.
pub open spec fn outcome_detail(
    locale: UiLocale,
    outcome: SwitchOutcome,
    first: Seq<char>,
    second: Seq<char>,
) -> Seq<char> {
    match outcome {
        SwitchOutcome::DryRun { .. } => text_in(
            locale,
            "未變更螢幕輸入。"@,
            "The display input was not changed."@,
        ),
        SwitchOutcome::AlreadySelected { target, .. } => match locale {
            UiLocale::TraditionalChinese => target.name@ + " 已使用 "@ + first + "。"@,
            UiLocale::English => target.name@ + " is already using "@ + first + "."@,
        },
        SwitchOutcome::Switched { target, .. } => match locale {
            UiLocale::TraditionalChinese => target.name@ + " 已由 "@ + first + " 切換至 "@
                + second + "。"@,
            UiLocale::English => target.name@ + " switched from "@ + first + " to "@ + second
                + "."@,
        },
    }
}

/// Whether `label` names the inputs that an outcome speaks of.
pub open spec fn names_inputs<F: Fn(DisplayInput) -> String>(
    label: F,
    outcome: SwitchOutcome,
    first: String,
    second: String,
) -> bool {
    match outcome {
        SwitchOutcome::DryRun { .. } => true,
        SwitchOutcome::AlreadySelected { input, .. } => label.ensures((input,), first),
        SwitchOutcome::Switched { previous, selected, .. } => label.ensures((previous,), first)
            && label.ensures((selected,), second),
    }
}

/// What the user is told of what a switch came to. Where the target host could
/// not be confirmed, that is added.
pub fn outcome_result<F: Fn(DisplayInput) -> String>(
    locale: UiLocale,
    outcome: SwitchOutcome,
    preparation: &NetworkPreparation,
    label: F,
) -> (result: OperationResult)
    requires
        forall|input: DisplayInput| label.requires((input,)),
    ensures
        result.title@ == outcome_title(locale, outcome),
        result.peer_woken == preparation.woke(),
        result.warning == (preparation is Unavailable),
        exists|first: String, second: String| #[trigger]
            names_inputs(label, outcome, first, second) && result.detail@ == outcome_detail(
                locale,
                outcome,
                first@,
                second@,
            ) + unconfirmed_note(locale, *preparation),
{
    let ghost outcome_said = outcome;
    let ghost mut first_name: String = arbitrary();
    let ghost mut second_name: String = arbitrary();
    let (title, mut detail) = match outcome {
        SwitchOutcome::DryRun { .. } => (
            ui_text(locale, "檢查完成", "Check complete").to_owned(),
            ui_text(
                locale,
                "未變更螢幕輸入。",
                "The display input was not changed.",
            ).to_owned(),
        ),
        SwitchOutcome::AlreadySelected { target, input } => {
            let name = label(input);
            proof {
                first_name = name;
            }
            let detail = match locale {
                UiLocale::TraditionalChinese => join4(&target.name, " 已使用 ", &name, "。"),
                UiLocale::English => join4(&target.name, " is already using ", &name, "."),
            };
            (
                ui_text(locale, "已在指定輸入", "Already on the assigned input").to_owned(),
                detail,
            )
        },
        SwitchOutcome::Switched { target, previous, selected } => {
            let from = label(previous);
            let to = label(selected);
            proof {
                first_name = from;
                second_name = to;
            }
            let detail = match locale {
                UiLocale::TraditionalChinese => join2(
                    &join5(&target.name, " 已由 ", &from, " 切換至 ", &to),
                    "。",
                ),
                UiLocale::English => join2(
                    &join5(&target.name, " switched from ", &from, " to ", &to),
                    ".",
                ),
            };
            (
                ui_text(locale, "共用螢幕已切換", "Shared display switched").to_owned(),
                detail,
            )
        },
    };
    let ghost plain = detail@;
    assert(names_inputs(label, outcome_said, first_name, second_name));
    assert(plain == outcome_detail(locale, outcome_said, first_name@, second_name@));
    match preparation {
        NetworkPreparation::Unavailable { wake_sent, reason } => {
            let note = match locale {
                UiLocale::TraditionalChinese => join5(
                    " ",
                    if *wake_sent {
                        "已先送出喚醒訊號，但"
                    } else {
                        "無法送出喚醒訊號，且"
                    },
                    "無法透過區域網路確認目標主機（",
                    reason,
                    "）；已自動改用本機 DDC/CI。若目標主機尚未就緒，螢幕可能暫時黑畫面。",
                ),
                UiLocale::English => join5(
                    " ",
                    if *wake_sent {
                        "A wake signal was sent, but "
                    } else {
                        "A wake signal could not be sent, and "
                    },
                    "the target host could not be confirmed over the local network (",
                    reason,
                    "); local DDC/CI was selected automatically. The display may be temporarily blank if the target host is not ready.",
                ),
            };
            assert(note@ == unconfirmed_note(locale, *preparation));
            detail = join2(&detail, &note);
        },
        _ => {
            assert(plain + unconfirmed_note(locale, *preparation) =~= plain);
        },
    }
    assert(detail@ == plain + unconfirmed_note(locale, *preparation));
    OperationResult {
        title,
        detail,
        peer_woken: preparation.peer_woken(),
        warning: preparation.warning(),
    }
}

/// How far a switch has come once its preparation is over.
pub enum SwitchState {
    /// This computer is to switch the display itself.
    SwitchingHere,
    /// The paired host that is to help is to be asked for its protocol version.
    AskingVersion { executor: usize, local_error: String },
    /// The paired host is to be asked to switch.
    AskingPeer { executor: usize, local_error: String, monitor: Option<MonitorFingerprint> },
    /// The display was switched: that is to be recorded and announced.
    Switched(OperationResult),
    /// The display was not switched.
    Failed(String),
}

/// What happened in a switch.
pub enum SwitchEvent {
    /// This computer tried to switch the display.
    TriedHere(Result<SwitchOutcome, DisplayMuxError>),
    /// The paired host told its protocol version, or did not answer.
    VersionKnown(Result<u32, String>),
    /// The paired host switched the display, or did not.
    PeerTried(Result<(), String>),
}

/// What is said where neither this computer nor the paired host could switch.
pub open spec fn both_failed(
    locale: UiLocale,
    executor_name: Seq<char>,
    local_error: Seq<char>,
    remote_error: Seq<char>,
) -> Seq<char> {
    match locale {
        UiLocale::TraditionalChinese => "本機與 "@ + executor_name + " 都無法切換。本機："@
            + local_error + "；遠端："@ + remote_error,
        UiLocale::English => "Neither this computer nor "@ + executor_name
            + " could switch. Local: "@ + local_error + "; remote: "@ + remote_error,
    }
}

/// Whether a switch failed with this text.
pub open spec fn failed_with(state: SwitchState, text: Seq<char>) -> bool {
    state matches SwitchState::Failed(said) && said@ == text
}

/// How an input of a selected display is called.
pub open spec fn input_called(
    locale: UiLocale,
    settings: AppSettings,
    selected: SelectedMonitor,
    input: DisplayInput,
) -> Seq<char> {
    noted_label_of(
        locale,
        settings.input_labels@,
        selected.fingerprint@,
        selected.vendor_indexed_inputs,
        input,
    )
}

/// The inputs that an outcome speaks of, in order.
pub open spec fn inputs_spoken_of(outcome: SwitchOutcome) -> (DisplayInput, DisplayInput) {
    match outcome {
        SwitchOutcome::DryRun { current, requested, .. } => (current, requested),
        SwitchOutcome::AlreadySelected { input, .. } => (input, input),
        SwitchOutcome::Switched { previous, selected, .. } => (previous, selected),
    }
}

/// Whether the user is told that this computer switched the display.
pub open spec fn tells_of_local_switch(
    locale: UiLocale,
    settings: AppSettings,
    selected: SelectedMonitor,
    outcome: SwitchOutcome,
    preparation: NetworkPreparation,
    result: OperationResult,
) -> bool {
    let (first, second) = inputs_spoken_of(outcome);
    &&& result.title@ == outcome_title(locale, outcome)
    &&& result.peer_woken == preparation.woke()
    &&& result.warning == (preparation is Unavailable)
    &&& result.detail@ == outcome_detail(
        locale,
        outcome,
        input_called(locale, settings, selected, first),
        input_called(locale, settings, selected, second),
    ) + unconfirmed_note(locale, preparation)
}

/// Whether the user is told that a paired host switched the display.
pub open spec fn tells_of_remote_switch(
    locale: UiLocale,
    settings: AppSettings,
    selected: SelectedMonitor,
    executor_name: Seq<char>,
    input: DisplayInput,
    preparation: NetworkPreparation,
    result: OperationResult,
) -> bool {
    let label = input_called(locale, settings, selected, input);
    &&& result.title@ == match locale {
        UiLocale::TraditionalChinese => "已由 "@ + executor_name + " 執行切換"@,
        UiLocale::English => "Switch performed by "@ + executor_name,
    }
    &&& result.detail@ == match locale {
        UiLocale::TraditionalChinese => "遠端主機已切換至 "@ + label + "。"@,
        UiLocale::English => "The remote host switched to "@ + label + "."@,
    }
    &&& result.peer_woken == preparation.woke()
    &&& !result.warning
}

/// Whether `after` is where a switch goes from `before` on an event: this
/// computer tries first; where it fails, a paired host that can help is asked,
/// and told which display only where it understands that. An event that the
/// state does not wait for changes nothing.
pub open spec fn is_switch_step(
    locale: UiLocale,
    settings: AppSettings,
    plan: SwitchPlan,
    target_id: Seq<char>,
    preparation: NetworkPreparation,
    before: SwitchState,
    event: SwitchEvent,
    after: SwitchState,
) -> bool {
    let selected = settings.shared_monitors@[plan.monitor as int];
    let chinese = locale == UiLocale::TraditionalChinese;
    match (before, event) {
        (SwitchState::SwitchingHere, SwitchEvent::TriedHere(Ok(outcome))) => {
            &&& after is Switched
            &&& tells_of_local_switch(
                locale,
                settings,
                selected,
                outcome,
                preparation,
                after->Switched_0,
            )
        },
        (SwitchState::SwitchingHere, SwitchEvent::TriedHere(Err(error))) => match executor_of(
            settings,
            target_id,
        ) {
            None => failed_with(
                after,
                text_in(
                    locale,
                    "本機無法切換，而且沒有其他已配對主機可代為執行："@,
                    "Local switching failed and no other paired host can perform it: "@,
                ) + error.message(chinese),
            ),
            Some(p) => after matches SwitchState::AskingVersion { executor, local_error } && executor
                == p && local_error@ == error.message(chinese),
        },
        (
            SwitchState::AskingVersion { executor, local_error },
            SwitchEvent::VersionKnown(answer),
        ) => {
            let name = settings.peers@[executor as int].name@;
            match answer {
                Err(remote) => failed_with(after, both_failed(locale, name, local_error@, remote@)),
                Ok(version) => if version >= AGENT_PROTOCOL_VERSION {
                    after == (SwitchState::AskingPeer {
                        executor,
                        local_error,
                        monitor: Some(selected.fingerprint),
                    })
                } else if settings.shared_monitors@.len() <= 1 {
                    after == (SwitchState::AskingPeer { executor, local_error, monitor: None })
                } else {
                    failed_with(
                        after,
                        both_failed(locale, name, local_error@, needs_update_text(locale)),
                    )
                },
            }
        },
        (
            SwitchState::AskingPeer { executor, local_error, .. },
            SwitchEvent::PeerTried(answer),
        ) => {
            let name = settings.peers@[executor as int].name@;
            match answer {
                Err(remote) => failed_with(after, both_failed(locale, name, local_error@, remote@)),
                Ok(_) => {
                    &&& after is Switched
                    &&& tells_of_remote_switch(
                        locale,
                        settings,
                        selected,
                        name,
                        plan.input,
                        preparation,
                        after->Switched_0,
                    )
                },
            }
        },
        _ => after == before,
    }
}

/// Whether a state speaks only of paired hosts that there are.
pub open spec fn is_switch_state(settings: AppSettings, state: SwitchState) -> bool {
    match state {
        SwitchState::AskingVersion { executor, .. } => executor < settings.peers@.len(),
        SwitchState::AskingPeer { executor, .. } => executor < settings.peers@.len(),
        _ => true,
    }
}

/// Where a switch goes on an event.
pub fn next_switch(
    locale: UiLocale,
    settings: &AppSettings,
    plan: &SwitchPlan,
    target_id: &str,
    preparation: &NetworkPreparation,
    state: SwitchState,
    event: SwitchEvent,
) -> (next: SwitchState)
    requires
        plan.monitor < settings.shared_monitors@.len(),
        is_switch_state(*settings, state),
    ensures
        is_switch_step(
            locale,
            *settings,
            *plan,
            target_id@,
            *preparation,
            state,
            event,
            next,
        ),
        is_switch_state(*settings, next),
{
    let selected = &settings.shared_monitors[plan.monitor];
    match (state, event) {
        (SwitchState::SwitchingHere, SwitchEvent::TriedHere(Ok(outcome))) => {
            let label = |input: DisplayInput| -> (text: String)
                ensures
                    text@ == input_called(locale, *settings, *selected, input),
                { noted_input_label(locale, settings, selected, input) };
            let ghost said = outcome;
            let result = outcome_result(locale, outcome, preparation, label);
            proof {
                let (first, second) = choose|first: String, second: String|
                    #[trigger] names_inputs(label, said, first, second) && result.detail@
                        == outcome_detail(locale, said, first@, second@) + unconfirmed_note(
                        locale,
                        *preparation,
                    );
                let (a, b) = inputs_spoken_of(said);
                assert(outcome_detail(locale, said, first@, second@) == outcome_detail(
                    locale,
                    said,
                    input_called(locale, *settings, *selected, a),
                    input_called(locale, *settings, *selected, b),
                ));
            }
            SwitchState::Switched(result)
        },
        (SwitchState::SwitchingHere, SwitchEvent::TriedHere(Err(error))) => {
            let local_error = core_user_error(locale, &error);
            match fallback_executor(locale, settings, target_id, &local_error) {
                Ok(executor) => SwitchState::AskingVersion { executor, local_error },
                Err(message) => SwitchState::Failed(message),
            }
        },
        (
            SwitchState::AskingVersion { executor, local_error },
            SwitchEvent::VersionKnown(answer),
        ) => {
            let name = &settings.peers[executor].name;
            match answer {
                Err(remote) => SwitchState::Failed(
                    remote_failure_text(locale, name, &local_error, &remote),
                ),
                Ok(version) => match plan_switch_input(
                    locale,
                    version,
                    settings.shared_monitors.len(),
                    &selected.fingerprint,
                ) {
                    Ok(monitor) => SwitchState::AskingPeer { executor, local_error, monitor },
                    Err(message) => SwitchState::Failed(
                        remote_failure_text(locale, name, &local_error, &message),
                    ),
                },
            }
        },
        (
            SwitchState::AskingPeer { executor, local_error, monitor },
            SwitchEvent::PeerTried(answer),
        ) => {
            let name = &settings.peers[executor].name;
            match answer {
                Err(remote) => SwitchState::Failed(
                    remote_failure_text(locale, name, &local_error, &remote),
                ),
                Ok(_) => SwitchState::Switched(
                    remote_switch_result(
                        locale,
                        settings,
                        selected,
                        name,
                        plan.input,
                        preparation,
                    ),
                ),
            }
        },
        (state, _) => state,
    }
}

/// How many more events a switch can take.
pub open spec fn switch_steps_left(state: SwitchState) -> nat {
    match state {
        SwitchState::SwitchingHere => 3,
        SwitchState::AskingVersion { .. } => 2,
        SwitchState::AskingPeer { .. } => 1,
        _ => 0,
    }
}

/// Whether an event is what the state of a switch waits for.
pub open spec fn is_awaited_by_switch(state: SwitchState, event: SwitchEvent) -> bool {
    match state {
        SwitchState::SwitchingHere => event is TriedHere,
        SwitchState::AskingVersion { .. } => event is VersionKnown,
        SwitchState::AskingPeer { .. } => event is PeerTried,
        _ => false,
    }
}

/// Every switch ends, and counts as done only where this computer or the paired
/// host did it.
pub proof fn a_switch_ends_and_is_done_only_once_somebody_did_it(
    locale: UiLocale,
    settings: AppSettings,
    plan: SwitchPlan,
    target_id: Seq<char>,
    preparation: NetworkPreparation,
    before: SwitchState,
    event: SwitchEvent,
    after: SwitchState,
)
    requires
        is_switch_step(locale, settings, plan, target_id, preparation, before, event, after),
        is_awaited_by_switch(before, event),
    ensures
        switch_steps_left(after) < switch_steps_left(before),
        after is Switched ==> (event matches SwitchEvent::TriedHere(Ok(_))) || (
        event matches SwitchEvent::PeerTried(Ok(_))),
{
}

/// Where a paired host is reached, by what reading its address gave.
pub fn route_endpoint(locale: UiLocale, peer: &HostRoute, address: Option<HostAddress>) -> (result:
    Result<PeerEndpoint, DisplayMuxError>)
    ensures
        match (address, result) {
            (Some(found), Ok(endpoint)) => endpoint == (PeerEndpoint {
                address: found,
                port: peer.port,
            }),
            (None, Err(error)) => error matches DisplayMuxError::PeerUnavailable(text) && text@
                == peer.name@ + text_in(
                locale,
                " 的 IP 位址無效"@,
                " has an invalid IP address"@,
            ),
            _ => false,
        },
{
    match address {
        Some(found) => Ok(PeerEndpoint { address: found, port: peer.port }),
        None => Err(
            DisplayMuxError::PeerUnavailable(
                join2(
                    &peer.name,
                    ui_text(locale, " 的 IP 位址無效", " has an invalid IP address"),
                ),
            ),
        ),
    }
}

/// Whether `result` is where a paired host is asked, or why it cannot be.
pub open spec fn is_request_target(
    locale: UiLocale,
    settings: AppSettings,
    peer: HostRoute,
    address: Option<HostAddress>,
    result: Result<PeerEndpoint, String>,
) -> bool {
    match result {
        Ok(endpoint) => address == Some(endpoint.address) && endpoint.port == peer.port
            && valid_key(settings.shared_key@),
        Err(message) => {
            ||| address is None && message@ == peer.name@ + text_in(
                locale,
                " 的 IP 位址無效"@,
                " has an invalid IP address"@,
            )
            ||| address is Some && !valid_key(settings.shared_key@) && message@ == match locale {
                UiLocale::TraditionalChinese => "請先設定至少 "@ + decimal(
                    MIN_SHARED_KEY_LENGTH as nat,
                ) + " 個字元的配對密碼"@,
                UiLocale::English => "Configure a pairing password of at least "@ + decimal(
                    MIN_SHARED_KEY_LENGTH as nat,
                ) + " characters first"@,
            }
        },
    }
}

/// Where and whether a paired host can be asked: its address must be one, and
/// the pairing password long enough.
pub fn request_target(
    locale: UiLocale,
    settings: &AppSettings,
    peer: &HostRoute,
    address: Option<HostAddress>,
) -> (result: Result<PeerEndpoint, String>)
    ensures
        is_request_target(locale, *settings, *peer, address, result),
{
    let endpoint = match route_endpoint(locale, peer, address) {
        Ok(endpoint) => endpoint,
        Err(error) => return Err(core_user_error(locale, &error)),
    };
    if !has_valid_shared_key(&settings.shared_key) {
        let least = decimal_text(MIN_SHARED_KEY_LENGTH as u64);
        return Err(
            match locale {
                UiLocale::TraditionalChinese => join3("請先設定至少 ", &least, " 個字元的配對密碼"),
                UiLocale::English => join3(
                    "Configure a pairing password of at least ",
                    &least,
                    " characters first",
                ),
            },
        );
    }
    Ok(endpoint)
}

/// Whether `result` is what the answer of a paired host means.
pub open spec fn is_peer_answer(
    locale: UiLocale,
    answer: Result<AgentResponse, DisplayMuxError>,
    result: Result<AgentResponse, String>,
) -> bool {
    match (answer, result) {
        (Ok(response), Ok(ready)) => response.ready && ready == response,
        (Ok(response), Err(message)) => !response.ready && message == response.message,
        (Err(error), Err(message)) => message@ == error.message(
            locale == UiLocale::TraditionalChinese,
        ),
        (Err(_), Ok(_)) => false,
    }
}

/// What the answer of a paired host means: a host that is not ready says why.
pub fn peer_answer(
    locale: UiLocale,
    answer: Result<AgentResponse, DisplayMuxError>,
) -> (result: Result<AgentResponse, String>)
    ensures
        is_peer_answer(locale, answer, result),
{
    match answer {
        Ok(response) => if response.ready {
            Ok(response)
        } else {
            Err(response.message)
        },
        Err(error) => Err(core_user_error(locale, &error)),
    }
}

/// Whether `result` is the host to wake and where to broadcast for it, or why it cannot
/// be woken.
pub open spec fn is_wake_target(
    locale: UiLocale,
    settings: AppSettings,
    peer: HostRoute,
    broadcast: Option<[u8; 4]>,
    result: Result<WakeTarget, String>,
) -> bool {
    let no_mac = trimmed(peer.mac_address@).len() == 0;
    let mac = mac_of(peer.mac_address@);
    match result {
        Ok(target) => {
            &&& !no_mac
            &&& mac == Some(target.mac_address.bytes@)
            &&& broadcast == Some(target.broadcast_address)
            &&& target.port == settings.wake_port
        },
        Err(message) => {
            ||| no_mac && message@ == peer.name@ + text_in(
                locale,
                " 沒有提供可用的 MAC 位址，因此無法使用 Wake-on-LAN；主機醒著時仍可切換"@,
                " has no usable MAC address, so Wake-on-LAN is unavailable; switching still works while the host is awake"@,
            )
            ||| !no_mac && mac is None && message@ == text_in(
                locale,
                "無效的 MAC 位址："@,
                "Invalid MAC address: "@,
            ) + peer.mac_address@
            ||| !no_mac && mac is Some && broadcast is None && message@ == text_in(
                locale,
                "廣播位址格式無效"@,
                "Invalid broadcast address"@,
            )
        },
    }
}

/// Which host to wake, and where to broadcast for it, by what reading the
/// broadcast address gave.
pub fn wake_target(
    locale: UiLocale,
    settings: &AppSettings,
    peer: &HostRoute,
    broadcast: Option<[u8; 4]>,
) -> (result: Result<WakeTarget, String>)
    ensures
        is_wake_target(locale, *settings, *peer, broadcast, result),
{
    let mac = trim(&peer.mac_address);
    if mac.as_str().is_empty() {
        return Err(
            join2(
                &peer.name,
                ui_text(
                    locale,
                    " 沒有提供可用的 MAC 位址，因此無法使用 Wake-on-LAN；主機醒著時仍可切換",
                    " has no usable MAC address, so Wake-on-LAN is unavailable; switching still works while the host is awake",
                ),
            ),
        );
    }
    let mac_address = match MacAddress::parse(&peer.mac_address) {
        Ok(address) => address,
        Err(error) => return Err(core_user_error(locale, &error)),
    };
    match broadcast {
        Some(broadcast_address) => Ok(
            WakeTarget { mac_address, broadcast_address, port: settings.wake_port },
        ),
        None => Err(
            ui_text(locale, "廣播位址格式無效", "Invalid broadcast address").to_owned(),
        ),
    }
}

/// What is said once a wake signal was sent.
pub fn wake_result(locale: UiLocale, peer: &HostRoute) -> (result: OperationResult)
    ensures
        result.title@ == text_in(locale, "已送出喚醒訊號給 "@, "Wake signal sent to "@)
            + peer.name@,
        result.detail@ == text_in(
            locale,
            "主機是否能喚醒仍取決於電源與網路設定。"@,
            "Whether the host wakes still depends on its power and network settings."@,
        ),
        result.peer_woken,
        !result.warning,
{
    OperationResult {
        title: join2(ui_text(locale, "已送出喚醒訊號給 ", "Wake signal sent to "), &peer.name),
        detail: ui_text(
            locale,
            "主機是否能喚醒仍取決於電源與網路設定。",
            "Whether the host wakes still depends on its power and network settings.",
        ).to_owned(),
        peer_woken: true,
        warning: false,
    }
}

} // verus!
