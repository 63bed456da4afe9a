//! What the dashboard shows of the shared displays.

use crate::connection::MonitorConnection;
use crate::domain::{DestinationHost, DisplayInput, MonitorDescriptor, MonitorFingerprint, MonitorIdentityLink};
use crate::error::DisplayMuxError;
use crate::host_alias::{alias_for, alias_of};
use crate::inventory::{
    are_synced, conflicts, connection_input_conflict, display_index, is_display_of,
    is_input_refresh, is_inventory_result, is_reconciliation, is_uncontrollable,
    monitor_inventory, reconcile_monitor_selection, refresh_selected_input_data,
    sync_active_routes_with_live_inputs, uncontrollable_monitors, MonitorInventory,
    MonitorSelectionChange,
};
use crate::lists::{first_at, some_item};
use crate::locale::{text_in, ui_text, UiLocale};
use crate::port::MonitorControl;
use crate::settings::{
    has_id, has_valid_shared_key, key_of, selects, share_monitor, monitor_identity_claims, monitor_key, peer_index,
    shows_claim, standing_claims, valid_key, AppSettings, MonitorIdentityClaim, SelectedMonitor,
};
use crate::sharing::{display_missing, display_not_found, has_monitor_id, present_index};
use crate::text::{join2, join3, join4, same_text, views};
use vstd::prelude::*;

verus! {

/// Whether this computer can use a shared display right now, and if not, why.
#[derive(Clone, Copy, Debug, PartialEq, Eq, Structural)]
pub enum SharedDisplayState {
    /// This computer reads the display's input over DDC/CI.
    Ready,
    /// The display is showing a paired host. Some displays (the MSI MPG 274U
    /// over USB-C, for one) stop answering DDC/CI on inputs they are not
    /// showing, so this is expected rather than a fault; switching back falls
    /// back to asking the paired host.
    OnOtherHost,
    /// Missing, or unreadable with no known reason.
    Unavailable,
}

/// The state of a display, by whether it is read and which host it is said to
/// show.
pub open spec fn display_state_of(
    ddc_readable: bool,
    active_route: Option<Seq<char>>,
) -> SharedDisplayState {
    if ddc_readable {
        SharedDisplayState::Ready
    } else if active_route matches Some(route) && route != "local"@ {
        SharedDisplayState::OnOtherHost
    } else {
        SharedDisplayState::Unavailable
    }
}

pub fn shared_display_state(ddc_readable: bool, active_route: Option<&str>) -> (state:
    SharedDisplayState)
    ensures
        state == display_state_of(ddc_readable, crate::network::optional_view(active_route)),
{
    if ddc_readable {
        return SharedDisplayState::Ready;
    }
    match active_route {
        Some(route) => if same_text(route, "local") {
            SharedDisplayState::Unavailable
        } else {
            SharedDisplayState::OnOtherHost
        },
        None => SharedDisplayState::Unavailable,
    }
}

/// What the dashboard shows of one shared display.
#[derive(Debug, PartialEq, Eq)]
pub struct SharedMonitorStatus {
    pub monitor_key: String,
    pub fingerprint: MonitorFingerprint,
    pub name: String,
    pub ddc_available: bool,
    pub display_state: SharedDisplayState,
    pub status_text: String,
    pub connection: Option<MonitorConnection>,
    pub connection_input_conflict: bool,
}

/// What is said of the state of a shared display.
pub open spec fn status_text_of(
    locale: UiLocale,
    name: Seq<char>,
    state: SharedDisplayState,
    target_detected: bool,
    showing_host: Option<Seq<char>>,
) -> Seq<char> {
    let host = match showing_host {
        Some(found) => found,
        None => text_in(locale, "另一台主機"@, "another host"@),
    };
    match (state, locale) {
        (SharedDisplayState::OnOtherHost, UiLocale::TraditionalChinese) => name + " 目前顯示 "@
            + host + "；顯示其他主機時，這台螢幕不回應這台電腦的 DDC/CI"@,
        (SharedDisplayState::OnOtherHost, UiLocale::English) => name + " is showing "@ + host
            + ". While it shows another host, it does not answer this computer's DDC/CI"@,
        (SharedDisplayState::Ready, UiLocale::TraditionalChinese) => "已鎖定共用螢幕："@ + name,
        (SharedDisplayState::Ready, UiLocale::English) => "Shared display locked: "@ + name,
        (SharedDisplayState::Unavailable, UiLocale::TraditionalChinese) => if target_detected {
            "已偵測到 "@ + name + "，但目前無法讀取 DDC/CI 輸入"@
        } else {
            "找不到先前選擇的共用螢幕："@ + name
        },
        (SharedDisplayState::Unavailable, UiLocale::English) => if target_detected {
            name + " was detected, but its DDC/CI input cannot be read"@
        } else {
            "Previously selected shared display was not found: "@ + name
        },
    }
}

pub fn shared_monitor_status_text(
    locale: UiLocale,
    name: &str,
    state: SharedDisplayState,
    target_detected: bool,
    showing_host: Option<&str>,
) -> (text: String)
    ensures
        text@ == status_text_of(
            locale,
            name@,
            state,
            target_detected,
            crate::network::optional_view(showing_host),
        ),
{
    if state == SharedDisplayState::OnOtherHost {
        let host = match showing_host {
            Some(found) => found,
            None => ui_text(locale, "另一台主機", "another host"),
        };
        return match locale {
            UiLocale::TraditionalChinese => join4(
                name,
                " 目前顯示 ",
                host,
                "；顯示其他主機時，這台螢幕不回應這台電腦的 DDC/CI",
            ),
            UiLocale::English => join4(
                name,
                " is showing ",
                host,
                ". While it shows another host, it does not answer this computer's DDC/CI",
            ),
        };
    }
    if state == SharedDisplayState::Ready {
        return match locale {
            UiLocale::TraditionalChinese => join2("已鎖定共用螢幕：", name),
            UiLocale::English => join2("Shared display locked: ", name),
        };
    }
    if target_detected {
        return match locale {
            UiLocale::TraditionalChinese => join3(
                "已偵測到 ",
                name,
                "，但目前無法讀取 DDC/CI 輸入",
            ),
            UiLocale::English => join2(
                name,
                " was detected, but its DDC/CI input cannot be read",
            ),
        };
    }
    match locale {
        UiLocale::TraditionalChinese => join2("找不到先前選擇的共用螢幕：", name),
        UiLocale::English => join2("Previously selected shared display was not found: ", name),
    }
}

/// The name of the paired host that a display is said to show: its custom name
/// where it has one.
pub open spec fn showing_host_of(settings: AppSettings, selected: SelectedMonitor) -> Option<
    Seq<char>,
> {
    match selected.active_route {
        None => None,
        Some(route) => {
            let p = first_at(settings.peers@, has_id(route@));
            if p < settings.peers@.len() {
                match alias_of(settings.host_aliases@, settings.peers@[p].id@) {
                    Some(name) => Some(name),
                    None => Some(settings.peers@[p].name@),
                }
            } else {
                None
            }
        },
    }
}

fn showing_host<'a>(settings: &'a AppSettings, selected: &SelectedMonitor) -> (name: Option<&'a str>)
    ensures
        crate::network::optional_view(name) == showing_host_of(*settings, *selected),
{
    match &selected.active_route {
        None => None,
        Some(route) => match peer_index(&settings.peers, route) {
            Some(p) => match alias_for(&settings.host_aliases, &settings.peers[p].id) {
                Some(name) => Some(name),
                None => Some(settings.peers[p].name.as_str()),
            },
            None => None,
        },
    }
}

/// The connection of a selected display, where it is detected.
pub open spec fn detected_connection(
    settings: AppSettings,
    inventory: MonitorInventory,
    selected: SelectedMonitor,
) -> Option<MonitorConnection> {
    let i = first_at(
        inventory.detected@,
        is_display_of(settings.monitor_identity_links@, selected),
    );
    if i < inventory.detected@.len() {
        inventory.detected@[i].connection
    } else {
        None
    }
}

/// The route that a display is said to show, where one was recorded.
pub open spec fn recorded_route(selected: SelectedMonitor) -> Option<Seq<char>> {
    match selected.active_route {
        Some(route) => Some(route@),
        None => None,
    }
}

/// Whether a status says of a shared display what the displays present show.
pub open spec fn is_status_of(
    status: SharedMonitorStatus,
    locale: UiLocale,
    settings: AppSettings,
    inventory: MonitorInventory,
    selected: SelectedMonitor,
) -> bool {
    let wanted = is_display_of(settings.monitor_identity_links@, selected);
    let found = some_item(inventory.controllable@, wanted);
    let state = display_state_of(found, recorded_route(selected));
    &&& status.monitor_key@ == key_of(selected.fingerprint@)
    &&& status.fingerprint == selected.fingerprint
    &&& status.name == selected.name
    &&& status.ddc_available == found
    &&& status.display_state == state
    &&& status.status_text@ == status_text_of(
        locale,
        selected.name@,
        state,
        some_item(inventory.detected@, wanted),
        showing_host_of(settings, selected),
    )
    &&& status.connection == detected_connection(settings, inventory, selected)
    &&& status.connection_input_conflict == conflicts(
        selected,
        detected_connection(settings, inventory, selected),
    )
}

fn status_of(
    locale: UiLocale,
    settings: &AppSettings,
    inventory: &MonitorInventory,
    selected: &SelectedMonitor,
) -> (status: SharedMonitorStatus)
    ensures
        is_status_of(status, locale, *settings, *inventory, *selected),
{
    let links = &settings.monitor_identity_links;
    let found = display_index(&inventory.controllable, links, selected).is_some();
    let detected = display_index(&inventory.detected, links, selected);
    let connection = match detected {
        Some(i) => inventory.detected[i].connection.clone(),
        None => None,
    };
    let display_state = match &selected.active_route {
        Some(route) => shared_display_state(found, Some(route.as_str())),
        None => shared_display_state(found, None),
    };
    let status_text = shared_monitor_status_text(
        locale,
        &selected.name,
        display_state,
        detected.is_some(),
        showing_host(settings, selected),
    );
    let conflict = connection_input_conflict(selected, connection.as_ref());
    SharedMonitorStatus {
        monitor_key: monitor_key(&selected.fingerprint),
        fingerprint: selected.fingerprint.clone(),
        name: selected.name.clone(),
        ddc_available: found,
        display_state,
        status_text,
        connection,
        connection_input_conflict: conflict,
    }
}

/// Whether a status says of a shared display that the displays could not be
/// looked at.
pub open spec fn is_failed_status(
    status: SharedMonitorStatus,
    message: Seq<char>,
    selected: SelectedMonitor,
) -> bool {
    &&& status.monitor_key@ == key_of(selected.fingerprint@)
    &&& status.fingerprint == selected.fingerprint
    &&& status.name == selected.name
    &&& !status.ddc_available
    &&& status.display_state == SharedDisplayState::Unavailable
    &&& status.status_text@ == message
    &&& status.connection is None
    &&& !status.connection_input_conflict
}

/// What the user is told of a change of the selection, if anything.
pub open spec fn notice_of(locale: UiLocale, change: MonitorSelectionChange) -> Option<Seq<char>> {
    match change {
        MonitorSelectionChange::SelectedOnlyMonitor { name } => Some(
            text_in(
                locale,
                "已自動選取唯一可控制的 DDC/CI 螢幕："@,
                "Automatically selected the only controllable DDC/CI display: "@,
            ) + name@,
        ),
        MonitorSelectionChange::RefreshedMetadata { .. } => None,
    }
}

pub fn selection_notice_text(locale: UiLocale, change: &MonitorSelectionChange) -> (notice: Option<
    String,
>)
    ensures
        match notice {
            Some(text) => notice_of(locale, *change) == Some(text@),
            None => notice_of(locale, *change) is None,
        },
{
    match change {
        MonitorSelectionChange::SelectedOnlyMonitor { name } => Some(
            join2(
                ui_text(
                    locale,
                    "已自動選取唯一可控制的 DDC/CI 螢幕：",
                    "Automatically selected the only controllable DDC/CI display: ",
                ),
                name,
            ),
        ),
        MonitorSelectionChange::RefreshedMetadata { .. } => None,
    }
}

/// What the user is told of the changes, in order.
pub open spec fn notices_of(locale: UiLocale, changes: Seq<MonitorSelectionChange>) -> Seq<
    Seq<char>,
>
    decreases changes.len(),
{
    if changes.len() == 0 {
        seq![]
    } else {
        match notice_of(locale, changes.last()) {
            Some(text) => notices_of(locale, changes.drop_last()).push(text),
            None => notices_of(locale, changes.drop_last()),
        }
    }
}

fn notice_texts(locale: UiLocale, changes: &Vec<MonitorSelectionChange>) -> (notices: Vec<String>)
    ensures
        views(notices@) == notices_of(locale, changes@),
{
    let mut notices: Vec<String> = Vec::new();
    assert(views(notices@) =~= notices_of(locale, changes@.take(0)));
    let mut i: usize = 0;
    while i < changes.len()
        invariant
            i <= changes@.len(),
            views(notices@) == notices_of(locale, changes@.take(i as int)),
        decreases changes@.len() - i,
    {
        assert(changes@.take(i + 1).drop_last() =~= changes@.take(i as int));
        let ghost before = views(notices@);
        if let Some(text) = selection_notice_text(locale, &changes[i]) {
            notices.push(text);
            assert(views(notices@) =~= before.push(text@));
        }
        i += 1;
    }
    assert(changes@.take(changes@.len() as int) =~= changes@);
    notices
}

/// What the dashboard shows.
#[derive(Debug)]
pub struct DashboardState {
    pub platform: String,
    pub local_host: DestinationHost,
    pub agent_configured: bool,
    pub monitors: Vec<MonitorDescriptor>,
    pub uncontrollable_monitors: Vec<MonitorDescriptor>,
    pub shared: Vec<SharedMonitorStatus>,
    pub selection_notices: Vec<String>,
    pub monitor_identity_claims: Vec<MonitorIdentityClaim>,
    /// The name paired hosts discover this computer by, so its own card can
    /// default to it rather than to a generic "this Mac".
    pub local_host_name: String,
}

/// What a scan of the displays came to.
#[derive(Debug)]
pub struct DashboardScan {
    pub state: DashboardState,
    /// Whether the settings changed and are to be saved.
    pub settings_changed: bool,
    /// Whether the displays could be looked at, so that inputs can be
    /// announced.
    pub scanned: bool,
}

/// Whether a selection went from `before` to `after` as the display that it
/// names, where it is present, was asked about its inputs.
pub open spec fn is_selection_refresh<C: MonitorControl>(
    controller: &C,
    links: Seq<MonitorIdentityLink>,
    controllable: Seq<MonitorDescriptor>,
    before: SelectedMonitor,
    after: SelectedMonitor,
) -> bool {
    let i = first_at(controllable, is_display_of(links, before));
    if i < controllable.len() {
        exists|result: Result<(), DisplayMuxError>| #[trigger]
            is_input_refresh(controller, controllable[i], before, after, result)
    } else {
        after == before
    }
}

/// Whether every selection was refreshed, and nothing else changed.
pub open spec fn is_settings_refresh<C: MonitorControl>(
    controller: &C,
    controllable: Seq<MonitorDescriptor>,
    before: AppSettings,
    after: AppSettings,
) -> bool {
    &&& after == (AppSettings { shared_monitors: after.shared_monitors, ..before })
    &&& after.shared_monitors@.len() == before.shared_monitors@.len()
    &&& forall|k: int|
        0 <= k < before.shared_monitors@.len() ==> is_selection_refresh(
            controller,
            before.monitor_identity_links@,
            controllable,
            before.shared_monitors@[k],
            #[trigger] after.shared_monitors@[k],
        )
}

/// Asks every selected display that is present about its inputs.
pub fn refresh_present_selections<C: MonitorControl>(
    controller: &C,
    settings: &mut AppSettings,
    controllable: &Vec<MonitorDescriptor>,
)
    ensures
        is_settings_refresh(controller, controllable@, *old(settings), *final(settings)),
{
    let ghost before = settings.shared_monitors@;
    let ghost links = settings.monitor_identity_links@;
    let mut k: usize = 0;
    while k < settings.shared_monitors.len()
        invariant
            k <= settings.shared_monitors@.len() == before.len(),
            before == old(settings).shared_monitors@,
            links == settings.monitor_identity_links@,
            *settings == (AppSettings { shared_monitors: settings.shared_monitors, ..*old(settings) }),
            forall|j: int|
                0 <= j < k ==> is_selection_refresh(
                    controller,
                    links,
                    controllable@,
                    before[j],
                    #[trigger] settings.shared_monitors@[j],
                ),
            forall|j: int| k <= j < before.len() ==> settings.shared_monitors@[j] == before[j],
        decreases before.len() - k,
    {
        if let Some(at) = display_index(
            controllable,
            &settings.monitor_identity_links,
            &settings.shared_monitors[k],
        ) {
            let selected = &mut settings.shared_monitors[k];
            let result = refresh_selected_input_data(controller, &controllable[at], selected);
            assert(is_input_refresh(
                controller,
                controllable@[at as int],
                before[k as int],
                *selected,
                result,
            ));
        }
        k += 1;
    }
}

/// The shared displays once a display is shared: it is added unless one of them
/// is that display already.
pub open spec fn shared_with(before: AppSettings, monitor: MonitorDescriptor) -> Seq<
    SelectedMonitor,
> {
    let s = first_at(
        before.shared_monitors@,
        selects(before.monitor_identity_links@, monitor.fingerprint@),
    );
    if s < before.shared_monitors@.len() {
        before.shared_monitors@
    } else {
        before.shared_monitors@.push(SelectedMonitor::selected_from(monitor))
    }
}

/// Whether sharing a display, named by its platform id, went so: it must be
/// detected; unless it is shared already it is added; and where it answers, it
/// is asked about its inputs.
pub open spec fn is_sharing<C: MonitorControl>(
    controller: &C,
    locale: UiLocale,
    inventory: MonitorInventory,
    monitor_id: Seq<char>,
    before: AppSettings,
    after: AppSettings,
    result: Result<(), String>,
) -> bool {
    let d = first_at(inventory.detected@, has_monitor_id(monitor_id));
    let monitor = inventory.detected@[d];
    let s = first_at(
        before.shared_monitors@,
        selects(before.monitor_identity_links@, monitor.fingerprint@),
    );
    let shared = shared_with(before, monitor);
    if d == inventory.detected@.len() {
        result is Err && result->Err_0@ == display_missing(locale) && after == before
    } else {
        &&& after == (AppSettings {
            shared_monitors: after.shared_monitors,
            shared_monitors_chosen: true,
            ..before
        })
        &&& if some_item(inventory.controllable@, has_monitor_id(monitor.id.text@)) {
            &&& 0 <= s < after.shared_monitors@.len()
            &&& after.shared_monitors@ == shared.update(s, after.shared_monitors@[s])
            &&& exists|read: Result<(), DisplayMuxError>|
                {
                    &&& #[trigger] is_input_refresh(
                        controller,
                        monitor,
                        shared[s],
                        after.shared_monitors@[s],
                        read,
                    )
                    &&& match read {
                        Ok(_) => result is Ok,
                        Err(error) => result is Err && result->Err_0@ == error.message(
                            locale == UiLocale::TraditionalChinese,
                        ),
                    }
                }
        } else {
            after.shared_monitors@ == shared && result is Ok
        }
    }
}

/// Shares a display that is present. Any detected display may be shared, not
/// only one answering DDC/CI right now: a display refuses DDC/CI while it is
/// showing another host or asleep, and that is exactly the display the user is
/// trying to share. Where the result is an error, the settings are not to be
/// saved.
pub fn add_shared_monitor<C: MonitorControl>(
    locale: UiLocale,
    controller: &C,
    settings: &mut AppSettings,
    monitor_id: &str,
) -> (result: Result<(), String>)
    ensures
        exists|
            listed: Result<Vec<MonitorDescriptor>, DisplayMuxError>,
            reads: Seq<Result<DisplayInput, DisplayMuxError>>,
            found: Result<MonitorInventory, DisplayMuxError>,
        |
            {
                &&& #[trigger] is_inventory_result(controller, listed, reads, found)
                &&& match found {
                    Err(error) => {
                        &&& result is Err
                        &&& result->Err_0@ == error.message(locale == UiLocale::TraditionalChinese)
                        &&& *final(settings) == *old(settings)
                    },
                    Ok(inventory) => is_sharing(
                        controller,
                        locale,
                        inventory,
                        monitor_id@,
                        *old(settings),
                        *final(settings),
                        result,
                    ),
                }
            },
{
    let found = monitor_inventory(controller);
    let ghost g_found = found;
    let ghost (listed, reads) = choose|
        listed: Result<Vec<MonitorDescriptor>, DisplayMuxError>,
        reads: Seq<Result<DisplayInput, DisplayMuxError>>,
    | #[trigger]
        is_inventory_result(controller, listed, reads, found);
    assert(is_inventory_result(controller, listed, reads, g_found));
    let inventory = match found {
        Ok(inventory) => inventory,
        Err(error) => return Err(core_user_error(locale, &error)),
    };
    let d = match present_index(&inventory.detected, monitor_id) {
        Some(d) => d,
        None => return Err(display_not_found(locale)),
    };
    let monitor = &inventory.detected[d];
    let readable = present_index(&inventory.controllable, monitor.id.as_str()).is_some();
    let ghost before = *settings;
    let s = share_monitor(settings, monitor);
    if !readable {
        return Ok(());
    }
    let ghost shared = settings.shared_monitors@;
    assert(shared == shared_with(before, *monitor));
    // Its inputs are read when it answers again; until then the display is
    // reported as unavailable rather than dropped.
    let selected = &mut settings.shared_monitors[s];
    let read = refresh_selected_input_data(controller, monitor, selected);
    assert(is_input_refresh(controller, *monitor, shared[s as int], *selected, read));
    assert(settings.shared_monitors@ =~= shared.update(
        s as int,
        settings.shared_monitors@[s as int],
    ));
    let ghost answer = read;
    let result = match read {
        Ok(_) => Ok(()),
        Err(error) => Err(core_user_error(locale, &error)),
    };
    assert(is_input_refresh(
        controller,
        *monitor,
        shared_with(before, *monitor)[s as int],
        settings.shared_monitors@[s as int],
        answer,
    ));
    assert(is_sharing(
        controller,
        locale,
        inventory,
        monitor_id@,
        *old(settings),
        *settings,
        result,
    ));
    result
}

/// Whether the dashboard shows the displays present.
pub open spec fn shows_displays(
    state: DashboardState,
    locale: UiLocale,
    settings: AppSettings,
    inventory: MonitorInventory,
    changes: Seq<MonitorSelectionChange>,
) -> bool {
    &&& state.monitors@ == inventory.controllable@
    &&& state.uncontrollable_monitors@ == inventory.detected@.filter(
        is_uncontrollable(inventory.controllable@),
    )
    &&& state.shared@.len() == settings.shared_monitors@.len()
    &&& forall|k: int|
        0 <= k < state.shared@.len() ==> is_status_of(
            #[trigger] state.shared@[k],
            locale,
            settings,
            inventory,
            settings.shared_monitors@[k],
        )
    &&& views(state.selection_notices@) == notices_of(locale, changes)
}

/// Whether the dashboard shows that the displays could not be looked at.
pub open spec fn shows_failure(
    state: DashboardState,
    locale: UiLocale,
    settings: AppSettings,
    error: DisplayMuxError,
) -> bool {
    &&& state.monitors@.len() == 0
    &&& state.uncontrollable_monitors@.len() == 0
    &&& state.selection_notices@.len() == 0
    &&& state.shared@.len() == settings.shared_monitors@.len()
    &&& forall|k: int|
        0 <= k < state.shared@.len() ==> is_failed_status(
            #[trigger] state.shared@[k],
            error.message(locale == UiLocale::TraditionalChinese),
            settings.shared_monitors@[k],
        )
}

/// Whether the dashboard shows what is known apart from the displays present.
pub open spec fn shows_settings(
    state: DashboardState,
    settings: AppSettings,
    platform: Seq<char>,
    local_host_name: Seq<char>,
) -> bool {
    &&& state.platform@ == platform
    &&& state.local_host == settings.local_host
    &&& state.agent_configured == valid_key(settings.shared_key@)
    &&& state.local_host_name@ == local_host_name
    &&& state.monitor_identity_claims@.len() == standing_claims(
        settings.monitor_identity_links@,
    ).len()
    &&& forall|i: int|
        0 <= i < state.monitor_identity_claims@.len() ==> {
            let link = standing_claims(settings.monitor_identity_links@)[i];
            link.primary is Some && shows_claim(
                #[trigger] state.monitor_identity_claims@[i],
                link.alias@,
                link.primary->0@,
            )
        }
}

/// Whether the settings went from `before` over `chosen` and `read` to `after`
/// in a scan that found `inventory`: the selection is reconciled; where that
/// changed anything, the displays are asked about their inputs; and the host
/// that each display shows follows the input it reported.
pub open spec fn is_scan<C: MonitorControl>(
    controller: &C,
    inventory: MonitorInventory,
    now_ms: u64,
    before: AppSettings,
    chosen: AppSettings,
    changes: Seq<MonitorSelectionChange>,
    read: AppSettings,
    results: Seq<Option<bool>>,
    after: AppSettings,
) -> bool {
    &&& is_reconciliation(before, inventory.controllable@, chosen, changes)
    &&& if changes.len() > 0 {
        is_settings_refresh(controller, inventory.controllable@, chosen, read)
    } else {
        read == chosen
    }
    &&& after == (AppSettings { shared_monitors: after.shared_monitors, ..read })
    &&& are_synced(read, inventory, now_ms, after.shared_monitors@, results)
}

/// Whether a scan with a controller that works came to this.
pub open spec fn is_scan_result<C: MonitorControl>(
    controller: &C,
    locale: UiLocale,
    now_ms: u64,
    before: AppSettings,
    after: AppSettings,
    scan: DashboardScan,
    listed: Result<Vec<MonitorDescriptor>, DisplayMuxError>,
    reads: Seq<Result<DisplayInput, DisplayMuxError>>,
    found: Result<MonitorInventory, DisplayMuxError>,
) -> bool {
    &&& is_inventory_result(controller, listed, reads, found)
    &&& match found {
        Err(error) => {
            &&& after == before
            &&& !scan.settings_changed
            &&& !scan.scanned
            &&& shows_failure(scan.state, locale, before, error)
        },
        Ok(inventory) => {
            &&& scan.scanned
            &&& exists|
                chosen: AppSettings,
                changes: Seq<MonitorSelectionChange>,
                read: AppSettings,
                results: Seq<Option<bool>>,
            |
                {
                    &&& #[trigger] is_scan(
                        controller,
                        inventory,
                        now_ms,
                        before,
                        chosen,
                        changes,
                        read,
                        results,
                        after,
                    )
                    &&& scan.settings_changed == (changes.len() > 0 || results.contains(Some(true)))
                    &&& shows_displays(scan.state, locale, after, inventory, changes)
                }
        },
    }
}

fn failed_statuses(settings: &AppSettings, message: &String) -> (shared: Vec<SharedMonitorStatus>)
    ensures
        shared@.len() == settings.shared_monitors@.len(),
        forall|k: int|
            0 <= k < shared@.len() ==> is_failed_status(
                #[trigger] shared@[k],
                message@,
                settings.shared_monitors@[k],
            ),
{
    let mut shared: Vec<SharedMonitorStatus> = Vec::new();
    let mut k: usize = 0;
    while k < settings.shared_monitors.len()
        invariant
            k <= settings.shared_monitors@.len(),
            shared@.len() == k,
            forall|j: int|
                0 <= j < k ==> is_failed_status(
                    #[trigger] shared@[j],
                    message@,
                    settings.shared_monitors@[j],
                ),
        decreases settings.shared_monitors@.len() - k,
    {
        let selected = &settings.shared_monitors[k];
        shared.push(
            SharedMonitorStatus {
                monitor_key: monitor_key(&selected.fingerprint),
                fingerprint: selected.fingerprint.clone(),
                name: selected.name.clone(),
                ddc_available: false,
                display_state: SharedDisplayState::Unavailable,
                status_text: message.clone(),
                connection: None,
                connection_input_conflict: false,
            },
        );
        k += 1;
    }
    shared
}

fn live_statuses(locale: UiLocale, settings: &AppSettings, inventory: &MonitorInventory) -> (shared:
    Vec<SharedMonitorStatus>)
    ensures
        shared@.len() == settings.shared_monitors@.len(),
        forall|k: int|
            0 <= k < shared@.len() ==> is_status_of(
                #[trigger] shared@[k],
                locale,
                *settings,
                *inventory,
                settings.shared_monitors@[k],
            ),
{
    let mut shared: Vec<SharedMonitorStatus> = Vec::new();
    let mut k: usize = 0;
    while k < settings.shared_monitors.len()
        invariant
            k <= settings.shared_monitors@.len(),
            shared@.len() == k,
            forall|j: int|
                0 <= j < k ==> is_status_of(
                    #[trigger] shared@[j],
                    locale,
                    *settings,
                    *inventory,
                    settings.shared_monitors@[j],
                ),
        decreases settings.shared_monitors@.len() - k,
    {
        shared.push(status_of(locale, settings, inventory, &settings.shared_monitors[k]));
        k += 1;
    }
    shared
}

/// The message for the user, in the user's language.
pub fn core_user_error(locale: UiLocale, error: &DisplayMuxError) -> (message: String)
    ensures
        message@ == error.message(locale == UiLocale::TraditionalChinese),
{
    error.localized_message(locale == UiLocale::TraditionalChinese)
}

/// Looks at the displays, brings the settings in line with them, and says what
/// the dashboard shows. Where the displays cannot be looked at, the settings
/// stay as they are and every shared display is shown with the reason.
pub fn build_dashboard_state<C: MonitorControl>(
    locale: UiLocale,
    controller: Result<C, DisplayMuxError>,
    settings: &mut AppSettings,
    now_ms: u64,
    platform: &str,
    local_host_name: &str,
) -> (scan: DashboardScan)
    ensures
        shows_settings(scan.state, *final(settings), platform@, local_host_name@),
        match controller {
            Err(error) => {
                &&& *final(settings) == *old(settings)
                &&& !scan.settings_changed
                &&& !scan.scanned
                &&& shows_failure(scan.state, locale, *old(settings), error)
            },
            Ok(working) => exists|
                listed: Result<Vec<MonitorDescriptor>, DisplayMuxError>,
                reads: Seq<Result<DisplayInput, DisplayMuxError>>,
                found: Result<MonitorInventory, DisplayMuxError>,
            | #[trigger]
                is_scan_result(
                    &working,
                    locale,
                    now_ms,
                    *old(settings),
                    *final(settings),
                    scan,
                    listed,
                    reads,
                    found,
                ),
        },
{
    let mut state = DashboardState {
        platform: platform.to_owned(),
        local_host: settings.local_host,
        agent_configured: has_valid_shared_key(&settings.shared_key),
        monitors: Vec::new(),
        uncontrollable_monitors: Vec::new(),
        shared: Vec::new(),
        selection_notices: Vec::new(),
        monitor_identity_claims: monitor_identity_claims(settings),
        local_host_name: local_host_name.to_owned(),
    };
    let working = match controller {
        Ok(working) => working,
        Err(error) => {
            let message = core_user_error(locale, &error);
            state.shared = failed_statuses(settings, &message);
            return DashboardScan { state, settings_changed: false, scanned: false };
        },
    };
    let found = monitor_inventory(&working);
    let ghost g_found = found;
    let ghost (listed, reads) = choose|
        listed: Result<Vec<MonitorDescriptor>, DisplayMuxError>,
        reads: Seq<Result<DisplayInput, DisplayMuxError>>,
    | #[trigger]
        is_inventory_result(&working, listed, reads, found);
    match found {
        Err(error) => {
            let message = core_user_error(locale, &error);
            state.shared = failed_statuses(settings, &message);
            let scan = DashboardScan { state, settings_changed: false, scanned: false };
            assert(is_scan_result(
                &working,
                locale,
                now_ms,
                *old(settings),
                *settings,
                scan,
                listed,
                reads,
                g_found,
            ));
            scan
        },
        Ok(inventory) => {
            let ghost before = *settings;
            let changes = reconcile_monitor_selection(settings, &inventory.controllable);
            let ghost chosen = *settings;
            if changes.len() > 0 {
                refresh_present_selections(&working, settings, &inventory.controllable);
            }
            let ghost read = *settings;
            let routes_changed = sync_active_routes_with_live_inputs(settings, &inventory, now_ms);
            let ghost results = choose|results: Seq<Option<bool>>|
                {
                    &&& #[trigger] are_synced(
                        read,
                        inventory,
                        now_ms,
                        settings.shared_monitors@,
                        results,
                    )
                    &&& routes_changed == results.contains(Some(true))
                };
            assert(is_scan(
                &working,
                inventory,
                now_ms,
                before,
                chosen,
                changes@,
                read,
                results,
                *settings,
            ));
            state.selection_notices = notice_texts(locale, &changes);
            state.shared = live_statuses(locale, settings, &inventory);
            state.uncontrollable_monitors = uncontrollable_monitors(&inventory);
            let ghost full = inventory;
            state.monitors = inventory.controllable;
            let settings_changed = changes.len() > 0 || routes_changed;
            let scan = DashboardScan { state, settings_changed, scanned: true };
            assert(shows_displays(scan.state, locale, *settings, full, changes@));
            assert(is_scan_result(
                &working,
                locale,
                now_ms,
                *old(settings),
                *settings,
                scan,
                listed,
                reads,
                g_found,
            ));
            scan
        },
    }
}

} // verus!
