//! What a scan of the displays finds, and what the dashboard says of it.

use crate::dashboard::{
    is_scan, is_scan_result, is_selection_refresh, is_settings_refresh, is_sharing, is_status_of,
    shared_with, showing_host_of, shows_displays, DashboardScan, DashboardState, SharedDisplayState,
    SharedMonitorStatus,
};
use crate::domain::{DisplayInput, MonitorDescriptor, MonitorIdentityLink};
use crate::error::DisplayMuxError;
use crate::inventory::{
    answered_input_data, current_input, has_identity, has_input_data, is_display_of, is_external,
    is_input_refresh, is_inventory_of, is_reconciliation, is_sync, is_uncontrollable,
    metadata_changes, readings, was_read, MonitorInventory, MonitorSelectionChange,
};
use crate::laws::naming::{is_called, is_nameless, lemma_called};
use crate::laws::routing::{
    a_settled_display_follows_its_own_reading, is_last_reading, is_sole_user, lemma_reading,
};
use crate::laws::{is_host_of, is_keyed, is_showing, lemma_host};
use crate::lists::{
    first_at, lemma_first_at, lemma_first_at_is, lemma_kept_were_there, lemma_sole_at,
    lemma_sole_at_is,
};
use crate::locale::UiLocale;
use crate::monitor_identity::same_display;
use crate::port::MonitorControl;
use crate::settings::{selects, AppSettings, SelectedMonitor};
use vstd::prelude::*;

verus! {

/// Whether the display number `m` is the first that is the shared one, under its
/// identity or one that the user claimed to be it.
pub open spec fn is_its_display(
    monitors: Seq<MonitorDescriptor>,
    links: Seq<MonitorIdentityLink>,
    selected: SelectedMonitor,
    m: int,
) -> bool {
    &&& 0 <= m < monitors.len()
    &&& same_display(links, selected.fingerprint@, monitors[m].fingerprint@)
    &&& forall|j: int|
        0 <= j < m ==> !same_display(
            links,
            selected.fingerprint@,
            (#[trigger] monitors[j]).fingerprint@,
        )
}

proof fn lemma_its_display(
    monitors: Seq<MonitorDescriptor>,
    links: Seq<MonitorIdentityLink>,
    selected: SelectedMonitor,
)
    ensures
        ({
            let m = first_at(monitors, is_display_of(links, selected));
            &&& 0 <= m <= monitors.len()
            &&& m < monitors.len() ==> is_its_display(monitors, links, selected, m)
            &&& m == monitors.len() ==> forall|j: int|
                0 <= j < monitors.len() ==> !same_display(
                    links,
                    selected.fingerprint@,
                    (#[trigger] monitors[j]).fingerprint@,
                )
        }),
        forall|m: int| #[trigger]
            is_its_display(monitors, links, selected, m) ==> first_at(
                monitors,
                is_display_of(links, selected),
            ) == m,
{
    let wanted = is_display_of(links, selected);
    lemma_first_at(monitors, wanted);
    let m = first_at(monitors, wanted);
    assert forall|j: int| 0 <= j < m implies !same_display(
        links,
        selected.fingerprint@,
        (#[trigger] monitors[j]).fingerprint@,
    ) by {
        assert(!wanted(monitors[j]));
    }
    if m < monitors.len() {
        assert(wanted(monitors[m]));
    }
    assert forall|m: int| #[trigger]
        is_its_display(monitors, links, selected, m) implies first_at(monitors, wanted) == m by {
        lemma_first_at_is(monitors, wanted, m);
    }
}

/// What the dashboard says of a shared display is about that display: it can be
/// used exactly where a controllable display is it; else it is on another host
/// exactly where it is said to show one; and its connection is that of the
/// detected display that is it.
pub proof fn a_status_is_about_its_display(
    status: SharedMonitorStatus,
    locale: UiLocale,
    settings: AppSettings,
    inventory: MonitorInventory,
    selected: SelectedMonitor,
    m: int,
)
    requires
        is_status_of(status, locale, settings, inventory, selected),
    ensures
        status.fingerprint@ == selected.fingerprint@,
        status.name@ == selected.name@,
        is_keyed(selected.fingerprint@, status.monitor_key@),
        status.ddc_available <==> exists|c: int|
            0 <= c < inventory.controllable@.len() && same_display(
                settings.monitor_identity_links@,
                selected.fingerprint@,
                (#[trigger] inventory.controllable@[c]).fingerprint@,
            ),
        status.display_state == SharedDisplayState::Ready <==> status.ddc_available,
        status.display_state == SharedDisplayState::OnOtherHost <==> !status.ddc_available
            && !is_showing(selected, "local"@),
        is_its_display(
            inventory.detected@,
            settings.monitor_identity_links@,
            selected,
            m,
        ) ==> status.connection == inventory.detected@[m].connection,
        (forall|d: int|
            0 <= d < inventory.detected@.len() ==> !same_display(
                settings.monitor_identity_links@,
                selected.fingerprint@,
                (#[trigger] inventory.detected@[d]).fingerprint@,
            )) ==> status.connection is None,
        status.connection_input_conflict ==> status.connection is Some && selected.local_input
            is Some && !selected.vendor_indexed_inputs,
{
    let links = settings.monitor_identity_links@;
    lemma_its_display(inventory.detected@, links, selected);
    lemma_its_display(inventory.controllable@, links, selected);
    let c = first_at(inventory.controllable@, is_display_of(links, selected));
    if c < inventory.controllable@.len() {
        assert(same_display(
            links,
            selected.fingerprint@,
            inventory.controllable@[c].fingerprint@,
        ));
    }
}

/// The host that a display is said to show is called by its custom name, else by
/// its own.
pub proof fn the_host_shown_is_called_by_its_name(
    settings: AppSettings,
    selected: SelectedMonitor,
    p: int,
    name: Seq<char>,
)
    requires
        selected.active_route is Some,
        is_host_of(settings.peers@, selected.active_route->0@, p),
    ensures
        is_called(settings.host_aliases@, settings.peers@[p].id@, name) ==> showing_host_of(
            settings,
            selected,
        ) == Some(name),
        is_nameless(settings.host_aliases@, settings.peers@[p].id@) ==> showing_host_of(
            settings,
            selected,
        ) == Some(settings.peers@[p].name@),
{
    lemma_host(settings.peers@, selected.active_route->0@);
    lemma_called(settings.host_aliases@, settings.peers@[p].id@);
}

/// The dashboard shows every shared display in its place, every controllable
/// display, and as uncontrollable just the external displays that were detected
/// and cannot be controlled.
pub proof fn the_dashboard_shows_every_display(
    state: DashboardState,
    locale: UiLocale,
    settings: AppSettings,
    inventory: MonitorInventory,
    changes: Seq<MonitorSelectionChange>,
    d: int,
)
    requires
        shows_displays(state, locale, settings, inventory, changes),
    ensures
        state.monitors@ == inventory.controllable@,
        state.shared@.len() == settings.shared_monitors@.len(),
        forall|k: int|
            0 <= k < state.shared@.len() ==> (#[trigger] state.shared@[k]).fingerprint@
                == settings.shared_monitors@[k].fingerprint@,
        0 <= d < inventory.detected@.len() ==> {
            let shown = !inventory.detected@[d].built_in && forall|c: int|
                0 <= c < inventory.controllable@.len() ==> (
                #[trigger] inventory.controllable@[c]).id.text@
                    != inventory.detected@[d].id.text@;
            shown ==> state.uncontrollable_monitors@.contains(inventory.detected@[d])
        },
        forall|u: int|
            0 <= u < state.uncontrollable_monitors@.len() ==> {
                &&& !(#[trigger] state.uncontrollable_monitors@[u]).built_in
                &&& inventory.detected@.contains(state.uncontrollable_monitors@[u])
                &&& forall|c: int|
                    0 <= c < inventory.controllable@.len() ==> (
                    #[trigger] inventory.controllable@[c]).id.text@
                        != state.uncontrollable_monitors@[u].id.text@
            },
{
    let keep = is_uncontrollable(inventory.controllable@);
    lemma_kept_were_there(inventory.detected@, keep);
    if 0 <= d < inventory.detected@.len() && keep(inventory.detected@[d]) {
        inventory.detected@.lemma_filter_contains(keep, d);
    }
    assert forall|u: int| 0 <= u < state.uncontrollable_monitors@.len() implies {
        &&& !(#[trigger] state.uncontrollable_monitors@[u]).built_in
        &&& inventory.detected@.contains(state.uncontrollable_monitors@[u])
        &&& forall|c: int|
            0 <= c < inventory.controllable@.len() ==> (
            #[trigger] inventory.controllable@[c]).id.text@
                != state.uncontrollable_monitors@[u].id.text@
    } by {
        assert(keep(state.uncontrollable_monitors@[u]));
    }
}

/// Whether no two displays have one platform id.
pub open spec fn ids_differ(monitors: Seq<MonitorDescriptor>) -> bool {
    forall|i: int, j: int|
        0 <= i < j < monitors.len() ==> (#[trigger] monitors[i]).id.text@ != (
        #[trigger] monitors[j]).id.text@
}

proof fn lemma_readings(
    monitors: Seq<MonitorDescriptor>,
    reads: Seq<Result<DisplayInput, DisplayMuxError>>,
    i: int,
)
    requires
        reads.len() == monitors.len(),
        ids_differ(monitors),
        0 <= i < monitors.len(),
    ensures
        current_input(readings(monitors, reads), monitors[i].id.text@) == match reads[i] {
            Ok(input) => Some(input),
            Err(_) => None,
        },
    decreases monitors.len(),
{
    let n = monitors.len() - 1;
    let front = monitors.drop_last();
    let before = readings(front, reads.drop_last());
    let all = readings(monitors, reads);
    assert(ids_differ(front)) by {
        assert forall|a: int, b: int| 0 <= a < b < front.len() implies (
        #[trigger] front[a]).id.text@ != (#[trigger] front[b]).id.text@ by {
            assert(front[a] == monitors[a] && front[b] == monitors[b]);
        }
    }
    if i < n {
        lemma_readings(front, reads.drop_last(), i);
        assert(monitors[i].id.text@ != monitors[n].id.text@);
        if reads[n] is Ok {
            assert(all.drop_last() =~= before);
        }
    } else {
        if reads[n] is Ok {
            assert(all.last().id == monitors[n].id);
        } else {
            lemma_not_read(front, reads.drop_last(), monitors[n].id.text@);
        }
    }
}

proof fn lemma_not_read(
    monitors: Seq<MonitorDescriptor>,
    reads: Seq<Result<DisplayInput, DisplayMuxError>>,
    id: Seq<char>,
)
    requires
        reads.len() == monitors.len(),
        forall|j: int| 0 <= j < monitors.len() ==> (#[trigger] monitors[j]).id.text@ != id,
    ensures
        current_input(readings(monitors, reads), id) is None,
    decreases monitors.len(),
{
    if monitors.len() > 0 {
        let n = monitors.len() - 1;
        let front = monitors.drop_last();
        assert forall|j: int| 0 <= j < front.len() implies (#[trigger] front[j]).id.text@
            != id by {
            assert(front[j] == monitors[j]);
        }
        lemma_not_read(front, reads.drop_last(), id);
        assert(monitors[n].id.text@ != id);
        if reads[n] is Ok {
            assert(readings(monitors, reads).drop_last() =~= readings(
                front,
                reads.drop_last(),
            ));
        }
    }
}

/// Every connected display is detected; it is controllable exactly where its own
/// input could be read; and what is recorded of it is what was read of it.
pub proof fn an_inventory_holds_what_each_display_answered(
    inventory: MonitorInventory,
    monitors: Seq<MonitorDescriptor>,
    reads: Seq<Result<DisplayInput, DisplayMuxError>>,
    i: int,
)
    requires
        is_inventory_of(inventory, monitors, reads),
        reads.len() == monitors.len(),
        ids_differ(monitors),
        0 <= i < monitors.len(),
    ensures
        inventory.detected@ == monitors,
        inventory.controllable@.contains(monitors[i]) <==> reads[i] is Ok,
        reads[i] matches Ok(input) ==> is_last_reading(
            inventory.current_inputs@,
            monitors[i].id.text@,
            input,
        ),
        forall|c: int|
            0 <= c < inventory.controllable@.len() ==> monitors.contains(
                #[trigger] inventory.controllable@[c],
            ),
{
    let keep = was_read(inventory.current_inputs@);
    lemma_readings(monitors, reads, i);
    lemma_reading(inventory.current_inputs@, monitors[i].id.text@);
    lemma_kept_were_there(monitors, keep);
    if keep(monitors[i]) {
        monitors.lemma_filter_contains(keep, i);
    }
    if inventory.controllable@.contains(monitors[i]) {
        let c = choose|c: int|
            0 <= c < inventory.controllable@.len() && inventory.controllable@[c] == monitors[i];
        assert(keep(inventory.controllable@[c]));
    }
}

/// A selection says of its display what the first controllable display of exactly
/// its identity says, and nothing but the name and the resolution changes. A
/// change is told exactly where one was needed.
pub proof fn a_selection_follows_the_display_of_its_identity(
    before: AppSettings,
    controllable: Seq<MonitorDescriptor>,
    after: AppSettings,
    changes: Seq<MonitorSelectionChange>,
    k: int,
    i: int,
)
    requires
        is_reconciliation(before, controllable, after, changes),
        0 <= k < before.shared_monitors@.len(),
        0 <= i < controllable.len(),
        controllable[i].fingerprint@ == before.shared_monitors@[k].fingerprint@,
        forall|j: int|
            0 <= j < i ==> (#[trigger] controllable[j]).fingerprint@
                != before.shared_monitors@[k].fingerprint@,
    ensures
        ({
            let kept = after.shared_monitors@[k];
            let had = before.shared_monitors@[k];
            &&& kept.name@ == controllable[i].name@
            &&& kept.max_resolution == controllable[i].max_resolution
            &&& kept.resolution_source == controllable[i].resolution_source
            &&& kept.fingerprint == had.fingerprint
            &&& kept.local_input == had.local_input
            &&& kept.supported_inputs == had.supported_inputs
            &&& kept.active_route == had.active_route
            &&& had.name@ != controllable[i].name@ || had.max_resolution
                != controllable[i].max_resolution || had.resolution_source
                != controllable[i].resolution_source ==> changes.len() > 0
        }),
{
    let had = before.shared_monitors@[k];
    lemma_first_at_is(controllable, has_identity(had.fingerprint@), i);
    assert(after.shared_monitors@[k] == crate::inventory::reconciled(controllable, had));
    lemma_outdated_is_told(controllable, before.shared_monitors@, k);
}

proof fn lemma_outdated_is_told(
    controllable: Seq<MonitorDescriptor>,
    monitors: Seq<SelectedMonitor>,
    k: int,
)
    requires
        0 <= k < monitors.len(),
    ensures
        crate::inventory::reconciled(controllable, monitors[k]) != monitors[k] || ({
            let i = first_at(controllable, has_identity(monitors[k].fingerprint@));
            i < controllable.len() && crate::inventory::is_outdated(monitors[k], controllable[i])
        }) ==> metadata_changes(controllable, monitors).len() > 0,
    decreases monitors.len(),
{
    if k < monitors.len() - 1 {
        lemma_outdated_is_told(controllable, monitors.drop_last(), k);
        assert(monitors.drop_last()[k] == monitors[k]);
    } else {
        assert(monitors.last() == monitors[k]);
    }
}

/// On a computer that has never chosen, the only external controllable display is
/// selected; with none or several, or once something was chosen, none is.
pub proof fn the_only_external_display_is_selected_once(
    before: AppSettings,
    controllable: Seq<MonitorDescriptor>,
    after: AppSettings,
    changes: Seq<MonitorSelectionChange>,
    i: int,
)
    requires
        is_reconciliation(before, controllable, after, changes),
        0 <= i < controllable.len(),
        !controllable[i].built_in,
    ensures
        !before.shared_monitors_chosen && before.shared_monitors@.len() == 0 && (forall|j: int|
            0 <= j < controllable.len() && j != i ==> (#[trigger] controllable[j]).built_in) ==> {
            &&& after.shared_monitors@.len() == 1
            &&& after.shared_monitors@[0].fingerprint@ == controllable[i].fingerprint@
            &&& after.shared_monitors@[0].name@ == controllable[i].name@
            &&& after.shared_monitors@[0].local_input is None
            &&& after.shared_monitors_chosen
            &&& changes.len() > 0
            &&& changes.last() matches MonitorSelectionChange::SelectedOnlyMonitor { name } && name@
                == controllable[i].name@
        },
        before.shared_monitors_chosen || before.shared_monitors@.len() > 0 || (exists|j: int|
            0 <= j < controllable.len() && j != i && !(#[trigger] controllable[j]).built_in)
            ==> after.shared_monitors@.len() == before.shared_monitors@.len()
            && after.shared_monitors_chosen == before.shared_monitors_chosen,
{
    let wanted = is_external();
    if forall|j: int|
        0 <= j < controllable.len() && j != i ==> (#[trigger] controllable[j]).built_in {
        assert forall|j: int| 0 <= j < controllable.len() && j != i implies !wanted(
            #[trigger] controllable[j],
        ) by {}
        lemma_sole_at_is(controllable, wanted, i);
    }
    lemma_sole_at(controllable, wanted);
    if exists|j: int|
        0 <= j < controllable.len() && j != i && !(#[trigger] controllable[j]).built_in {
        let j = choose|j: int|
            0 <= j < controllable.len() && j != i && !(#[trigger] controllable[j]).built_in;
        assert(wanted(controllable[i]) && wanted(controllable[j]));
    }
}

/// What is recorded of a display's inputs is what it answered: the input that was
/// read; the inputs that it lists, where the one that it shows is among them; else
/// its own numbers from 1 on, the shown one among them; and nothing where it could
/// not be read.
pub proof fn recorded_inputs_are_what_the_display_answered(
    before: SelectedMonitor,
    read: Result<DisplayInput, DisplayMuxError>,
    listed: Result<Vec<DisplayInput>, DisplayMuxError>,
    maximum: Result<Option<u32>, DisplayMuxError>,
    after: SelectedMonitor,
)
    requires
        has_input_data(before, read, listed, maximum, after),
    ensures
        after.fingerprint == before.fingerprint && after.name == before.name && after.active_route
            == before.active_route,
        read matches Ok(current) ==> after.local_input == Some(current),
        read is Err ==> after.local_input is None && after.supported_inputs is None,
        after.vendor_indexed_inputs ==> after.supported_inputs is Some,
        read is Ok && listed is Ok && listed->Ok_0@.contains(read->Ok_0)
            ==> after.supported_inputs == Some(listed->Ok_0) && !after.vendor_indexed_inputs,
        read is Ok && 1 <= read->Ok_0.code <= 255 && after.supported_inputs is Some
            ==> after.supported_inputs->0@.contains(read->Ok_0),
        after.vendor_indexed_inputs ==> {
            let inputs = after.supported_inputs->0@;
            &&& maximum is Ok && maximum->Ok_0 is Some
            &&& inputs.len() <= 255
            &&& maximum->Ok_0->0 <= 255 ==> inputs.len() >= maximum->Ok_0->0
            &&& forall|n: int| 0 <= n < inputs.len() ==> (#[trigger] inputs[n]).code == n + 1
        },
        read is Ok && listed is Ok && listed->Ok_0@.len() > 0 && !listed->Ok_0@.contains(
            read->Ok_0,
        ) && maximum is Ok && maximum->Ok_0 is Some ==> after.vendor_indexed_inputs,
{
    if let Ok(current) = read {
        if let Ok(Some(value)) = maximum {
            if current.usable() {
                crate::inventory::the_current_input_is_always_offered(value, current);
            }
        }
    }
}

/// Sharing a display shares the detected display of that platform id: afterwards a
/// shared display is it; none is added where one was it already; and every display
/// that was shared still is.
pub proof fn sharing_shares_the_named_display<C: MonitorControl>(
    controller: &C,
    locale: UiLocale,
    inventory: MonitorInventory,
    monitor_id: Seq<char>,
    before: AppSettings,
    after: AppSettings,
    result: Result<(), String>,
    d: int,
    k: int,
)
    requires
        is_sharing(controller, locale, inventory, monitor_id, before, after, result),
    ensures
        (forall|j: int|
            0 <= j < inventory.detected@.len() ==> (#[trigger] inventory.detected@[j]).id.text@
                != monitor_id) ==> result is Err && after == before,
        0 <= d < inventory.detected@.len() && inventory.detected@[d].id.text@ == monitor_id && (
        forall|j: int|
            0 <= j < d ==> (#[trigger] inventory.detected@[j]).id.text@ != monitor_id) ==> {
            let monitor = inventory.detected@[d].fingerprint@;
            let links = before.monitor_identity_links@;
            &&& after.shared_monitors_chosen
            &&& exists|s: int|
                0 <= s < after.shared_monitors@.len() && same_display(
                    links,
                    (#[trigger] after.shared_monitors@[s]).fingerprint@,
                    monitor,
                )
            &&& (exists|s: int|
                0 <= s < before.shared_monitors@.len() && same_display(
                    links,
                    (#[trigger] before.shared_monitors@[s]).fingerprint@,
                    monitor,
                )) ==> after.shared_monitors@.len() == before.shared_monitors@.len()
            &&& (forall|s: int|
                0 <= s < before.shared_monitors@.len() ==> !same_display(
                    links,
                    (#[trigger] before.shared_monitors@[s]).fingerprint@,
                    monitor,
                )) ==> after.shared_monitors@.len() == before.shared_monitors@.len() + 1
                && after.shared_monitors@[before.shared_monitors@.len() as int].fingerprint@
                == monitor
            &&& 0 <= k < before.shared_monitors@.len() ==> k < after.shared_monitors@.len()
                && after.shared_monitors@[k].fingerprint == before.shared_monitors@[k].fingerprint
                && (!same_display(links, before.shared_monitors@[k].fingerprint@, monitor)
                ==> after.shared_monitors@[k] == before.shared_monitors@[k])
            &&& after.peers == before.peers
        },
{
    let named = crate::sharing::has_monitor_id(monitor_id);
    lemma_first_at(inventory.detected@, named);
    let n = first_at(inventory.detected@, named);
    if n < inventory.detected@.len() {
        assert(named(inventory.detected@[n]));
    }
    if 0 <= d < inventory.detected@.len() && inventory.detected@[d].id.text@ == monitor_id && (
    forall|j: int|
        0 <= j < d ==> (#[trigger] inventory.detected@[j]).id.text@ != monitor_id) {
        lemma_first_at_is(inventory.detected@, named, d);
        let monitor = inventory.detected@[d];
        let links = before.monitor_identity_links@;
        let wanted = selects(links, monitor.fingerprint@);
        let monitors = before.shared_monitors@;
        lemma_first_at(monitors, wanted);
        let s = first_at(monitors, wanted);
        let shared = shared_with(before, monitor);
        assert forall|j: int| 0 <= j < s implies !same_display(
            links,
            (#[trigger] monitors[j]).fingerprint@,
            monitor.fingerprint@,
        ) by {
            assert(!wanted(monitors[j]));
        }
        if s < monitors.len() {
            assert(wanted(monitors[s]));
        }
        if exists|q: int|
            0 <= q < monitors.len() && same_display(
                links,
                (#[trigger] monitors[q]).fingerprint@,
                monitor.fingerprint@,
            ) {
            let q = choose|q: int|
                0 <= q < monitors.len() && same_display(
                    links,
                    (#[trigger] monitors[q]).fingerprint@,
                    monitor.fingerprint@,
                );
            assert(wanted(monitors[q]));
        }
        assert(after.shared_monitors@.len() == shared.len());
        assert(after.shared_monitors@[s].fingerprint == shared[s].fingerprint);
        assert(same_display(
            links,
            after.shared_monitors@[s].fingerprint@,
            monitor.fingerprint@,
        ));
    }
}

/// In a scan that found nothing to refresh, a settled display comes to show the
/// host whose input it reported, and the change is to be saved.
pub proof fn a_scan_shows_the_host_each_display_is_on<C: MonitorControl>(
    controller: &C,
    inventory: MonitorInventory,
    now_ms: u64,
    before: AppSettings,
    chosen: AppSettings,
    changes: Seq<MonitorSelectionChange>,
    read: AppSettings,
    results: Seq<Option<bool>>,
    after: AppSettings,
    k: int,
    m: int,
    input: DisplayInput,
    route: Seq<char>,
)
    requires
        is_scan(controller, inventory, now_ms, before, chosen, changes, read, results, after),
        changes.len() == 0,
        0 <= k < before.shared_monitors@.len(),
        now_ms >= before.shared_monitors@[k].active_route_confirmed_at_ms + 15000,
        is_its_display(
            inventory.controllable@,
            before.monitor_identity_links@,
            before.shared_monitors@[k],
            m,
        ),
        is_last_reading(inventory.current_inputs@, inventory.controllable@[m].id.text@, input),
        is_sole_user(before.shared_monitors@[k], before.peers@, input, route),
    ensures
        is_showing(after.shared_monitors@[k], route),
        !is_showing(before.shared_monitors@[k], route) ==> results.contains(Some(true)),
{
    lemma_unchanged_selection(before, inventory.controllable@, chosen, changes, k);
    assert(is_sync(read, inventory, now_ms, after, results.contains(Some(true))));
    a_settled_display_follows_its_own_reading(
        read,
        inventory,
        now_ms,
        after,
        results.contains(Some(true)),
        k,
        m,
        input,
        route,
    );
}

proof fn lemma_unchanged_selection(
    before: AppSettings,
    controllable: Seq<MonitorDescriptor>,
    after: AppSettings,
    changes: Seq<MonitorSelectionChange>,
    k: int,
)
    requires
        is_reconciliation(before, controllable, after, changes),
        changes.len() == 0,
        0 <= k < before.shared_monitors@.len(),
    ensures
        after.shared_monitors@[k] == before.shared_monitors@[k],
        after.shared_monitors@.len() == before.shared_monitors@.len(),
{
    lemma_outdated_is_told(controllable, before.shared_monitors@, k);
    assert(after.shared_monitors@[k] == crate::inventory::reconciled(
        controllable,
        before.shared_monitors@[k],
    ));
}

/// A refresh asks each shared display that is present about its own inputs, by the
/// platform id of the first controllable display that is it, and records what it
/// answered; one that is not present keeps what is recorded.
pub proof fn a_display_is_asked_about_its_own_inputs<C: MonitorControl>(
    controller: &C,
    controllable: Seq<MonitorDescriptor>,
    before: AppSettings,
    after: AppSettings,
    k: int,
    m: int,
)
    requires
        is_settings_refresh(controller, controllable, before, after),
        0 <= k < before.shared_monitors@.len(),
    ensures
        is_its_display(
            controllable,
            before.monitor_identity_links@,
            before.shared_monitors@[k],
            m,
        ) ==> exists|read: Result<DisplayInput, DisplayMuxError>|
            {
                &&& #[trigger] call_ensures(
                    C::read_input,
                    (controller, &controllable[m].id),
                    read,
                )
                &&& match read {
                    Ok(input) => after.shared_monitors@[k].local_input == Some(input),
                    Err(_) => after.shared_monitors@[k].local_input is None,
                }
            },
        (forall|j: int|
            0 <= j < controllable.len() ==> !same_display(
                before.monitor_identity_links@,
                before.shared_monitors@[k].fingerprint@,
                (#[trigger] controllable[j]).fingerprint@,
            )) ==> after.shared_monitors@[k] == before.shared_monitors@[k],
        after.shared_monitors@.len() == before.shared_monitors@.len(),
        after.shared_monitors@[k].fingerprint == before.shared_monitors@[k].fingerprint,
        after.shared_monitors@[k].active_route == before.shared_monitors@[k].active_route,
        after.peers == before.peers,
{
    let links = before.monitor_identity_links@;
    let had = before.shared_monitors@[k];
    let has = after.shared_monitors@[k];
    lemma_its_display(controllable, links, had);
    assert(is_selection_refresh(controller, links, controllable, had, has));
    let i = first_at(controllable, is_display_of(links, had));
    if i < controllable.len() {
        let result = choose|result: Result<(), DisplayMuxError>| #[trigger]
            is_input_refresh(controller, controllable[i], had, has, result);
        let (read, listed, maximum) = choose|
            read: Result<DisplayInput, DisplayMuxError>,
            listed: Result<Vec<DisplayInput>, DisplayMuxError>,
            maximum: Result<Option<u32>, DisplayMuxError>,
        |
            {
                &&& #[trigger] answered_input_data(
                    controller,
                    controllable[i],
                    read,
                    listed,
                    maximum,
                )
                &&& has_input_data(had, read, listed, maximum, has)
                &&& match read {
                    Ok(_) => result is Ok,
                    Err(error) => result == Err::<(), DisplayMuxError>(error),
                }
            };
        recorded_inputs_are_what_the_display_answered(had, read, listed, maximum, has);
        assert(call_ensures(C::read_input, (controller, &controllable[i].id), read));
    }
}

/// Whether every shared display is said to be what the controllable display of its
/// identity says.
pub open spec fn is_up_to_date(
    monitors: Seq<SelectedMonitor>,
    controllable: Seq<MonitorDescriptor>,
) -> bool {
    forall|k: int, i: int|
        #![trigger monitors[k], controllable[i]]
        0 <= k < monitors.len() && 0 <= i < controllable.len() && monitors[k].fingerprint@
            == controllable[i].fingerprint@ ==> {
            &&& monitors[k].name@ == controllable[i].name@
            &&& monitors[k].max_resolution == controllable[i].max_resolution
            &&& monitors[k].resolution_source == controllable[i].resolution_source
        }
}

proof fn lemma_up_to_date(controllable: Seq<MonitorDescriptor>, monitors: Seq<SelectedMonitor>)
    requires
        is_up_to_date(monitors, controllable),
    ensures
        metadata_changes(controllable, monitors).len() == 0,
    decreases monitors.len(),
{
    if monitors.len() > 0 {
        let front = monitors.drop_last();
        assert forall|k: int, i: int|
            #![trigger front[k], controllable[i]]
            0 <= k < front.len() && 0 <= i < controllable.len() && front[k].fingerprint@
                == controllable[i].fingerprint@ implies {
            &&& front[k].name@ == controllable[i].name@
            &&& front[k].max_resolution == controllable[i].max_resolution
            &&& front[k].resolution_source == controllable[i].resolution_source
        } by {
            assert(front[k] == monitors[k]);
        }
        lemma_up_to_date(controllable, front);
        let selected = monitors.last();
        let wanted = has_identity(selected.fingerprint@);
        lemma_first_at(controllable, wanted);
        let i = first_at(controllable, wanted);
        if i < controllable.len() {
            assert(wanted(controllable[i]));
            assert(monitors[monitors.len() - 1].fingerprint@ == controllable[i].fingerprint@);
        }
    }
}

/// A look at the displays that finds nothing new about them shows a settled display
/// on the host whose input it reported, as ready, and tells that this is to be
/// saved where it was said otherwise.
pub proof fn a_look_shows_each_display_on_its_host<C: MonitorControl>(
    controller: &C,
    locale: UiLocale,
    now_ms: u64,
    before: AppSettings,
    after: AppSettings,
    scan: DashboardScan,
    listed: Result<Vec<MonitorDescriptor>, DisplayMuxError>,
    reads: Seq<Result<DisplayInput, DisplayMuxError>>,
    inventory: MonitorInventory,
    k: int,
    m: int,
    input: DisplayInput,
    route: Seq<char>,
)
    requires
        is_scan_result(
            controller,
            locale,
            now_ms,
            before,
            after,
            scan,
            listed,
            reads,
            Ok(inventory),
        ),
        is_up_to_date(before.shared_monitors@, inventory.controllable@),
        0 <= k < before.shared_monitors@.len(),
        now_ms >= before.shared_monitors@[k].active_route_confirmed_at_ms + 15000,
        is_its_display(
            inventory.controllable@,
            before.monitor_identity_links@,
            before.shared_monitors@[k],
            m,
        ),
        is_last_reading(inventory.current_inputs@, inventory.controllable@[m].id.text@, input),
        is_sole_user(before.shared_monitors@[k], before.peers@, input, route),
    ensures
        is_showing(after.shared_monitors@[k], route),
        after.shared_monitors@.len() == before.shared_monitors@.len(),
        after.shared_monitors@[k].fingerprint == before.shared_monitors@[k].fingerprint,
        !is_showing(before.shared_monitors@[k], route) ==> scan.settings_changed,
        scan.scanned,
        scan.state.shared@.len() == before.shared_monitors@.len(),
        scan.state.shared@[k].ddc_available,
        scan.state.shared@[k].display_state == SharedDisplayState::Ready,
{
    let (chosen, changes, read, results) = choose|
        chosen: AppSettings,
        changes: Seq<MonitorSelectionChange>,
        read: AppSettings,
        results: Seq<Option<bool>>,
    |
        {
            &&& #[trigger] is_scan(
                controller,
                inventory,
                now_ms,
                before,
                chosen,
                changes,
                read,
                results,
                after,
            )
            &&& scan.settings_changed == (changes.len() > 0 || results.contains(Some(true)))
            &&& shows_displays(scan.state, locale, after, inventory, changes)
        };
    lemma_up_to_date(inventory.controllable@, before.shared_monitors@);
    assert(changes.len() == 0);
    a_scan_shows_the_host_each_display_is_on(
        controller,
        inventory,
        now_ms,
        before,
        chosen,
        changes,
        read,
        results,
        after,
        k,
        m,
        input,
        route,
    );
    lemma_unchanged_selection(before, inventory.controllable@, chosen, changes, k);
    let status = scan.state.shared@[k];
    let selected = after.shared_monitors@[k];
    assert(is_status_of(status, locale, after, inventory, selected));
    a_status_is_about_its_display(status, locale, after, inventory, selected, m);
    assert(same_display(
        after.monitor_identity_links@,
        selected.fingerprint@,
        inventory.controllable@[m].fingerprint@,
    ));
}

/// Where the displays cannot be looked at, nothing is changed, and every shared
/// display is shown in its place as not available.
pub proof fn a_failed_look_changes_nothing<C: MonitorControl>(
    controller: &C,
    locale: UiLocale,
    now_ms: u64,
    before: AppSettings,
    after: AppSettings,
    scan: DashboardScan,
    listed: Result<Vec<MonitorDescriptor>, DisplayMuxError>,
    reads: Seq<Result<DisplayInput, DisplayMuxError>>,
    error: DisplayMuxError,
    k: int,
)
    requires
        is_scan_result(
            controller,
            locale,
            now_ms,
            before,
            after,
            scan,
            listed,
            reads,
            Err(error),
        ),
    ensures
        listed is Err,
        after == before,
        !scan.settings_changed && !scan.scanned,
        scan.state.monitors@.len() == 0,
        scan.state.shared@.len() == before.shared_monitors@.len(),
        0 <= k < before.shared_monitors@.len() ==> {
            &&& scan.state.shared@[k].fingerprint@ == before.shared_monitors@[k].fingerprint@
            &&& scan.state.shared@[k].name@ == before.shared_monitors@[k].name@
            &&& is_keyed(
                before.shared_monitors@[k].fingerprint@,
                scan.state.shared@[k].monitor_key@,
            )
            &&& !scan.state.shared@[k].ddc_available
            &&& scan.state.shared@[k].display_state == SharedDisplayState::Unavailable
            &&& scan.state.shared@[k].connection is None
        },
{
}

/// A display that answers is asked about its own inputs as it is shared, and the
/// input that it shows is recorded of it; sharing succeeds exactly where it could
/// be read. One that does not answer is shared without.
pub proof fn a_shared_display_is_asked_about_its_own_inputs<C: MonitorControl>(
    controller: &C,
    locale: UiLocale,
    inventory: MonitorInventory,
    monitor_id: Seq<char>,
    before: AppSettings,
    after: AppSettings,
    result: Result<(), String>,
    d: int,
)
    requires
        is_sharing(controller, locale, inventory, monitor_id, before, after, result),
        0 <= d < inventory.detected@.len(),
        inventory.detected@[d].id.text@ == monitor_id,
        forall|j: int|
            0 <= j < d ==> (#[trigger] inventory.detected@[j]).id.text@ != monitor_id,
    ensures
        (exists|c: int|
            0 <= c < inventory.controllable@.len() && (
            #[trigger] inventory.controllable@[c]).id.text@ == monitor_id) ==> exists|
            s: int,
            read: Result<DisplayInput, DisplayMuxError>,
        |
            {
                &&& 0 <= s < after.shared_monitors@.len()
                &&& same_display(
                    before.monitor_identity_links@,
                    (#[trigger] after.shared_monitors@[s]).fingerprint@,
                    inventory.detected@[d].fingerprint@,
                )
                &&& #[trigger] call_ensures(
                    C::read_input,
                    (controller, &inventory.detected@[d].id),
                    read,
                )
                &&& match read {
                    Ok(input) => after.shared_monitors@[s].local_input == Some(input) && result
                        is Ok,
                    Err(_) => after.shared_monitors@[s].local_input is None && result is Err,
                }
            },
        (forall|c: int|
            0 <= c < inventory.controllable@.len() ==> (
            #[trigger] inventory.controllable@[c]).id.text@ != monitor_id) ==> result is Ok,
{
    let named = crate::sharing::has_monitor_id(monitor_id);
    lemma_first_at_is(inventory.detected@, named, d);
    let monitor = inventory.detected@[d];
    let links = before.monitor_identity_links@;
    let wanted = selects(links, monitor.fingerprint@);
    lemma_first_at(before.shared_monitors@, wanted);
    let s = first_at(before.shared_monitors@, wanted);
    if s < before.shared_monitors@.len() {
        assert(wanted(before.shared_monitors@[s]));
    }
    lemma_first_at(inventory.controllable@, named);
    let shared = shared_with(before, monitor);
    if exists|c: int|
        0 <= c < inventory.controllable@.len() && (
        #[trigger] inventory.controllable@[c]).id.text@ == monitor_id {
        let c = choose|c: int|
            0 <= c < inventory.controllable@.len() && (
            #[trigger] inventory.controllable@[c]).id.text@ == monitor_id;
        assert(named(inventory.controllable@[c]));
        let had = shared[s];
        let has = after.shared_monitors@[s];
        let outcome = choose|outcome: Result<(), DisplayMuxError>|
            {
                &&& #[trigger] is_input_refresh(controller, monitor, had, has, outcome)
                &&& match outcome {
                    Ok(_) => result is Ok,
                    Err(error) => result is Err && result->Err_0@ == error.message(
                        locale == UiLocale::TraditionalChinese,
                    ),
                }
            };
        let (read, listed, maximum) = choose|
            read: Result<DisplayInput, DisplayMuxError>,
            listed: Result<Vec<DisplayInput>, DisplayMuxError>,
            maximum: Result<Option<u32>, DisplayMuxError>,
        |
            {
                &&& #[trigger] answered_input_data(controller, monitor, read, listed, maximum)
                &&& has_input_data(had, read, listed, maximum, has)
                &&& match read {
                    Ok(_) => outcome is Ok,
                    Err(error) => outcome == Err::<(), DisplayMuxError>(error),
                }
            };
        recorded_inputs_are_what_the_display_answered(had, read, listed, maximum, has);
        assert(same_display(
            links,
            after.shared_monitors@[s].fingerprint@,
            monitor.fingerprint@,
        ));
        assert(call_ensures(C::read_input, (controller, &inventory.detected@[d].id), read));
    }
}

} // verus!
