//! The displays present right now: which of them can be controlled, what they
//! show, and how the selection follows them.

use crate::connection::{
    codes_of, input_matches_sink, is_standard_video_input, MonitorConnection, SinkInterface,
};
use crate::domain::{
    contains_input, DisplayInput, Identity, MonitorDescriptor, MonitorFingerprint, MonitorId,
    MonitorIdentityLink,
};
use crate::error::DisplayMuxError;
use crate::lists::{
    first_at, lemma_first_at, lemma_first_at_is, lemma_not_sole, lemma_sole_at, lemma_sole_at_is,
    sole_at, some_item,
};
use crate::port::MonitorControl;
use crate::routes::{adopt_route_for_input, is_route_adoption};
use crate::settings::{
    is_display_reset, is_full_reset, is_selected_display, names_display, AppSettings, HostRoute,
    SelectedMonitor,
};
use crate::text::same_text;
use vstd::prelude::*;

verus! {

/// How long a confirmed switch outranks live reads of the display's input.
/// Displays can keep reporting the previous input for several seconds while
/// they change over, and Windows returns from a switch without waiting.
pub const ACTIVE_ROUTE_SETTLE_MS: u64 = 15000;

/// The input a display reported while it was probed.
#[derive(Debug, PartialEq, Eq)]
pub struct CurrentInput {
    pub id: MonitorId,
    pub input: DisplayInput,
}

/// The displays present right now.
#[derive(Debug, PartialEq, Eq)]
pub struct MonitorInventory {
    pub detected: Vec<MonitorDescriptor>,
    pub controllable: Vec<MonitorDescriptor>,
    /// The input each controllable display reported while it was probed.
    pub current_inputs: Vec<CurrentInput>,
}

/// The input last reported for a display, if one was.
pub open spec fn current_input(inputs: Seq<CurrentInput>, id: Seq<char>) -> Option<DisplayInput>
    decreases inputs.len(),
{
    if inputs.len() == 0 {
        None
    } else if inputs.last().id.text@ == id {
        Some(inputs.last().input)
    } else {
        current_input(inputs.drop_last(), id)
    }
}

/// The input last reported for a display, if one was.
fn input_of(inputs: &Vec<CurrentInput>, id: &MonitorId) -> (input: Option<DisplayInput>)
    ensures
        input == current_input(inputs@, id.text@),
{
    let mut n: usize = inputs.len();
    assert(inputs@.take(n as int) =~= inputs@);
    while n > 0
        invariant
            n <= inputs@.len(),
            current_input(inputs@, id.text@) == current_input(inputs@.take(n as int), id.text@),
        decreases n,
    {
        assert(inputs@.take(n as int).drop_last() =~= inputs@.take(n - 1));
        assert(inputs@.take(n as int).last() == inputs@[n - 1]);
        if same_text(inputs[n - 1].id.as_str(), id.as_str()) {
            return Some(inputs[n - 1].input);
        }
        n -= 1;
    }
    None
}

impl MonitorInventory {
    /// The input that a display reported while it was probed, if it did.
    pub fn reported_input(&self, id: &MonitorId) -> (input: Option<DisplayInput>)
        ensures
            input == current_input(self.current_inputs@, id.text@),
    {
        input_of(&self.current_inputs, id)
    }
}

/// The inputs that were read, in the order of the displays.
pub open spec fn readings(
    monitors: Seq<MonitorDescriptor>,
    reads: Seq<Result<DisplayInput, DisplayMuxError>>,
) -> Seq<CurrentInput>
    decreases monitors.len(),
{
    if monitors.len() == 0 {
        seq![]
    } else {
        let before = readings(monitors.drop_last(), reads.drop_last());
        match reads.last() {
            Ok(input) => before.push(CurrentInput { id: monitors.last().id, input }),
            Err(_) => before,
        }
    }
}

/// Displays whose input was read.
pub open spec fn was_read(inputs: Seq<CurrentInput>) -> spec_fn(MonitorDescriptor) -> bool {
    |monitor: MonitorDescriptor| current_input(inputs, monitor.id.text@) is Some
}

/// Whether the platform answered `reads` when it was asked for the inputs of
/// the displays.
pub open spec fn are_reads_of<C: MonitorControl>(
    controller: &C,
    monitors: Seq<MonitorDescriptor>,
    reads: Seq<Result<DisplayInput, DisplayMuxError>>,
) -> bool {
    &&& reads.len() == monitors.len()
    &&& forall|i: int|
        0 <= i < monitors.len() ==> call_ensures(
            C::read_input,
            (controller, &monitors[i].id),
            #[trigger] reads[i],
        )
}

/// Whether an inventory is of these displays with these readings.
pub open spec fn is_inventory_of(
    inventory: MonitorInventory,
    monitors: Seq<MonitorDescriptor>,
    reads: Seq<Result<DisplayInput, DisplayMuxError>>,
) -> bool {
    &&& inventory.detected@ == monitors
    &&& inventory.current_inputs@ == readings(monitors, reads)
    &&& inventory.controllable@ == monitors.filter(was_read(inventory.current_inputs@))
}

/// Whether the platform answered so that the inventory came out as `result`.
pub open spec fn is_inventory_result<C: MonitorControl>(
    controller: &C,
    listed: Result<Vec<MonitorDescriptor>, DisplayMuxError>,
    reads: Seq<Result<DisplayInput, DisplayMuxError>>,
    result: Result<MonitorInventory, DisplayMuxError>,
) -> bool {
    &&& call_ensures(C::enumerate, (controller,), listed)
    &&& match listed {
        Err(error) => result == Err::<MonitorInventory, _>(error),
        Ok(monitors) => {
            &&& result is Ok
            &&& are_reads_of(controller, monitors@, reads)
            &&& is_inventory_of(result->Ok_0, monitors@, reads)
        },
    }
}

/// The displays present right now. One whose input cannot be read is detected
/// but not controllable.
pub fn monitor_inventory<C: MonitorControl>(controller: &C) -> (result: Result<
    MonitorInventory,
    DisplayMuxError,
>)
    ensures
        exists|
            listed: Result<Vec<MonitorDescriptor>, DisplayMuxError>,
            reads: Seq<Result<DisplayInput, DisplayMuxError>>,
        | #[trigger]
            is_inventory_result(controller, listed, reads, result),
{
    let listed = controller.enumerate();
    let ghost answered = listed;
    let ghost mut reads: Seq<Result<DisplayInput, DisplayMuxError>> = seq![];
    let detected = match listed {
        Ok(monitors) => monitors,
        Err(error) => {
            let result = Err(error);
            assert(is_inventory_result(controller, answered, reads, result));
            return result;
        },
    };
    let mut current_inputs: Vec<CurrentInput> = Vec::new();
    let mut i: usize = 0;
    while i < detected.len()
        invariant
            i <= detected@.len(),
            reads.len() == i,
            forall|j: int|
                0 <= j < i ==> call_ensures(
                    C::read_input,
                    (controller, &detected@[j].id),
                    #[trigger] reads[j],
                ),
            current_inputs@ == readings(detected@.take(i as int), reads),
        decreases detected@.len() - i,
    {
        let read = controller.read_input(&detected[i].id);
        proof {
            let before = reads;
            reads = reads.push(read);
            assert(reads.drop_last() =~= before);
            assert(detected@.take(i + 1).drop_last() =~= detected@.take(i as int));
            assert(detected@.take(i + 1).last() == detected@[i as int]);
        }
        if let Ok(input) = read {
            current_inputs.push(CurrentInput { id: detected[i].id.clone(), input });
        }
        i += 1;
    }
    assert(detected@.take(detected@.len() as int) =~= detected@);
    let ghost keep = was_read(current_inputs@);
    let mut controllable: Vec<MonitorDescriptor> = Vec::new();
    let mut k: usize = 0;
    while k < detected.len()
        invariant
            k <= detected@.len(),
            keep == was_read(current_inputs@),
            controllable@ == detected@.take(k as int).filter(keep),
        decreases detected@.len() - k,
    {
        proof {
            assert(detected@.take(k + 1).drop_last() =~= detected@.take(k as int));
            reveal(Seq::filter);
        }
        if input_of(&current_inputs, &detected[k].id).is_some() {
            controllable.push(detected[k].clone());
        }
        k += 1;
    }
    assert(detected@.take(detected@.len() as int) =~= detected@);
    let ghost monitors = detected@;
    let inventory = MonitorInventory { detected, controllable, current_inputs };
    assert(is_inventory_of(inventory, monitors, reads));
    assert(are_reads_of(controller, monitors, reads));
    let result = Ok(inventory);
    assert(is_inventory_result(controller, answered, reads, result));
    result
}

/// Displays that are the selected one.
pub open spec fn is_display_of(
    links: Seq<MonitorIdentityLink>,
    selected: SelectedMonitor,
) -> spec_fn(MonitorDescriptor) -> bool {
    |monitor: MonitorDescriptor| names_display(links, selected, monitor)
}

/// The position of the first display that is the selected one, if there is one.
pub fn display_index(
    monitors: &[MonitorDescriptor],
    links: &[MonitorIdentityLink],
    selected: &SelectedMonitor,
) -> (found: Option<usize>)
    ensures
        match found {
            Some(i) => i == first_at(monitors@, is_display_of(links@, *selected)) && i
                < monitors@.len(),
            None => first_at(monitors@, is_display_of(links@, *selected)) == monitors@.len(),
        },
{
    let ghost wanted = is_display_of(links@, *selected);
    let mut i: usize = 0;
    while i < monitors.len()
        invariant
            i <= monitors@.len(),
            wanted == is_display_of(links@, *selected),
            forall|j: int| 0 <= j < i ==> !wanted(#[trigger] monitors@[j]),
        decreases monitors@.len() - i,
    {
        if is_selected_display(links, selected, &monitors[i]) {
            proof {
                lemma_first_at_is(monitors@, wanted, i as int);
            }
            return Some(i);
        }
        i += 1;
    }
    proof {
        lemma_first_at_is(monitors@, wanted, i as int);
    }
    None
}

/// The input that a selected display shows, where it was read.
pub open spec fn live_input(
    links: Seq<MonitorIdentityLink>,
    inventory: MonitorInventory,
    selected: SelectedMonitor,
) -> Option<DisplayInput> {
    let i = first_at(inventory.controllable@, is_display_of(links, selected));
    if i < inventory.controllable@.len() {
        current_input(inventory.current_inputs@, inventory.controllable@[i].id.text@)
    } else {
        None
    }
}

/// Whether a confirmed switch still outranks what the display reports.
pub open spec fn is_settling(selected: SelectedMonitor, now_ms: u64) -> bool {
    now_ms - selected.active_route_confirmed_at_ms < ACTIVE_ROUTE_SETTLE_MS
}

/// Whether `after` is a selected display `before` once its live input was looked
/// at.
pub open spec fn is_synced(
    links: Seq<MonitorIdentityLink>,
    peers: Seq<HostRoute>,
    inventory: MonitorInventory,
    now_ms: u64,
    before: SelectedMonitor,
    after: SelectedMonitor,
    result: Option<bool>,
) -> bool {
    if is_settling(before, now_ms) {
        after == before && result is None
    } else {
        match live_input(links, inventory, before) {
            None => after == before && result is None,
            Some(input) => is_route_adoption(before, peers, input, after, result),
        }
    }
}

/// Whether the selected displays `after` are those `before` once their live
/// inputs were looked at, with `results` of each.
pub open spec fn are_synced(
    settings: AppSettings,
    inventory: MonitorInventory,
    now_ms: u64,
    after: Seq<SelectedMonitor>,
    results: Seq<Option<bool>>,
) -> bool {
    let before = settings.shared_monitors@;
    &&& after.len() == before.len()
    &&& results.len() == before.len()
    &&& forall|k: int|
        0 <= k < before.len() ==> is_synced(
            settings.monitor_identity_links@,
            settings.peers@,
            inventory,
            now_ms,
            before[k],
            #[trigger] after[k],
            results[k],
        )
}

/// Whether the settings `after` are those `before` once the live inputs of the
/// selected displays were looked at, and whether a route changed.
pub open spec fn is_sync(
    before: AppSettings,
    inventory: MonitorInventory,
    now_ms: u64,
    after: AppSettings,
    changed: bool,
) -> bool {
    &&& after == (AppSettings { shared_monitors: after.shared_monitors, ..before })
    &&& exists|results: Seq<Option<bool>>|
        {
            &&& #[trigger] are_synced(before, inventory, now_ms, after.shared_monitors@, results)
            &&& changed == results.contains(Some(true))
        }
}

/// Re-derives each shared display's active route from the input it just
/// reported, so a switch made outside this app (from another host, the
/// display's own buttons, or a cable swap) shows up on the next refresh.
/// Only an input owned by exactly one route is trusted; an unreadable display
/// or an unrecognized or ambiguous input keeps the last confirmed route.
/// A display confirmed switched within `ACTIVE_ROUTE_SETTLE_MS` is skipped: it
/// can still report its previous input while it changes over.
/// Returns whether any route changed.
pub fn sync_active_routes_with_live_inputs(
    settings: &mut AppSettings,
    inventory: &MonitorInventory,
    now_ms: u64,
) -> (changed: bool)
    ensures
        is_sync(*old(settings), *inventory, now_ms, *final(settings), changed),
{
    let ghost before = settings.shared_monitors@;
    let ghost links = settings.monitor_identity_links@;
    let ghost peers = settings.peers@;
    let ghost mut results: Seq<Option<bool>> = seq![];
    let mut changed: bool = false;
    let mut i: usize = 0;
    while i < settings.shared_monitors.len()
        invariant
            i <= settings.shared_monitors@.len() == before.len(),
            before == old(settings).shared_monitors@,
            links == settings.monitor_identity_links@,
            peers == settings.peers@,
            *settings == (AppSettings { shared_monitors: settings.shared_monitors, ..*old(settings) }),
            results.len() == i,
            changed == results.contains(Some(true)),
            forall|k: int|
                0 <= k < i ==> is_synced(
                    links,
                    peers,
                    *inventory,
                    now_ms,
                    before[k],
                    #[trigger] settings.shared_monitors@[k],
                    results[k],
                ),
            forall|k: int| i <= k < before.len() ==> settings.shared_monitors@[k] == before[k],
        decreases before.len() - i,
    {
        let confirmed: u64 = settings.shared_monitors[i].active_route_confirmed_at_ms;
        let settling = now_ms < confirmed || now_ms - confirmed < ACTIVE_ROUTE_SETTLE_MS;
        let live = if settling {
            None
        } else {
            match display_index(
                &inventory.controllable,
                &settings.monitor_identity_links,
                &settings.shared_monitors[i],
            ) {
                Some(at) => input_of(&inventory.current_inputs, &inventory.controllable[at].id),
                None => None,
            }
        };
        let ghost had = results;
        if let Some(input) = live {
            let selected = &mut settings.shared_monitors[i];
            let result = adopt_route_for_input(selected, &settings.peers, input);
            proof {
                results = results.push(result);
                assert(results[i as int] == result);
                if had.contains(Some(true)) {
                    let k = choose|k: int| 0 <= k < had.len() && had[k] == Some(true);
                    assert(results[k] == Some(true));
                }
                if results.contains(Some(true)) && result != Some(true) {
                    let k = choose|k: int| 0 <= k < results.len() && results[k] == Some(true);
                    assert(had[k] == Some(true));
                }
            }
            if result == Some(true) {
                changed = true;
            }
        } else {
            proof {
                results = results.push(None);
                if had.contains(Some(true)) {
                    let k = choose|k: int| 0 <= k < had.len() && had[k] == Some(true);
                    assert(results[k] == Some(true));
                }
                if results.contains(Some(true)) {
                    let k = choose|k: int| 0 <= k < results.len() && results[k] == Some(true);
                    assert(had[k] == Some(true));
                }
            }
        }
        assert forall|k: int| 0 <= k < i + 1 implies is_synced(
            links,
            peers,
            *inventory,
            now_ms,
            before[k],
            #[trigger] settings.shared_monitors@[k],
            results[k],
        ) by {
            if k < i {
                assert(results[k] == had[k]);
            }
        }
        i += 1;
    }
    assert(are_synced(*old(settings), *inventory, now_ms, settings.shared_monitors@, results));
    changed
}

/// A live read never changes anything about a display but the host it is said
/// to show, and never moves one that was just switched.
pub proof fn live_reads_only_move_settled_displays(
    links: Seq<MonitorIdentityLink>,
    peers: Seq<HostRoute>,
    inventory: MonitorInventory,
    now_ms: u64,
    before: SelectedMonitor,
    after: SelectedMonitor,
    result: Option<bool>,
)
    requires
        is_synced(links, peers, inventory, now_ms, before, after, result),
    ensures
        after == (SelectedMonitor { active_route: after.active_route, ..before }),
        is_settling(before, now_ms) ==> after == before,
        result != Some(true) ==> after == before,
{
}

/// External monitors whose DDC/CI input cannot be read.
pub open spec fn is_uncontrollable(controllable: Seq<MonitorDescriptor>) -> spec_fn(
    MonitorDescriptor,
) -> bool {
    |monitor: MonitorDescriptor|
        !monitor.built_in && !exists|k: int|
            0 <= k < controllable.len() && (#[trigger] controllable[k]).id.text@
                == monitor.id.text@
}

/// External monitors the OS reports but whose DDC/CI input cannot be read.
pub fn uncontrollable_monitors(inventory: &MonitorInventory) -> (monitors: Vec<MonitorDescriptor>)
    ensures
        monitors@ == inventory.detected@.filter(is_uncontrollable(inventory.controllable@)),
{
    let detected = &inventory.detected;
    let controllable = &inventory.controllable;
    let ghost keep = is_uncontrollable(controllable@);
    let mut monitors: Vec<MonitorDescriptor> = Vec::new();
    let mut i: usize = 0;
    while i < detected.len()
        invariant
            i <= detected@.len(),
            keep == is_uncontrollable(controllable@),
            monitors@ == detected@.take(i as int).filter(keep),
        decreases detected@.len() - i,
    {
        proof {
            assert(detected@.take(i + 1).drop_last() =~= detected@.take(i as int));
            reveal(Seq::filter);
        }
        let mut found: bool = false;
        let mut k: usize = 0;
        while k < controllable.len() && !found
            invariant
                i < detected@.len(),
                k <= controllable@.len(),
                found ==> exists|j: int|
                    0 <= j < controllable@.len() && (#[trigger] controllable@[j]).id.text@
                        == detected@[i as int].id.text@,
                !found ==> forall|j: int|
                    0 <= j < k ==> (#[trigger] controllable@[j]).id.text@
                        != detected@[i as int].id.text@,
            decreases controllable@.len() - k,
        {
            found = same_text(controllable[k].id.as_str(), detected[i].id.as_str());
            k += 1;
        }
        if !detected[i].built_in && !found {
            monitors.push(detected[i].clone());
        }
        i += 1;
    }
    assert(detected@.take(detected@.len() as int) =~= detected@);
    monitors
}

/// The interface at the monitor's end of a connection, where it is known.
pub open spec fn known_interface(connection: Option<MonitorConnection>) -> Option<SinkInterface> {
    match connection {
        Some(found) => found.sink_interface,
        None => None,
    }
}

/// A connection, where one is known.
pub open spec fn borrowed(connection: Option<&MonitorConnection>) -> Option<MonitorConnection> {
    match connection {
        Some(found) => Some(*found),
        None => None,
    }
}

/// Whether the recorded input is of another kind than the connection.
pub open spec fn conflicts(
    selected: SelectedMonitor,
    connection: Option<MonitorConnection>,
) -> bool {
    &&& !selected.vendor_indexed_inputs
    &&& selected.local_input is Some
    &&& match known_interface(connection) {
        Some(sink) => sink != SinkInterface::UnknownDigital && is_standard_video_input(
            selected.local_input->0.code,
        ) && !codes_of(sink).contains(selected.local_input->0.code),
        None => false,
    }
}

/// True when the input recorded for this host is of a different kind than
/// the physical connection (e.g. DP recorded on an HDMI link), which usually
/// means the monitor was showing another host when the input was read.
pub fn connection_input_conflict(
    selected: &SelectedMonitor,
    connection: Option<&MonitorConnection>,
) -> (conflict: bool)
    ensures
        conflict == conflicts(*selected, borrowed(connection)),
{
    if selected.vendor_indexed_inputs {
        return false;
    }
    let sink = match connection {
        Some(found) => found.sink_interface,
        None => None,
    };
    match (selected.local_input, sink) {
        (Some(input), Some(interface)) => input_matches_sink(interface, input) == Some(false),
        _ => false,
    }
}

/// The largest private index to offer.
pub open spec fn largest_index(maximum: u32, current: DisplayInput) -> u32 {
    let larger = if maximum >= current.code {
        maximum
    } else {
        current.code
    };
    if larger > 255 {
        255
    } else {
        larger
    }
}

/// `1..=maximum`, always with `current` even if the display under-reports
/// its range, capped at the one-byte VCP value space.
pub open spec fn index_inputs(maximum: u32, current: DisplayInput) -> Seq<DisplayInput> {
    Seq::new(
        largest_index(maximum, current) as nat,
        |i: int| DisplayInput { code: (i + 1) as u32 },
    )
}

/// `1..=maximum`, always with `current` even if the display under-reports
/// its range, capped at the one-byte VCP value space.
pub fn vendor_index_inputs(maximum: u32, current: DisplayInput) -> (inputs: Vec<DisplayInput>)
    ensures
        inputs@ == index_inputs(maximum, current),
{
    let larger: u32 = if maximum >= current.value() {
        maximum
    } else {
        current.value()
    };
    let upper: u32 = if larger > 255 {
        255
    } else {
        larger
    };
    let mut inputs: Vec<DisplayInput> = Vec::new();
    let mut value: u32 = 0;
    while value < upper
        invariant
            value <= upper <= 255,
            upper == largest_index(maximum, current),
            inputs@ == index_inputs(maximum, current).take(value as int),
        decreases upper - value,
    {
        value += 1;
        if let Ok(input) = DisplayInput::new(value) {
            inputs.push(input);
        }
        assert(inputs@ =~= index_inputs(maximum, current).take(value as int));
    }
    assert(index_inputs(maximum, current).take(upper as int) =~= index_inputs(maximum, current));
    inputs
}

/// The private index list always holds the input that the display shows.
pub proof fn the_current_input_is_always_offered(maximum: u32, current: DisplayInput)
    requires
        current.usable(),
    ensures
        index_inputs(maximum, current).contains(current),
{
    assert(index_inputs(maximum, current)[current.code - 1] == current);
}

/// Whether `after` is `before` with what the display answered of its inputs.
///
/// Where the display is showing an input that its own capabilities do not list,
/// that list cannot be trusted for writes either; the private index range that
/// it reports, if any, takes its place.
pub open spec fn has_input_data(
    before: SelectedMonitor,
    read: Result<DisplayInput, DisplayMuxError>,
    listed: Result<Vec<DisplayInput>, DisplayMuxError>,
    maximum: Result<Option<u32>, DisplayMuxError>,
    after: SelectedMonitor,
) -> bool {
    &&& after == (SelectedMonitor {
        local_input: after.local_input,
        supported_inputs: after.supported_inputs,
        vendor_indexed_inputs: after.vendor_indexed_inputs,
        ..before
    })
    &&& match read {
        Err(_) => {
            &&& after.local_input is None
            &&& after.supported_inputs is None
            &&& !after.vendor_indexed_inputs
        },
        Ok(current) => {
            &&& after.local_input == Some(current)
            &&& match listed {
                Ok(inputs) if inputs@.len() > 0 => {
                    if inputs@.contains(current) {
                        after.supported_inputs == Some(inputs) && !after.vendor_indexed_inputs
                    } else {
                        match maximum {
                            Ok(Some(value)) => {
                                &&& after.supported_inputs is Some
                                &&& after.supported_inputs->0@ == index_inputs(value, current)
                                &&& after.vendor_indexed_inputs
                            },
                            _ => after.supported_inputs is None && !after.vendor_indexed_inputs,
                        }
                    }
                },
                _ => after.supported_inputs is None && !after.vendor_indexed_inputs,
            }
        },
    }
}

/// Whether the platform answered what it was asked about a display's inputs:
/// always for the input it shows, for those it lists once that was read, and
/// for its range once the list turned out not to hold it.
pub open spec fn answered_input_data<C: MonitorControl>(
    controller: &C,
    monitor: MonitorDescriptor,
    read: Result<DisplayInput, DisplayMuxError>,
    listed: Result<Vec<DisplayInput>, DisplayMuxError>,
    maximum: Result<Option<u32>, DisplayMuxError>,
) -> bool {
    &&& call_ensures(C::read_input, (controller, &monitor.id), read)
    &&& read matches Ok(current) ==> {
        &&& call_ensures(C::supported_inputs, (controller, &monitor.id), listed)
        &&& listed matches Ok(inputs) ==> (inputs@.len() > 0 && !inputs@.contains(current)
            ==> call_ensures(C::input_value_maximum, (controller, &monitor.id), maximum))
    }
}

/// Whether a selected display went from `before` to `after` as the platform was
/// asked about its inputs.
pub open spec fn is_input_refresh<C: MonitorControl>(
    controller: &C,
    monitor: MonitorDescriptor,
    before: SelectedMonitor,
    after: SelectedMonitor,
    result: Result<(), DisplayMuxError>,
) -> bool {
    exists|
        read: Result<DisplayInput, DisplayMuxError>,
        listed: Result<Vec<DisplayInput>, DisplayMuxError>,
        maximum: Result<Option<u32>, DisplayMuxError>,
    |
        {
            &&& #[trigger] answered_input_data(controller, monitor, read, listed, maximum)
            &&& has_input_data(before, read, listed, maximum, after)
            &&& match read {
                Ok(_) => result is Ok,
                Err(error) => result == Err::<(), DisplayMuxError>(error),
            }
        }
}

/// Reads what a display says of its inputs. Reading VCP 0x60 is
/// non-disruptive; nothing is written and no port is cycled for discovery.
pub fn refresh_selected_input_data<C: MonitorControl>(
    controller: &C,
    monitor: &MonitorDescriptor,
    selected: &mut SelectedMonitor,
) -> (result: Result<(), DisplayMuxError>)
    ensures
        is_input_refresh(controller, *monitor, *old(selected), *final(selected), result),
{
    selected.local_input = None;
    selected.supported_inputs = None;
    selected.vendor_indexed_inputs = false;
    let read = controller.read_input(&monitor.id);
    let ghost no_list: Result<Vec<DisplayInput>, DisplayMuxError> = Err(
        DisplayMuxError::TargetNotFound,
    );
    let ghost no_maximum: Result<Option<u32>, DisplayMuxError> = Ok(None);
    let ghost was_read = read;
    let current = match read {
        Ok(current) => current,
        Err(error) => {
            assert(answered_input_data(controller, *monitor, was_read, no_list, no_maximum));
            return Err(error);
        },
    };
    selected.local_input = Some(current);
    let listed = controller.supported_inputs(&monitor.id);
    let ghost was_listed = listed;
    let advertised = match listed {
        Ok(inputs) => if inputs.len() > 0 {
            inputs
        } else {
            assert(answered_input_data(controller, *monitor, was_read, was_listed, no_maximum));
            return Ok(());
        },
        Err(_) => {
            assert(answered_input_data(controller, *monitor, was_read, was_listed, no_maximum));
            return Ok(());
        },
    };
    if contains_input(&advertised, current) {
        selected.supported_inputs = Some(advertised);
        assert(answered_input_data(controller, *monitor, was_read, was_listed, no_maximum));
        return Ok(());
    }
    let maximum = controller.input_value_maximum(&monitor.id);
    if let Ok(Some(value)) = maximum {
        selected.supported_inputs = Some(vendor_index_inputs(value, current));
        selected.vendor_indexed_inputs = true;
    }
    assert(answered_input_data(controller, *monitor, was_read, was_listed, maximum));
    Ok(())
}

/// A change of the selection that is worth saving.
#[derive(Debug, PartialEq, Eq)]
pub enum MonitorSelectionChange {
    SelectedOnlyMonitor { name: String },
    RefreshedMetadata { name: String },
}

/// Whether what is stored of a display differs from what it says now.
pub open spec fn is_outdated(selected: SelectedMonitor, current: MonitorDescriptor) -> bool {
    selected.name@ != current.name@ || selected.max_resolution != current.max_resolution
        || selected.resolution_source != current.resolution_source
}

/// A selected display with the name and resolution it says now.
pub open spec fn with_metadata(
    selected: SelectedMonitor,
    current: MonitorDescriptor,
) -> SelectedMonitor {
    SelectedMonitor {
        name: current.name,
        max_resolution: current.max_resolution,
        resolution_source: current.resolution_source,
        ..selected
    }
}

/// Displays that have exactly this identity.
pub open spec fn has_identity(identity: Identity) -> spec_fn(MonitorDescriptor) -> bool {
    |monitor: MonitorDescriptor| monitor.fingerprint@ == identity
}

/// A selected display once the displays present were looked at: refreshed from
/// the first that has exactly its identity, where that differs, and kept as it
/// stands otherwise. Failing to match is not evidence the display is gone.
pub open spec fn reconciled(
    controllable: Seq<MonitorDescriptor>,
    selected: SelectedMonitor,
) -> SelectedMonitor {
    let i = first_at(controllable, has_identity(selected.fingerprint@));
    if i < controllable.len() && is_outdated(selected, controllable[i]) {
        with_metadata(selected, controllable[i])
    } else {
        selected
    }
}

/// The metadata changes of the selected displays, in order.
pub open spec fn metadata_changes(
    controllable: Seq<MonitorDescriptor>,
    monitors: Seq<SelectedMonitor>,
) -> Seq<MonitorSelectionChange>
    decreases monitors.len(),
{
    if monitors.len() == 0 {
        seq![]
    } else {
        let before = metadata_changes(controllable, monitors.drop_last());
        let selected = monitors.last();
        let i = first_at(controllable, has_identity(selected.fingerprint@));
        if i < controllable.len() && is_outdated(selected, controllable[i]) {
            before.push(MonitorSelectionChange::RefreshedMetadata { name: controllable[i].name })
        } else {
            before
        }
    }
}

/// Displays that are not built in.
pub open spec fn is_external() -> spec_fn(MonitorDescriptor) -> bool {
    |monitor: MonitorDescriptor| !monitor.built_in
}

/// The display to select unasked: the only external one, on a computer that has
/// never chosen.
pub open spec fn auto_selected(
    settings: AppSettings,
    controllable: Seq<MonitorDescriptor>,
) -> Option<int> {
    if !settings.shared_monitors_chosen && settings.shared_monitors@.len() == 0 {
        sole_at(controllable, is_external())
    } else {
        None
    }
}

/// Whether `after` is `before` once the selection was reconciled with the
/// displays present.
pub open spec fn is_reconciliation(
    before: AppSettings,
    controllable: Seq<MonitorDescriptor>,
    after: AppSettings,
    changes: Seq<MonitorSelectionChange>,
) -> bool {
    let kept = before.shared_monitors@.map_values(
        |selected: SelectedMonitor| reconciled(controllable, selected),
    );
    let refreshed = metadata_changes(controllable, before.shared_monitors@);
    match auto_selected(before, controllable) {
        Some(i) => {
            &&& after.shared_monitors@ == kept.push(SelectedMonitor::selected_from(controllable[i]))
            &&& changes == refreshed.push(
                MonitorSelectionChange::SelectedOnlyMonitor { name: controllable[i].name },
            )
            &&& after == (AppSettings {
                shared_monitors: after.shared_monitors,
                shared_monitors_chosen: true,
                ..before
            })
        },
        None => {
            &&& after.shared_monitors@ == kept
            &&& changes == refreshed
            &&& after == (AppSettings { shared_monitors: after.shared_monitors, ..before })
        },
    }
}

/// The position of the first display with exactly this identity, if there is
/// one.
fn exact_index(monitors: &[MonitorDescriptor], fingerprint: &MonitorFingerprint) -> (found: Option<
    usize,
>)
    ensures
        match found {
            Some(i) => i < monitors@.len() && i == first_at(
                monitors@,
                has_identity(fingerprint@),
            ),
            None => !some_item(monitors@, has_identity(fingerprint@)),
        },
{
    let ghost wanted = has_identity(fingerprint@);
    let mut i: usize = 0;
    while i < monitors.len()
        invariant
            i <= monitors@.len(),
            wanted == has_identity(fingerprint@),
            forall|j: int| 0 <= j < i ==> !wanted(#[trigger] monitors@[j]),
        decreases monitors@.len() - i,
    {
        if monitors[i].fingerprint.matches_exactly(fingerprint) {
            proof {
                lemma_first_at_is(monitors@, wanted, i as int);
            }
            return Some(i);
        }
        i += 1;
    }
    proof {
        lemma_first_at_is(monitors@, wanted, i as int);
    }
    None
}

fn sole_external(controllable: &[MonitorDescriptor]) -> (found: Option<usize>)
    ensures
        match found {
            Some(i) => sole_at(controllable@, is_external()) == Some(i as int) && i
                < controllable@.len(),
            None => sole_at(controllable@, is_external()) is None,
        },
{
    let ghost wanted = is_external();
    let mut found: Option<usize> = None;
    let mut i: usize = 0;
    while i < controllable.len()
        invariant
            i <= controllable@.len(),
            wanted == is_external(),
            match found {
                Some(n) => n < i && wanted(controllable@[n as int]) && forall|j: int|
                    0 <= j < i && j != n ==> !wanted(#[trigger] controllable@[j]),
                None => forall|j: int| 0 <= j < i ==> !wanted(#[trigger] controllable@[j]),
            },
        decreases controllable@.len() - i,
    {
        if !controllable[i].built_in {
            if let Some(n) = found {
                proof {
                    lemma_not_sole(controllable@, wanted, n as int, i as int);
                }
                return None;
            }
            found = Some(i);
        }
        i += 1;
    }
    proof {
        match found {
            Some(n) => {
                lemma_sole_at_is(controllable@, wanted, n as int);
            },
            None => {
                lemma_first_at_is(controllable@, wanted, controllable@.len() as int);
            },
        }
    }
    found
}

/// Reconciles every currently selected monitor against fresh enumeration
/// results. A selection is only ever refreshed from a monitor whose full EDID
/// fingerprint matches it exactly, so it is never reassigned to a different
/// physical monitor, and its identity stays. An unmatched selection is kept as it stands: the display may be
/// asleep, showing a paired host, or reporting a serial this host can no longer
/// read the same way. Only the user removes a shared display.
///
/// Auto-select is a one-time onboarding step: once at least one monitor is
/// selected, or the user emptied the list, a newly appeared monitor is never
/// added automatically.
pub fn reconcile_monitor_selection(
    settings: &mut AppSettings,
    controllable: &[MonitorDescriptor],
) -> (changes: Vec<MonitorSelectionChange>)
    ensures
        is_reconciliation(*old(settings), controllable@, *final(settings), changes@),
{
    let never_chosen = !settings.shared_monitors_chosen && settings.shared_monitors.len() == 0;
    let ghost before = settings.shared_monitors@;
    let ghost kept = before.map_values(
        |selected: SelectedMonitor| reconciled(controllable@, selected),
    );
    let mut changes: Vec<MonitorSelectionChange> = Vec::new();
    let mut i: usize = 0;
    while i < settings.shared_monitors.len()
        invariant
            i <= settings.shared_monitors@.len() == before.len(),
            before == old(settings).shared_monitors@,
            kept == before.map_values(
                |selected: SelectedMonitor| reconciled(controllable@, selected),
            ),
            *settings == (AppSettings { shared_monitors: settings.shared_monitors, ..*old(settings) }),
            forall|k: int| 0 <= k < i ==> settings.shared_monitors@[k] == kept[k],
            forall|k: int| i <= k < before.len() ==> settings.shared_monitors@[k] == before[k],
            changes@ == metadata_changes(controllable@, before.take(i as int)),
        decreases before.len() - i,
    {
        proof {
            assert(before.take(i + 1).drop_last() =~= before.take(i as int));
            assert(before.take(i + 1).last() == before[i as int]);
        }
        if let Some(at) = exact_index(controllable, &settings.shared_monitors[i].fingerprint) {
            let current = &controllable[at];
            let selected = &mut settings.shared_monitors[i];
            let metadata_changed = !same_text(&selected.name, &current.name)
                || selected.max_resolution != current.max_resolution || selected.resolution_source
                != current.resolution_source;
            if metadata_changed {
                selected.name = current.name.clone();
                selected.max_resolution = current.max_resolution;
                selected.resolution_source = current.resolution_source;
                changes.push(
                    MonitorSelectionChange::RefreshedMetadata { name: current.name.clone() },
                );
            }
        }
        i += 1;
    }
    assert(before.take(before.len() as int) =~= before);
    assert(settings.shared_monitors@ =~= kept);
    if never_chosen {
        if let Some(at) = sole_external(controllable) {
            settings.shared_monitors.push(SelectedMonitor::from(&controllable[at]));
            settings.shared_monitors_chosen = true;
            changes.push(
                MonitorSelectionChange::SelectedOnlyMonitor { name: controllable[at].name.clone() },
            );
        }
    }
    changes
}

/// Reconciling drops no selection and changes no identity, recorded input or
/// route; and where the user emptied the list, it stays empty.
pub proof fn reconciling_keeps_every_selection(
    before: AppSettings,
    controllable: Seq<MonitorDescriptor>,
    after: AppSettings,
    changes: Seq<MonitorSelectionChange>,
)
    requires
        is_reconciliation(before, controllable, after, changes),
    ensures
        after.shared_monitors@.len() >= before.shared_monitors@.len(),
        forall|k: int|
            0 <= k < before.shared_monitors@.len() ==> {
                let kept = #[trigger] after.shared_monitors@[k];
                kept == (SelectedMonitor {
                    name: kept.name,
                    max_resolution: kept.max_resolution,
                    resolution_source: kept.resolution_source,
                    ..before.shared_monitors@[k]
                })
            },
        before.shared_monitors_chosen || before.shared_monitors@.len() > 0
            ==> after.shared_monitors@.len() == before.shared_monitors@.len(),
        after.peers == before.peers,
{
}

/// A selection is only ever refreshed from a display whose identity matches it
/// exactly: without one it stays as it stands, whatever the user claimed of
/// identities.
pub proof fn a_selection_is_only_refreshed_from_an_exact_match(
    before: AppSettings,
    controllable: Seq<MonitorDescriptor>,
    after: AppSettings,
    changes: Seq<MonitorSelectionChange>,
    k: int,
)
    requires
        is_reconciliation(before, controllable, after, changes),
        0 <= k < before.shared_monitors@.len(),
    ensures
        after.shared_monitors@[k] == before.shared_monitors@[k] || exists|i: int|
            {
                &&& 0 <= i < controllable.len()
                &&& (#[trigger] controllable[i]).fingerprint@
                    == before.shared_monitors@[k].fingerprint@
                &&& after.shared_monitors@[k] == with_metadata(
                    before.shared_monitors@[k],
                    controllable[i],
                )
            },
{
    let selected = before.shared_monitors@[k];
    let wanted = has_identity(selected.fingerprint@);
    lemma_first_at(controllable, wanted);
    assert(after.shared_monitors@[k] == reconciled(controllable, selected));
    let i = first_at(controllable, wanted);
    if i < controllable.len() {
        assert(wanted(controllable[i]));
    }
}

/// A list that a reset emptied is not filled again unasked.
pub proof fn a_reset_list_is_not_refilled(
    before: AppSettings,
    reset: AppSettings,
    controllable: Seq<MonitorDescriptor>,
    after: AppSettings,
    changes: Seq<MonitorSelectionChange>,
)
    requires
        is_display_reset(before, reset) || is_full_reset(before, reset),
        is_reconciliation(reset, controllable, after, changes),
    ensures
        after.shared_monitors@.len() == 0,
        changes.len() == 0,
{
}

/// A display is only selected unasked where it is the only external one and the
/// user has never chosen.
pub proof fn only_a_sole_external_display_is_selected_unasked(
    before: AppSettings,
    controllable: Seq<MonitorDescriptor>,
    after: AppSettings,
    changes: Seq<MonitorSelectionChange>,
)
    requires
        is_reconciliation(before, controllable, after, changes),
        after.shared_monitors@.len() > before.shared_monitors@.len(),
    ensures
        !before.shared_monitors_chosen,
        before.shared_monitors@.len() == 0,
        after.shared_monitors_chosen,
        after.shared_monitors@.len() == 1,
        exists|i: int|
            {
                &&& 0 <= i < controllable.len()
                &&& !controllable[i].built_in
                &&& after.shared_monitors@[0] == #[trigger] SelectedMonitor::selected_from(
                    controllable[i],
                )
                &&& forall|j: int|
                    0 <= j < controllable.len() && j != i ==> (#[trigger] controllable[j]).built_in
            },
{
    lemma_sole_at(controllable, is_external());
    let i = auto_selected(before, controllable)->0;
    assert(is_external()(controllable[i]));
    assert forall|j: int| 0 <= j < controllable.len() && j != i implies (
    #[trigger] controllable[j]).built_in by {
        assert(!is_external()(controllable[j]));
    }
    assert(after.shared_monitors@[0] == SelectedMonitor::selected_from(controllable[i]));
}

} // verus!
