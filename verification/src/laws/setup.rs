//! What pairing, sharing, resetting and saving do to the settings.

use crate::domain::{DiscoveredPeer, DisplayInput, Identity, MonitorDescriptor};
use crate::laws::naming::{a_note_is_of_its_own_display_and_input, is_annotated};
use crate::laws::{
    is_display_under, is_host_of, is_keyed, is_plugged_into, is_unplugged, lemma_display_under,
    lemma_host, lemma_plugged,
};
use crate::lists::{first_at, lemma_first_at, lemma_found_in_kept, lemma_kept_were_there};
use crate::locale::UiLocale;
use crate::monitor_identity::{same_display, same_display_is_an_equivalence};
use crate::network::LocalHostIdentity;
use crate::settings::{
    are_endpoint_updates, are_input_options, assigned_to, does_not_select, form_applied, has_id,
    is_display_reset, is_endpoint_update, is_for_build, is_found_monitor, is_found_peer,
    is_full_reset, is_gone, is_recorded, is_refreshed, is_settled, is_shared_at, is_unpaired,
    is_unshared, not_id, noted_label_of, offered_inputs, selects, shows_claim, shows_input,
    standing_claims, stays, AppSettings, HostRoute, InputOption, MonitorIdentityClaim,
    MonitorInputAssignment, SelectedMonitor,
};
use vstd::prelude::*;

verus! {

/// Whether a paired host is recorded as it was discovered: name, platform,
/// address, port, and the hardware address or none.
pub open spec fn is_reached_as(peer: HostRoute, found: DiscoveredPeer) -> bool {
    &&& peer.id@ == found.id@
    &&& peer.name@ == found.name@
    &&& peer.platform == found.platform
    &&& peer.address@ == found.address@
    &&& peer.port == found.port
    &&& match found.mac_address {
        Some(mac) => peer.mac_address@ == mac@,
        None => peer.mac_address@.len() == 0,
    }
}

/// Removing a host removes that one, and keeps every other as it is and in order.
pub proof fn a_removed_host_is_gone_and_the_others_stay(
    before: AppSettings,
    peer_id: Seq<char>,
    after: AppSettings,
    i: int,
    j: int,
)
    requires
        is_unpaired(before, peer_id, after),
    ensures
        forall|k: int| 0 <= k < after.peers@.len() ==> (#[trigger] after.peers@[k]).id@ != peer_id,
        0 <= i < before.peers@.len() && before.peers@[i].id@ != peer_id ==> after.peers@.contains(
            before.peers@[i],
        ),
        0 <= i < j < before.peers@.len() && before.peers@[i].id@ != peer_id
            && before.peers@[j].id@ != peer_id ==> exists|a: int, b: int|
            0 <= a < b < after.peers@.len() && #[trigger] after.peers@[a] == before.peers@[i]
                && #[trigger] after.peers@[b] == before.peers@[j],
        after.shared_monitors == before.shared_monitors,
        after.shared_key == before.shared_key,
        after.host_order == before.host_order,
{
    let keep = not_id(peer_id);
    lemma_kept_were_there(before.peers@, keep);
    assert forall|k: int| 0 <= k < after.peers@.len() implies (#[trigger] after.peers@[k]).id@
        != peer_id by {
        assert(keep(after.peers@[k]));
    }
    if 0 <= i < before.peers@.len() && keep(before.peers@[i]) {
        before.peers@.lemma_filter_contains(keep, i);
    }
    if 0 <= i < j < before.peers@.len() && keep(before.peers@[i]) && keep(before.peers@[j]) {
        lemma_kept_in_order(before.peers@, keep, i, j);
    }
}

proof fn lemma_kept_in_order<T>(list: Seq<T>, keep: spec_fn(T) -> bool, i: int, j: int)
    requires
        0 <= i < j < list.len(),
        keep(list[i]),
        keep(list[j]),
    ensures
        exists|a: int, b: int|
            0 <= a < b < list.filter(keep).len() && #[trigger] list.filter(keep)[a] == list[i]
                && #[trigger] list.filter(keep)[b] == list[j],
    decreases list.len(),
{
    reveal(Seq::filter);
    let front = list.drop_last();
    let kept = front.filter(keep);
    if j < list.len() - 1 {
        lemma_kept_in_order(front, keep, i, j);
        let (a, b) = choose|a: int, b: int|
            0 <= a < b < kept.len() && #[trigger] kept[a] == front[i] && #[trigger] kept[b]
                == front[j];
        assert(list.filter(keep)[a] == list[i] && list.filter(keep)[b] == list[j]);
    } else {
        front.lemma_filter_contains(keep, i);
        let a = choose|a: int| 0 <= a < kept.len() && kept[a] == front[i];
        let all = list.filter(keep);
        assert(all == kept.push(list.last()));
        assert(all[a] == list[i] && all[kept.len() as int] == list[j]);
    }
}

/// A discovered host is paired under what was discovered of it. One that was
/// paired keeps what is known of its inputs, a new one has none; no other changes.
pub proof fn a_discovered_host_is_recorded_as_it_is(
    before: AppSettings,
    found: DiscoveredPeer,
    after: AppSettings,
    p: int,
    k: int,
)
    requires
        is_recorded(before, found, after),
    ensures
        is_host_of(after.peers@, found.id@, p) ==> is_reached_as(after.peers@[p], found),
        exists|q: int| is_host_of(after.peers@, found.id@, q),
        is_host_of(before.peers@, found.id@, p) ==> is_host_of(after.peers@, found.id@, p)
            && after.peers@[p].inputs == before.peers@[p].inputs && after.peers@.len()
            == before.peers@.len(),
        (forall|j: int| 0 <= j < before.peers@.len() ==> (#[trigger] before.peers@[j]).id@
            != found.id@) ==> after.peers@.len() == before.peers@.len() + 1
            && after.peers@.last().inputs@.len() == 0,
        0 <= k < before.peers@.len() && !is_host_of(before.peers@, found.id@, k)
            ==> after.peers@[k] == before.peers@[k],
        after.shared_monitors == before.shared_monitors,
        after.shared_key == before.shared_key,
{
    reveal_strlit("");
    lemma_host(before.peers@, found.id@);
    lemma_host(after.peers@, found.id@);
    let i = first_at(before.peers@, has_id(found.id@));
    assert forall|j: int| 0 <= j < i implies (#[trigger] after.peers@[j]).id@ != found.id@ by {
        if i == before.peers@.len() {
            assert(after.peers@.drop_last()[j] == before.peers@[j]);
        }
        assert(before.peers@[j].id@ != found.id@);
    }
    if i == before.peers@.len() && 0 <= k < before.peers@.len() {
        assert(after.peers@.drop_last()[k] == before.peers@[k]);
    }
    assert(is_host_of(after.peers@, found.id@, i));
}

proof fn lemma_endpoints(
    states: Seq<Seq<HostRoute>>,
    found: Seq<DiscoveredPeer>,
    n: int,
    k: int,
)
    requires
        are_endpoint_updates(states, found),
        0 <= n <= found.len(),
        0 <= k < states[0].len(),
    ensures
        states[n].len() == states[0].len(),
        forall|j: int|
            0 <= j < states[0].len() ==> (#[trigger] states[n][j]).id == states[0][j].id
                && states[n][j].inputs == states[0][j].inputs,
        is_host_of(states[0], states[0][k].id@, k) ==> {
            &&& (exists|d: int|
                0 <= d < n && (#[trigger] found[d]).id@ == states[0][k].id@) ==> exists|d: int|
                {
                    &&& 0 <= d < n
                    &&& is_reached_as(states[n][k], #[trigger] found[d])
                    &&& forall|e: int|
                        d < e < n ==> (#[trigger] found[e]).id@ != states[0][k].id@
                }
            &&& (forall|d: int| 0 <= d < n ==> (#[trigger] found[d]).id@ != states[0][k].id@)
                ==> states[n][k] == states[0][k]
        },
        !is_host_of(states[0], states[0][k].id@, k) ==> states[n][k] == states[0][k],
    decreases n,
{
    reveal_strlit("");
    if n > 0 {
        lemma_endpoints(states, found, n - 1, k);
        let last = states[n - 1];
        let peer = found[n - 1];
        assert(is_endpoint_update(states[n - 1], found[n - 1], states[n - 1 + 1]));
        lemma_host(last, peer.id@);
        let id = states[0][k].id@;
        assert(last[k].id == states[0][k].id);
        let i = first_at(last, has_id(peer.id@));
        assert forall|j: int| 0 <= j < states[0].len() implies (#[trigger] states[n][j]).id
            == states[0][j].id && states[n][j].inputs == states[0][j].inputs by {
            assert(last[j].id == states[0][j].id);
        }
        if is_host_of(states[0], id, k) {
            assert(is_host_of(last, id, k)) by {
                assert forall|j: int| 0 <= j < k implies (#[trigger] last[j]).id@ != id by {
                    assert(states[0][j].id@ != id);
                }
            }
            if peer.id@ == id {
                assert(i == k);
                assert(is_reached_as(states[n][k], found[n - 1]));
            } else {
                assert(i != k);
                assert(states[n][k] == last[k]);
                if exists|d: int| 0 <= d < n && (#[trigger] found[d]).id@ == id {
                    let d = choose|d: int| 0 <= d < n && (#[trigger] found[d]).id@ == id;
                    assert(d < n - 1);
                    assert(found[d].id@ == states[0][k].id@);
                    let e = choose|e: int|
                        {
                            &&& 0 <= e < n - 1
                            &&& is_reached_as(last[k], #[trigger] found[e])
                            &&& forall|f: int|
                                e < f < n - 1 ==> (#[trigger] found[f]).id@ != states[0][k].id@
                        };
                    assert(is_reached_as(states[n][k], found[e]));
                }
            }
        } else {
            assert(!is_host_of(last, id, k)) by {
                let j = choose|j: int| 0 <= j < k && (#[trigger] states[0][j]).id@ == id;
                assert(last[j].id@ == id);
            }
            if i == k {
                assert(last[k].id@ == peer.id@);
            }
        }
    }
}

/// After a search every paired host that was found is recorded as it was last
/// found, any other as before; none comes or goes or loses its inputs, and a
/// change is told where one of them is now recorded otherwise.
pub proof fn paired_hosts_are_recorded_as_last_found(
    before: AppSettings,
    found: Seq<DiscoveredPeer>,
    after: AppSettings,
    changed: bool,
    k: int,
)
    requires
        is_refreshed(before, found, after, changed),
        0 <= k < before.peers@.len(),
    ensures
        after.peers@.len() == before.peers@.len(),
        after.peers@[k].id == before.peers@[k].id,
        after.peers@[k].inputs == before.peers@[k].inputs,
        after.shared_monitors == before.shared_monitors,
        is_host_of(before.peers@, before.peers@[k].id@, k) && (exists|d: int|
            0 <= d < found.len() && (#[trigger] found[d]).id@ == before.peers@[k].id@)
            ==> exists|d: int|
            {
                &&& 0 <= d < found.len()
                &&& is_reached_as(after.peers@[k], #[trigger] found[d])
                &&& forall|e: int|
                    d < e < found.len() ==> (#[trigger] found[e]).id@ != before.peers@[k].id@
            },
        (forall|d: int| 0 <= d < found.len() ==> (#[trigger] found[d]).id@
            != before.peers@[k].id@) ==> after.peers@[k] == before.peers@[k],
        !changed ==> {
            &&& after.peers@[k].name@ == before.peers@[k].name@
            &&& after.peers@[k].address@ == before.peers@[k].address@
            &&& after.peers@[k].port == before.peers@[k].port
            &&& after.peers@[k].platform == before.peers@[k].platform
            &&& after.peers@[k].mac_address@ == before.peers@[k].mac_address@
        },
        after == before ==> !changed,
{
    let states = choose|states: Seq<Seq<HostRoute>>|
        {
            &&& #[trigger] are_endpoint_updates(states, found)
            &&& states[0] == before.peers@
            &&& states.last() == after.peers@
        };
    lemma_endpoints(states, found, found.len() as int, k);
    assert(states.last() == states[found.len() as int]);
    assert(states[found.len() as int][k].id == states[0][k].id);
}

/// Sharing a present display leaves exactly one more where none of the shared
/// ones is it, and none more otherwise; `at` is where it stands.
pub proof fn a_display_is_shared_once(
    before: AppSettings,
    monitor: MonitorDescriptor,
    after: AppSettings,
    at: usize,
    k: int,
)
    requires
        is_shared_at(before, monitor, after, at),
    ensures
        at < after.shared_monitors@.len(),
        same_display(
            before.monitor_identity_links@,
            after.shared_monitors@[at as int].fingerprint@,
            monitor.fingerprint@,
        ),
        0 <= k < before.shared_monitors@.len() ==> after.shared_monitors@[k]
            == before.shared_monitors@[k],
        0 <= k < before.shared_monitors@.len() && same_display(
            before.monitor_identity_links@,
            before.shared_monitors@[k].fingerprint@,
            monitor.fingerprint@,
        ) ==> after.shared_monitors@ == before.shared_monitors@,
        at == before.shared_monitors@.len() ==> {
            &&& after.shared_monitors@.len() == before.shared_monitors@.len() + 1
            &&& after.shared_monitors@[at as int].fingerprint@ == monitor.fingerprint@
            &&& after.shared_monitors@[at as int].name@ == monitor.name@
            &&& after.shared_monitors@[at as int].max_resolution == monitor.max_resolution
            &&& after.shared_monitors@[at as int].local_input is None
            &&& after.shared_monitors@[at as int].supported_inputs is None
            &&& after.shared_monitors@[at as int].active_route is None
        },
        after.shared_monitors_chosen,
        after.peers == before.peers,
{
    let links = before.monitor_identity_links@;
    let wanted = selects(links, monitor.fingerprint@);
    let monitors = before.shared_monitors@;
    lemma_first_at(monitors, wanted);
    let i = first_at(monitors, wanted);
    if i < monitors.len() {
        assert(wanted(monitors[i]));
    }
    if 0 <= k < monitors.len() && same_display(
        links,
        monitors[k].fingerprint@,
        monitor.fingerprint@,
    ) {
        assert(wanted(monitors[k]));
    }
}

/// Once a display is no longer shared, no selection is that display and no host
/// has an input for it; every other display stays, and so does every input that a
/// host has for one. Only an unknown key is refused, and changes nothing.
pub proof fn an_unshared_display_is_gone_and_the_others_stay(
    locale: UiLocale,
    before: AppSettings,
    key: Seq<char>,
    after: AppSettings,
    result: Result<(), String>,
    m: int,
    k: int,
    p: int,
    input: DisplayInput,
)
    requires
        is_unshared(locale, before, key, after, result),
    ensures
        (forall|j: int| 0 <= j < before.shared_monitors@.len() ==> !is_keyed(
            (#[trigger] before.shared_monitors@[j]).fingerprint@,
            key,
        )) <==> result is Err,
        result is Err ==> after == before,
        is_display_under(before.shared_monitors@, key, m) ==> {
            let links = before.monitor_identity_links@;
            let gone = before.shared_monitors@[m].fingerprint@;
            &&& result is Ok
            &&& after.shared_monitors_chosen
            &&& forall|j: int|
                0 <= j < after.shared_monitors@.len() ==> !same_display(
                    links,
                    (#[trigger] after.shared_monitors@[j]).fingerprint@,
                    gone,
                )
            &&& 0 <= k < before.shared_monitors@.len() && !same_display(
                links,
                before.shared_monitors@[k].fingerprint@,
                gone,
            ) ==> after.shared_monitors@.contains(before.shared_monitors@[k])
            &&& after.peers@.len() == before.peers@.len()
            &&& 0 <= p < before.peers@.len() ==> {
                &&& after.peers@[p].id == before.peers@[p].id
                &&& after.peers@[p].address == before.peers@[p].address
                &&& is_unplugged(after.peers@[p], gone)
                &&& 0 <= k < before.shared_monitors@.len() && !same_display(
                    links,
                    before.shared_monitors@[k].fingerprint@,
                    gone,
                ) && is_plugged_into(
                    before.peers@[p],
                    before.shared_monitors@[k].fingerprint@,
                    input,
                ) ==> is_plugged_into(
                    after.peers@[p],
                    before.shared_monitors@[k].fingerprint@,
                    input,
                )
            }
        },
{
    let links = before.monitor_identity_links@;
    let monitors = before.shared_monitors@;
    lemma_display_under(monitors, key);
    if is_display_under(monitors, key, m) {
        let gone = monitors[m].fingerprint@;
        let keep = does_not_select(links, gone);
        lemma_kept_were_there(monitors, keep);
        assert forall|j: int| 0 <= j < after.shared_monitors@.len() implies !same_display(
            links,
            (#[trigger] after.shared_monitors@[j]).fingerprint@,
            gone,
        ) by {
            assert(keep(after.shared_monitors@[j]));
        }
        if 0 <= k < monitors.len() && keep(monitors[k]) {
            monitors.lemma_filter_contains(keep, k);
        }
        if 0 <= p < before.peers@.len() {
            let had = before.peers@[p];
            let has = after.peers@[p];
            let kept = stays(links, monitors, gone);
            lemma_kept_were_there(had.inputs@, kept);
            assert forall|i: int| 0 <= i < has.inputs@.len() implies (
            #[trigger] has.inputs@[i]).monitor@ != gone by {
                assert(kept(has.inputs@[i]));
            }
            if 0 <= k < monitors.len() && !same_display(links, monitors[k].fingerprint@, gone) {
                let other = monitors[k].fingerprint@;
                if is_plugged_into(had, other, input) {
                    lemma_plugged(had, other);
                    lemma_plugged(has, other);
                    same_display_is_an_equivalence(links, other, other, gone);
                    assert forall|a: MonitorInputAssignment| #[trigger]
                        assigned_to(other)(a) implies kept(a) by {
                        assert(!is_gone(links, monitors, gone, other)) by {
                            if is_gone(links, monitors, gone, other) {
                                same_display_is_an_equivalence(links, gone, gone, gone);
                            }
                        }
                    }
                    lemma_found_in_kept(had.inputs@, kept, assigned_to(other));
                }
            }
        }
    }
}

/// The inputs to choose from are those of the display that was asked about: each
/// that it listed, in its order, or the common ones where it listed none, each
/// with its own note.
pub proof fn inputs_are_offered_of_the_display_asked_about(
    locale: UiLocale,
    settings: AppSettings,
    key: Seq<char>,
    result: Result<Vec<InputOption>, String>,
    m: int,
    k: int,
)
    requires
        are_input_options(locale, settings, key, result),
    ensures
        (forall|j: int| 0 <= j < settings.shared_monitors@.len() ==> !is_keyed(
            (#[trigger] settings.shared_monitors@[j]).fingerprint@,
            key,
        )) <==> result is Err,
        is_display_under(settings.shared_monitors@, key, m) && settings.shared_monitors@[m].supported_inputs
            is Some && settings.shared_monitors@[m].supported_inputs->0@.len() > 0
            ==> result is Ok && {
            let inputs = settings.shared_monitors@[m].supported_inputs->0@;
            &&& result->Ok_0@.len() == inputs.len()
            &&& 0 <= k < inputs.len() ==> result->Ok_0@[k].value == inputs[k].code
        },
        is_display_under(settings.shared_monitors@, key, m) && (
        settings.shared_monitors@[m].supported_inputs is None
            || settings.shared_monitors@[m].supported_inputs->0@.len() == 0) ==> result is Ok && {
            let options = result->Ok_0@;
            &&& options.len() == 6
            &&& options[0].value == 0x01 && options[1].value == 0x03 && options[2].value == 0x0f
            &&& options[3].value == 0x11 && options[4].value == 0x12 && options[5].value == 0x1b
        },
        is_display_under(settings.shared_monitors@, key, m) && result is Ok && 0 <= k
            < result->Ok_0@.len() ==> {
            let option = result->Ok_0@[k];
            let monitor = settings.shared_monitors@[m].fingerprint@;
            let input = DisplayInput { code: option.value };
            &&& option.label@.len() > 0 ==> is_annotated(
                settings.input_labels@,
                monitor,
                input,
                option.label@,
            ) && option.label@.is_prefix_of(option.name@)
            &&& option.label@.len() == 0 ==> option.name@ == option.base_name@ && forall|
                note: Seq<char>,
            |
                !#[trigger] is_annotated(settings.input_labels@, monitor, input, note)
        },
{
    lemma_display_under(settings.shared_monitors@, key);
    if is_display_under(settings.shared_monitors@, key, m) && result is Ok {
        let selected = settings.shared_monitors@[m];
        let options = result->Ok_0@;
        let offered = offered_inputs(selected);
        assert forall|n: int| 0 <= n < options.len() implies (#[trigger] options[n]).value
            == offered[n].code by {
            assert(shows_input(
                options[n],
                locale,
                settings.input_labels@,
                selected,
                offered_inputs(selected)[n],
            ));
        }
        if selected.supported_inputs is None || selected.supported_inputs->0@.len() == 0 {
            assert(offered.len() == 6);
            assert(options[0].value == offered[0].code);
            assert(options[1].value == offered[1].code);
            assert(options[2].value == offered[2].code);
            assert(options[3].value == offered[3].code);
            assert(options[4].value == offered[4].code);
            assert(options[5].value == offered[5].code);
        }
        if 0 <= k < options.len() {
            let option = options[k];
            let input = DisplayInput { code: option.value };
            assert(offered[k] == input);
            a_note_is_of_its_own_display_and_input(
                settings.input_labels@,
                selected.fingerprint@,
                input,
            );
            assert(shows_input(
                option,
                locale,
                settings.input_labels@,
                selected,
                offered_inputs(selected)[k],
            ));
            reveal_strlit("");
            if option.label@.len() > 0 {
                a_note_is_shown_before_the_name(
                    locale,
                    settings,
                    selected.fingerprint@,
                    selected.vendor_indexed_inputs,
                    input,
                    option.label@,
                );
            }
        }
    }
}

/// A note is shown before the name of its input, and an input without one by its
/// name alone.
pub proof fn a_note_is_shown_before_the_name(
    locale: UiLocale,
    settings: AppSettings,
    monitor: Identity,
    vendor_indexed: bool,
    input: DisplayInput,
    note: Seq<char>,
)
    ensures
        is_annotated(settings.input_labels@, monitor, input, note) ==> note.is_prefix_of(
            noted_label_of(locale, settings.input_labels@, monitor, vendor_indexed, input),
        ),
{
    a_note_is_of_its_own_display_and_input(settings.input_labels@, monitor, input);
}

/// A settings form decides the options, the password and the paired hosts, and
/// nothing that displays reported or paired hosts share.
pub proof fn a_form_decides_only_what_it_shows(incoming: AppSettings, saved: AppSettings)
    ensures
        ({
            let after = form_applied(incoming, saved);
            &&& after.shared_monitors == saved.shared_monitors
            &&& after.shared_monitors_chosen == saved.shared_monitors_chosen
            &&& after.local_host == saved.local_host
            &&& after.local_host_id == saved.local_host_id
            &&& after.host_order == saved.host_order
            &&& after.host_order_updated_at_ms == saved.host_order_updated_at_ms
            &&& after.host_aliases == saved.host_aliases
            &&& after.input_labels == saved.input_labels
            &&& after.monitor_identity_links == saved.monitor_identity_links
            &&& after.onboarding_completed == saved.onboarding_completed
            &&& after.peers == incoming.peers
            &&& after.shared_key == incoming.shared_key
            &&& after.broadcast_ip == incoming.broadcast_ip
            &&& after.wake_port == incoming.wake_port
            &&& after.wait_seconds == incoming.wait_seconds
            &&& after.autostart == incoming.autostart
            &&& after.check_updates == incoming.check_updates
            &&& after.host_switcher_enabled == incoming.host_switcher_enabled
            &&& after.host_switcher_shortcut == incoming.host_switcher_shortcut
        }),
{
}

/// A reset of the displays forgets every display and everything keyed to one, and
/// leaves the pairing, the options and what hosts are called.
pub proof fn a_reset_of_displays_keeps_the_pairing(before: AppSettings, after: AppSettings, k: int)
    requires
        is_display_reset(before, after),
    ensures
        after.shared_monitors@.len() == 0,
        after.shared_monitors_chosen,
        after.input_labels@.len() == 0,
        after.monitor_identity_links@.len() == 0,
        after.shared_key == before.shared_key,
        after.local_host_id == before.local_host_id,
        after.host_order == before.host_order,
        after.host_aliases == before.host_aliases,
        after.autostart == before.autostart,
        after.wait_seconds == before.wait_seconds,
        after.peers@.len() == before.peers@.len(),
        0 <= k < before.peers@.len() ==> {
            &&& after.peers@[k].id == before.peers@[k].id
            &&& after.peers@[k].name == before.peers@[k].name
            &&& after.peers@[k].address == before.peers@[k].address
            &&& after.peers@[k].port == before.peers@[k].port
            &&& after.peers@[k].mac_address == before.peers@[k].mac_address
            &&& after.peers@[k].inputs@.len() == 0
        },
{
}

/// A full reset leaves of the setup only which host this is.
pub proof fn a_full_reset_keeps_only_the_host_id(before: AppSettings, after: AppSettings)
    requires
        is_full_reset(before, after),
    ensures
        after.local_host_id == before.local_host_id,
        after.local_host == before.local_host,
        after.shared_monitors@.len() == 0 && after.shared_monitors_chosen,
        after.peers@.len() == 0,
        after.shared_key@.len() == 0,
        after.host_order@.len() == 0 && after.host_order_updated_at_ms == 0,
        after.host_aliases@.len() == 0,
        after.input_labels@.len() == 0,
        after.monitor_identity_links@.len() == 0,
        !after.onboarding_completed && !after.host_switcher_enabled,
        after.autostart && after.check_updates,
        after.wake_port == 9 && after.wait_seconds == 45,
{
}

/// The claims shown are those that stand, each with its own two identities.
pub proof fn a_shown_claim_names_its_two_identities(
    links: Seq<crate::domain::MonitorIdentityLink>,
    i: int,
)
    requires
        0 <= i < links.len(),
    ensures
        links[i].primary is Some ==> standing_claims(links).contains(links[i]),
        links[i].primary is None ==> !standing_claims(links).contains(links[i]),
{
    let keep = |link: crate::domain::MonitorIdentityLink| link.primary is Some;
    lemma_kept_were_there(links, keep);
    if keep(links[i]) {
        links.lemma_filter_contains(keep, i);
    }
    if standing_claims(links).contains(links[i]) {
        let k = choose|k: int|
            0 <= k < standing_claims(links).len() && standing_claims(links)[k] == links[i];
        assert(keep(links.filter(keep)[k]));
    }
}

/// What is shown of a claim leads back to its two identities.
pub proof fn a_shown_claim_leads_back(
    claim: MonitorIdentityClaim,
    alias: Identity,
    primary: Identity,
)
    requires
        shows_claim(claim, alias, primary),
    ensures
        is_keyed(alias, claim.alias_key@),
        is_keyed(primary, claim.primary_key@),
        alias.manufacturer.is_prefix_of(claim.alias_label@),
        primary.manufacturer.is_prefix_of(claim.primary_label@),
{
}

/// This computer keeps the id that it was first given, whatever it looks like
/// later; and tells that there is something to save just the first time.
pub proof fn a_settled_id_stays(
    before: AppSettings,
    detected: LocalHostIdentity,
    after: AppSettings,
    settled: (LocalHostIdentity, bool),
)
    requires
        is_settled(before, detected, after, settled),
    ensures
        before.local_host_id@.len() > 0 ==> settled.0.id@ == before.local_host_id@ && !settled.1
            && after.local_host_id@ == before.local_host_id@,
        before.local_host_id@.len() == 0 ==> settled.0.id@ == detected.id@ && settled.1
            && after.local_host_id@ == detected.id@,
        settled.0.name == detected.name,
        settled.0.platform == detected.platform,
        settled.0.mac_address == detected.mac_address,
        after.peers == before.peers,
        after.shared_monitors == before.shared_monitors,
        after.host_aliases == before.host_aliases,
{
}

/// A development build is never a login item; nothing else is changed for it.
pub proof fn a_development_build_is_no_login_item(
    settings: AppSettings,
    development: bool,
    result: AppSettings,
)
    requires
        is_for_build(settings, development, result),
    ensures
        development ==> !result.autostart,
        !development ==> result == settings,
        result.peers == settings.peers,
        result.shared_monitors == settings.shared_monitors,
        result.shared_key == settings.shared_key,
        result.onboarding_completed == settings.onboarding_completed,
{
}

/// What is looked up is the display under the key and the host of the id, where
/// there is one.
pub proof fn what_is_looked_up_is_what_was_named(
    locale: UiLocale,
    settings: AppSettings,
    key: Seq<char>,
    id: Seq<char>,
    monitor: Result<&SelectedMonitor, String>,
    peer: Result<&HostRoute, String>,
    m: int,
    p: int,
)
    requires
        is_found_monitor(locale, settings, key, monitor),
        is_found_peer(locale, settings, id, peer),
    ensures
        is_display_under(settings.shared_monitors@, key, m) ==> monitor is Ok && *monitor->Ok_0
            == settings.shared_monitors@[m],
        is_host_of(settings.peers@, id, p) ==> peer is Ok && *peer->Ok_0 == settings.peers@[p],
        monitor is Ok ==> is_keyed(monitor->Ok_0.fingerprint@, key),
        peer is Ok ==> peer->Ok_0.id@ == id,
{
    lemma_display_under(settings.shared_monitors@, key);
    lemma_host(settings.peers@, id);
}

} // verus!
