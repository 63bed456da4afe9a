//! What the user's changes and paired hosts' notices do to the settings, and what
//! paired hosts are told.

use crate::domain::{DisplayInput, Identity, MonitorFingerprint};
use crate::entries::changes_never_move_backwards;
use crate::laws::claims::{is_claimed_to_be, is_unclaimed};
use crate::laws::entries::{
    is_plain_id, is_plain_id_char, lemma_claim_recorded, lemma_name_set, lemma_note_set,
};
use crate::laws::naming::{is_annotated, is_called, is_nameless};
use crate::laws::{
    is_display_under, is_keyed, is_plugged_into, is_showing, is_unplugged, lemma_display_under,
    lemma_host, lemma_plugged,
};
use crate::lists::{first_at, lemma_first_at, lemma_first_at_is, lemma_kept_were_there, some_item};
use crate::locale::UiLocale;
use crate::notes::{an_absorbed_display_has_no_notes, lemma_lookup, moving_notes_overwrites_none};
use crate::settings::{AppSettings, HostRoute};
use crate::sharing::{
    absorbed, absorbing_overwrites_no_input, is_exactly, is_label_set, is_link_set, is_name_set,
    is_newer_order, is_not_exactly, is_order_set, is_order_taken, is_route_set, peer_id_views,
};
use crate::text::{control, trimmed, views};
use vstd::prelude::*;

verus! {

/// A display whose switch was confirmed is said to show the route it was switched
/// to, from that moment; every other display is left alone, and one that is not
/// shared changes nothing.
pub proof fn a_confirmed_switch_is_shown_on_its_display(
    before: AppSettings,
    monitor: Identity,
    route: Seq<char>,
    now_ms: u64,
    after: AppSettings,
    known: bool,
    k: int,
)
    requires
        is_route_set(before, monitor, route, now_ms, after, known),
        0 <= k < before.shared_monitors@.len(),
    ensures
        after.shared_monitors@.len() == before.shared_monitors@.len(),
        after.shared_monitors@[k].fingerprint == before.shared_monitors@[k].fingerprint,
        after.shared_monitors@[k].local_input == before.shared_monitors@[k].local_input,
        before.shared_monitors@[k].fingerprint@ == monitor ==> known,
        before.shared_monitors@[k].fingerprint@ == monitor && (forall|j: int|
            0 <= j < k ==> (#[trigger] before.shared_monitors@[j]).fingerprint@ != monitor) ==> {
            &&& is_showing(after.shared_monitors@[k], route)
            &&& after.shared_monitors@[k].active_route is Some
            &&& after.shared_monitors@[k].active_route_confirmed_at_ms == now_ms
        },
        before.shared_monitors@[k].fingerprint@ != monitor ==> after.shared_monitors@[k]
            == before.shared_monitors@[k],
        !known ==> after == before,
        after.peers == before.peers,
{
    let monitors = before.shared_monitors@;
    let wanted = is_exactly(monitor);
    lemma_first_at(monitors, wanted);
    let i = first_at(monitors, wanted);
    if i < monitors.len() {
        assert(wanted(monitors[i]));
    }
    if monitors[k].fingerprint@ == monitor {
        assert(wanted(monitors[k]));
        if forall|j: int| 0 <= j < k ==> (#[trigger] monitors[j]).fingerprint@ != monitor {
            lemma_first_at_is(monitors, wanted, k);
        }
    }
}

/// Whether an order of hosts can come from a paired host: at most 64, none twice,
/// each a host id.
pub open spec fn is_plain_order(order: Seq<String>) -> bool {
    &&& order.len() <= 64
    &&& forall|i: int| 0 <= i < order.len() ==> is_plain_id((#[trigger] order[i])@)
    &&& forall|i: int, j: int|
        0 <= i < j < order.len() ==> (#[trigger] order[i])@ != (#[trigger] order[j])@
}

pub(crate) proof fn lemma_plain_order(settings: AppSettings, order: Seq<String>, at: u64)
    ensures
        is_newer_order(settings, order, at) <==> at > settings.host_order_updated_at_ms
            && is_plain_order(order),
{
    let listed = views(order);
    assert(listed.no_duplicates() <==> forall|i: int, j: int|
        0 <= i < j < order.len() ==> (#[trigger] order[i])@ != (#[trigger] order[j])@) by {
        if forall|i: int, j: int|
            0 <= i < j < order.len() ==> (#[trigger] order[i])@ != (#[trigger] order[j])@ {
            assert forall|i: int, j: int|
                0 <= i < listed.len() && 0 <= j < listed.len() && i != j implies listed[i]
                != listed[j] by {
                if i < j {
                    assert(order[i]@ != order[j]@);
                } else {
                    assert(order[j]@ != order[i]@);
                }
            }
        }
        if listed.no_duplicates() {
            assert forall|i: int, j: int| 0 <= i < j < order.len() implies (#[trigger] order[i])@
                != (#[trigger] order[j])@ by {
                assert(listed[i] != listed[j]);
            }
        }
    }
    assert forall|i: int| 0 <= i < order.len() implies (is_plain_id((#[trigger] order[i])@)
        <==> crate::host_order::valid_host_id(listed[i])) by {
        let id = order[i]@;
        assert(listed[i] == id);
        assert forall|n: int| 0 <= n < id.len() implies (is_plain_id_char(#[trigger] id[n])
            <==> crate::host_order::host_id_char(id[n])) by {}
        if is_plain_id(id) {
            assert forall|n: int| 0 <= n < id.len() implies crate::host_order::host_id_char(
                #[trigger] id[n],
            ) by {
                assert(is_plain_id_char(id[n]));
            }
        }
        if crate::host_order::valid_host_id(id) {
            assert forall|n: int| 0 <= n < id.len() implies is_plain_id_char(
                #[trigger] id[n],
            ) by {
                assert(crate::host_order::host_id_char(id[n]));
            }
        }
    }
    if is_plain_order(order) {
        assert forall|i: int| 0 <= i < listed.len() implies crate::host_order::valid_host_id(
            #[trigger] listed[i],
        ) by {
            assert(is_plain_id(order[i]@));
        }
    }
    if crate::host_order::valid_shared_order(listed) {
        assert forall|i: int| 0 <= i < order.len() implies is_plain_id((#[trigger] order[i])@) by {
            assert(crate::host_order::valid_host_id(listed[i]));
        }
    }
}

/// A paired host's order is taken over exactly where it is well formed and newer,
/// and then with its time.
pub proof fn a_later_order_is_taken_over(
    before: AppSettings,
    order: Vec<String>,
    at: u64,
    after: AppSettings,
    changed: bool,
)
    requires
        is_order_taken(before, order, at, after, changed),
    ensures
        changed <==> at > before.host_order_updated_at_ms && is_plain_order(order@),
        changed ==> after.host_order@ == order@ && after.host_order_updated_at_ms == at,
        !changed ==> after == before,
        after.shared_monitors == before.shared_monitors && after.peers == before.peers,
{
    lemma_plain_order(before, order@, at);
}

/// Whether routes are this computer and every paired host, each once.
pub open spec fn are_all_hosts(routes: Seq<Seq<char>>, peers: Seq<HostRoute>) -> bool {
    &&& forall|i: int, j: int|
        0 <= i < j < routes.len() ==> #[trigger] routes[i] != #[trigger] routes[j]
    &&& routes.contains("local"@)
    &&& forall|p: int| 0 <= p < peers.len() ==> routes.contains((#[trigger] peers[p]).id@)
    &&& forall|i: int|
        0 <= i < routes.len() ==> #[trigger] routes[i] == "local"@ || exists|p: int|
            0 <= p < peers.len() && (#[trigger] peers[p]).id@ == routes[i]
}

proof fn lemma_all_hosts(routes: Seq<Seq<char>>, peers: Seq<HostRoute>)
    ensures
        are_all_hosts(routes, peers) <==> crate::host_order::lists_every_host_once(
            routes,
            peer_id_views(peers),
        ),
{
    let ids = peer_id_views(peers);
    let all = crate::host_order::all_routes(ids);
    assert(all[0] == "local"@);
    assert forall|p: int| 0 <= p < peers.len() implies all.contains(
        (#[trigger] peers[p]).id@,
    ) by {
        assert(all[p + 1] == ids[p]);
    }
    assert forall|route: Seq<char>| #[trigger] all.contains(route) implies route == "local"@ || (
    exists|p: int| 0 <= p < peers.len() && (#[trigger] peers[p]).id@ == route) by {
        let n = choose|n: int| 0 <= n < all.len() && all[n] == route;
        if n > 0 {
            assert(peers[n - 1].id@ == route);
        }
    }
    if are_all_hosts(routes, peers) {
        assert(routes.no_duplicates()) by {
            assert forall|i: int, j: int|
                0 <= i < routes.len() && 0 <= j < routes.len() && i != j implies routes[i]
                != routes[j] by {
                if j < i {
                    assert(routes[j] != routes[i]);
                }
            }
        }
        assert forall|route: Seq<char>| #[trigger] routes.contains(route) <==> all.contains(
            route,
        ) by {
            if routes.contains(route) {
                let n = choose|n: int| 0 <= n < routes.len() && routes[n] == route;
                assert(routes[n] == "local"@ || exists|p: int|
                    0 <= p < peers.len() && (#[trigger] peers[p]).id@ == routes[n]);
            }
        }
    }
    if crate::host_order::lists_every_host_once(routes, ids) {
        assert(all.contains("local"@));
        assert forall|i: int| 0 <= i < routes.len() implies #[trigger] routes[i] == "local"@ || (
        exists|p: int| 0 <= p < peers.len() && (#[trigger] peers[p]).id@ == routes[i]) by {
            assert(routes.contains(routes[i]));
        }
        assert forall|p: int| 0 <= p < peers.len() implies routes.contains(
            (#[trigger] peers[p]).id@,
        ) by {
            assert(all.contains(peers[p].id@));
        }
    }
}

/// An order is saved exactly where it lists every host once: host for host as it
/// lists them, this computer under its own id, hosts known only to others behind,
/// and newer than the saved one as long as a later time is left.
pub proof fn an_order_is_saved_as_it_was_arranged(
    locale: UiLocale,
    before: AppSettings,
    routes: Seq<Seq<char>>,
    local_host_id: Seq<char>,
    now_ms: u64,
    after: AppSettings,
    result: Result<(), String>,
    k: int,
)
    requires
        is_order_set(locale, before, routes, local_host_id, now_ms, after, result),
    ensures
        result is Ok <==> are_all_hosts(routes, before.peers@),
        result is Err ==> after == before,
        result is Ok ==> {
            &&& after.host_order@.len() >= routes.len()
            &&& 0 <= k < routes.len() ==> after.host_order@[k]@ == if routes[k] == "local"@ {
                local_host_id
            } else {
                routes[k]
            }
            &&& routes.len() <= k < after.host_order@.len() ==> views(
                before.host_order@,
            ).contains(after.host_order@[k]@)
            &&& after.host_order_updated_at_ms >= now_ms
            &&& before.host_order_updated_at_ms < u64::MAX ==> after.host_order_updated_at_ms
                > before.host_order_updated_at_ms
            &&& now_ms > before.host_order_updated_at_ms ==> after.host_order_updated_at_ms
                == now_ms
            &&& after.peers == before.peers && after.shared_monitors == before.shared_monitors
                && after.host_aliases == before.host_aliases
        },
{
    lemma_all_hosts(routes, before.peers@);
    if result is Ok {
        let known = crate::host_order::named_hosts(routes, local_host_id);
        let previous = views(before.host_order@);
        let rest = crate::host_order::unknown_hosts(previous, known);
        let keep = |host: Seq<char>| !known.contains(host);
        lemma_kept_were_there(previous, keep);
        changes_never_move_backwards(before.host_order_updated_at_ms, now_ms);
        let saved = views(after.host_order@);
        assert(saved == known + rest);
        assert(saved.len() == after.host_order@.len());
        if 0 <= k < after.host_order@.len() {
            assert(saved[k] == after.host_order@[k]@);
            if k < routes.len() {
                assert(saved[k] == known[k]);
            } else {
                assert(saved[k] == rest[k - routes.len()]);
                assert(previous.contains(rest[k - routes.len()]));
            }
        }
    }
}

/// Naming a host gives that host the name, without the white space around it; an
/// empty name takes it away; no other host is renamed. Only an unknown route, and
/// a name too long or with characters that control, are refused.
pub proof fn a_named_host_has_the_name(
    locale: UiLocale,
    before: AppSettings,
    route: Seq<char>,
    name: Seq<char>,
    local_host_id: Seq<char>,
    now_ms: u64,
    after: AppSettings,
    result: Result<(), String>,
    other: Seq<char>,
    other_name: Seq<char>,
)
    requires
        is_name_set(locale, before, route, name, local_host_id, now_ms, after, result),
    ensures
        ({
            let host = if route == "local"@ {
                local_host_id
            } else {
                route
            };
            let known = route == "local"@ || exists|p: int|
                0 <= p < before.peers@.len() && (#[trigger] before.peers@[p]).id@ == route;
            let shown = trimmed(name);
            &&& result is Ok <==> known && shown.len() <= 32 && forall|i: int|
                0 <= i < shown.len() ==> !control(#[trigger] shown[i])
            &&& result is Err ==> after == before
            &&& result is Ok && shown.len() > 0 ==> is_called(after.host_aliases@, host, shown)
            &&& result is Ok && shown.len() == 0 ==> is_nameless(after.host_aliases@, host)
            &&& other != host && is_called(before.host_aliases@, other, other_name) ==> is_called(
                after.host_aliases@,
                other,
                other_name,
            )
            &&& other != host && is_nameless(before.host_aliases@, other) ==> is_nameless(
                after.host_aliases@,
                other,
            )
            &&& after.peers == before.peers && after.shared_monitors == before.shared_monitors
        }),
{
    lemma_host(before.peers@, route);
    if exists|p: int| 0 <= p < before.peers@.len() && (#[trigger] before.peers@[p]).id@ == route {
        let p = choose|p: int|
            0 <= p < before.peers@.len() && (#[trigger] before.peers@[p]).id@ == route;
        assert(some_item(before.peers@, crate::settings::has_id(route)));
    }
    if result is Ok {
        lemma_name_set(before.host_aliases@, after.host_aliases@.last(), other, other_name);
    }
}

/// A name set here is stamped later than the one it replaces, as long as a later
/// time is left, so paired hosts that hold that one take it over.
pub proof fn a_new_name_is_later_than_the_old_one(
    locale: UiLocale,
    before: AppSettings,
    route: Seq<char>,
    name: Seq<char>,
    local_host_id: Seq<char>,
    now_ms: u64,
    after: AppSettings,
    i: int,
)
    requires
        is_name_set(locale, before, route, name, local_host_id, now_ms, after, Ok(())),
        0 <= i < before.host_aliases@.len(),
        forall|j: int|
            0 <= j < i ==> (#[trigger] before.host_aliases@[j]).host_id@
                != before.host_aliases@[i].host_id@,
        before.host_aliases@[i].host_id@ == after.host_aliases@.last().host_id@,
        before.host_aliases@[i].updated_at_ms < u64::MAX,
    ensures
        after.host_aliases@.last().updated_at_ms > before.host_aliases@[i].updated_at_ms,
        after.host_aliases@.last().updated_at_ms >= now_ms,
{
    let entry = after.host_aliases@.last();
    let list = before.host_aliases@;
    lemma_first_at_is(list, crate::entries::about(entry), i);
    changes_never_move_backwards(list[i].updated_at_ms, now_ms);
}

/// Setting a note sets it for that input of the display of that key, without the
/// white space around it; an empty one takes it away; no other input's changes.
/// Only an unknown display, an input that none can have, and a note too long or
/// with characters that control are refused.
pub proof fn a_note_is_set_for_the_named_display_and_input(
    locale: UiLocale,
    before: AppSettings,
    key: Seq<char>,
    input: u32,
    label: Seq<char>,
    now_ms: u64,
    after: AppSettings,
    result: Result<(), String>,
    m: int,
    other: Identity,
    other_input: DisplayInput,
    note: Seq<char>,
)
    requires
        is_label_set(locale, before, key, input, label, now_ms, after, result),
        is_display_under(before.shared_monitors@, key, m),
    ensures
        ({
            let monitor = before.shared_monitors@[m].fingerprint@;
            let wanted = DisplayInput { code: input };
            let shown = trimmed(label);
            &&& result is Ok <==> 1 <= input <= 255 && shown.len() <= 24 && forall|i: int|
                0 <= i < shown.len() ==> !control(#[trigger] shown[i])
            &&& result is Err ==> after == before
            &&& result is Ok && shown.len() > 0 ==> is_annotated(
                after.input_labels@,
                monitor,
                wanted,
                shown,
            )
            &&& result is Ok && shown.len() == 0 ==> !is_annotated(
                after.input_labels@,
                monitor,
                wanted,
                note,
            )
            &&& !(other == monitor && other_input == wanted) ==> (is_annotated(
                before.input_labels@,
                other,
                other_input,
                note,
            ) <==> is_annotated(after.input_labels@, other, other_input, note))
            &&& after.peers == before.peers && after.shared_monitors == before.shared_monitors
        }),
{
    lemma_display_under(before.shared_monitors@, key);
    if result is Ok {
        lemma_note_set(
            before.input_labels@,
            after.input_labels@.last(),
            other,
            other_input,
            note,
        );
    }
}

/// Merging a display into a shared one records that claim, drops the absorbed one
/// from the shared displays and keeps every other; each host keeps the input that
/// it has for the joined display, or takes over the absorbed one's.
pub proof fn a_merge_joins_the_absorbed_display_to_the_named_one(
    locale: UiLocale,
    before: AppSettings,
    alias: MonitorFingerprint,
    key: Seq<char>,
    now_ms: u64,
    after: AppSettings,
    result: Result<(), String>,
    m: int,
    k: int,
    p: int,
    input: DisplayInput,
)
    requires
        is_link_set(locale, before, alias, Some(key), now_ms, after, result),
        is_display_under(before.shared_monitors@, key, m),
    ensures
        ({
            let joined = before.shared_monitors@[m].fingerprint@;
            &&& result is Ok <==> joined != alias@
            &&& result is Err ==> after == before
            &&& result is Ok ==> {
                &&& is_claimed_to_be(after.monitor_identity_links@, alias@, joined)
                &&& forall|j: int|
                    0 <= j < after.shared_monitors@.len() ==> (
                    #[trigger] after.shared_monitors@[j]).fingerprint@ != alias@
                &&& 0 <= k < before.shared_monitors@.len()
                    && before.shared_monitors@[k].fingerprint@ != alias@
                    ==> after.shared_monitors@.contains(before.shared_monitors@[k])
                &&& after.peers@.len() == before.peers@.len()
                &&& 0 <= p < before.peers@.len() ==> {
                    let had = before.peers@[p];
                    let has = after.peers@[p];
                    &&& has.id == had.id && has.address == had.address
                    &&& is_unplugged(has, alias@)
                    &&& is_plugged_into(had, joined, input) ==> is_plugged_into(has, joined, input)
                    &&& is_unplugged(had, joined) && is_plugged_into(had, alias@, input)
                        ==> is_plugged_into(has, joined, input)
                    &&& is_unplugged(had, joined) && is_unplugged(had, alias@) ==> is_unplugged(
                        has,
                        joined,
                    )
                    &&& 0 <= k < before.shared_monitors@.len()
                        && before.shared_monitors@[k].fingerprint@ != alias@
                        && before.shared_monitors@[k].fingerprint@ != joined && is_plugged_into(
                        had,
                        before.shared_monitors@[k].fingerprint@,
                        input,
                    ) ==> is_plugged_into(has, before.shared_monitors@[k].fingerprint@, input)
                }
            }
        }),
{
    lemma_display_under(before.shared_monitors@, key);
    let primary = before.shared_monitors@[m].fingerprint;
    if result is Ok {
        let entry = after.monitor_identity_links@.last();
        lemma_claim_recorded(before.monitor_identity_links@, entry, alias@, alias@);
        let keep = is_not_exactly(alias@);
        lemma_kept_were_there(before.shared_monitors@, keep);
        assert forall|j: int| 0 <= j < after.shared_monitors@.len() implies (
        #[trigger] after.shared_monitors@[j]).fingerprint@ != alias@ by {
            assert(keep(after.shared_monitors@[j]));
        }
        if 0 <= k < before.shared_monitors@.len() && keep(before.shared_monitors@[k]) {
            before.shared_monitors@.lemma_filter_contains(keep, k);
        }
        if 0 <= p < before.peers@.len() {
            let had = before.peers@[p];
            let has = after.peers@[p];
            let other = before.shared_monitors@[k].fingerprint@;
            absorbing_overwrites_no_input(had.inputs@, alias, primary, other);
            lemma_plugged(had, alias@);
            lemma_plugged(has, alias@);
            lemma_plugged(had, primary@);
            lemma_plugged(has, primary@);
            lemma_plugged(had, other);
            lemma_plugged(has, other);
        }
    }
}

/// A merge overwrites no note: the joined display keeps the note that it has for
/// an input, the absorbed one is left without, and every other keeps its own.
pub proof fn a_merge_overwrites_no_note(
    locale: UiLocale,
    before: AppSettings,
    alias: MonitorFingerprint,
    key: Seq<char>,
    now_ms: u64,
    after: AppSettings,
    m: int,
    input: DisplayInput,
    other: Identity,
    note: Seq<char>,
)
    requires
        is_link_set(locale, before, alias, Some(key), now_ms, after, Ok(())),
        is_display_under(before.shared_monitors@, key, m),
    ensures
        ({
            let joined = before.shared_monitors@[m].fingerprint@;
            let had = before.input_labels@;
            let has = after.input_labels@;
            &&& is_annotated(had, joined, input, note) ==> is_annotated(has, joined, input, note)
            &&& !is_annotated(has, alias@, input, note)
            &&& other != alias@ && other != joined ==> (is_annotated(had, other, input, note)
                <==> is_annotated(has, other, input, note))
            &&& (forall|text: Seq<char>| !#[trigger] is_annotated(had, joined, input, text)) && (
            exists|i: int|
                0 <= i < had.len() && (#[trigger] had[i]).monitor@ == alias@ && had[i].input
                    == input && had[i].label@ == note) && note.len() > 0 && (forall|i: int|
                0 <= i < had.len() && (#[trigger] had[i]).monitor@ == alias@ && had[i].input
                    == input ==> had[i].label@ == note) ==> is_annotated(has, joined, input, note)
        }),
{
    lemma_display_under(before.shared_monitors@, key);
    let joined = before.shared_monitors@[m].fingerprint@;
    let had = before.input_labels@;
    let has = after.input_labels@;
    let notes = crate::notes::notes_of(had);
    let moved = notes.filter(crate::notes::is_about(alias@));
    moving_notes_overwrites_none(notes, moved, alias@, joined, now_ms, input, other);
    an_absorbed_display_has_no_notes(notes, alias@, joined, now_ms, input);
    lemma_lookup(had, joined, input);
    lemma_lookup(has, joined, input);
    lemma_lookup(has, alias@, input);
    lemma_lookup(had, other, input);
    lemma_lookup(has, other, input);
    crate::laws::naming::a_note_is_of_its_own_display_and_input(had, joined, input);
    crate::laws::naming::a_note_is_of_its_own_display_and_input(has, joined, input);
    crate::laws::naming::a_note_is_of_its_own_display_and_input(has, alias@, input);
    crate::laws::naming::a_note_is_of_its_own_display_and_input(had, other, input);
    crate::laws::naming::a_note_is_of_its_own_display_and_input(has, other, input);
    if (forall|text: Seq<char>| !#[trigger] is_annotated(had, joined, input, text)) && (exists|
        i: int,
    |
        0 <= i < had.len() && (#[trigger] had[i]).monitor@ == alias@ && had[i].input == input
            && had[i].label@ == note) && note.len() > 0 && (forall|i: int|
        0 <= i < had.len() && (#[trigger] had[i]).monitor@ == alias@ && had[i].input == input
            ==> had[i].label@ == note) {
        let i = choose|i: int|
            0 <= i < had.len() && (#[trigger] had[i]).monitor@ == alias@ && had[i].input == input
                && had[i].label@ == note;
        let keep = crate::notes::is_about(alias@);
        assert(notes[i] == crate::notes::note_of(had[i]));
        notes.lemma_filter_contains(keep, i);
        lemma_kept_were_there(notes, keep);
        let said = |n: crate::notes::Note| n.input == input && n.label.len() > 0;
        lemma_first_at(moved, said);
        let n = choose|n: int| 0 <= n < moved.len() && moved[n] == notes[i];
        assert(said(moved[n]));
        let f = first_at(moved, said);
        assert(f <= n);
        assert(said(moved[f]));
        assert(keep(moved[f]));
        assert(notes.contains(moved[f]));
        let g = choose|g: int| 0 <= g < notes.len() && notes[g] == moved[f];
        assert(notes[g] == crate::notes::note_of(had[g]));
        assert(had[g].monitor@ == alias@ && had[g].input == input);
        assert(crate::notes::first_said(moved, input) == Some(note));
    }
}

/// A claim that is withdrawn stands no more, and nothing else changes; a display
/// cannot be merged into one that is not shared.
pub proof fn a_claim_can_be_withdrawn(
    locale: UiLocale,
    before: AppSettings,
    alias: MonitorFingerprint,
    key: Option<Seq<char>>,
    now_ms: u64,
    after: AppSettings,
    result: Result<(), String>,
    other: Identity,
    primary: Identity,
)
    requires
        is_link_set(locale, before, alias, key, now_ms, after, result),
    ensures
        key is None ==> {
            &&& result is Ok
            &&& is_unclaimed(after.monitor_identity_links@, alias@)
            &&& after.shared_monitors == before.shared_monitors
            &&& after.peers == before.peers
            &&& after.input_labels == before.input_labels
        },
        key is Some && (forall|j: int|
            0 <= j < before.shared_monitors@.len() ==> !is_keyed(
                (#[trigger] before.shared_monitors@[j]).fingerprint@,
                key->0,
            )) ==> result is Err && after == before,
        other != alias@ && is_claimed_to_be(before.monitor_identity_links@, other, primary)
            ==> is_claimed_to_be(after.monitor_identity_links@, other, primary),
{
    if key is Some {
        lemma_display_under(before.shared_monitors@, key->0);
    }
    if result is Ok {
        let entry = after.monitor_identity_links@.last();
        lemma_claim_recorded(before.monitor_identity_links@, entry, other, primary);
    }
}

} // verus!
