//! In which order hosts are shown, what each of them is offered as, and what a
//! click on it asks for.

use crate::domain::DisplayInput;
use crate::host_order::{
    all_routes, by_rank, is_host, ordering_sorts_the_routes, rank, rank_of_host,
};
use crate::laws::naming::{is_annotated, is_called, is_nameless, lemma_called};
use crate::laws::setup::a_note_is_shown_before_the_name;
use crate::laws::{is_keyed, is_plugged_into, is_showing, lemma_plugged};
use crate::lists::{
    first_at, index_placed, indices_by_rank, lemma_first_at, lemma_first_at_is,
    lemma_kept_were_there, ordering_by_rank_arranges,
};
use crate::locale::UiLocale;
use crate::settings::{AppSettings, SelectedMonitor};
use crate::sharing::{peer_id_views, route_order};
use crate::switcher::{
    host_numbers, host_ranks, is_switcher_state, monitor_models, option_models, option_of,
    options_of, switcher_monitor_of, HostSwitcherMonitor, HostSwitcherOption, HostSwitcherState,
};
use crate::text::views;
use crate::tray::{
    action_of, are_switch_targets, entry_models, everywhere_item_of, is_target, item_models,
    items_of, menu_ids_round_trip, menu_of, ActionModel, EntryModel, ItemModel, MenuEntry,
    MenuSignature,
};
use vstd::prelude::*;

verus! {

/// Whether a host stands at the place `n` of an order.
pub open spec fn is_placed(order: Seq<Seq<char>>, host: Seq<char>, n: int) -> bool {
    &&& 0 <= n < order.len()
    &&& order[n] == host
    &&& forall|j: int| 0 <= j < n ==> #[trigger] order[j] != host
}

/// The host that a route leads to: this computer's id for its own, else itself.
pub open spec fn host_behind(route: Seq<char>, local_host_id: Seq<char>) -> Seq<char> {
    if route == "local"@ {
        local_host_id
    } else {
        route
    }
}

proof fn lemma_placed(order: Seq<Seq<char>>, host: Seq<char>)
    ensures
        0 <= rank_of_host(order, host) <= order.len(),
        forall|n: int| #[trigger] is_placed(order, host, n) ==> rank_of_host(order, host) == n,
        (forall|n: int| 0 <= n < order.len() ==> #[trigger] order[n] != host) ==> rank_of_host(
            order,
            host,
        ) == order.len(),
{
    let wanted = is_host(host);
    lemma_first_at(order, wanted);
    assert forall|n: int| #[trigger] is_placed(order, host, n) implies rank_of_host(order, host)
        == n by {
        lemma_first_at_is(order, wanted, n);
    }
    if forall|n: int| 0 <= n < order.len() ==> #[trigger] order[n] != host {
        lemma_first_at_is(order, wanted, order.len() as int);
    }
}

/// Hosts are shown in the saved order: one that it places earlier comes earlier,
/// and one that it does not place comes behind those that it does.
pub proof fn hosts_are_shown_in_the_saved_order(
    settings: AppSettings,
    local_host_id: Seq<char>,
    x: int,
    y: int,
    i: int,
    j: int,
)
    requires
        0 <= x < route_order(settings, local_host_id).len(),
        0 <= y < route_order(settings, local_host_id).len(),
        is_placed(
            views(settings.host_order@),
            host_behind(route_order(settings, local_host_id)[x], local_host_id),
            i,
        ),
        ({
            let later = host_behind(route_order(settings, local_host_id)[y], local_host_id);
            ||| is_placed(views(settings.host_order@), later, j) && i < j
            ||| forall|n: int|
                0 <= n < settings.host_order@.len() ==> #[trigger] views(settings.host_order@)[n]
                    != later
        }),
    ensures
        x < y,
{
    let order = views(settings.host_order@);
    let all = all_routes(peer_id_views(settings.peers@));
    let shown = route_order(settings, local_host_id);
    ordering_sorts_the_routes(order, local_host_id, all, 0);
    lemma_placed(order, host_behind(shown[x], local_host_id));
    lemma_placed(order, host_behind(shown[y], local_host_id));
    assert(rank(order, local_host_id, shown[x]) < rank(order, local_host_id, shown[y]));
    if y < x {
        assert(rank(order, local_host_id, shown[y]) <= rank(order, local_host_id, shown[x]));
    }
}

/// Every host is shown: this computer and each paired one, and no other.
pub proof fn every_host_is_shown(settings: AppSettings, local_host_id: Seq<char>, p: int)
    requires
        0 <= p < settings.peers@.len(),
    ensures
        route_order(settings, local_host_id).contains("local"@),
        route_order(settings, local_host_id).contains(settings.peers@[p].id@),
        route_order(settings, local_host_id).len() == settings.peers@.len() + 1,
{
    broadcast use vstd::seq_lib::group_to_multiset_ensures;

    let all = all_routes(peer_id_views(settings.peers@));
    ordering_sorts_the_routes(views(settings.host_order@), local_host_id, all, 0);
    assert(all[0] == "local"@);
    assert(all[p + 1] == settings.peers@[p].id@);
    assert(all.to_multiset().count(all[0]) > 0);
    assert(all.to_multiset().count(all[p + 1]) > 0);
}

/// Without a saved order this computer comes first, and the others as they were
/// paired.
pub proof fn without_an_order_hosts_are_shown_as_paired(
    settings: AppSettings,
    local_host_id: Seq<char>,
    p: int,
)
    requires
        settings.host_order@.len() == 0,
        0 <= p < settings.peers@.len(),
    ensures
        route_order(settings, local_host_id)[0] == "local"@,
        route_order(settings, local_host_id)[p + 1] == settings.peers@[p].id@,
{
    let all = all_routes(peer_id_views(settings.peers@));
    lemma_unranked(views(settings.host_order@), local_host_id, all);
    assert(all[p + 1] == settings.peers@[p].id@);
}

proof fn lemma_unranked(order: Seq<Seq<char>>, local: Seq<char>, routes: Seq<Seq<char>>)
    requires
        order.len() == 0,
    ensures
        by_rank(order, local, routes) == routes,
    decreases routes.len(),
{
    if routes.len() > 0 {
        lemma_unranked(order, local, routes.drop_last());
        let front = routes.drop_last();
        lemma_placed(order, crate::host_order::host_of_route(routes.last(), local));
        if front.len() > 0 {
            lemma_placed(order, crate::host_order::host_of_route(front.last(), local));
        }
        assert(front.push(routes.last()) =~= routes);
    }
}

/// Whether an option offers the paired host number `p` for a display: under its id
/// and name, available where the host's input is known, active where the display
/// is said to show it.
pub open spec fn offers_peer(
    option: HostSwitcherOption,
    settings: AppSettings,
    selected: SelectedMonitor,
    p: int,
) -> bool {
    let peer = settings.peers@[p];
    &&& 0 <= p < settings.peers@.len()
    &&& option.id@ == peer.id@
    &&& !option.is_local
    &&& option.platform == peer.platform
    &&& option.is_active <==> is_showing(selected, peer.id@)
    &&& option.available <==> exists|input: DisplayInput|
        is_plugged_into(peer, selected.fingerprint@, input)
    &&& option.available <==> option.input_name is Some
    &&& forall|name: Seq<char>| #[trigger]
        is_called(settings.host_aliases@, peer.id@, name) ==> option.name@ == name
    &&& is_nameless(settings.host_aliases@, peer.id@) ==> option.name@ == peer.name@
    &&& forall|input: DisplayInput, note: Seq<char>|
        is_plugged_into(peer, selected.fingerprint@, input) && #[trigger] is_annotated(
            settings.input_labels@,
            selected.fingerprint@,
            input,
            note,
        ) ==> note.is_prefix_of(option.input_name->0@)
}

/// Whether an option offers this computer for a display.
pub open spec fn offers_local(
    option: HostSwitcherOption,
    settings: AppSettings,
    local_host_id: Seq<char>,
    local_host_name: Seq<char>,
    selected: SelectedMonitor,
) -> bool {
    &&& option.id@ == "local"@
    &&& option.is_local
    &&& option.platform == settings.local_host
    &&& option.is_active <==> is_showing(selected, "local"@)
    &&& option.available <==> selected.local_input is Some
    &&& option.available <==> option.input_name is Some
    &&& forall|name: Seq<char>| #[trigger]
        is_called(settings.host_aliases@, local_host_id, name) ==> option.name@ == name
    &&& is_nameless(settings.host_aliases@, local_host_id) && local_host_name.len() > 0
        ==> option.name@ == local_host_name
    &&& forall|note: Seq<char>|
        selected.local_input is Some && #[trigger] is_annotated(
            settings.input_labels@,
            selected.fingerprint@,
            selected.local_input->0,
            note,
        ) ==> note.is_prefix_of(option.input_name->0@)
}

proof fn lemma_option(
    locale: UiLocale,
    settings: AppSettings,
    local_host_id: Seq<char>,
    local_host_name: Seq<char>,
    selected: SelectedMonitor,
    option: HostSwitcherOption,
    i: int,
)
    requires
        0 <= i <= settings.peers@.len(),
        option@ == option_of(locale, settings, local_host_id, local_host_name, selected, i),
    ensures
        i == 0 ==> offers_local(option, settings, local_host_id, local_host_name, selected),
        i > 0 ==> offers_peer(option, settings, selected, i - 1),
{
    let monitor = selected.fingerprint@;
    if i == 0 {
        lemma_called(settings.host_aliases@, local_host_id);
        assert forall|note: Seq<char>|
            selected.local_input is Some && #[trigger] is_annotated(
                settings.input_labels@,
                monitor,
                selected.local_input->0,
                note,
            ) implies note.is_prefix_of(option.input_name->0@) by {
            a_note_is_shown_before_the_name(
                locale,
                settings,
                monitor,
                selected.vendor_indexed_inputs,
                selected.local_input->0,
                note,
            );
        }
    } else {
        let peer = settings.peers@[i - 1];
        lemma_called(settings.host_aliases@, peer.id@);
        lemma_plugged(peer, monitor);
        if let Some(input) = peer.input_on(monitor) {
            assert(is_plugged_into(peer, monitor, input));
        }
        assert forall|input: DisplayInput, note: Seq<char>|
            is_plugged_into(peer, monitor, input) && #[trigger] is_annotated(
                settings.input_labels@,
                monitor,
                input,
                note,
            ) implies note.is_prefix_of(option.input_name->0@) by {
            a_note_is_shown_before_the_name(
                locale,
                settings,
                monitor,
                selected.vendor_indexed_inputs,
                input,
                note,
            );
        }
    }
}

proof fn lemma_every_index(ranks: Seq<int>, n: int, i: int)
    requires
        0 <= i < n <= ranks.len(),
    ensures
        indices_by_rank(ranks, n).contains(i),
    decreases n,
{
    let before = indices_by_rank(ranks, n - 1);
    if i < n - 1 {
        lemma_every_index(ranks, n - 1, i);
    }
    lemma_index_is_placed(ranks, before, n - 1, i);
}

proof fn lemma_index_is_placed(ranks: Seq<int>, sorted: Seq<int>, i: int, k: int)
    ensures
        sorted.contains(k) || k == i ==> index_placed(ranks, sorted, i).contains(k),
    decreases sorted.len(),
{
    let placed = index_placed(ranks, sorted, i);
    if sorted.contains(k) || k == i {
        if sorted.len() == 0 || ranks[sorted.last()] <= ranks[i] {
            if k == i {
                assert(placed[sorted.len() as int] == k);
            } else {
                let at = choose|at: int| 0 <= at < sorted.len() && sorted[at] == k;
                assert(placed[at] == k);
            }
        } else {
            let front = sorted.drop_last();
            let rest = index_placed(ranks, front, i);
            lemma_index_is_placed(ranks, front, i, k);
            if k != i && sorted.last() == k {
                assert(placed[rest.len() as int] == k);
            } else {
                if k != i {
                    let at = choose|at: int| 0 <= at < sorted.len() && sorted[at] == k;
                    assert(front[at] == k);
                }
                let at = choose|at: int| 0 <= at < rest.len() && rest[at] == k;
                assert(placed[at] == k);
            }
        }
    }
}

/// The switcher shows every shared display in its place, under its id and name,
/// and offers for it this computer and every paired host, each as it is.
pub proof fn the_switcher_offers_every_host_for_every_display(
    locale: UiLocale,
    settings: AppSettings,
    local_host_id: Seq<char>,
    local_host_name: Seq<char>,
    state: HostSwitcherState,
    m: int,
    p: int,
    k: int,
)
    requires
        is_switcher_state(locale, settings, local_host_id, local_host_name, state),
        0 <= m < settings.shared_monitors@.len(),
    ensures
        state.monitors@.len() == settings.shared_monitors@.len(),
        ({
            let shown = state.monitors@[m];
            let selected = settings.shared_monitors@[m];
            &&& is_keyed(selected.fingerprint@, shown.monitor_key@)
            &&& shown.name@ == selected.name@
            &&& shown.hosts@.len() == settings.peers@.len() + 1
            &&& exists|n: int|
                0 <= n < shown.hosts@.len() && offers_local(
                    #[trigger] shown.hosts@[n],
                    settings,
                    local_host_id,
                    local_host_name,
                    selected,
                )
            &&& 0 <= p < settings.peers@.len() ==> exists|n: int|
                0 <= n < shown.hosts@.len() && offers_peer(
                    #[trigger] shown.hosts@[n],
                    settings,
                    selected,
                    p,
                )
            &&& 0 <= k < shown.hosts@.len() ==> offers_local(
                shown.hosts@[k],
                settings,
                local_host_id,
                local_host_name,
                selected,
            ) || exists|q: int| #[trigger] offers_peer(shown.hosts@[k], settings, selected, q)
        }),
{
    let models = monitor_models(state.monitors@);
    let selected = settings.shared_monitors@[m];
    assert(models.len() == state.monitors@.len());
    let shown = state.monitors@[m];
    assert(models[m] == shown@);
    assert(shown@ == switcher_monitor_of(
        locale,
        settings,
        local_host_id,
        local_host_name,
        selected,
    ));
    let numbers = host_numbers(settings, local_host_id);
    let ranks = host_ranks(settings, local_host_id);
    ordering_by_rank_arranges(ranks, ranks.len() as int);
    let options = options_of(locale, settings, local_host_id, local_host_name, selected);
    assert(option_models(shown.hosts@) == options);
    assert(ranks.len() == settings.peers@.len() + 1);
    assert(options.len() == shown.hosts@.len());
    assert forall|n: int| 0 <= n < shown.hosts@.len() implies (#[trigger] shown.hosts@[n])@
        == option_of(
        locale,
        settings,
        local_host_id,
        local_host_name,
        selected,
        numbers[n],
    ) by {
        assert(option_models(shown.hosts@)[n] == shown.hosts@[n]@);
    }
    lemma_every_index(ranks, ranks.len() as int, 0);
    let a = choose|a: int| 0 <= a < numbers.len() && numbers[a] == 0;
    lemma_option(
        locale,
        settings,
        local_host_id,
        local_host_name,
        selected,
        shown.hosts@[a],
        0,
    );
    if 0 <= p < settings.peers@.len() {
        lemma_every_index(ranks, ranks.len() as int, p + 1);
        let b = choose|b: int| 0 <= b < numbers.len() && numbers[b] == p + 1;
        lemma_option(
            locale,
            settings,
            local_host_id,
            local_host_name,
            selected,
            shown.hosts@[b],
            p + 1,
        );
    }
    if 0 <= k < shown.hosts@.len() {
        lemma_option(
            locale,
            settings,
            local_host_id,
            local_host_name,
            selected,
            shown.hosts@[k],
            numbers[k],
        );
        if numbers[k] > 0 {
            assert(offers_peer(shown.hosts@[k], settings, selected, numbers[k] - 1));
        }
    }
}

/// The switcher offers the hosts of a display in the saved order, where no two of
/// them go by one id.
pub proof fn the_switcher_follows_the_saved_order(
    locale: UiLocale,
    settings: AppSettings,
    local_host_id: Seq<char>,
    local_host_name: Seq<char>,
    selected: SelectedMonitor,
    k: int,
)
    requires
        peer_id_views(settings.peers@).no_duplicates(),
        !peer_id_views(settings.peers@).contains("local"@),
        0 <= k < settings.peers@.len() + 1,
    ensures
        ({
            let options = options_of(locale, settings, local_host_id, local_host_name, selected);
            options.len() == settings.peers@.len() + 1 && options[k].id == route_order(
                settings,
                local_host_id,
            )[k]
        }),
{
    broadcast use vstd::seq_lib::group_to_multiset_ensures;

    let all = all_routes(peer_id_views(settings.peers@));
    let ids = peer_id_views(settings.peers@);
    let order = route_order(settings, local_host_id);
    let ranks = host_ranks(settings, local_host_id);
    let numbers = host_numbers(settings, local_host_id);
    let n = ranks.len() as int;
    ordering_by_rank_arranges(ranks, n);
    ordering_sorts_the_routes(views(settings.host_order@), local_host_id, all, 0);
    assert(all.no_duplicates()) by {
        assert forall|i: int, j: int|
            0 <= i < all.len() && 0 <= j < all.len() && i != j implies all[i] != all[j] by {
            if i > 0 {
                assert(all[i] == ids[i - 1]);
            }
            if j > 0 {
                assert(all[j] == ids[j - 1]);
            }
        }
    }
    assert(order.to_multiset() == all.to_multiset());
    all.lemma_multiset_has_no_duplicates();
    order.lemma_multiset_has_no_duplicates_conv();
    assert forall|i: int| 0 <= i < n implies {
        &&& 0 <= #[trigger] ranks[i] < n
        &&& order[ranks[i]] == all[i]
    } by {
        let wanted = is_host(all[i]);
        lemma_first_at(order, wanted);
        assert(all.to_multiset().count(all[i]) > 0);
        assert(order.contains(all[i]));
        let at = choose|at: int| 0 <= at < order.len() && order[at] == all[i];
        assert(wanted(order[at]));
        assert(wanted(order[first_at(order, wanted)]));
        assert(ranks[i] == rank_of_host(order, all[i]));
    }
    assert forall|i: int, j: int| 0 <= i < j < n implies ranks[#[trigger] numbers[i]]
        < ranks[#[trigger] numbers[j]] by {
        if ranks[numbers[i]] == ranks[numbers[j]] {
            assert(all[numbers[i]] == all[numbers[j]]);
        }
    }
    lemma_rising(ranks, numbers, n, k);
    let i = numbers[k];
    assert(ranks[i] == k);
    assert(order[k] == all[i]);
    if i > 0 {
        assert(all[i] == ids[i - 1]);
    }
}

proof fn lemma_rising(ranks: Seq<int>, numbers: Seq<int>, n: int, k: int)
    requires
        0 <= k < n,
        n == numbers.len(),
        forall|i: int| 0 <= i < n ==> 0 <= ranks[#[trigger] numbers[i]] < n,
        forall|i: int, j: int| 0 <= i < j < n ==> ranks[#[trigger] numbers[i]] < ranks[
            #[trigger] numbers[j]],
    ensures
        ranks[numbers[k]] == k,
{
    lemma_rising_above(ranks, numbers, n, k);
    lemma_rising_below(ranks, numbers, n, k);
}

proof fn lemma_rising_above(ranks: Seq<int>, numbers: Seq<int>, n: int, k: int)
    requires
        0 <= k < n,
        n == numbers.len(),
        forall|i: int| 0 <= i < n ==> 0 <= ranks[#[trigger] numbers[i]] < n,
        forall|i: int, j: int| 0 <= i < j < n ==> ranks[#[trigger] numbers[i]] < ranks[
            #[trigger] numbers[j]],
    ensures
        ranks[numbers[k]] >= k,
    decreases k,
{
    if k > 0 {
        lemma_rising_above(ranks, numbers, n, k - 1);
        assert(ranks[numbers[k - 1]] < ranks[numbers[k]]);
    }
}

proof fn lemma_rising_below(ranks: Seq<int>, numbers: Seq<int>, n: int, k: int)
    requires
        0 <= k < n,
        n == numbers.len(),
        forall|i: int| 0 <= i < n ==> 0 <= ranks[#[trigger] numbers[i]] < n,
        forall|i: int, j: int| 0 <= i < j < n ==> ranks[#[trigger] numbers[i]] < ranks[
            #[trigger] numbers[j]],
    ensures
        ranks[numbers[k]] <= k,
    decreases n - k,
{
    if k < n - 1 {
        lemma_rising_below(ranks, numbers, n, k + 1);
        assert(ranks[numbers[k]] < ranks[numbers[k + 1]]);
    }
}

/// Whether a click on a menu id switches one display to one host.
pub open spec fn switches_one(id: Seq<char>, key: Seq<char>, host_id: Seq<char>) -> bool {
    action_of(id) == Some(ActionModel::SwitchOne { monitor_key: key, host_id })
}

/// Whether an item of the menu is the one for a host of a display: a click on it
/// switches that display to that host; it is checked where the display shows the
/// host, and of use where the host is available and not shown.
pub open spec fn is_item_for(
    item: ItemModel,
    monitor: HostSwitcherMonitor,
    host: HostSwitcherOption,
) -> bool {
    &&& switches_one(item.id, monitor.monitor_key@, host.id@)
    &&& item.checked == host.is_active
    &&& item.enabled == (host.available && !host.is_active)
}

/// Whether ids of displays and hosts can be told apart in the menu: none holds a
/// line break.
pub open spec fn are_on_one_line(monitors: Seq<HostSwitcherMonitor>) -> bool {
    forall|m: int|
        0 <= m < monitors.len() ==> {
            &&& !(#[trigger] monitors[m]).monitor_key@.contains('\n')
            &&& forall|h: int|
                0 <= h < monitors[m].hosts@.len() ==> !(
                #[trigger] monitors[m].hosts@[h]).id@.contains('\n')
        }
}

/// Whether a display offers a host as the one that it shows.
pub open spec fn is_active_on(monitor: HostSwitcherMonitor, host_id: Seq<char>) -> bool {
    exists|k: int|
        {
            &&& 0 <= k < monitor.hosts@.len()
            &&& (#[trigger] monitor.hosts@[k]).id@ == host_id
            &&& monitor.hosts@[k].is_active
        }
}

/// Whether a display offers a host as one that it can be switched to and does not
/// show.
pub open spec fn is_movable_to(monitor: HostSwitcherMonitor, host_id: Seq<char>) -> bool {
    exists|k: int|
        {
            &&& 0 <= k < monitor.hosts@.len()
            &&& (#[trigger] monitor.hosts@[k]).id@ == host_id
            &&& monitor.hosts@[k].available
            &&& !monitor.hosts@[k].is_active
        }
}

proof fn lemma_item(windows: bool, monitor: HostSwitcherMonitor, h: int)
    requires
        0 <= h < monitor.hosts@.len(),
        !monitor.monitor_key@.contains('\n'),
        !monitor.hosts@[h].id@.contains('\n'),
    ensures
        items_of(windows, monitor@).len() == monitor.hosts@.len(),
        is_item_for(items_of(windows, monitor@)[h], monitor, monitor.hosts@[h]),
        !windows ==> items_of(windows, monitor@)[h].text == monitor.hosts@[h].name@,
{
    let host = monitor.hosts@[h];
    assert(option_models(monitor.hosts@)[h] == host@);
    assert(monitor@.hosts[h] == host@);
    menu_ids_round_trip(monitor.monitor_key@, host.id@);
}

/// With one shared display the menu has a line for each of its hosts, in order.
pub proof fn the_menu_of_one_display_switches_it(
    locale: UiLocale,
    windows: bool,
    monitors: Seq<HostSwitcherMonitor>,
    menu: Seq<MenuEntry>,
    h: int,
)
    requires
        entry_models(menu) == menu_of(locale, windows, monitor_models(monitors)),
        are_on_one_line(monitors),
        monitors.len() == 1,
        0 <= h < monitors[0].hosts@.len(),
    ensures
        menu.len() == monitors[0].hosts@.len() + 5,
        menu[h + 1] is Switch,
        is_item_for(menu[h + 1]->Switch_0@, monitors[0], monitors[0].hosts@[h]),
{
    let models = monitor_models(monitors);
    assert(models[0] == monitors[0]@);
    lemma_item(windows, monitors[0], h);
    let items = items_of(windows, monitors[0]@);
    let all = menu_of(locale, windows, models);
    assert(all.len() == items.len() + 5);
    assert(entry_models(menu)[h + 1] == menu[h + 1]@);
    assert(all[h + 1] == EntryModel::Switch(items[h]));
    assert(menu.len() == all.len());
}

/// With several shared displays the menu has a submenu for each, in order, with an
/// item for each of its hosts.
pub proof fn the_menu_of_several_displays_switches_each(
    locale: UiLocale,
    windows: bool,
    monitors: Seq<HostSwitcherMonitor>,
    menu: Seq<MenuEntry>,
    m: int,
    h: int,
)
    requires
        entry_models(menu) == menu_of(locale, windows, monitor_models(monitors)),
        are_on_one_line(monitors),
        monitors.len() > 1,
        0 <= m < monitors.len(),
        0 <= h < monitors[m].hosts@.len(),
    ensures
        ({
            let at = monitors[0].hosts@.len() + 2 + m;
            &&& menu.len() == monitors[0].hosts@.len() + monitors.len() + 6
            &&& menu[at] is Submenu
            &&& menu[at]->items@.len() == monitors[m].hosts@.len()
            &&& is_item_for(menu[at]->items@[h]@, monitors[m], monitors[m].hosts@[h])
            &&& !windows ==> menu[at]->Submenu_text@ == monitors[m].name@
        }),
{
    let models = monitor_models(monitors);
    let at = monitors[0].hosts@.len() + 2 + m;
    assert(models[0] == monitors[0]@);
    assert(models[m] == monitors[m]@);
    lemma_item(windows, monitors[m], h);
    let items = items_of(windows, monitors[m]@);
    let all = menu_of(locale, windows, models);
    assert(models[0].hosts.len() == monitors[0].hosts@.len());
    assert(all.len() == monitors[0].hosts@.len() + monitors.len() + 6);
    assert(menu.len() == all.len());
    assert(entry_models(menu)[at] == menu[at]@);
    assert(all[at] == (EntryModel::Submenu {
        text: crate::tray::label_of(models[m].name, windows),
        items,
    }));
    assert(item_models(menu[at]->items@) == items);
    assert(item_models(menu[at]->items@)[h] == menu[at]->items@[h]@);
}

/// With several shared displays the menu has a line for each host: a click on it
/// switches every display to the host; it is checked where every display shows the
/// host, and of use where one has an input for it and does not show it.
pub proof fn the_menu_of_several_displays_switches_all(
    locale: UiLocale,
    windows: bool,
    monitors: Seq<HostSwitcherMonitor>,
    menu: Seq<MenuEntry>,
    h: int,
)
    requires
        entry_models(menu) == menu_of(locale, windows, monitor_models(monitors)),
        are_on_one_line(monitors),
        monitors.len() > 1,
        0 <= h < monitors[0].hosts@.len(),
    ensures
        menu[h + 1] is Switch,
        ({
            let item = menu[h + 1]->Switch_0@;
            let host_id = monitors[0].hosts@[h].id@;
            &&& action_of(item.id) == Some(ActionModel::SwitchAll { host_id })
            &&& item.checked <==> forall|m: int|
                0 <= m < monitors.len() ==> is_active_on(#[trigger] monitors[m], host_id)
            &&& item.enabled <==> exists|m: int|
                0 <= m < monitors.len() && is_movable_to(#[trigger] monitors[m], host_id)
        }),
{
    let models = monitor_models(monitors);
    assert(models[0] == monitors[0]@);
    let all = menu_of(locale, windows, models);
    let host = monitors[0].hosts@[h];
    assert(models[0].hosts[h] == host@);
    assert(models[0].hosts.len() == monitors[0].hosts@.len());
    assert(all.len() == monitors[0].hosts@.len() + monitors.len() + 6);
    assert(menu.len() == all.len());
    assert(entry_models(menu)[h + 1] == menu[h + 1]@);
    let item = everywhere_item_of(windows, models, host@);
    assert(all[h + 1] == EntryModel::Switch(item));
    menu_ids_round_trip(Seq::empty(), host.id@);
    lemma_everywhere(windows, monitors, host);
}

proof fn lemma_everywhere(
    windows: bool,
    monitors: Seq<HostSwitcherMonitor>,
    host: HostSwitcherOption,
)
    ensures
        ({
            let item = everywhere_item_of(windows, monitor_models(monitors), host@);
            let host_id = host.id@;
            &&& item.checked <==> forall|m: int|
                0 <= m < monitors.len() ==> is_active_on(#[trigger] monitors[m], host_id)
            &&& item.enabled <==> exists|m: int|
                0 <= m < monitors.len() && is_movable_to(#[trigger] monitors[m], host_id)
        }),
{
    let models = monitor_models(monitors);
    let host_id = host.id@;
    assert forall|m: int| 0 <= m < monitors.len() implies {
        &&& models[m] == (#[trigger] monitors[m])@
        &&& crate::tray::shows_host(models[m], host_id) == is_active_on(monitors[m], host_id)
        &&& crate::tray::would_change(models[m].hosts, host_id) == is_movable_to(
            monitors[m],
            host_id,
        )
    } by {
        lemma_shows_host(monitors[m], host_id);
        lemma_would_change(monitors[m], host_id);
    }
    if forall|m: int| 0 <= m < monitors.len() ==> is_active_on(#[trigger] monitors[m], host_id) {
        assert forall|m: int| 0 <= m < models.len() implies crate::tray::shows_host(
            #[trigger] models[m],
            host_id,
        ) by {
            assert(is_active_on(monitors[m], host_id));
        }
    }
    if forall|m: int|
        0 <= m < models.len() ==> crate::tray::shows_host(#[trigger] models[m], host_id) {
        assert forall|m: int| 0 <= m < monitors.len() implies is_active_on(
            #[trigger] monitors[m],
            host_id,
        ) by {
            assert(crate::tray::shows_host(models[m], host_id));
        }
    }
    if exists|m: int|
        0 <= m < models.len() && crate::tray::would_change((#[trigger] models[m]).hosts, host_id) {
        let m = choose|m: int|
            0 <= m < models.len() && crate::tray::would_change(
                (#[trigger] models[m]).hosts,
                host_id,
            );
        assert(is_movable_to(monitors[m], host_id));
    }
    if exists|m: int| 0 <= m < monitors.len() && is_movable_to(#[trigger] monitors[m], host_id) {
        let m = choose|m: int|
            0 <= m < monitors.len() && is_movable_to(#[trigger] monitors[m], host_id);
        assert(crate::tray::would_change(models[m].hosts, host_id));
    }
}

proof fn lemma_shows_host(monitor: HostSwitcherMonitor, host_id: Seq<char>)
    ensures
        crate::tray::shows_host(monitor@, host_id) <==> is_active_on(monitor, host_id),
{
    let hosts = monitor@.hosts;
    if crate::tray::shows_host(monitor@, host_id) {
        let k = choose|k: int|
            0 <= k < hosts.len() && (#[trigger] hosts[k]).id == host_id && hosts[k].is_active;
        assert(hosts[k] == monitor.hosts@[k]@);
    }
    if exists|k: int|
        {
            &&& 0 <= k < monitor.hosts@.len()
            &&& (#[trigger] monitor.hosts@[k]).id@ == host_id
            &&& monitor.hosts@[k].is_active
        } {
        let k = choose|k: int|
            {
                &&& 0 <= k < monitor.hosts@.len()
                &&& (#[trigger] monitor.hosts@[k]).id@ == host_id
                &&& monitor.hosts@[k].is_active
            };
        assert(hosts[k] == monitor.hosts@[k]@);
    }
}

proof fn lemma_would_change(monitor: HostSwitcherMonitor, host_id: Seq<char>)
    ensures
        crate::tray::would_change(monitor@.hosts, host_id) <==> is_movable_to(monitor, host_id),
{
    let hosts = monitor@.hosts;
    assert forall|k: int| 0 <= k < monitor.hosts@.len() implies hosts[k]
        == (#[trigger] monitor.hosts@[k])@ by {}
    if crate::tray::would_change(hosts, host_id) {
        let k = choose|k: int|
            0 <= k < hosts.len() && (#[trigger] hosts[k]).id == host_id && hosts[k].available
                && !hosts[k].is_active;
        assert(hosts[k] == monitor.hosts@[k]@);
    }
    if exists|k: int|
        {
            &&& 0 <= k < monitor.hosts@.len()
            &&& (#[trigger] monitor.hosts@[k]).id@ == host_id
            &&& monitor.hosts@[k].available
            &&& !monitor.hosts@[k].is_active
        } {
        let k = choose|k: int|
            {
                &&& 0 <= k < monitor.hosts@.len()
                &&& (#[trigger] monitor.hosts@[k]).id@ == host_id
                &&& monitor.hosts@[k].available
                &&& !monitor.hosts@[k].is_active
            };
        assert(hosts[k] == monitor.hosts@[k]@);
    }
}

/// A switch of every display goes to just those that have an input for the host
/// and do not show it.
pub proof fn a_switch_of_all_goes_where_it_changes_something(
    monitors: Seq<HostSwitcherMonitor>,
    host_id: Seq<char>,
    targets: Seq<&HostSwitcherMonitor>,
    m: int,
    t: int,
)
    requires
        are_switch_targets(monitors, host_id, targets),
    ensures
        0 <= m < monitors.len() && is_movable_to(monitors[m], host_id) ==> exists|n: int|
            0 <= n < targets.len() && *(#[trigger] targets[n]) == monitors[m],
        0 <= t < targets.len() ==> monitors.contains(*targets[t]) && is_movable_to(
            *targets[t],
            host_id,
        ),
{
    let keep = is_target(host_id);
    let kept = monitors.filter(keep);
    let plain = targets.map_values(|monitor: &HostSwitcherMonitor| *monitor);
    lemma_kept_were_there(monitors, keep);
    assert(plain.len() == targets.len());
    if 0 <= m < monitors.len() {
        lemma_would_change(monitors[m], host_id);
        if keep(monitors[m]) {
            monitors.lemma_filter_contains(keep, m);
            let n = choose|n: int| 0 <= n < kept.len() && kept[n] == monitors[m];
            assert(plain[n] == *targets[n]);
        }
    }
    if 0 <= t < targets.len() {
        assert(plain[t] == *targets[t]);
        assert(keep(kept[t]));
        lemma_would_change(*targets[t], host_id);
    }
}

/// Menus that are taken to show the same do: every display and every host of it
/// agree in all that is shown.
pub proof fn menus_that_show_the_same_agree(
    a: MenuSignature,
    b: MenuSignature,
    m: int,
    h: int,
)
    requires
        a.shows() == b.shows(),
        0 <= m < a.monitors@.len(),
        0 <= h < a.monitors@[m].hosts@.len(),
    ensures
        a.locale == b.locale,
        a.monitors@.len() == b.monitors@.len(),
        ({
            let x = a.monitors@[m];
            let y = b.monitors@[m];
            &&& x.monitor_key@ == y.monitor_key@ && x.name@ == y.name@
            &&& x.hosts@.len() == y.hosts@.len()
            &&& x.hosts@[h].id@ == y.hosts@[h].id@ && x.hosts@[h].name@ == y.hosts@[h].name@
            &&& x.hosts@[h].is_active == y.hosts@[h].is_active
            &&& x.hosts@[h].available == y.hosts@[h].available
            &&& x.hosts@[h].is_local == y.hosts@[h].is_local
            &&& x.hosts@[h].input_name is Some <==> y.hosts@[h].input_name is Some
            &&& x.hosts@[h].input_name is Some ==> x.hosts@[h].input_name->0@
                == y.hosts@[h].input_name->0@
        }),
{
    let x = monitor_models(a.monitors@);
    let y = monitor_models(b.monitors@);
    assert(x.len() == a.monitors@.len() && y.len() == b.monitors@.len());
    assert(x[m] == a.monitors@[m]@ && y[m] == b.monitors@[m]@);
    let v = option_models(a.monitors@[m].hosts@);
    let w = option_models(b.monitors@[m].hosts@);
    assert(v == w);
    assert(v.len() == a.monitors@[m].hosts@.len() && w.len() == b.monitors@[m].hosts@.len());
    assert(v[h] == a.monitors@[m].hosts@[h]@ && w[h] == b.monitors@[m].hosts@[h]@);
}

/// A name without an ampersand is drawn as it is, on every platform; one with an
/// ampersand as well where the platform reads none into it.
pub proof fn a_name_is_drawn_as_it_is(text: Seq<char>, windows: bool)
    requires
        !windows || !text.contains('&'),
    ensures
        crate::tray::label_of(text, windows) == text,
    decreases text.len(),
{
    if windows && text.len() > 0 {
        let front = text.drop_last();
        assert(!front.contains('&')) by {
            if front.contains('&') {
                let i = choose|i: int| 0 <= i < front.len() && front[i] == '&';
                assert(text[i] == '&');
            }
        }
        a_name_is_drawn_as_it_is(front, windows);
        assert(text[text.len() - 1] != '&');
        assert(front.push(text.last()) =~= text);
    }
}

} // verus!
