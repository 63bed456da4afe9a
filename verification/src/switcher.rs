//! The host switcher: for every shared display, the hosts it can be switched
//! to.

use crate::domain::{DestinationHost, DisplayInput};
use crate::host_alias::{alias_for, alias_of};
use crate::host_order::{all_routes, is_host, ordering_sorts_the_routes, rank_of_host};
use crate::lists::{
    index_values, indices_by_rank, lemma_first_at_is, order_by_rank, ordering_by_rank_arranges,
    rank_values,
};
use crate::locale::{text_in, ui_text, UiLocale};
use crate::settings::{
    key_of, monitor_key, noted_input_label, noted_label_of, AppSettings, SelectedMonitor,
};
use crate::sharing::{ordered_routes, peer_id_views, route_order};
use crate::text::{same_text, views};
use vstd::prelude::*;

verus! {

/// A host that a display can be switched to, as characters.
pub struct OptionModel {
    pub id: Seq<char>,
    pub name: Seq<char>,
    pub platform: DestinationHost,
    pub input_name: Option<Seq<char>>,
    pub is_local: bool,
    pub available: bool,
    pub is_active: bool,
}

/// A host that a display can be switched to.
#[derive(Debug, PartialEq, Eq)]
pub struct HostSwitcherOption {
    pub id: String,
    pub name: String,
    pub platform: DestinationHost,
    pub input_name: Option<String>,
    pub is_local: bool,
    /// Whether the input that the host uses is known.
    pub available: bool,
    /// Whether the display is said to show the host.
    pub is_active: bool,
}

impl View for HostSwitcherOption {
    type V = OptionModel;

    open spec fn view(&self) -> OptionModel {
        OptionModel {
            id: self.id@,
            name: self.name@,
            platform: self.platform,
            input_name: match self.input_name {
                Some(name) => Some(name@),
                None => None,
            },
            is_local: self.is_local,
            available: self.available,
            is_active: self.is_active,
        }
    }
}

impl Clone for HostSwitcherOption {
    fn clone(&self) -> (copy: Self)
        ensures
            copy == *self,
    {
        HostSwitcherOption {
            id: self.id.clone(),
            name: self.name.clone(),
            platform: self.platform,
            input_name: self.input_name.clone(),
            is_local: self.is_local,
            available: self.available,
            is_active: self.is_active,
        }
    }
}

/// A display and the hosts it can be switched to, as characters.
pub struct MonitorModel {
    pub key: Seq<char>,
    pub name: Seq<char>,
    pub hosts: Seq<OptionModel>,
}

/// A display and the hosts it can be switched to.
#[derive(Debug, PartialEq, Eq)]
pub struct HostSwitcherMonitor {
    pub monitor_key: String,
    pub name: String,
    pub hosts: Vec<HostSwitcherOption>,
}

/// The hosts, as characters.
pub open spec fn option_models(hosts: Seq<HostSwitcherOption>) -> Seq<OptionModel> {
    hosts.map_values(|host: HostSwitcherOption| host@)
}

impl View for HostSwitcherMonitor {
    type V = MonitorModel;

    open spec fn view(&self) -> MonitorModel {
        MonitorModel {
            key: self.monitor_key@,
            name: self.name@,
            hosts: option_models(self.hosts@),
        }
    }
}

/// The displays, as characters.
pub open spec fn monitor_models(monitors: Seq<HostSwitcherMonitor>) -> Seq<MonitorModel> {
    monitors.map_values(|monitor: HostSwitcherMonitor| monitor@)
}

/// What the host switcher shows.
#[derive(Debug, PartialEq, Eq)]
pub struct HostSwitcherState {
    pub monitors: Vec<HostSwitcherMonitor>,
}

/// How this computer is called: by its custom name, else by the name paired
/// hosts discover it by, so every surface calls it the same thing.
pub open spec fn local_name_of(
    locale: UiLocale,
    settings: AppSettings,
    local_host_id: Seq<char>,
    local_host_name: Seq<char>,
) -> Seq<char> {
    match alias_of(settings.host_aliases@, local_host_id) {
        Some(name) => name,
        None => if local_host_name.len() == 0 {
            text_in(locale, "這台電腦"@, "This computer"@)
        } else {
            local_host_name
        },
    }
}

/// The name of an input of a display, where it is known.
pub open spec fn input_name_of(
    locale: UiLocale,
    settings: AppSettings,
    selected: SelectedMonitor,
    input: Option<DisplayInput>,
) -> Option<Seq<char>> {
    match input {
        Some(value) => Some(
            noted_label_of(
                locale,
                settings.input_labels@,
                selected.fingerprint@,
                selected.vendor_indexed_inputs,
                value,
            ),
        ),
        None => None,
    }
}

/// The option for the host of number `i` of a display: 0 is this computer, and
/// the paired hosts follow.
pub open spec fn option_of(
    locale: UiLocale,
    settings: AppSettings,
    local_host_id: Seq<char>,
    local_host_name: Seq<char>,
    selected: SelectedMonitor,
    i: int,
) -> OptionModel {
    if i == 0 {
        OptionModel {
            id: "local"@,
            name: local_name_of(locale, settings, local_host_id, local_host_name),
            platform: settings.local_host,
            input_name: input_name_of(locale, settings, selected, selected.local_input),
            is_local: true,
            available: selected.local_input is Some,
            is_active: selected.shown_route() == "local"@,
        }
    } else {
        let peer = settings.peers@[i - 1];
        let input = peer.input_on(selected.fingerprint@);
        OptionModel {
            id: peer.id@,
            name: match alias_of(settings.host_aliases@, peer.id@) {
                Some(name) => name,
                None => peer.name@,
            },
            platform: peer.platform,
            input_name: input_name_of(locale, settings, selected, input),
            is_local: false,
            available: input is Some,
            is_active: selected.shown_route() == peer.id@,
        }
    }
}

/// Where each host stands in the saved order, this computer first.
pub open spec fn host_ranks(settings: AppSettings, local_host_id: Seq<char>) -> Seq<int> {
    all_routes(peer_id_views(settings.peers@)).map_values(
        |route: Seq<char>| rank_of_host(route_order(settings, local_host_id), route),
    )
}

/// Which host stands where: the hosts' numbers in the saved order.
pub open spec fn host_numbers(settings: AppSettings, local_host_id: Seq<char>) -> Seq<int> {
    let ranks = host_ranks(settings, local_host_id);
    indices_by_rank(ranks, ranks.len() as int)
}

/// The hosts that a display can be switched to, in the saved order.
pub open spec fn options_of(
    locale: UiLocale,
    settings: AppSettings,
    local_host_id: Seq<char>,
    local_host_name: Seq<char>,
    selected: SelectedMonitor,
) -> Seq<OptionModel> {
    host_numbers(settings, local_host_id).map_values(
        |i: int| option_of(locale, settings, local_host_id, local_host_name, selected, i),
    )
}

/// What the host switcher shows of a display.
pub open spec fn switcher_monitor_of(
    locale: UiLocale,
    settings: AppSettings,
    local_host_id: Seq<char>,
    local_host_name: Seq<char>,
    selected: SelectedMonitor,
) -> MonitorModel {
    MonitorModel {
        key: key_of(selected.fingerprint@),
        name: selected.name@,
        hosts: options_of(locale, settings, local_host_id, local_host_name, selected),
    }
}

fn position_in(list: &Vec<String>, text: &str) -> (at: usize)
    ensures
        at == rank_of_host(views(list@), text@),
{
    let mut i: usize = 0;
    while i < list.len() && !same_text(&list[i], text)
        invariant
            i <= list@.len(),
            forall|j: int| 0 <= j < i ==> #[trigger] views(list@)[j] != text@,
        decreases list@.len() - i,
    {
        assert(views(list@)[i as int] == list@[i as int]@);
        i += 1;
    }
    proof {
        if i < list@.len() {
            assert(views(list@)[i as int] == list@[i as int]@);
        }
        lemma_first_at_is(views(list@), is_host(text@), i as int);
    }
    i
}

fn named_input(
    locale: UiLocale,
    settings: &AppSettings,
    selected: &SelectedMonitor,
    input: Option<DisplayInput>,
) -> (name: Option<String>)
    ensures
        match name {
            Some(text) => input_name_of(locale, *settings, *selected, input) == Some(text@),
            None => input_name_of(locale, *settings, *selected, input) is None,
        },
{
    match input {
        Some(value) => Some(noted_input_label(locale, settings, selected, value)),
        None => None,
    }
}

fn shows_route(selected: &SelectedMonitor, route: &str) -> (yes: bool)
    ensures
        yes == (selected.shown_route() == route@),
{
    match &selected.active_route {
        Some(active) => same_text(active, route),
        None => same_text("local", route),
    }
}

fn option_for(
    locale: UiLocale,
    settings: &AppSettings,
    local_host_id: &str,
    local_host_name: &str,
    selected: &SelectedMonitor,
    i: usize,
) -> (option: HostSwitcherOption)
    requires
        i <= settings.peers@.len(),
    ensures
        option@ == option_of(
            locale,
            *settings,
            local_host_id@,
            local_host_name@,
            *selected,
            i as int,
        ),
{
    if i == 0 {
        let name = match alias_for(&settings.host_aliases, local_host_id) {
            Some(name) => name,
            None => if local_host_name.is_empty() {
                ui_text(locale, "這台電腦", "This computer")
            } else {
                local_host_name
            },
        };
        HostSwitcherOption {
            id: "local".to_owned(),
            name: name.to_owned(),
            platform: settings.local_host,
            input_name: named_input(locale, settings, selected, selected.local_input),
            is_local: true,
            available: selected.local_input.is_some(),
            is_active: shows_route(selected, "local"),
        }
    } else {
        let peer = &settings.peers[i - 1];
        let input = peer.input_for(&selected.fingerprint);
        let name = match alias_for(&settings.host_aliases, &peer.id) {
            Some(name) => name,
            None => peer.name.as_str(),
        };
        HostSwitcherOption {
            id: peer.id.clone(),
            name: name.to_owned(),
            platform: peer.platform,
            input_name: named_input(locale, settings, selected, input),
            is_local: false,
            available: input.is_some(),
            is_active: shows_route(selected, &peer.id),
        }
    }
}

/// Whether a state shows every shared display, each with its hosts in the saved order.
pub open spec fn is_switcher_state(
    locale: UiLocale,
    settings: AppSettings,
    local_host_id: Seq<char>,
    local_host_name: Seq<char>,
    state: HostSwitcherState,
) -> bool {
    monitor_models(state.monitors@) == settings.shared_monitors@.map_values(
        |selected: SelectedMonitor|
            switcher_monitor_of(
                locale,
                settings,
                local_host_id,
                local_host_name,
                selected,
            ),
    )
}

/// What the host switcher shows: every shared display, each with this computer
/// and every paired host in the saved order.
pub fn build_host_switcher_state(
    locale: UiLocale,
    settings: &AppSettings,
    local_host_id: &str,
    local_host_name: &str,
) -> (state: HostSwitcherState)
    ensures
        is_switcher_state(locale, *settings, local_host_id@, local_host_name@, state),
{
    let routes = ordered_routes(settings, local_host_id);
    let ghost all = all_routes(peer_id_views(settings.peers@));
    let ghost ranks_spec = host_ranks(*settings, local_host_id@);
    let mut ranks: Vec<usize> = Vec::new();
    ranks.push(position_in(&routes, "local"));
    assert(all[0] == "local"@);
    assert(rank_values(ranks@) =~= ranks_spec.take(1));
    let mut p: usize = 0;
    while p < settings.peers.len()
        invariant
            p <= settings.peers@.len(),
            views(routes@) == route_order(*settings, local_host_id@),
            all == all_routes(peer_id_views(settings.peers@)),
            ranks_spec == host_ranks(*settings, local_host_id@),
            rank_values(ranks@) == ranks_spec.take(p + 1),
            ranks@.len() == p + 1,
        decreases settings.peers@.len() - p,
    {
        let ghost before = rank_values(ranks@);
        assert(all[p + 1] == settings.peers@[p as int].id@);
        ranks.push(position_in(&routes, &settings.peers[p].id));
        proof {
            assert(rank_values(ranks@) =~= before.push(ranks_spec[p + 1]));
            assert(ranks_spec.take(p + 2) =~= ranks_spec.take(p + 1).push(ranks_spec[p + 1]));
        }
        p += 1;
    }
    assert(ranks_spec.take(ranks_spec.len() as int) =~= ranks_spec);
    let numbers = order_by_rank(&ranks);
    proof {
        ordering_by_rank_arranges(ranks_spec, ranks_spec.len() as int);
    }
    let ghost order = host_numbers(*settings, local_host_id@);
    assert(index_values(numbers@) == order);
    let ghost shown = settings.shared_monitors@.map_values(
        |selected: SelectedMonitor|
            switcher_monitor_of(locale, *settings, local_host_id@, local_host_name@, selected),
    );
    let mut monitors: Vec<HostSwitcherMonitor> = Vec::new();
    assert(monitor_models(monitors@) =~= shown.take(0));
    let mut m: usize = 0;
    while m < settings.shared_monitors.len()
        invariant
            m <= settings.shared_monitors@.len(),
            order == host_numbers(*settings, local_host_id@),
            index_values(numbers@) == order,
            ranks_spec == host_ranks(*settings, local_host_id@),
            ranks_spec.len() == settings.peers@.len() + 1,
            crate::lists::is_arrangement(ranks_spec, order, ranks_spec.len() as int),
            shown == settings.shared_monitors@.map_values(
                |selected: SelectedMonitor|
                    switcher_monitor_of(
                        locale,
                        *settings,
                        local_host_id@,
                        local_host_name@,
                        selected,
                    ),
            ),
            monitor_models(monitors@) == shown.take(m as int),
        decreases settings.shared_monitors@.len() - m,
    {
        let selected = &settings.shared_monitors[m];
        let ghost wanted = options_of(
            locale,
            *settings,
            local_host_id@,
            local_host_name@,
            *selected,
        );
        let mut hosts: Vec<HostSwitcherOption> = Vec::new();
        assert(option_models(hosts@) =~= wanted.take(0));
        let mut k: usize = 0;
        while k < numbers.len()
            invariant
                k <= numbers@.len(),
                order == host_numbers(*settings, local_host_id@),
                index_values(numbers@) == order,
                ranks_spec.len() == settings.peers@.len() + 1,
                crate::lists::is_arrangement(ranks_spec, order, ranks_spec.len() as int),
                wanted == options_of(
                    locale,
                    *settings,
                    local_host_id@,
                    local_host_name@,
                    *selected,
                ),
                option_models(hosts@) == wanted.take(k as int),
            decreases numbers@.len() - k,
        {
            let ghost before = option_models(hosts@);
            assert(order[k as int] == numbers@[k as int]);
            assert(0 <= order[k as int] < ranks_spec.len());
            hosts.push(
                option_for(
                    locale,
                    settings,
                    local_host_id,
                    local_host_name,
                    selected,
                    numbers[k],
                ),
            );
            proof {
                assert(option_models(hosts@) =~= before.push(wanted[k as int]));
                assert(wanted.take(k + 1) =~= wanted.take(k as int).push(wanted[k as int]));
            }
            k += 1;
        }
        assert(wanted.take(wanted.len() as int) =~= wanted);
        let ghost before = monitor_models(monitors@);
        monitors.push(
            HostSwitcherMonitor {
                monitor_key: monitor_key(&selected.fingerprint),
                name: selected.name.clone(),
                hosts,
            },
        );
        proof {
            assert(monitor_models(monitors@) =~= before.push(shown[m as int]));
            assert(shown.take(m + 1) =~= shown.take(m as int).push(shown[m as int]));
        }
        m += 1;
    }
    assert(shown.take(shown.len() as int) =~= shown);
    HostSwitcherState { monitors }
}

/// Every host has a place in the order that the switcher follows.
pub proof fn every_host_has_a_place(settings: AppSettings, local_host_id: Seq<char>, i: int)
    requires
        0 <= i < settings.peers@.len() + 1,
    ensures
        route_order(settings, local_host_id).contains(
            all_routes(peer_id_views(settings.peers@))[i],
        ),
{
    broadcast use vstd::seq_lib::group_to_multiset_ensures;

    let all = all_routes(peer_id_views(settings.peers@));
    let order = views(settings.host_order@);
    ordering_sorts_the_routes(order, local_host_id, all, 0);
    assert(all.to_multiset().count(all[i]) > 0);
}

} // verus!
