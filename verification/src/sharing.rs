//! What paired hosts keep in common - host order, host names, input notes,
//! display identities - and how each change reaches the settings.

use crate::agent::{
    bare_response, AgentAction, AgentDisplayRoute, AgentResponse, AGENT_PROTOCOL_VERSION,
};
use crate::dashboard::core_user_error;
use crate::domain::{
    DisplayInput, HostAlias, Identity, InputLabel, MonitorDescriptor,
    MonitorFingerprint, MonitorIdentityLink, SwitchOutcome,
};
use crate::entries::{
    adopt_all, copy_entries, newest, next_change, stamp_after, time_after, without_subject,
};
use crate::error::DisplayMuxError;
use crate::host_alias::{
    alias_fault, alias_for, alias_of, merged_aliases, normalize_alias,
    shareable_aliases, with_alias, AliasError, MAX_ALIAS_CHARS, MAX_SHARED_ALIASES,
};
use crate::host_order::{
    all_routes, by_rank, host_of_route, host_order_from_route_ids, is_valid_shared_host_order,
    lists_every_host_once, ordered_route_ids, saved_order, str_views, valid_shared_order,
};
use crate::input_label::{
    are_answers_of, label_fault, label_for, merged_labels, normalize_label,
    relocated, shareable_labels, with_label, with_local_monitors, LabelError, MAX_LABEL_CHARS,
    MAX_SHARED_LABELS,
};
use crate::lists::{first_at, lemma_first_at, lemma_first_at_is, some_item};
use crate::locale::{input_label, input_label_of, text_in, ui_text, UiLocale};
use crate::monitor_identity::{
    identities_for, merged_links, misses_some, needs_push, with_link, MAX_SHARED_LINKS,
};
use crate::notes::{
    is_about, lemma_lookup, lemma_note_set, note_moved, note_of, notes_absorbed, notes_moved, notes_of,
};
use crate::port::MonitorControl;
use crate::routes::{
    a_recognized_notice_starts_the_settle_period, apply_verified_peer_route, display_meant,
    identities_of, is_notice_taken, is_route_step, route_verdict, shared_monitor_index_for_peer,
    shows_this_host, take_active_input_notice, PeerRouteOutcome,
};
use crate::settings::{
    assigned_input, find_shared_monitor, has_id, has_key, has_valid_shared_key, key_of, monitor_key,
    peer_index, shared_monitor_missing, valid_key, with_input, AppSettings, HostRoute,
    MonitorInputAssignment, SelectedMonitor,
};
use crate::text::{
    copy_texts, decimal, decimal_text, join2, join3, same_text, trimmed, views,
};
use vstd::prelude::*;

verus! {

/// Selections of exactly this identity.
pub open spec fn is_exactly(monitor: Identity) -> spec_fn(SelectedMonitor) -> bool {
    |selected: SelectedMonitor| selected.fingerprint@ == monitor
}

/// Whether `after` is `before` with a shared display marked as showing a route, where
/// `known` tells whether it is shared at all.
pub open spec fn is_route_set(
    before: AppSettings,
    monitor: Identity,
    route: Seq<char>,
    now_ms: u64,
    after: AppSettings,
    known: bool,
) -> bool {
    let had = before.shared_monitors@;
    let has = after.shared_monitors@;
    let i = first_at(had, is_exactly(monitor));
    &&& known == (i < had.len())
    &&& !known ==> after == before
    &&& known ==> {
        &&& has == had.update(i, has[i])
        &&& has[i].active_route is Some
        &&& has[i].active_route->0@ == route
        &&& has[i] == (SelectedMonitor {
            active_route: has[i].active_route,
            active_route_confirmed_at_ms: now_ms,
            ..had[i]
        })
        &&& after == (AppSettings {
            shared_monitors: after.shared_monitors,
            ..before
        })
    }
}

/// Marks which route ("local" or a peer id) a shared monitor's input was
/// just confirmed switched to, so the dashboard can show the true active
/// host instead of always assuming local. Returns `false` (no-op) if the
/// monitor was since unselected, e.g. removed while the switch was in flight.
pub fn set_active_route(
    settings: &mut AppSettings,
    fingerprint: &MonitorFingerprint,
    route_id: &str,
    now_ms: u64,
) -> (known: bool)
    ensures
        is_route_set(*old(settings), fingerprint@, route_id@, now_ms, *final(settings), known),
{
    let ghost before = settings.shared_monitors@;
    let ghost wanted = is_exactly(fingerprint@);
    let mut i: usize = 0;
    while i < settings.shared_monitors.len()
        invariant
            i <= settings.shared_monitors@.len(),
            *settings == *old(settings),
            before == settings.shared_monitors@,
            wanted == is_exactly(fingerprint@),
            forall|j: int| 0 <= j < i ==> !wanted(#[trigger] before[j]),
        decreases settings.shared_monitors@.len() - i,
    {
        if settings.shared_monitors[i].fingerprint.matches_exactly(fingerprint) {
            proof {
                lemma_first_at_is(before, wanted, i as int);
            }
            let selected = &mut settings.shared_monitors[i];
            selected.active_route = Some(route_id.to_owned());
            selected.active_route_confirmed_at_ms = now_ms;
            assert(settings.shared_monitors@ =~= before.update(
                i as int,
                settings.shared_monitors@[i as int],
            ));
            return true;
        }
        i += 1;
    }
    proof {
        lemma_first_at_is(before, wanted, i as int);
    }
    false
}

/// Whether an order from a paired host takes the place of the saved one.
pub open spec fn is_newer_order(
    settings: AppSettings,
    order: Seq<String>,
    updated_at_ms: u64,
) -> bool {
    updated_at_ms > settings.host_order_updated_at_ms && valid_shared_order(views(order))
}

/// Whether `after` is `before` once a paired host told its host order, and `changed`
/// whether that was taken over.
pub open spec fn is_order_taken(
    before: AppSettings,
    order: Vec<String>,
    updated_at_ms: u64,
    after: AppSettings,
    changed: bool,
) -> bool {
    &&& changed == is_newer_order(before, order@, updated_at_ms)
    &&& after == if changed {
        AppSettings {
            host_order: order,
            host_order_updated_at_ms: updated_at_ms,
            ..before
        }
    } else {
        before
    }
}

/// Adopts a host order from a paired host when it is well formed and newer
/// than the saved one. Returns whether the saved order changed.
pub fn apply_host_order_notice(
    settings: &mut AppSettings,
    order: Vec<String>,
    updated_at_ms: u64,
) -> (changed: bool)
    ensures
        is_order_taken(*old(settings), order, updated_at_ms, *final(settings), changed),
{
    if updated_at_ms <= settings.host_order_updated_at_ms || !is_valid_shared_host_order(&order) {
        return false;
    }
    settings.host_order = order;
    settings.host_order_updated_at_ms = updated_at_ms;
    true
}

/// Whether `newer` says whether a paired host is behind our order.
pub open spec fn is_ahead(
    settings: AppSettings,
    theirs_updated_at_ms: u64,
    newer: bool,
) -> bool {
    newer == (settings.host_order@.len() > 0 && settings.host_order_updated_at_ms
        > theirs_updated_at_ms)
}

/// Whether a paired host whose order changed at `theirs_updated_at_ms` is
/// behind ours.
pub fn host_order_is_newer_than(settings: &AppSettings, theirs_updated_at_ms: u64) -> (newer: bool)
    ensures
        is_ahead(*settings, theirs_updated_at_ms, newer),
{
    settings.host_order.len() > 0 && settings.host_order_updated_at_ms > theirs_updated_at_ms
}

/// Minimum gap between exchanges of host names and order with paired hosts.
pub const HOST_LAYOUT_EXCHANGE_INTERVAL_MS: u64 = 30000;

/// Whether `due` says whether paired hosts are to be asked again for what they share.
pub open spec fn is_due(
    now_ms: u64,
    last_ms: u64,
    due: bool,
) -> bool {
    due == (now_ms - last_ms >= HOST_LAYOUT_EXCHANGE_INTERVAL_MS)
}

/// Whether paired hosts are to be asked again for what they share: not before
/// the interval is over, nor while the clock stands before the last exchange.
pub fn is_exchange_due(now_ms: u64, last_ms: u64) -> (due: bool)
    ensures
        is_due(now_ms, last_ms, due),
{
    now_ms >= last_ms && now_ms - last_ms >= HOST_LAYOUT_EXCHANGE_INTERVAL_MS
}

/// The ids of the paired hosts, in order.
pub open spec fn peer_id_views(peers: Seq<HostRoute>) -> Seq<Seq<char>> {
    peers.map_values(|peer: HostRoute| peer.id@)
}

/// The ids of the paired hosts, in order.
pub fn peer_ids<'a>(settings: &'a AppSettings) -> (ids: Vec<&'a str>)
    ensures
        str_views(ids@) == peer_id_views(settings.peers@),
{
    let ghost all = peer_id_views(settings.peers@);
    let mut ids: Vec<&'a str> = Vec::new();
    let mut i: usize = 0;
    while i < settings.peers.len()
        invariant
            i <= settings.peers@.len(),
            all == peer_id_views(settings.peers@),
            str_views(ids@) =~= all.take(i as int),
        decreases settings.peers@.len() - i,
    {
        let ghost before = str_views(ids@);
        ids.push(settings.peers[i].id.as_str());
        assert(str_views(ids@) =~= before.push(all[i as int]));
        assert(all.take(i + 1) =~= all.take(i as int).push(all[i as int]));
        i += 1;
    }
    assert(all.take(all.len() as int) =~= all);
    ids
}

/// The routes in the saved host card order.
pub open spec fn route_order(settings: AppSettings, local_host_id: Seq<char>) -> Seq<Seq<char>> {
    by_rank(
        views(settings.host_order@),
        local_host_id,
        all_routes(peer_id_views(settings.peers@)),
    )
}

/// Route ids ("local" and peer ids) in the saved host card order.
pub fn ordered_routes(settings: &AppSettings, local_host_id: &str) -> (routes: Vec<String>)
    ensures
        views(routes@) == route_order(*settings, local_host_id@),
{
    ordered_route_ids(&settings.host_order, local_host_id, &peer_ids(settings))
}

/// Whether `after` is `before` with a new host card order saved, or refused.
pub open spec fn is_order_set(
    locale: UiLocale,
    before: AppSettings,
    routes: Seq<Seq<char>>,
    local_host_id: Seq<char>,
    now_ms: u64,
    after: AppSettings,
    result: Result<(), String>,
) -> bool {
    let peers = peer_id_views(before.peers@);
    match result {
        Err(message) => {
            &&& !lists_every_host_once(routes, peers)
            &&& after == before
            &&& message@ == text_in(
                locale,
                "主機清單已變更，請重新整理後再調整順序"@,
                "The host list changed. Refresh and reorder again."@,
            )
        },
        Ok(_) => {
            &&& lists_every_host_once(routes, peers)
            &&& views(after.host_order@) == saved_order(
                routes,
                local_host_id,
                views(before.host_order@),
            )
            &&& after.host_order_updated_at_ms == time_after(
                before.host_order_updated_at_ms,
                now_ms,
            )
            &&& after == (AppSettings {
                host_order: after.host_order,
                host_order_updated_at_ms: after.host_order_updated_at_ms,
                ..before
            })
        },
    }
}

/// Saves a new host card order from dashboard route ids. It is newer than the
/// saved one, or peers holding that would ignore it; only behind the last time
/// there is, no newer one can come.
pub fn set_host_order(
    locale: UiLocale,
    settings: &mut AppSettings,
    route_ids: &[String],
    local_host_id: &str,
    now_ms: u64,
) -> (result: Result<(), String>)
    ensures
        is_order_set(
            locale,
            *old(settings),
            views(route_ids@),
            local_host_id@,
            now_ms,
            *final(settings),
            result,
        ),
{
    let order = match host_order_from_route_ids(
        route_ids,
        local_host_id,
        &peer_ids(settings),
        &settings.host_order,
    ) {
        Some(order) => order,
        None => return Err(
            ui_text(
                locale,
                "主機清單已變更，請重新整理後再調整順序",
                "The host list changed. Refresh and reorder again.",
            ).to_owned(),
        ),
    };
    settings.host_order = order;
    settings.host_order_updated_at_ms = stamp_after(settings.host_order_updated_at_ms, now_ms);
    Ok(())
}

/// A custom name and the route that it is for.
#[derive(Debug, PartialEq, Eq)]
pub struct RouteName {
    pub route: String,
    pub name: String,
}

/// The custom names of the first `n` routes, in order: this computer and its
/// peers. Hosts without one are left out.
pub open spec fn names_of_routes(
    settings: AppSettings,
    local_host_id: Seq<char>,
    n: int,
) -> Seq<(Seq<char>, Seq<char>)>
    decreases n,
{
    if n <= 0 {
        seq![]
    } else {
        let before = names_of_routes(settings, local_host_id, n - 1);
        let route = all_routes(peer_id_views(settings.peers@))[n - 1];
        let host = if n == 1 {
            local_host_id
        } else {
            route
        };
        match alias_of(settings.host_aliases@, host) {
            Some(name) => before.push((route, name)),
            None => before,
        }
    }
}

/// The names and routes, as characters.
pub open spec fn route_name_views(names: Seq<RouteName>) -> Seq<(Seq<char>, Seq<char>)> {
    names.map_values(|entry: RouteName| (entry.route@, entry.name@))
}

/// Custom names by route id ("local" and peer ids); hosts without one are left
/// out.
pub fn route_host_names(settings: &AppSettings, local_host_id: &str) -> (names: Vec<RouteName>)
    ensures
        route_name_views(names@) == names_of_routes(
            *settings,
            local_host_id@,
            settings.peers@.len() as int + 1,
        ),
{
    let mut names: Vec<RouteName> = Vec::new();
    let ghost all = all_routes(peer_id_views(settings.peers@));
    proof {
        reveal_with_fuel(names_of_routes, 2);
        assert(all[0] == "local"@);
    }
    if let Some(name) = alias_for(&settings.host_aliases, local_host_id) {
        names.push(RouteName { route: "local".to_owned(), name: name.to_owned() });
    }
    assert(route_name_views(names@) =~= names_of_routes(*settings, local_host_id@, 1));
    let mut i: usize = 0;
    while i < settings.peers.len()
        invariant
            i <= settings.peers@.len(),
            all == all_routes(peer_id_views(settings.peers@)),
            route_name_views(names@) == names_of_routes(*settings, local_host_id@, i + 1),
        decreases settings.peers@.len() - i,
    {
        let ghost before = route_name_views(names@);
        let id = &settings.peers[i].id;
        assert(all[i + 1] == id@);
        if let Some(name) = alias_for(&settings.host_aliases, id) {
            names.push(RouteName { route: id.clone(), name: name.to_owned() });
            assert(route_name_views(names@) =~= before.push((id@, name@)));
        }
        i += 1;
    }
    names
}

/// What is said of a host name that is not accepted.
pub open spec fn alias_error_of(locale: UiLocale, error: AliasError) -> Seq<char> {
    match error {
        AliasError::TooLong => match locale {
            UiLocale::TraditionalChinese => "主機名稱最多 "@ + decimal(MAX_ALIAS_CHARS as nat)
                + " 個字"@,
            UiLocale::English => "Host names can be at most "@ + decimal(MAX_ALIAS_CHARS as nat)
                + " characters"@,
        },
        AliasError::ControlCharacter => text_in(
            locale,
            "主機名稱不能包含換行或控制字元"@,
            "Host names cannot contain line breaks or control characters"@,
        ),
    }
}

pub fn alias_error_text(locale: UiLocale, error: AliasError) -> (text: String)
    ensures
        text@ == alias_error_of(locale, error),
{
    match error {
        AliasError::TooLong => {
            let most = decimal_text(MAX_ALIAS_CHARS as u64);
            match locale {
                UiLocale::TraditionalChinese => join3("主機名稱最多 ", &most, " 個字"),
                UiLocale::English => join3("Host names can be at most ", &most, " characters"),
            }
        },
        AliasError::ControlCharacter => ui_text(
            locale,
            "主機名稱不能包含換行或控制字元",
            "Host names cannot contain line breaks or control characters",
        ).to_owned(),
    }
}

/// Whether `after` is `before` with the host behind a route named, or that refused.
pub open spec fn is_name_set(
    locale: UiLocale,
    before: AppSettings,
    route: Seq<char>,
    name: Seq<char>,
    local_host_id: Seq<char>,
    now_ms: u64,
    after: AppSettings,
    result: Result<(), String>,
) -> bool {
    let known = route == "local"@ || some_item(
        before.peers@,
        has_id(route),
    );
    let fault = alias_fault(trimmed(name));
    let names = after.host_aliases@;
    match result {
        Err(message) => {
            &&& after == before
            &&& {
                ||| !known && message@ == text_in(
                    locale,
                    "找不到這台主機，請重新整理後再試一次"@,
                    "This host was not found. Refresh and try again."@,
                )
                ||| known && (fault matches Some(error) && message@ == alias_error_of(
                    locale,
                    error,
                ))
            }
        },
        Ok(_) => {
            &&& known
            &&& fault is None
            &&& names.len() > 0
            &&& names.last().host_id@ == host_of_route(route, local_host_id)
            &&& names.last().name@ == trimmed(name)
            &&& names.last().updated_at_ms == next_change(
                before.host_aliases@,
                names.last(),
                now_ms,
            )
            &&& names == without_subject(
                before.host_aliases@,
                names.last(),
            ).push(names.last())
            &&& after == (AppSettings {
                host_aliases: after.host_aliases,
                ..before
            })
        },
    }
}

/// Gives the host behind `route_id` a custom name; an empty one restores the
/// default.
pub fn set_host_name(
    locale: UiLocale,
    settings: &mut AppSettings,
    route_id: &str,
    name: &str,
    local_host_id: &str,
    now_ms: u64,
) -> (result: Result<(), String>)
    ensures
        is_name_set(
            locale,
            *old(settings),
            route_id@,
            name@,
            local_host_id@,
            now_ms,
            *final(settings),
            result,
        ),
{
    proof {
        lemma_first_at(settings.peers@, has_id(route_id@));
    }
    let host_id = if same_text(route_id, "local") {
        local_host_id.to_owned()
    } else {
        match peer_index(&settings.peers, route_id) {
            Some(_) => route_id.to_owned(),
            None => return Err(
                ui_text(
                    locale,
                    "找不到這台主機，請重新整理後再試一次",
                    "This host was not found. Refresh and try again.",
                ).to_owned(),
            ),
        }
    };
    let name = match normalize_alias(name) {
        Ok(name) => name,
        Err(error) => return Err(alias_error_text(locale, error)),
    };
    settings.host_aliases = with_alias(&settings.host_aliases, &host_id, name, now_ms);
    Ok(())
}

/// Merges a paired host's display-identity claims into ours, keeping the newer
/// entry for each alias. Returns whether anything changed.
pub fn adopt_monitor_identities(settings: &mut AppSettings, incoming: &[MonitorIdentityLink]) -> (changed:
    bool)
    ensures
        ({
            let before = old(settings).monitor_identity_links@;
            let merged = adopt_all(before, incoming@);
            &&& changed == (incoming@.len() <= MAX_SHARED_LINKS && merged != before)
            &&& !changed ==> *final(settings) == *old(settings)
            &&& changed ==> final(settings).monitor_identity_links@ == merged
            &&& *final(settings) == (AppSettings {
                monitor_identity_links: final(settings).monitor_identity_links,
                ..*old(settings)
            })
        }),
{
    match merged_links(&settings.monitor_identity_links, incoming) {
        Some(merged) => {
            settings.monitor_identity_links = merged;
            true
        },
        None => false,
    }
}

/// The identity that this host knows a paired host's display by.
pub open spec fn local_identity(
    monitors: Seq<SelectedMonitor>,
    links: Seq<MonitorIdentityLink>,
    monitor: MonitorFingerprint,
) -> Option<MonitorFingerprint> {
    match display_meant(monitors, links, monitor) {
        Some(i) => Some(monitors[i].fingerprint),
        None => None,
    }
}

/// `labels` from a paired host with each display mapped to this host's shared
/// display.
pub open spec fn localized_on(
    monitors: Seq<SelectedMonitor>,
    links: Seq<MonitorIdentityLink>,
    labels: Seq<InputLabel>,
) -> Seq<InputLabel> {
    relocated(
        labels,
        labels.map_values(|label: InputLabel| local_identity(monitors, links, label.monitor)),
    )
}

/// `labels` from a paired host with each display mapped to this host's shared
/// display.
pub open spec fn localized(settings: AppSettings, labels: Seq<InputLabel>) -> Seq<InputLabel> {
    localized_on(settings.shared_monitors@, settings.monitor_identity_links@, labels)
}

/// `labels` from a paired host with each display mapped to this host's shared
/// display, since hosts can read the same display's serial number differently.
pub fn labels_on_local_monitors(settings: &AppSettings, labels: &[InputLabel]) -> (result: Vec<
    InputLabel,
>)
    ensures
        result@ == localized(*settings, labels@),
{
    let to_local = |monitor: &MonitorFingerprint| -> (answer: Option<MonitorFingerprint>)
        ensures
            answer == local_identity(
                settings.shared_monitors@,
                settings.monitor_identity_links@,
                *monitor,
            ),
        {
            match shared_monitor_index_for_peer(
                &settings.shared_monitors,
                &settings.monitor_identity_links,
                monitor,
            ) {
                Some(index) => Some(settings.shared_monitors[index].fingerprint.clone()),
                None => None,
            }
        };
    let result = with_local_monitors(labels, to_local);
    proof {
        let answers = choose|answers: Seq<Option<MonitorFingerprint>>| #[trigger]
            are_answers_of(to_local, labels@, answers) && result@ == relocated(labels@, answers);
        assert(answers =~= labels@.map_values(
            |label: InputLabel|
                local_identity(
                    settings.shared_monitors@,
                    settings.monitor_identity_links@,
                    label.monitor,
                ),
        ));
    }
    result
}

/// Merges a paired host's input notes into `settings`. Returns whether any
/// changed.
pub fn adopt_input_labels(settings: &mut AppSettings, incoming: &[InputLabel]) -> (changed: bool)
    ensures
        ({
            let before = old(settings).input_labels@;
            let merged = adopt_all(before, localized(*old(settings), incoming@));
            &&& changed == (incoming@.len() <= MAX_SHARED_LABELS && merged != before)
            &&& !changed ==> *final(settings) == *old(settings)
            &&& changed ==> final(settings).input_labels@ == merged
            &&& *final(settings) == (AppSettings {
                input_labels: final(settings).input_labels,
                ..*old(settings)
            })
        }),
{
    let local = labels_on_local_monitors(settings, incoming);
    match merged_labels(&settings.input_labels, &local) {
        Some(merged) => {
            settings.input_labels = merged;
            true
        },
        None => false,
    }
}

/// Merges a paired host's custom names into `settings`. Returns whether any
/// changed.
pub fn adopt_host_aliases(settings: &mut AppSettings, incoming: &[HostAlias]) -> (changed: bool)
    ensures
        ({
            let before = old(settings).host_aliases@;
            let merged = adopt_all(before, incoming@);
            &&& changed == (incoming@.len() <= MAX_SHARED_ALIASES && merged != before)
            &&& !changed ==> *final(settings) == *old(settings)
            &&& changed ==> final(settings).host_aliases@ == merged
            &&& *final(settings) == (AppSettings {
                host_aliases: final(settings).host_aliases,
                ..*old(settings)
            })
        }),
{
    match merged_aliases(&settings.host_aliases, incoming) {
        Some(merged) => {
            settings.host_aliases = merged;
            true
        },
        None => false,
    }
}

/// What changed when a paired host's answer was adopted.
#[derive(Clone, Copy, Debug, PartialEq, Eq, Structural)]
pub struct LayoutChanges {
    pub order: bool,
    pub names: bool,
    pub labels: bool,
    pub identities: bool,
}

/// Whether `after` is `before` once a paired host's answer was adopted.
pub open spec fn is_layout_adopted(
    before: AppSettings,
    theirs: AgentResponse,
    after: AppSettings,
    changes: LayoutChanges,
) -> bool {
    let names = adopt_all(before.host_aliases@, theirs.host_aliases@);
    let labels = adopt_all(before.input_labels@, localized(before, theirs.input_labels@));
    let links = adopt_all(before.monitor_identity_links@, theirs.monitor_identity_links@);
    &&& changes.order == is_newer_order(
        before,
        theirs.host_order@,
        theirs.host_order_updated_at_ms,
    )
    &&& changes.names == (theirs.host_aliases@.len() <= MAX_SHARED_ALIASES && names
        != before.host_aliases@)
    &&& changes.labels == (theirs.input_labels@.len() <= MAX_SHARED_LABELS && labels
        != before.input_labels@)
    &&& changes.identities == (theirs.monitor_identity_links@.len() <= MAX_SHARED_LINKS
        && links != before.monitor_identity_links@)
    &&& after == (AppSettings {
        host_order: after.host_order,
        host_order_updated_at_ms: after.host_order_updated_at_ms,
        host_aliases: after.host_aliases,
        input_labels: after.input_labels,
        monitor_identity_links: after.monitor_identity_links,
        ..before
    })
    &&& if changes.order {
        after.host_order@ == theirs.host_order@ && after.host_order_updated_at_ms
            == theirs.host_order_updated_at_ms
    } else {
        after.host_order == before.host_order && after.host_order_updated_at_ms
            == before.host_order_updated_at_ms
    }
    &&& after.host_aliases@ == if changes.names {
        names
    } else {
        before.host_aliases@
    }
    &&& after.input_labels@ == if changes.labels {
        labels
    } else {
        before.input_labels@
    }
    &&& after.monitor_identity_links@ == if changes.identities {
        links
    } else {
        before.monitor_identity_links@
    }
}

/// Adopts whatever a paired host's answer holds that is newer: the order, the
/// names, the notes (by the displays and claims held before) and the claims.
pub fn adopt_layout(settings: &mut AppSettings, theirs: &AgentResponse) -> (changes: LayoutChanges)
    ensures
        is_layout_adopted(*old(settings), *theirs, *final(settings), changes),
{
    let order = apply_host_order_notice(
        settings,
        copy_texts(&theirs.host_order),
        theirs.host_order_updated_at_ms,
    );
    let names = adopt_host_aliases(settings, &theirs.host_aliases);
    let labels = adopt_input_labels(settings, &theirs.input_labels);
    let identities = adopt_monitor_identities(settings, &theirs.monitor_identity_links);
    LayoutChanges { order, names, labels, identities }
}

/// What a notice tells a paired host.
pub enum Notice {
    Order { order: Seq<Seq<char>>, at: u64 },
    Aliases(Seq<HostAlias>),
    Links(Seq<MonitorIdentityLink>),
    Labels(Seq<InputLabel>),
    Confirmed { host_id: Seq<char>, monitor: MonitorFingerprint, input: DisplayInput },
    Other,
}

/// What an action tells a paired host.
pub open spec fn notice_in(action: AgentAction) -> Notice {
    match action {
        AgentAction::HostOrderChanged { order, updated_at_ms } => Notice::Order {
            order: views(order@),
            at: updated_at_ms,
        },
        AgentAction::HostAliasesChanged { aliases } => Notice::Aliases(aliases@),
        AgentAction::MonitorIdentitiesChanged { links } => Notice::Links(links@),
        AgentAction::InputLabelsChanged { labels } => Notice::Labels(labels@),
        AgentAction::LocalInputConfirmed { host_id, monitor, input } => Notice::Confirmed {
            host_id: host_id@,
            monitor,
            input,
        },
        _ => Notice::Other,
    }
}

/// What actions tell a paired host, in order.
pub open spec fn notices_in(actions: Seq<AgentAction>) -> Seq<Notice> {
    actions.map_values(|action: AgentAction| notice_in(action))
}

/// A notice that is sent only on a condition.
pub open spec fn sent_if(condition: bool, notice: Notice) -> Seq<Notice> {
    if condition {
        seq![notice]
    } else {
        seq![]
    }
}

/// What a paired host that answered `theirs` is still missing: an older order,
/// names or notes that we have newer, and claims that it does not hold.
pub open spec fn missing_there(settings: AppSettings, theirs: AgentResponse) -> Seq<Notice> {
    let names = newest(settings.host_aliases@, MAX_SHARED_ALIASES as int);
    let labels = newest(settings.input_labels@, MAX_SHARED_LABELS as int);
    let their_labels = localized(settings, theirs.input_labels@);
    sent_if(
        settings.host_order@.len() > 0 && settings.host_order_updated_at_ms
            > theirs.host_order_updated_at_ms,
        Notice::Order {
            order: views(settings.host_order@),
            at: settings.host_order_updated_at_ms,
        },
    ) + sent_if(
        adopt_all(theirs.host_aliases@, names) != theirs.host_aliases@,
        Notice::Aliases(names),
    ) + sent_if(
        misses_some(theirs.monitor_identity_links@, settings.monitor_identity_links@),
        Notice::Links(settings.monitor_identity_links@),
    ) + sent_if(adopt_all(their_labels, labels) != their_labels, Notice::Labels(labels))
}

/// What a paired host that answered `theirs` is still missing.
pub fn pending_notices(settings: &AppSettings, theirs: &AgentResponse) -> (actions: Vec<AgentAction>)
    ensures
        notices_in(actions@) == missing_there(*settings, *theirs),
{
    let mut actions: Vec<AgentAction> = Vec::new();
    let ghost mut told: Seq<Notice> = seq![];
    assert(notices_in(actions@) =~= told);
    if host_order_is_newer_than(settings, theirs.host_order_updated_at_ms) {
        actions.push(
            AgentAction::HostOrderChanged {
                order: copy_texts(&settings.host_order),
                updated_at_ms: settings.host_order_updated_at_ms,
            },
        );
        proof {
            told = told.push(
                Notice::Order {
                    order: views(settings.host_order@),
                    at: settings.host_order_updated_at_ms,
                },
            );
        }
        assert(notices_in(actions@) =~= told);
    }
    if crate::host_alias::has_newer_entries(&settings.host_aliases, &theirs.host_aliases) {
        let aliases = shareable_aliases(&settings.host_aliases);
        proof {
            told = told.push(Notice::Aliases(aliases@));
        }
        actions.push(AgentAction::HostAliasesChanged { aliases });
        assert(notices_in(actions@) =~= told);
    }
    if needs_push(&settings.monitor_identity_links, &theirs.monitor_identity_links) {
        let links = copy_entries(&settings.monitor_identity_links);
        proof {
            told = told.push(Notice::Links(links@));
        }
        actions.push(AgentAction::MonitorIdentitiesChanged { links });
        assert(notices_in(actions@) =~= told);
    }
    let their_labels = labels_on_local_monitors(settings, &theirs.input_labels);
    if crate::input_label::has_newer_entries(&settings.input_labels, &their_labels) {
        let labels = shareable_labels(&settings.input_labels);
        proof {
            told = told.push(Notice::Labels(labels@));
        }
        actions.push(AgentAction::InputLabelsChanged { labels });
        assert(notices_in(actions@) =~= told);
    }
    assert(told =~= missing_there(*settings, *theirs));
    actions
}

/// What is said of an input note that is not accepted.
pub open spec fn label_error_of(locale: UiLocale, error: LabelError) -> Seq<char> {
    match error {
        LabelError::TooLong => match locale {
            UiLocale::TraditionalChinese => "輸入備註最多 "@ + decimal(MAX_LABEL_CHARS as nat)
                + " 個字"@,
            UiLocale::English => "Input notes can be at most "@ + decimal(MAX_LABEL_CHARS as nat)
                + " characters"@,
        },
        LabelError::ControlCharacter => text_in(
            locale,
            "輸入備註不能包含換行或控制字元"@,
            "Input notes cannot contain line breaks or control characters"@,
        ),
    }
}

pub fn label_error_text(locale: UiLocale, error: LabelError) -> (text: String)
    ensures
        text@ == label_error_of(locale, error),
{
    match error {
        LabelError::TooLong => {
            let most = decimal_text(MAX_LABEL_CHARS as u64);
            match locale {
                UiLocale::TraditionalChinese => join3("輸入備註最多 ", &most, " 個字"),
                UiLocale::English => join3("Input notes can be at most ", &most, " characters"),
            }
        },
        LabelError::ControlCharacter => ui_text(
            locale,
            "輸入備註不能包含換行或控制字元",
            "Input notes cannot contain line breaks or control characters",
        ).to_owned(),
    }
}

/// Whether `after` is `before` with a note set for an input of a shared display, or
/// that refused.
pub open spec fn is_label_set(
    locale: UiLocale,
    before: AppSettings,
    key: Seq<char>,
    input: u32,
    label: Seq<char>,
    now_ms: u64,
    after: AppSettings,
    result: Result<(), String>,
) -> bool {
    let i = first_at(before.shared_monitors@, has_key(key));
    let known = i < before.shared_monitors@.len();
    let wanted = DisplayInput { code: input };
    let fault = label_fault(trimmed(label));
    let labels = after.input_labels@;
    match result {
        Err(message) => {
            &&& after == before
            &&& {
                ||| !known && message@ == shared_monitor_missing(locale)
                ||| known && !wanted.usable() && message@ == DisplayMuxError::InvalidInput(
                    input,
                ).message(locale == UiLocale::TraditionalChinese)
                ||| known && wanted.usable() && (fault matches Some(error) && message@
                    == label_error_of(locale, error))
            }
        },
        Ok(_) => {
            &&& known
            &&& wanted.usable()
            &&& fault is None
            &&& labels.len() > 0
            &&& labels.last().monitor == before.shared_monitors@[i].fingerprint
            &&& labels.last().input == wanted
            &&& labels.last().label@ == trimmed(label)
            &&& labels.last().updated_at_ms == next_change(
                before.input_labels@,
                labels.last(),
                now_ms,
            )
            &&& labels == without_subject(
                before.input_labels@,
                labels.last(),
            ).push(labels.last())
            &&& after == (AppSettings {
                input_labels: after.input_labels,
                ..before
            })
        },
    }
}

/// Sets the note for one input of a shared display; an empty one clears it.
pub fn set_input_label(
    locale: UiLocale,
    settings: &mut AppSettings,
    monitor_id: &str,
    input: u32,
    label: &str,
    now_ms: u64,
) -> (result: Result<(), String>)
    ensures
        is_label_set(
            locale,
            *old(settings),
            monitor_id@,
            input,
            label@,
            now_ms,
            *final(settings),
            result,
        ),
{
    let fingerprint = match find_shared_monitor(locale, settings, monitor_id) {
        Ok(selected) => selected.fingerprint.clone(),
        Err(message) => return Err(message),
    };
    let input = match DisplayInput::new(input) {
        Ok(input) => input,
        Err(error) => return Err(core_user_error(locale, &error)),
    };
    let label = match normalize_label(label) {
        Ok(label) => label,
        Err(error) => return Err(label_error_text(locale, error)),
    };
    settings.input_labels = with_label(&settings.input_labels, &fingerprint, input, label, now_ms);
    Ok(())
}

/// The inputs of a host after `alias` was absorbed by `primary`: the input for
/// `alias` becomes that for `primary`, unless there is one already, and goes.
pub open spec fn absorbed(
    inputs: Seq<MonitorInputAssignment>,
    alias: MonitorFingerprint,
    primary: MonitorFingerprint,
) -> Seq<MonitorInputAssignment> {
    match assigned_input(inputs, alias@) {
        None => inputs,
        Some(input) => {
            let moved = if assigned_input(inputs, primary@) is None {
                with_input(inputs, primary, Some(input))
            } else {
                inputs
            };
            with_input(moved, alias, None)
        },
    }
}

/// Entries about exactly this identity.
pub open spec fn is_note_of(monitor: Identity) -> spec_fn(InputLabel) -> bool {
    |label: InputLabel| label.monitor@ == monitor
}

/// The entries about an identity have the values about it.
proof fn lemma_notes_of_monitor(labels: Seq<InputLabel>, monitor: Identity)
    ensures
        notes_of(labels.filter(is_note_of(monitor))) == notes_of(labels).filter(is_about(monitor)),
    decreases labels.len(),
{
    reveal(Seq::filter);
    let wanted = is_note_of(monitor);
    let notes = notes_of(labels);
    if labels.len() == 0 {
        assert(notes_of(labels.filter(wanted)) =~= notes.filter(is_about(monitor)));
    } else {
        let shorter = labels.drop_last();
        lemma_notes_of_monitor(shorter, monitor);
        assert(notes.drop_last() =~= notes_of(shorter));
        assert(notes.last() == note_of(labels.last()));
        assert(notes_of(shorter.filter(wanted).push(labels.last())) =~= notes_of(
            shorter.filter(wanted),
        ).push(note_of(labels.last())));
    }
}

/// Folds every host's input for `alias` into that for `primary`.
fn absorb_inputs(
    peers: &mut Vec<HostRoute>,
    alias: &MonitorFingerprint,
    primary: &MonitorFingerprint,
)
    ensures
        final(peers)@.len() == old(peers)@.len(),
        forall|k: int|
            0 <= k < old(peers)@.len() ==> {
                &&& (#[trigger] final(peers)@[k]).inputs@ == absorbed(
                    old(peers)@[k].inputs@,
                    *alias,
                    *primary,
                )
                &&& final(peers)@[k] == (HostRoute {
                    inputs: final(peers)@[k].inputs,
                    ..old(peers)@[k]
                })
            },
{
    let ghost before = peers@;
    let mut k: usize = 0;
    while k < peers.len()
        invariant
            k <= peers@.len() == before.len(),
            before == old(peers)@,
            forall|j: int|
                0 <= j < k ==> {
                    &&& (#[trigger] peers@[j]).inputs@ == absorbed(
                        before[j].inputs@,
                        *alias,
                        *primary,
                    )
                    &&& peers@[j] == (HostRoute { inputs: peers@[j].inputs, ..before[j] })
                },
            forall|j: int| k <= j < before.len() ==> peers@[j] == before[j],
        decreases before.len() - k,
    {
        let peer = &mut peers[k];
        if let Some(input) = peer.input_for(alias) {
            if peer.input_for(primary).is_none() {
                peer.set_input_for(primary, Some(input));
            }
            peer.set_input_for(alias, None);
        }
        k += 1;
    }
}

/// The entries about exactly this identity, in order.
fn notes_about(labels: &Vec<InputLabel>, monitor: &MonitorFingerprint) -> (found: Vec<InputLabel>)
    ensures
        notes_of(found@) == notes_of(labels@).filter(is_about(monitor@)),
{
    let ghost wanted = is_note_of(monitor@);
    let mut found: Vec<InputLabel> = Vec::new();
    let mut i: usize = 0;
    while i < labels.len()
        invariant
            i <= labels@.len(),
            wanted == is_note_of(monitor@),
            found@ == labels@.take(i as int).filter(wanted),
        decreases labels@.len() - i,
    {
        proof {
            assert(labels@.take(i + 1).drop_last() =~= labels@.take(i as int));
            reveal(Seq::filter);
        }
        if labels[i].monitor.matches_exactly(monitor) {
            found.push(labels[i].clone());
        }
        i += 1;
    }
    proof {
        assert(labels@.take(labels@.len() as int) =~= labels@);
        lemma_notes_of_monitor(labels@, monitor@);
    }
    found
}

/// The notes once `entry` was moved from `alias` to `primary`.
fn move_note(
    labels: &Vec<InputLabel>,
    entry: &InputLabel,
    alias: &MonitorFingerprint,
    primary: &MonitorFingerprint,
    now_ms: u64,
) -> (result: Vec<InputLabel>)
    ensures
        notes_of(result@) == note_moved(
            notes_of(labels@),
            note_of(*entry),
            alias@,
            primary@,
            now_ms,
        ),
{
    proof {
        lemma_lookup(labels@, primary@, entry.input);
    }
    let between = if label_for(labels, primary, entry.input).is_none() {
        let handed_over = with_label(labels, primary, entry.input, entry.label.clone(), now_ms);
        proof {
            lemma_note_set(labels@, handed_over@.last(), now_ms, handed_over@);
        }
        handed_over
    } else {
        copy_entries(labels)
    };
    let result = with_label(&between, alias, entry.input, String::new(), now_ms);
    proof {
        lemma_note_set(between@, result@.last(), now_ms, result@);
        assert(result@.last().label@ =~= seq![]);
    }
    result
}

/// Moves everything keyed by `alias` onto `primary`, so a merge keeps the
/// inputs and notes the user already set against the identity being absorbed.
/// Entries already held for `primary` win; nothing is overwritten.
pub fn adopt_alias_settings(
    settings: &mut AppSettings,
    alias: &MonitorFingerprint,
    primary: &MonitorFingerprint,
    now_ms: u64,
)
    ensures
        ({
            let before = *old(settings);
            let after = *final(settings);
            &&& after == (AppSettings {
                peers: after.peers,
                input_labels: after.input_labels,
                ..before
            })
            &&& after.peers@.len() == before.peers@.len()
            &&& forall|k: int|
                0 <= k < before.peers@.len() ==> {
                    &&& (#[trigger] after.peers@[k]).inputs@ == absorbed(
                        before.peers@[k].inputs@,
                        *alias,
                        *primary,
                    )
                    &&& after.peers@[k] == (HostRoute {
                        inputs: after.peers@[k].inputs,
                        ..before.peers@[k]
                    })
                }
            &&& notes_of(after.input_labels@) == notes_absorbed(
                notes_of(before.input_labels@),
                alias@,
                primary@,
                now_ms,
            )
        }),
{
    absorb_inputs(&mut settings.peers, alias, primary);
    let moved = notes_about(&settings.input_labels, alias);
    let ghost notes = notes_of(settings.input_labels@);
    let ghost wanted = notes.filter(is_about(alias@));
    let ghost after_peers = *settings;
    assert(wanted.take(0) =~= seq![]);
    let mut n: usize = 0;
    while n < moved.len()
        invariant
            n <= moved@.len(),
            notes_of(moved@) == wanted,
            notes_of(settings.input_labels@) == notes_moved(
                notes,
                wanted.take(n as int),
                alias@,
                primary@,
                now_ms,
            ),
            *settings == (AppSettings { input_labels: settings.input_labels, ..after_peers }),
        decreases moved@.len() - n,
    {
        proof {
            assert(wanted[n as int] == note_of(moved@[n as int]));
            assert(wanted.take(n + 1).drop_last() =~= wanted.take(n as int));
        }
        settings.input_labels = move_note(
            &settings.input_labels,
            &moved[n],
            alias,
            primary,
            now_ms,
        );
        n += 1;
    }
    assert(wanted.take(wanted.len() as int) =~= wanted);
}

/// Absorbing an identity keeps the input that a host already has for the
/// display it joins, and takes over the absorbed one's where it has none.
pub proof fn absorbing_overwrites_no_input(
    inputs: Seq<MonitorInputAssignment>,
    alias: MonitorFingerprint,
    primary: MonitorFingerprint,
    other: Identity,
)
    requires
        alias@ != primary@,
    ensures
        ({
            let after = absorbed(inputs, alias, primary);
            &&& assigned_input(after, primary@) == match assigned_input(inputs, primary@) {
                Some(input) => Some(input),
                None => assigned_input(inputs, alias@),
            }
            &&& assigned_input(after, alias@) is None
            &&& other != alias@ && other != primary@ ==> assigned_input(after, other)
                == assigned_input(inputs, other)
        }),
{
    match assigned_input(inputs, alias@) {
        None => {},
        Some(input) => {
            let moved = if assigned_input(inputs, primary@) is None {
                with_input(inputs, primary, Some(input))
            } else {
                inputs
            };
            crate::settings::setting_an_input_sets_that_display_only(
                inputs,
                primary,
                Some(input),
                other,
            );
            crate::settings::setting_an_input_sets_that_display_only(moved, alias, None, primary@);
            crate::settings::setting_an_input_sets_that_display_only(moved, alias, None, other);
        },
    }
}

/// What is said where a display is not there.
pub open spec fn display_missing(locale: UiLocale) -> Seq<char> {
    text_in(
        locale,
        "找不到這台螢幕，請重新整理後再選擇"@,
        "This display was not found. Refresh and select it again."@,
    )
}

pub fn display_not_found(locale: UiLocale) -> (message: String)
    ensures
        message@ == display_missing(locale),
{
    ui_text(
        locale,
        "找不到這台螢幕，請重新整理後再選擇",
        "This display was not found. Refresh and select it again.",
    ).to_owned()
}

/// Claims about the identity of a frontend-facing id.
pub open spec fn claims_key(key: Seq<char>) -> spec_fn(MonitorIdentityLink) -> bool {
    |link: MonitorIdentityLink| key_of(link.alias@) == key
}

/// Displays of a platform id.
pub open spec fn has_monitor_id(id: Seq<char>) -> spec_fn(MonitorDescriptor) -> bool {
    |monitor: MonitorDescriptor| monitor.id.text@ == id
}

/// The identity that a frontend-facing id names without looking at the displays
/// present: a shared display's, or the alias of a claim.
pub open spec fn known_identity(settings: AppSettings, key: Seq<char>) -> Option<
    MonitorFingerprint,
> {
    let i = first_at(settings.shared_monitors@, has_key(key));
    let j = first_at(settings.monitor_identity_links@, claims_key(key));
    if i < settings.shared_monitors@.len() {
        Some(settings.shared_monitors@[i].fingerprint)
    } else if j < settings.monitor_identity_links@.len() {
        Some(settings.monitor_identity_links@[j].alias)
    } else {
        None
    }
}

/// The identity that a frontend-facing id names without looking at the displays
/// present. Withdrawing a claim must work when neither identity is shared or
/// present any more, which is the state a stale claim leaves behind.
pub fn known_fingerprint(settings: &AppSettings, monitor_id: &str) -> (known: Option<
    MonitorFingerprint,
>)
    ensures
        known == known_identity(*settings, monitor_id@),
{
    proof {
        lemma_first_at(settings.shared_monitors@, has_key(monitor_id@));
    }
    if let Some(i) = crate::settings::shared_monitor_index(settings, monitor_id) {
        return Some(settings.shared_monitors[i].fingerprint.clone());
    }
    let links = &settings.monitor_identity_links;
    let ghost wanted = claims_key(monitor_id@);
    let mut j: usize = 0;
    while j < links.len()
        invariant
            j <= links@.len(),
            links@ == settings.monitor_identity_links@,
            wanted == claims_key(monitor_id@),
            first_at(settings.shared_monitors@, has_key(monitor_id@))
                >= settings.shared_monitors@.len(),
            forall|k: int| 0 <= k < j ==> !wanted(#[trigger] links@[k]),
        decreases links@.len() - j,
    {
        if same_text(&monitor_key(&links[j].alias), monitor_id) {
            proof {
                lemma_first_at_is(links@, wanted, j as int);
            }
            return Some(links[j].alias.clone());
        }
        j += 1;
    }
    proof {
        lemma_first_at_is(links@, wanted, j as int);
    }
    None
}

/// The position of the display of a platform id among those present.
pub fn present_index(monitors: &Vec<MonitorDescriptor>, monitor_id: &str) -> (found: Option<usize>)
    ensures
        match found {
            Some(i) => i == first_at(monitors@, has_monitor_id(monitor_id@)) && i < monitors@.len(),
            None => first_at(monitors@, has_monitor_id(monitor_id@)) == monitors@.len(),
        },
{
    let ghost wanted = has_monitor_id(monitor_id@);
    let mut i: usize = 0;
    while i < monitors.len()
        invariant
            i <= monitors@.len(),
            wanted == has_monitor_id(monitor_id@),
            forall|j: int| 0 <= j < i ==> !wanted(#[trigger] monitors@[j]),
        decreases monitors@.len() - i,
    {
        if same_text(monitors[i].id.as_str(), monitor_id) {
            proof {
                lemma_first_at_is(monitors@, wanted, i as int);
            }
            return Some(i);
        }
        i += 1;
    }
    proof {
        lemma_first_at_is(monitors@, wanted, i as int);
    }
    None
}

/// Whether an identity is what a frontend-facing id names, given what the
/// platform listed where it had to be asked.
pub open spec fn is_named_identity(
    locale: UiLocale,
    settings: AppSettings,
    key: Seq<char>,
    listed: Result<Vec<MonitorDescriptor>, DisplayMuxError>,
    result: Result<MonitorFingerprint, String>,
) -> bool {
    match known_identity(settings, key) {
        Some(identity) => result == Ok::<MonitorFingerprint, String>(identity),
        None => match listed {
            Err(error) => result is Err && result->Err_0@ == error.message(
                locale == UiLocale::TraditionalChinese,
            ),
            Ok(monitors) => {
                let i = first_at(monitors@, has_monitor_id(key));
                if i < monitors@.len() {
                    result == Ok::<MonitorFingerprint, String>(monitors@[i].fingerprint)
                } else {
                    result is Err && result->Err_0@ == display_missing(locale)
                }
            },
        },
    }
}

/// The fingerprint behind an id the UI holds. A display the user wants to merge
/// is usually not a shared display at all - it is the unfamiliar one that
/// appeared when the display mode changed - so a display present right now is
/// accepted by its platform id as well.
pub fn fingerprint_for_ui_id<C: MonitorControl>(
    locale: UiLocale,
    settings: &AppSettings,
    monitor_id: &str,
    controller: Result<C, DisplayMuxError>,
) -> (result: Result<MonitorFingerprint, String>)
    ensures
        match controller {
            Err(error) => is_named_identity(locale, *settings, monitor_id@, Err(error), result),
            Ok(working) => exists|listed: Result<Vec<MonitorDescriptor>, DisplayMuxError>|
                {
                    &&& #[trigger] is_named_identity(
                        locale,
                        *settings,
                        monitor_id@,
                        listed,
                        result,
                    )
                    &&& known_identity(*settings, monitor_id@) is None ==> call_ensures(
                        C::enumerate,
                        (&working,),
                        listed,
                    )
                },
        },
{
    if let Some(identity) = known_fingerprint(settings, monitor_id) {
        let result = Ok(identity);
        assert(is_named_identity(
            locale,
            *settings,
            monitor_id@,
            Err(DisplayMuxError::TargetNotFound),
            result,
        ));
        return result;
    }
    let working = match controller {
        Ok(working) => working,
        Err(error) => return Err(core_user_error(locale, &error)),
    };
    let listed = working.enumerate();
    let ghost answered = listed;
    let result = match listed {
        Err(error) => Err(core_user_error(locale, &error)),
        Ok(monitors) => match present_index(&monitors, monitor_id) {
            Some(i) => Ok(monitors[i].fingerprint.clone()),
            None => Err(display_not_found(locale)),
        },
    };
    assert(is_named_identity(locale, *settings, monitor_id@, answered, result));
    result
}

/// Selections of other identities.
pub open spec fn is_not_exactly(monitor: Identity) -> spec_fn(SelectedMonitor) -> bool {
    |selected: SelectedMonitor| selected.fingerprint@ != monitor
}

/// The shared display that a claim names as primary, if it names one and that
/// is shared.
pub open spec fn claimed_primary(settings: AppSettings, primary_id: Option<Seq<char>>) -> Option<
    MonitorFingerprint,
> {
    match primary_id {
        None => None,
        Some(key) => {
            let i = first_at(settings.shared_monitors@, has_key(key));
            if i < settings.shared_monitors@.len() {
                Some(settings.shared_monitors@[i].fingerprint)
            } else {
                None
            }
        },
    }
}

/// Whether `after` is `before` with the claim that `alias` is `primary` (or
/// none) recorded at `now_ms`.
pub open spec fn is_claim_recorded(
    before: Seq<MonitorIdentityLink>,
    alias: MonitorFingerprint,
    primary: Option<MonitorFingerprint>,
    now_ms: u64,
    after: Seq<MonitorIdentityLink>,
) -> bool {
    &&& after.len() > 0
    &&& after.last().alias == alias
    &&& after.last().primary == primary
    &&& after.last().updated_at_ms == next_change(before, after.last(), now_ms)
    &&& after == without_subject(before, after.last()).push(after.last())
}

/// Whether everything else that a merge of two identities changes was done: the
/// absorbed one's inputs and notes are folded into the one it joins, and it is
/// no shared display of its own any more.
pub open spec fn is_merged(
    before: AppSettings,
    alias: MonitorFingerprint,
    primary: MonitorFingerprint,
    now_ms: u64,
    after: AppSettings,
) -> bool {
    &&& after.shared_monitors@ == before.shared_monitors@.filter(is_not_exactly(alias@))
    &&& after.peers@.len() == before.peers@.len()
    &&& forall|k: int|
        0 <= k < before.peers@.len() ==> {
            &&& (#[trigger] after.peers@[k]).inputs@ == absorbed(
                before.peers@[k].inputs@,
                alias,
                primary,
            )
            &&& after.peers@[k] == (HostRoute { inputs: after.peers@[k].inputs, ..before.peers@[k] })
        }
    &&& notes_of(after.input_labels@) == notes_absorbed(
        notes_of(before.input_labels@),
        alias@,
        primary@,
        now_ms,
    )
    &&& after == (AppSettings {
        shared_monitors: after.shared_monitors,
        peers: after.peers,
        input_labels: after.input_labels,
        monitor_identity_links: after.monitor_identity_links,
        ..before
    })
}

/// Whether `after` is `before` with a claim about two identities recorded or
/// withdrawn, or that refused.
pub open spec fn is_link_set(
    locale: UiLocale,
    before: AppSettings,
    alias: MonitorFingerprint,
    key: Option<Seq<char>>,
    now_ms: u64,
    after: AppSettings,
    result: Result<(), String>,
) -> bool {
    let primary = claimed_primary(before, key);
    let unknown = key is Some && primary is None;
    let itself = primary matches Some(found) && found@ == alias@;
    match result {
        Err(message) => {
            &&& after == before
            &&& {
                ||| unknown && message@ == shared_monitor_missing(locale)
                ||| !unknown && itself && message@ == text_in(
                    locale,
                    "無法把螢幕合併到自己"@,
                    "A display cannot be merged into itself"@,
                )
            }
        },
        Ok(_) => {
            &&& !unknown && !itself
            &&& is_claim_recorded(
                before.monitor_identity_links@,
                alias,
                primary,
                now_ms,
                after.monitor_identity_links@,
            )
            &&& match primary {
                Some(found) => is_merged(before, alias, found, now_ms, after),
                None => after == (AppSettings {
                    monitor_identity_links: after.monitor_identity_links,
                    ..before
                }),
            }
        },
    }
}

/// Declares that the display `alias` is the same physical display as the
/// shared display `primary_id`, or withdraws that claim when `primary_id` is
/// `None`.
///
/// Some displays publish a different EDID product code per display mode, which
/// reads as a different display on every host at once. Only the user can say
/// the two are one panel, so this records that claim and folds the absorbed
/// display's own settings into the one it joins. Switching still demands an
/// exact fingerprint match against a display present right now, so a claim
/// never widens what may be written to.
pub fn set_monitor_identity_link(
    locale: UiLocale,
    settings: &mut AppSettings,
    alias: &MonitorFingerprint,
    primary_id: Option<&str>,
    now_ms: u64,
) -> (result: Result<(), String>)
    ensures
        is_link_set(
            locale,
            *old(settings),
            *alias,
            crate::network::optional_view(primary_id),
            now_ms,
            *final(settings),
            result,
        ),
{
    let primary: Option<MonitorFingerprint> = match primary_id {
        Some(id) => match find_shared_monitor(locale, settings, id) {
            Ok(selected) => Some(selected.fingerprint.clone()),
            Err(message) => return Err(message),
        },
        None => None,
    };
    if let Some(found) = &primary {
        if found.matches_exactly(alias) {
            return Err(
                ui_text(
                    locale,
                    "無法把螢幕合併到自己",
                    "A display cannot be merged into itself",
                ).to_owned(),
            );
        }
    }
    settings.monitor_identity_links = with_link(
        &settings.monitor_identity_links,
        alias,
        primary.as_ref(),
        now_ms,
    );
    if let Some(found) = &primary {
        adopt_alias_settings(settings, alias, found, now_ms);
        let ghost monitors = settings.shared_monitors@;
        let ghost keep = is_not_exactly(alias@);
        let mut rest: Vec<SelectedMonitor> = Vec::new();
        rest.append(&mut settings.shared_monitors);
        assert(rest@ =~= monitors);
        let mut kept: Vec<SelectedMonitor> = Vec::new();
        let ghost mut done: int = 0;
        while rest.len() > 0
            invariant
                keep == is_not_exactly(alias@),
                0 <= done <= monitors.len(),
                rest@ == monitors.skip(done),
                kept@ == monitors.take(done).filter(keep),
            decreases rest@.len(),
        {
            let selected = rest.remove(0);
            proof {
                assert(selected == monitors[done]);
                assert(rest@ =~= monitors.skip(done + 1));
                assert(monitors.take(done + 1).drop_last() =~= monitors.take(done));
                reveal(Seq::filter);
                done = done + 1;
            }
            if !selected.fingerprint.matches_exactly(alias) {
                kept.push(selected);
            }
        }
        assert(monitors.take(done) =~= monitors);
        settings.shared_monitors = kept;
    }
    Ok(())
}

/// Whether a response is what a host that sent a notice is answered.
pub open spec fn is_notice_answer(
    locale: UiLocale,
    applied: Result<(), String>,
    response: AgentResponse,
) -> bool {
    &&& response.ready == (applied is Ok)
    &&& match applied {
        Ok(_) => response.message@ == text_in(locale, "已同步設定"@, "Settings synced"@),
        Err(message) => response.message == message,
    }
    &&& response.protocol_version == AGENT_PROTOCOL_VERSION
    &&& response.is_bare()
}

/// What a host that sent a notice is answered.
pub fn agent_notice_response(locale: UiLocale, applied: Result<(), String>) -> (response:
    AgentResponse)
    ensures
        is_notice_answer(locale, applied, response),
{
    match applied {
        Ok(_) => bare_response(
            true,
            ui_text(locale, "已同步設定", "Settings synced").to_owned(),
            AGENT_PROTOCOL_VERSION,
        ),
        Err(message) => bare_response(false, message, AGENT_PROTOCOL_VERSION),
    }
}

/// The inputs that this computer is plugged into, as a paired host is told: one
/// for each shared display whose input is known, vouched for where the display
/// shows this computer.
pub open spec fn own_routes(monitors: Seq<SelectedMonitor>) -> Seq<AgentDisplayRoute>
    decreases monitors.len(),
{
    if monitors.len() == 0 {
        seq![]
    } else {
        let before = own_routes(monitors.drop_last());
        let selected = monitors.last();
        match selected.local_input {
            Some(input) => before.push(
                AgentDisplayRoute {
                    monitor: selected.fingerprint,
                    input,
                    confirmed: selected.shown_route() == "local"@,
                },
            ),
            None => before,
        }
    }
}

fn local_routes(monitors: &Vec<SelectedMonitor>) -> (routes: Vec<AgentDisplayRoute>)
    ensures
        routes@ == own_routes(monitors@),
{
    let mut routes: Vec<AgentDisplayRoute> = Vec::new();
    let mut i: usize = 0;
    while i < monitors.len()
        invariant
            i <= monitors@.len(),
            routes@ == own_routes(monitors@.take(i as int)),
        decreases monitors@.len() - i,
    {
        assert(monitors@.take(i + 1).drop_last() =~= monitors@.take(i as int));
        assert(monitors@.take(i + 1).last() == monitors@[i as int]);
        if let Some(input) = monitors[i].local_input {
            routes.push(
                AgentDisplayRoute {
                    monitor: monitors[i].fingerprint.clone(),
                    input,
                    confirmed: shows_this_host(&monitors[i]),
                },
            );
        }
        i += 1;
    }
    assert(monitors@.take(monitors@.len() as int) =~= monitors@);
    routes
}

/// Whether a response is what a paired host that asks is answered.
pub open spec fn is_ping_answer(
    locale: UiLocale,
    settings: Option<AppSettings>,
    response: AgentResponse,
) -> bool {
    &&& response.ready
    &&& response.message@ == text_in(
        locale,
        "DisplayMux Agent 已就緒"@,
        "DisplayMux Agent is ready"@,
    )
    &&& response.protocol_version == AGENT_PROTOCOL_VERSION
    &&& match settings {
        None => response.is_bare(),
        Some(found) => {
            &&& response.display_routes@ == own_routes(found.shared_monitors@)
            &&& response.display_route == if own_routes(found.shared_monitors@).len() > 0 {
                Some(own_routes(found.shared_monitors@)[0])
            } else {
                None
            }
            &&& response.host_order@ == found.host_order@
            &&& response.host_order_updated_at_ms == found.host_order_updated_at_ms
            &&& response.host_aliases@ == newest(
                found.host_aliases@,
                MAX_SHARED_ALIASES as int,
            )
            &&& response.input_labels@ == newest(found.input_labels@, MAX_SHARED_LABELS as int)
            &&& response.monitor_identity_links@ == found.monitor_identity_links@
        },
    }
}

/// What a paired host that asks is answered: the inputs of this computer and
/// everything that hosts share. Without settings, only that this computer is
/// there.
pub fn ping_response(locale: UiLocale, settings: Option<&AppSettings>) -> (response: AgentResponse)
    ensures
        is_ping_answer(locale, settings_of(settings), response),
{
    let message = ui_text(
        locale,
        "DisplayMux Agent 已就緒",
        "DisplayMux Agent is ready",
    ).to_owned();
    let mut response = bare_response(true, message, AGENT_PROTOCOL_VERSION);
    if let Some(found) = settings {
        response.display_routes = local_routes(&found.shared_monitors);
        if response.display_routes.len() > 0 {
            response.display_route = Some(response.display_routes[0].clone());
        }
        response.host_order = copy_texts(&found.host_order);
        response.host_order_updated_at_ms = found.host_order_updated_at_ms;
        response.host_aliases = shareable_aliases(&found.host_aliases);
        response.input_labels = shareable_labels(&found.input_labels);
        response.monitor_identity_links = copy_entries(&found.monitor_identity_links);
    }
    response
}

/// The display that a paired host asks to switch.
#[derive(Debug, PartialEq, Eq)]
pub struct SwitchTarget {
    pub identities: Vec<MonitorFingerprint>,
    pub vendor_indexed: bool,
}

/// The shared display that a request to switch means: the one it names or,
/// where it names none, the only one shared.
pub open spec fn requested_display(
    settings: AppSettings,
    monitor: Option<MonitorFingerprint>,
) -> Option<int> {
    match monitor {
        Some(requested) => display_meant(
            settings.shared_monitors@,
            settings.monitor_identity_links@,
            requested,
        ),
        None => if settings.shared_monitors@.len() == 1 {
            Some(0)
        } else {
            None
        },
    }
}

/// What is said where a request to switch means no display.
pub open spec fn unresolved_text(
    locale: UiLocale,
    settings: Option<AppSettings>,
    monitor: Option<MonitorFingerprint>,
) -> Seq<char> {
    match settings {
        None => text_in(
            locale,
            "無法讀取這台主機的設定"@,
            "Unable to read this host's settings"@,
        ),
        Some(found) => if monitor is Some {
            text_in(
                locale,
                "找不到指定的共用螢幕，請確認雙方設定一致"@,
                "The requested shared display was not found; confirm both hosts' selections match"@,
            )
        } else if found.shared_monitors@.len() == 0 {
            text_in(
                locale,
                "這台主機尚未選擇共用螢幕"@,
                "No shared display is selected on this host"@,
            )
        } else {
            text_in(
                locale,
                "配對主機切換到了多台共用螢幕，請將這台電腦更新到最新版本"@,
                "The paired host is now managing multiple shared displays; update this computer to the latest version."@,
            )
        },
    }
}

/// The settings, where they could be read.
pub open spec fn settings_of(settings: Option<&AppSettings>) -> Option<AppSettings> {
    match settings {
        Some(found) => Some(*found),
        None => None,
    }
}

/// Whether `result` is what a request to switch comes to: the display that it
/// means, or the answer where it means none.
pub open spec fn is_request_resolved(
    locale: UiLocale,
    settings: Option<AppSettings>,
    monitor: Option<MonitorFingerprint>,
    result: Result<SwitchTarget, AgentResponse>,
) -> bool {
    let found = settings->0;
    match result {
        Ok(target) => {
            &&& settings is Some
            &&& requested_display(found, monitor) is Some
            &&& {
                let selected = found.shared_monitors@[requested_display(
                    found,
                    monitor,
                )->0];
                &&& target.identities@ == identities_of(
                    found.monitor_identity_links@,
                    selected.fingerprint,
                )
                &&& target.vendor_indexed == selected.vendor_indexed_inputs
            }
        },
        Err(response) => {
            &&& settings is None || requested_display(found, monitor) is None
            &&& !response.ready
            &&& response.message@ == unresolved_text(locale, settings, monitor)
            &&& response.protocol_version == AGENT_PROTOCOL_VERSION
            &&& response.is_bare()
        },
    }
}

/// The display that a request to switch means, or the answer where it means
/// none. Never guesses between several.
pub fn resolve_switch_request(
    locale: UiLocale,
    settings: Option<&AppSettings>,
    monitor: &Option<MonitorFingerprint>,
) -> (result: Result<SwitchTarget, AgentResponse>)
    ensures
        is_request_resolved(locale, settings_of(settings), *monitor, result),
{
    let found = match settings {
        Some(found) => found,
        None => {
            return Err(
                bare_response(
                    false,
                    ui_text(
                        locale,
                        "無法讀取這台主機的設定",
                        "Unable to read this host's settings",
                    ).to_owned(),
                    AGENT_PROTOCOL_VERSION,
                ),
            );
        },
    };
    let index: usize = match monitor {
        Some(requested) => match shared_monitor_index_for_peer(
            &found.shared_monitors,
            &found.monitor_identity_links,
            requested,
        ) {
            Some(index) => index,
            None => {
                return Err(
                    bare_response(
                        false,
                        ui_text(
                            locale,
                            "找不到指定的共用螢幕，請確認雙方設定一致",
                            "The requested shared display was not found; confirm both hosts' selections match",
                        ).to_owned(),
                        AGENT_PROTOCOL_VERSION,
                    ),
                );
            },
        },
        None => {
            if found.shared_monitors.len() == 0 {
                return Err(
                    bare_response(
                        false,
                        ui_text(
                            locale,
                            "這台主機尚未選擇共用螢幕",
                            "No shared display is selected on this host",
                        ).to_owned(),
                        AGENT_PROTOCOL_VERSION,
                    ),
                );
            }
            if found.shared_monitors.len() > 1 {
                return Err(
                    bare_response(
                        false,
                        ui_text(
                            locale,
                            "配對主機切換到了多台共用螢幕，請將這台電腦更新到最新版本",
                            "The paired host is now managing multiple shared displays; update this computer to the latest version.",
                        ).to_owned(),
                        AGENT_PROTOCOL_VERSION,
                    ),
                );
            }
            0
        },
    };
    let selected = &found.shared_monitors[index];
    Ok(
        SwitchTarget {
            identities: identities_for(&found.monitor_identity_links, &selected.fingerprint),
            vendor_indexed: selected.vendor_indexed_inputs,
        },
    )
}

/// Whether a response is what a paired host is answered that asked for a switch.
pub open spec fn is_switch_answer(
    locale: UiLocale,
    vendor_indexed: bool,
    input: DisplayInput,
    outcome: Result<Result<SwitchOutcome, DisplayMuxError>, String>,
    response: AgentResponse,
) -> bool {
    &&& response.ready == (outcome matches Ok(Ok(_)))
    &&& response.message@ == match outcome {
        Ok(Ok(_)) => text_in(
            locale,
            "遠端主機已切換至 "@,
            "The remote host switched to "@,
        ) + input_label_of(locale, vendor_indexed, input),
        Ok(Err(error)) => error.message(locale == UiLocale::TraditionalChinese),
        Err(detail) => text_in(
            locale,
            "切換工作無法執行："@,
            "The switching task could not run: "@,
        ) + detail@,
    }
    &&& response.protocol_version == AGENT_PROTOCOL_VERSION
    &&& response.is_bare()
}

/// What a paired host is answered that asked for a switch, by what it came to;
/// the outer failure is that it could not be tried.
pub fn switch_response(
    locale: UiLocale,
    vendor_indexed: bool,
    input: DisplayInput,
    outcome: Result<Result<SwitchOutcome, DisplayMuxError>, String>,
) -> (response: AgentResponse)
    ensures
        is_switch_answer(locale, vendor_indexed, input, outcome, response),
{
    let (ready, message) = match outcome {
        Ok(Ok(_)) => (
            true,
            join2(
                ui_text(locale, "遠端主機已切換至 ", "The remote host switched to "),
                &input_label(locale, vendor_indexed, input),
            ),
        ),
        Ok(Err(error)) => (false, core_user_error(locale, &error)),
        Err(detail) => (
            false,
            join2(
                ui_text(
                    locale,
                    "切換工作無法執行：",
                    "The switching task could not run: ",
                ),
                &detail,
            ),
        ),
    };
    bare_response(ready, message, AGENT_PROTOCOL_VERSION)
}

/// The part of the settings that a notice changed, so that windows read it
/// anew.
#[derive(Clone, Copy, Debug, PartialEq, Eq, Structural)]
pub enum NoticeEffect {
    Nothing,
    ActiveRoute,
    HostOrder,
    HostNames,
    InputLabels,
    MonitorIdentities,
    PeerInputs,
}

/// Whether `after` is `before` once a notice of a paired host was taken in, with
/// `effect`.
pub open spec fn is_notice_applied(
    before: AppSettings,
    action: AgentAction,
    now_ms: u64,
    after: AppSettings,
    effect: NoticeEffect,
) -> bool {
    &&& effect == NoticeEffect::Nothing && !(action is ActiveInputChanged) ==> after
        == before
    &&& effect == NoticeEffect::Nothing ==> after.shared_monitors@
        == before.shared_monitors@
    &&& match action {
        AgentAction::HostOrderChanged { order, updated_at_ms } => if is_newer_order(
            before,
            order@,
            updated_at_ms,
        ) {
            &&& effect == NoticeEffect::HostOrder
            &&& after == (AppSettings {
                host_order: order,
                host_order_updated_at_ms: updated_at_ms,
                ..before
            })
        } else {
            effect == NoticeEffect::Nothing
        },
        AgentAction::HostAliasesChanged { aliases } => {
            let merged = adopt_all(before.host_aliases@, aliases@);
            if aliases@.len() <= MAX_SHARED_ALIASES && merged != before.host_aliases@ {
                &&& effect == NoticeEffect::HostNames
                &&& after.host_aliases@ == merged
                &&& after == (AppSettings {
                    host_aliases: after.host_aliases,
                    ..before
                })
            } else {
                effect == NoticeEffect::Nothing
            }
        },
        AgentAction::InputLabelsChanged { labels } => {
            let merged = adopt_all(
                before.input_labels@,
                localized(before, labels@),
            );
            if labels@.len() <= MAX_SHARED_LABELS && merged != before.input_labels@ {
                &&& effect == NoticeEffect::InputLabels
                &&& after.input_labels@ == merged
                &&& after == (AppSettings {
                    input_labels: after.input_labels,
                    ..before
                })
            } else {
                effect == NoticeEffect::Nothing
            }
        },
        AgentAction::MonitorIdentitiesChanged { links } => {
            let merged = adopt_all(before.monitor_identity_links@, links@);
            if links@.len() <= MAX_SHARED_LINKS && merged
                != before.monitor_identity_links@ {
                &&& effect == NoticeEffect::MonitorIdentities
                &&& after.monitor_identity_links@ == merged
                &&& after == (AppSettings {
                    monitor_identity_links: after.monitor_identity_links,
                    ..before
                })
            } else {
                effect == NoticeEffect::Nothing
            }
        },
        AgentAction::LocalInputConfirmed { host_id, monitor, input } => {
            let route = AgentDisplayRoute { monitor, input, confirmed: true };
            &&& effect == if route_verdict(before, host_id@, route)
                == PeerRouteOutcome::Applied {
                NoticeEffect::PeerInputs
            } else {
                NoticeEffect::Nothing
            }
            &&& is_route_step(before, host_id@, route, after)
        },
        AgentAction::ActiveInputChanged { monitor, input } => {
            &&& after == (AppSettings {
                shared_monitors: after.shared_monitors,
                ..before
            })
            &&& exists|result: Option<bool>|
                {
                    &&& #[trigger] is_notice_taken(
                        before,
                        monitor,
                        input,
                        now_ms,
                        after.shared_monitors@,
                        result,
                    )
                    &&& effect == if result is Some {
                        NoticeEffect::ActiveRoute
                    } else {
                        NoticeEffect::Nothing
                    }
                }
        },
        AgentAction::Ping => effect == NoticeEffect::Nothing,
        AgentAction::SwitchInput { .. } => effect == NoticeEffect::Nothing,
    }
}

/// Takes a notice of a paired host into the settings. A paired host vouches for
/// the input it confirms, because the display was showing *it* when the input
/// was read. A recognized notice of the active input has an effect even when the
/// route already matches: it starts the settle period.
pub fn apply_notice(settings: &mut AppSettings, action: AgentAction, now_ms: u64) -> (effect:
    NoticeEffect)
    ensures
        is_notice_applied(*old(settings), action, now_ms, *final(settings), effect),
{
    match action {
        AgentAction::HostOrderChanged { order, updated_at_ms } => {
            if apply_host_order_notice(settings, order, updated_at_ms) {
                NoticeEffect::HostOrder
            } else {
                NoticeEffect::Nothing
            }
        },
        AgentAction::HostAliasesChanged { aliases } => {
            if adopt_host_aliases(settings, &aliases) {
                NoticeEffect::HostNames
            } else {
                NoticeEffect::Nothing
            }
        },
        AgentAction::InputLabelsChanged { labels } => {
            if adopt_input_labels(settings, &labels) {
                NoticeEffect::InputLabels
            } else {
                NoticeEffect::Nothing
            }
        },
        AgentAction::MonitorIdentitiesChanged { links } => {
            if adopt_monitor_identities(settings, &links) {
                NoticeEffect::MonitorIdentities
            } else {
                NoticeEffect::Nothing
            }
        },
        AgentAction::LocalInputConfirmed { host_id, monitor, input } => {
            let route = AgentDisplayRoute { monitor, input, confirmed: true };
            if apply_verified_peer_route(settings, &host_id, route) == PeerRouteOutcome::Applied {
                NoticeEffect::PeerInputs
            } else {
                NoticeEffect::Nothing
            }
        },
        AgentAction::ActiveInputChanged { monitor, input } => {
            let result = take_active_input_notice(settings, &monitor, input, now_ms);
            proof {
                a_recognized_notice_starts_the_settle_period(
                    *old(settings),
                    monitor,
                    input,
                    now_ms,
                    settings.shared_monitors@,
                    result,
                );
            }
            if result.is_some() {
                NoticeEffect::ActiveRoute
            } else {
                NoticeEffect::Nothing
            }
        },
        AgentAction::Ping => NoticeEffect::Nothing,
        AgentAction::SwitchInput { .. } => NoticeEffect::Nothing,
    }
}

/// An input that was announced, under the key of its display.
#[derive(Debug, PartialEq, Eq)]
pub struct AnnouncedInput {
    pub key: String,
    pub input: DisplayInput,
}

/// The input last announced to paired hosts for each shared display, so that a
/// repeating scan announces a value only once.
#[derive(Debug)]
pub struct AnnouncedInputs {
    pub entries: Vec<AnnouncedInput>,
}

/// Entries under a key.
pub open spec fn is_under(key: Seq<char>) -> spec_fn(AnnouncedInput) -> bool {
    |entry: AnnouncedInput| entry.key@ == key
}

/// The input last announced under a key.
pub open spec fn announced_under(entries: Seq<AnnouncedInput>, key: Seq<char>) -> Option<
    DisplayInput,
> {
    let i = first_at(entries, is_under(key));
    if i < entries.len() {
        Some(entries[i].input)
    } else {
        None
    }
}

/// Whether `after` is `before` once `input` was announced under `key`.
pub open spec fn is_announcement(
    before: Seq<AnnouncedInput>,
    key: Seq<char>,
    input: DisplayInput,
    after: Seq<AnnouncedInput>,
) -> bool {
    let i = first_at(before, is_under(key));
    if i < before.len() {
        after == before.update(i, AnnouncedInput { input, ..before[i] })
    } else {
        &&& after.len() == before.len() + 1
        &&& after.drop_last() == before
        &&& after.last().key@ == key
        &&& after.last().input == input
    }
}

/// Whether a display's input is to be announced: it shows this computer, its
/// input is known, and that is not what was announced last.
pub open spec fn is_news(entries: Seq<AnnouncedInput>, selected: SelectedMonitor) -> bool {
    &&& selected.shown_route() == "local"@
    &&& selected.local_input is Some
    &&& announced_under(entries, key_of(selected.fingerprint@)) != selected.local_input
}

/// Whether the announcements went through `states` as the displays were looked
/// at one after the other.
pub open spec fn are_announcements(
    states: Seq<Seq<AnnouncedInput>>,
    monitors: Seq<SelectedMonitor>,
) -> bool {
    &&& states.len() == monitors.len() + 1
    &&& forall|k: int|
        0 <= k < monitors.len() ==> if is_news(#[trigger] states[k], monitors[k]) {
            is_announcement(
                states[k],
                key_of(monitors[k].fingerprint@),
                monitors[k].local_input->0,
                states[k + 1],
            )
        } else {
            states[k + 1] == states[k]
        }
}

/// What is announced as the first `n` displays are looked at.
pub open spec fn announced_notices(
    states: Seq<Seq<AnnouncedInput>>,
    monitors: Seq<SelectedMonitor>,
    host_id: Seq<char>,
    n: int,
) -> Seq<Notice>
    decreases n,
{
    if n <= 0 {
        seq![]
    } else {
        let before = announced_notices(states, monitors, host_id, n - 1);
        if is_news(states[n - 1], monitors[n - 1]) {
            before.push(
                Notice::Confirmed {
                    host_id,
                    monitor: monitors[n - 1].fingerprint,
                    input: monitors[n - 1].local_input->0,
                },
            )
        } else {
            before
        }
    }
}

/// Whether `actions` announce the inputs that paired hosts are to be told, where
/// `before` was announced already and `after` is then.
pub open spec fn are_announced(
    before: Seq<AnnouncedInput>,
    settings: AppSettings,
    host_id: Seq<char>,
    after: Seq<AnnouncedInput>,
    actions: Seq<AgentAction>,
) -> bool {
    &&& host_id.len() == 0 ==> actions.len() == 0 && after == before
    &&& host_id.len() > 0 ==> exists|states: Seq<Seq<AnnouncedInput>>|
        {
            &&& #[trigger] are_announcements(states, settings.shared_monitors@)
            &&& states[0] == before
            &&& states.last() == after
            &&& notices_in(actions) == announced_notices(
                states,
                settings.shared_monitors@,
                host_id,
                settings.shared_monitors@.len() as int,
            )
        }
}

impl AnnouncedInputs {
    pub fn new() -> (announced: Self)
        ensures
            announced.entries@.len() == 0,
    {
        AnnouncedInputs { entries: Vec::new() }
    }

    fn index_of(&self, key: &str) -> (found: Option<usize>)
        ensures
            match found {
                Some(i) => i == first_at(self.entries@, is_under(key@)) && i < self.entries@.len(),
                None => first_at(self.entries@, is_under(key@)) == self.entries@.len(),
            },
    {
        let ghost wanted = is_under(key@);
        let mut i: usize = 0;
        while i < self.entries.len()
            invariant
                i <= self.entries@.len(),
                wanted == is_under(key@),
                forall|j: int| 0 <= j < i ==> !wanted(#[trigger] self.entries@[j]),
            decreases self.entries@.len() - i,
        {
            if same_text(&self.entries[i].key, key) {
                proof {
                    lemma_first_at_is(self.entries@, wanted, i as int);
                }
                return Some(i);
            }
            i += 1;
        }
        proof {
            lemma_first_at_is(self.entries@, wanted, i as int);
        }
        None
    }

    /// Which inputs paired hosts are to be told, so that their settings fill
    /// themselves in: those of the displays that show this computer, where the
    /// value changed since it was last announced. Nothing while this computer
    /// has no id.
    pub fn announce_confirmed_local_inputs(&mut self, settings: &AppSettings, host_id: &str) -> (actions:
        Vec<AgentAction>)
        ensures
            host_id@.len() == 0 ==> *final(self) == *old(self),
            are_announced(old(self).entries@, *settings, host_id@, final(self).entries@, actions@),
    {
        let mut actions: Vec<AgentAction> = Vec::new();
        if host_id.is_empty() {
            return actions;
        }
        let monitors = &settings.shared_monitors;
        let ghost mut states: Seq<Seq<AnnouncedInput>> = seq![self.entries@];
        assert(notices_in(actions@) =~= seq![]);
        let mut k: usize = 0;
        while k < monitors.len()
            invariant
                k <= monitors@.len(),
                states.len() == k + 1,
                states[0] == old(self).entries@,
                states.last() == self.entries@,
                forall|j: int|
                    0 <= j < k ==> if is_news(#[trigger] states[j], monitors@[j]) {
                        is_announcement(
                            states[j],
                            key_of(monitors@[j].fingerprint@),
                            monitors@[j].local_input->0,
                            states[j + 1],
                        )
                    } else {
                        states[j + 1] == states[j]
                    },
                notices_in(actions@) == announced_notices(states, monitors@, host_id@, k as int),
            decreases monitors@.len() - k,
        {
            let selected = &monitors[k];
            let ghost before = self.entries@;
            let ghost told = notices_in(actions@);
            let ghost had = states;
            let key = monitor_key(&selected.fingerprint);
            let at = self.index_of(&key);
            let announced = match at {
                Some(i) => Some(self.entries[i].input),
                None => None,
            };
            if shows_this_host(selected) && selected.local_input.is_some() && announced
                != selected.local_input {
                let input = selected.local_input.unwrap();
                match at {
                    Some(i) => {
                        let entry = &mut self.entries[i];
                        entry.input = input;
                        assert(self.entries@ =~= before.update(
                            i as int,
                            AnnouncedInput { input, ..before[i as int] },
                        ));
                    },
                    None => {
                        self.entries.push(AnnouncedInput { key, input });
                        assert(self.entries@.drop_last() =~= before);
                    },
                }
                actions.push(
                    AgentAction::LocalInputConfirmed {
                        host_id: host_id.to_owned(),
                        monitor: selected.fingerprint.clone(),
                        input,
                    },
                );
                assert(notices_in(actions@) =~= told.push(
                    Notice::Confirmed {
                        host_id: host_id@,
                        monitor: selected.fingerprint,
                        input,
                    },
                ));
            }
            proof {
                states = states.push(self.entries@);
                assert forall|j: int| 0 <= j < k + 1 implies if is_news(
                    #[trigger] states[j],
                    monitors@[j],
                ) {
                    is_announcement(
                        states[j],
                        key_of(monitors@[j].fingerprint@),
                        monitors@[j].local_input->0,
                        states[j + 1],
                    )
                } else {
                    states[j + 1] == states[j]
                } by {
                    assert(states[j] == had[j]);
                    if j < k {
                        assert(states[j + 1] == had[j + 1]);
                    }
                }
                lemma_announced_prefix(had, states, monitors@, host_id@, k as int);
                assert(states[k as int] == before);
            }
            k += 1;
        }
        assert(are_announcements(states, settings.shared_monitors@));
        actions
    }
}

proof fn lemma_announced_prefix(
    shorter: Seq<Seq<AnnouncedInput>>,
    longer: Seq<Seq<AnnouncedInput>>,
    monitors: Seq<SelectedMonitor>,
    host_id: Seq<char>,
    n: int,
)
    requires
        n <= shorter.len() <= longer.len(),
        forall|j: int| 0 <= j < shorter.len() ==> #[trigger] shorter[j] == longer[j],
    ensures
        announced_notices(shorter, monitors, host_id, n) == announced_notices(
            longer,
            monitors,
            host_id,
            n,
        ),
    decreases n,
{
    if n > 0 {
        lemma_announced_prefix(shorter, longer, monitors, host_id, n - 1);
        assert(shorter[n - 1] == longer[n - 1]);
    }
}

/// Once announced, an input is announced again only after it changed.
pub proof fn an_announced_input_is_no_news(
    before: Seq<AnnouncedInput>,
    selected: SelectedMonitor,
    after: Seq<AnnouncedInput>,
)
    requires
        is_news(before, selected),
        is_announcement(
            before,
            key_of(selected.fingerprint@),
            selected.local_input->0,
            after,
        ),
    ensures
        !is_news(after, selected),
{
    let key = key_of(selected.fingerprint@);
    let wanted = is_under(key);
    lemma_first_at(before, wanted);
    let i = first_at(before, wanted);
    if i < before.len() {
        assert forall|j: int| 0 <= j < i implies !wanted(#[trigger] after[j]) by {
            assert(after[j] == before[j]);
        }
        assert(wanted(before[i]));
        assert(wanted(after[i]));
        lemma_first_at_is(after, wanted, i);
    } else {
        assert forall|j: int| 0 <= j < before.len() implies !wanted(#[trigger] after[j]) by {
            assert(after[j] == after.drop_last()[j]);
            assert(after[j] == before[j]);
        }
        lemma_first_at_is(after, wanted, before.len() as int);
    }
}

/// Whether `key` is the pairing password to ask a new peer with.
pub open spec fn is_pairing_key(
    settings: AppSettings,
    given: Option<String>,
    key: Option<String>,
) -> bool {
    let chosen = match given {
        Some(text) if valid_key(text@) => text,
        _ => settings.shared_key,
    };
    key == if valid_key(chosen@) {
        Some(chosen)
    } else {
        None
    }
}

/// The pairing password to ask a new peer with: the one given, where it is long
/// enough, else the saved one, where that is.
pub fn pairing_key(settings: &AppSettings, given: Option<String>) -> (key: Option<String>)
    ensures
        is_pairing_key(*settings, given, key),
{
    if let Some(text) = given {
        if has_valid_shared_key(&text) {
            return Some(text);
        }
    }
    if has_valid_shared_key(&settings.shared_key) {
        Some(settings.shared_key.clone())
    } else {
        None
    }
}

} // verus!
