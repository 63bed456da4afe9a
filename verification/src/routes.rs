//! Which host uses which input of a shared display, and which host it shows.

use crate::agent::{AgentDisplayRoute, AgentResponse};
use crate::domain::{
    contains_input, DisplayInput, Identity, MonitorFingerprint, MonitorIdentityLink,
};
use crate::lists::{
    first_at, lemma_first_at, lemma_first_at_is, lemma_not_sole, lemma_sole_at, lemma_sole_at_is,
    sole_at, some_item,
};
use crate::locale::{input_label, input_label_of, text_in, ui_text, UiLocale};
use crate::monitor_identity::{aliases_among, identities_for};
use crate::settings::{
    common_input_sources, common_inputs, has_id, noted_input_label,
    noted_label_of, peer_index, selection_index, selects, setting_an_input_sets_that_display_only,
    with_input, AppSettings, HostRoute, SelectedMonitor,
};
use crate::text::{join4, join_all, joined, same_text, views};
use vstd::prelude::*;

verus! {

/// The identities of a selected display.
pub open spec fn identities_of(
    links: Seq<MonitorIdentityLink>,
    fingerprint: MonitorFingerprint,
) -> Seq<MonitorFingerprint> {
    seq![fingerprint] + aliases_among(links, links, fingerprint@)
}

/// Identities of the model of `remote`.
pub open spec fn of_model(remote: MonitorFingerprint) -> spec_fn(MonitorFingerprint) -> bool {
    |identity: MonitorFingerprint| identity.same_model(remote)
}

/// Selections one of whose identities is of the model of `remote`.
pub open spec fn has_model(
    links: Seq<MonitorIdentityLink>,
    remote: MonitorFingerprint,
) -> spec_fn(SelectedMonitor) -> bool {
    |selected: SelectedMonitor|
        some_item(identities_of(links, selected.fingerprint), of_model(remote))
}

/// Which shared display a paired host means by `remote`. Hosts read serial
/// numbers differently, so after an exact match fails the display is matched
/// by model, but only when a single shared display has that model.
pub open spec fn display_meant(
    monitors: Seq<SelectedMonitor>,
    links: Seq<MonitorIdentityLink>,
    remote: MonitorFingerprint,
) -> Option<int> {
    let exact = first_at(monitors, selects(links, remote@));
    if exact < monitors.len() {
        Some(exact)
    } else {
        sole_at(monitors, has_model(links, remote))
    }
}

fn has_identity_of_model(
    links: &[MonitorIdentityLink],
    selected: &SelectedMonitor,
    remote: &MonitorFingerprint,
) -> (yes: bool)
    ensures
        yes == has_model(links@, *remote)(*selected),
{
    let identities = identities_for(links, &selected.fingerprint);
    let ghost wanted = of_model(*remote);
    let mut i: usize = 0;
    while i < identities.len()
        invariant
            i <= identities@.len(),
            wanted == of_model(*remote),
            identities@ == identities_of(links@, selected.fingerprint),
            forall|j: int| 0 <= j < i ==> !wanted(#[trigger] identities@[j]),
        decreases identities@.len() - i,
    {
        if identities[i].is_same_model(remote) {
            proof {
                lemma_first_at_is(identities@, wanted, i as int);
            }
            return true;
        }
        i += 1;
    }
    proof {
        lemma_first_at_is(identities@, wanted, i as int);
    }
    false
}

/// Which shared display a paired host means by `remote`.
pub fn shared_monitor_index_for_peer(
    monitors: &[SelectedMonitor],
    links: &[MonitorIdentityLink],
    remote: &MonitorFingerprint,
) -> (found: Option<usize>)
    ensures
        match found {
            Some(i) => display_meant(monitors@, links@, *remote) == Some(i as int) && i
                < monitors@.len(),
            None => display_meant(monitors@, links@, *remote) is None,
        },
{
    // An identity the user merged into a shared display names that display, so
    // a paired host reading the same panel in another display mode still lands
    // on it rather than looking like a display we do not share.
    if let Some(exact) = selection_index(monitors, links, remote) {
        return Some(exact);
    }
    let ghost wanted = has_model(links@, *remote);
    let mut found: Option<usize> = None;
    let mut i: usize = 0;
    while i < monitors.len()
        invariant
            i <= monitors@.len(),
            wanted == has_model(links@, *remote),
            first_at(monitors@, selects(links@, remote@)) == monitors@.len(),
            match found {
                Some(n) => n < i && wanted(monitors@[n as int]) && forall|j: int|
                    0 <= j < i && j != n ==> !wanted(#[trigger] monitors@[j]),
                None => forall|j: int| 0 <= j < i ==> !wanted(#[trigger] monitors@[j]),
            },
        decreases monitors@.len() - i,
    {
        if has_identity_of_model(links, &monitors[i], remote) {
            if let Some(n) = found {
                proof {
                    lemma_not_sole(monitors@, wanted, n as int, i as int);
                }
                return None;
            }
            found = Some(i);
        }
        i += 1;
    }
    proof {
        match found {
            Some(n) => {
                lemma_sole_at_is(monitors@, wanted, n as int);
            },
            None => {
                lemma_first_at_is(monitors@, wanted, monitors@.len() as int);
            },
        }
    }
    found
}

/// Whether this host believes `selected` is currently showing it. An unset
/// `active_route` renders as this host everywhere else, so it counts as this
/// host here too - which is how a host that was never switched away sees
/// itself.
pub fn shows_this_host(selected: &SelectedMonitor) -> (yes: bool)
    ensures
        yes == (selected.shown_route() == "local"@),
{
    match &selected.active_route {
        Some(route) => same_text(route, "local"),
        None => true,
    }
}

/// What `apply_verified_peer_route` did with a route a paired host reported.
/// Every rejection carries its reason so the caller can say why a port stayed
/// empty instead of leaving the user with a blank field.
#[derive(Clone, Copy, Debug, PartialEq, Eq, Structural)]
pub enum PeerRouteOutcome {
    /// The reported input became the peer's assignment for that display.
    Applied,
    /// The peer was already assigned that input.
    Unchanged,
    /// The peer kept the input it already had, because it did not claim to be
    /// on screen and so cannot vouch for what it reported.
    Kept,
    /// The peer named a display this host does not share.
    UnknownMonitor,
    /// The display does not offer that input.
    Unsupported,
    /// This host or another paired host already uses that input.
    Taken,
    /// The peer is no longer in the saved list.
    UnknownPeer,
}

/// Whether a display offers an input: it is one of those it reported, or of the
/// common ones where it reported none.
pub open spec fn offers(selected: SelectedMonitor, input: DisplayInput) -> bool {
    match selected.supported_inputs {
        Some(inputs) => inputs@.contains(input),
        None => common_inputs().contains(input),
    }
}

fn is_offered(selected: &SelectedMonitor, input: DisplayInput) -> (yes: bool)
    ensures
        yes == offers(*selected, input),
{
    match &selected.supported_inputs {
        Some(inputs) => contains_input(inputs, input),
        None => {
            let common = common_input_sources();
            contains_input(&common, input)
        },
    }
}

/// Hosts other than `peer_id` that use `input` of a display.
pub open spec fn other_user(peer_id: Seq<char>, monitor: Identity, input: DisplayInput) -> spec_fn(
    HostRoute,
) -> bool {
    |peer: HostRoute| peer.id@ != peer_id && peer.input_on(monitor) == Some(input)
}

/// Whether this host or a host other than `peer_id` uses `input` of a display.
pub open spec fn is_taken(
    selected: SelectedMonitor,
    peers: Seq<HostRoute>,
    peer_id: Seq<char>,
    input: DisplayInput,
) -> bool {
    selected.local_input == Some(input) || some_item(
        peers,
        other_user(peer_id, selected.fingerprint@, input),
    )
}

fn is_input_taken(
    selected: &SelectedMonitor,
    peers: &Vec<HostRoute>,
    peer_id: &str,
    input: DisplayInput,
) -> (taken: bool)
    ensures
        taken == is_taken(*selected, peers@, peer_id@, input),
{
    if selected.local_input == Some(input) {
        return true;
    }
    let ghost wanted = other_user(peer_id@, selected.fingerprint@, input);
    let mut i: usize = 0;
    while i < peers.len()
        invariant
            i <= peers@.len(),
            selected.local_input != Some(input),
            wanted == other_user(peer_id@, selected.fingerprint@, input),
            forall|j: int| 0 <= j < i ==> !wanted(#[trigger] peers@[j]),
        decreases peers@.len() - i,
    {
        if !same_text(&peers[i].id, peer_id) && peers[i].input_for(&selected.fingerprint) == Some(
            input,
        ) {
            proof {
                lemma_first_at_is(peers@, wanted, i as int);
            }
            return true;
        }
        i += 1;
    }
    proof {
        lemma_first_at_is(peers@, wanted, i as int);
    }
    false
}

/// What becomes of a reported route.
///
/// A reading the peer cannot vouch for never overwrites an input that is
/// already set: DDC reports the input a display is showing, not the port the
/// reader occupies, so a host that is off screen reads whoever is on screen.
pub open spec fn route_verdict(
    settings: AppSettings,
    peer_id: Seq<char>,
    route: AgentDisplayRoute,
) -> PeerRouteOutcome {
    match display_meant(
        settings.shared_monitors@,
        settings.monitor_identity_links@,
        route.monitor,
    ) {
        None => PeerRouteOutcome::UnknownMonitor,
        Some(i) => {
            let selected = settings.shared_monitors@[i];
            let p = first_at(settings.peers@, has_id(peer_id));
            let existing = settings.peers@[p].input_on(selected.fingerprint@);
            if !offers(selected, route.input) {
                PeerRouteOutcome::Unsupported
            } else if p == settings.peers@.len() {
                PeerRouteOutcome::UnknownPeer
            } else if existing == Some(route.input) {
                PeerRouteOutcome::Unchanged
            } else if existing is Some && !route.confirmed {
                PeerRouteOutcome::Kept
            } else if is_taken(selected, settings.peers@, peer_id, route.input) {
                PeerRouteOutcome::Taken
            } else {
                PeerRouteOutcome::Applied
            }
        },
    }
}

/// Whether `after` is `before` once a reported route was looked at: only an
/// applied route changes anything, and only the input of that host on that
/// display.
pub open spec fn is_route_step(
    before: AppSettings,
    peer_id: Seq<char>,
    route: AgentDisplayRoute,
    after: AppSettings,
) -> bool {
    if route_verdict(before, peer_id, route) == PeerRouteOutcome::Applied {
        let i = display_meant(
            before.shared_monitors@,
            before.monitor_identity_links@,
            route.monitor,
        )->0;
        let p = first_at(before.peers@, has_id(peer_id));
        &&& 0 <= p < before.peers@.len()
        &&& after.peers@ == before.peers@.update(p, after.peers@[p])
        &&& after.peers@[p] == (HostRoute { inputs: after.peers@[p].inputs, ..before.peers@[p] })
        &&& after.peers@[p].inputs@ == with_input(
            before.peers@[p].inputs@,
            before.shared_monitors@[i].fingerprint,
            Some(route.input),
        )
        &&& after == (AppSettings { peers: after.peers, ..before })
    } else {
        after == before
    }
}

/// Adopts the input a paired host reported for one shared display.
pub fn apply_verified_peer_route(
    settings: &mut AppSettings,
    peer_id: &str,
    route: AgentDisplayRoute,
) -> (outcome: PeerRouteOutcome)
    ensures
        outcome == route_verdict(*old(settings), peer_id@, route),
        is_route_step(*old(settings), peer_id@, route, *final(settings)),
{
    proof {
        lemma_first_at(settings.peers@, has_id(peer_id@));
    }
    let index = match shared_monitor_index_for_peer(
        &settings.shared_monitors,
        &settings.monitor_identity_links,
        &route.monitor,
    ) {
        Some(index) => index,
        None => return PeerRouteOutcome::UnknownMonitor,
    };
    if !is_offered(&settings.shared_monitors[index], route.input) {
        return PeerRouteOutcome::Unsupported;
    }
    let at = match peer_index(&settings.peers, peer_id) {
        Some(at) => at,
        None => return PeerRouteOutcome::UnknownPeer,
    };
    let fingerprint = settings.shared_monitors[index].fingerprint.clone();
    let existing = settings.peers[at].input_for(&fingerprint);
    if existing == Some(route.input) {
        return PeerRouteOutcome::Unchanged;
    }
    if existing.is_some() && !route.confirmed {
        return PeerRouteOutcome::Kept;
    }
    if is_input_taken(&settings.shared_monitors[index], &settings.peers, peer_id, route.input) {
        return PeerRouteOutcome::Taken;
    }
    let ghost before = settings.peers@;
    let peer = &mut settings.peers[at];
    peer.set_input_for(&fingerprint, Some(route.input));
    assert(settings.peers@ =~= before.update(at as int, settings.peers@[at as int]));
    PeerRouteOutcome::Applied
}

/// A reading that the peer does not vouch for never takes the place of an input
/// that is already set.
pub proof fn an_unconfirmed_reading_never_overwrites(
    settings: AppSettings,
    peer_id: Seq<char>,
    route: AgentDisplayRoute,
    i: int,
)
    requires
        display_meant(
            settings.shared_monitors@,
            settings.monitor_identity_links@,
            route.monitor,
        ) == Some(i),
        !route.confirmed,
        first_at(settings.peers@, has_id(peer_id)) < settings.peers@.len(),
        settings.peers@[first_at(settings.peers@, has_id(peer_id))].input_on(
            settings.shared_monitors@[i].fingerprint@,
        ) is Some,
    ensures
        route_verdict(settings, peer_id, route) != PeerRouteOutcome::Applied,
{
}

/// Whether no two hosts use one input of a display, this host among them.
pub open spec fn ports_are_distinct(
    local_input: Option<DisplayInput>,
    peers: Seq<HostRoute>,
    monitor: Identity,
) -> bool {
    &&& forall|k: int|
        0 <= k < peers.len() && (#[trigger] peers[k]).input_on(monitor) is Some
            ==> peers[k].input_on(monitor) != local_input
    &&& forall|k: int, l: int|
        #![trigger peers[k], peers[l]]
        0 <= k < l < peers.len() && peers[k].input_on(monitor) is Some ==> peers[k].input_on(
            monitor,
        ) != peers[l].input_on(monitor)
}

/// Adopting a reported route never makes two hosts use one input of a display.
pub proof fn adopting_a_route_keeps_ports_distinct(
    before: AppSettings,
    peer_id: Seq<char>,
    route: AgentDisplayRoute,
    after: AppSettings,
    k: int,
)
    requires
        is_route_step(before, peer_id, route, after),
        forall|i: int, j: int|
            0 <= i < j < before.peers@.len() ==> (#[trigger] before.peers@[i]).id@ != (
            #[trigger] before.peers@[j]).id@,
        0 <= k < before.shared_monitors@.len(),
        ports_are_distinct(
            before.shared_monitors@[k].local_input,
            before.peers@,
            before.shared_monitors@[k].fingerprint@,
        ),
        forall|j: int|
            0 <= j < before.shared_monitors@.len() && j != k ==> (
            #[trigger] before.shared_monitors@[j]).fingerprint@
                != before.shared_monitors@[k].fingerprint@,
    ensures
        ports_are_distinct(
            after.shared_monitors@[k].local_input,
            after.peers@,
            after.shared_monitors@[k].fingerprint@,
        ),
{
    if route_verdict(before, peer_id, route) == PeerRouteOutcome::Applied {
        let i = display_meant(
            before.shared_monitors@,
            before.monitor_identity_links@,
            route.monitor,
        )->0;
        crate::lists::lemma_sole_at(
            before.shared_monitors@,
            has_model(before.monitor_identity_links@, route.monitor),
        );
        lemma_first_at(
            before.shared_monitors@,
            selects(before.monitor_identity_links@, route.monitor@),
        );
        let p = first_at(before.peers@, has_id(peer_id));
        lemma_first_at(before.peers@, has_id(peer_id));
        let selected = before.shared_monitors@[i];
        let monitor = before.shared_monitors@[k].fingerprint@;
        setting_an_input_sets_that_display_only(
            before.peers@[p].inputs@,
            selected.fingerprint,
            Some(route.input),
            monitor,
        );
        let user = other_user(peer_id, selected.fingerprint@, route.input);
        lemma_first_at(before.peers@, user);
        assert forall|j: int| 0 <= j < before.peers@.len() && j != p implies after.peers@[j]
            == before.peers@[j] by {}
        if i == k {
            assert forall|j: int| 0 <= j < before.peers@.len() && j != p implies (
            #[trigger] before.peers@[j]).input_on(monitor) != Some(route.input) by {
                assert(!user(before.peers@[j]));
                assert(has_id(peer_id)(before.peers@[p]));
                if j < p {
                    assert(before.peers@[j].id@ != before.peers@[p].id@);
                } else {
                    assert(before.peers@[p].id@ != before.peers@[j].id@);
                }
            }
            assert(after.peers@[p].input_on(monitor) == Some(route.input));
        } else {
            assert(selected.fingerprint@ != monitor);
            assert(after.peers@[p].input_on(monitor) == before.peers@[p].input_on(monitor));
        }
        assert forall|x: int| 0 <= x < after.peers@.len() && (#[trigger] after.peers@[x]).input_on(
            monitor,
        ) is Some implies after.peers@[x].input_on(monitor)
            != before.shared_monitors@[k].local_input by {
            if x != p {
                assert(before.peers@[x].input_on(monitor) is Some);
            } else if i != k {
                assert(before.peers@[p].input_on(monitor) is Some);
            }
        }
        assert forall|x: int, y: int|
            #![trigger after.peers@[x], after.peers@[y]]
            0 <= x < y < after.peers@.len() && after.peers@[x].input_on(
                monitor,
            ) is Some implies after.peers@[x].input_on(monitor) != after.peers@[y].input_on(
            monitor,
        ) by {
            assert(before.peers@[x].input_on(monitor) is Some ==> before.peers@[x].input_on(monitor)
                != before.peers@[y].input_on(monitor));
        }
    }
}

/// A peer's `Ping` response may report one route or several; this always yields
/// the full set to apply.
pub open spec fn reported_routes(response: AgentResponse) -> Seq<AgentDisplayRoute> {
    if response.display_routes@.len() > 0 {
        response.display_routes@
    } else {
        match response.display_route {
            Some(route) => seq![route],
            None => seq![],
        }
    }
}

/// The routes that a response reports.
pub fn agent_display_routes(response: &AgentResponse) -> (routes: Vec<AgentDisplayRoute>)
    ensures
        routes@ == reported_routes(*response),
{
    let mut routes: Vec<AgentDisplayRoute> = Vec::new();
    if response.display_routes.len() > 0 {
        let all = &response.display_routes;
        let mut i: usize = 0;
        while i < all.len()
            invariant
                i <= all@.len(),
                routes@ == all@.take(i as int),
            decreases all@.len() - i,
        {
            routes.push(all[i].clone());
            assert(all@.take(i + 1) =~= all@.take(i as int).push(all@[i as int]));
            i += 1;
        }
        assert(all@.take(all@.len() as int) =~= all@);
    } else if let Some(route) = &response.display_route {
        routes.push(route.clone());
        assert(routes@ =~= seq![*route]);
    } else {
        assert(routes@ =~= seq![]);
    }
    routes
}

/// The outcome of adopting a paired host's reported inputs, phrased for a toast.
#[derive(Debug, PartialEq, Eq)]
pub struct RouteAdoption {
    pub detail: String,
    pub warning: bool,
    /// Whether the settings changed and are to be saved.
    pub applied: bool,
}

/// How the reported input is called: with the user's note where the display is
/// shared here.
pub open spec fn reported_label(
    locale: UiLocale,
    settings: AppSettings,
    route: AgentDisplayRoute,
) -> Seq<char> {
    match display_meant(
        settings.shared_monitors@,
        settings.monitor_identity_links@,
        route.monitor,
    ) {
        Some(i) => {
            let selected = settings.shared_monitors@[i];
            noted_label_of(
                locale,
                settings.input_labels@,
                selected.fingerprint@,
                selected.vendor_indexed_inputs,
                route.input,
            )
        },
        None => input_label_of(locale, false, route.input),
    }
}

/// How the display is called that a paired host reported on.
pub open spec fn reported_monitor(settings: AppSettings, route: AgentDisplayRoute) -> Seq<char> {
    match display_meant(
        settings.shared_monitors@,
        settings.monitor_identity_links@,
        route.monitor,
    ) {
        Some(i) => settings.shared_monitors@[i].name@,
        None => seq![],
    }
}

/// What is said of one reported route.
pub open spec fn outcome_note(
    locale: UiLocale,
    outcome: PeerRouteOutcome,
    monitor: Seq<char>,
    label: Seq<char>,
) -> Seq<char> {
    match (outcome, locale) {
        (PeerRouteOutcome::Applied, UiLocale::TraditionalChinese) => monitor + " 已帶入 "@ + label
            + "。"@,
        (PeerRouteOutcome::Applied, UiLocale::English) => monitor + " set to "@ + label + "."@,
        (PeerRouteOutcome::Unchanged, UiLocale::TraditionalChinese) => monitor + " 已經是 "@
            + label + "。"@,
        (PeerRouteOutcome::Unchanged, UiLocale::English) => monitor + " was already "@ + label
            + "."@,
        (PeerRouteOutcome::Kept, UiLocale::TraditionalChinese) => monitor + " 回報 "@ + label
            + "，但這台主機目前不在螢幕上，讀到的可能是別台，因此保留原本的設定。"@,
        (PeerRouteOutcome::Kept, UiLocale::English) => monitor + " reported "@ + label
            + ", but that host is not on screen so the reading may be another host's; the current setting was kept."@,
        (PeerRouteOutcome::UnknownMonitor, _) => text_in(
            locale,
            "這台主機回報了一台這裡沒有共用的螢幕。"@,
            "This host reported a display that is not shared here."@,
        ),
        (PeerRouteOutcome::Unsupported, UiLocale::TraditionalChinese) => monitor + " 沒有 "@
            + label + " 這個輸入。"@,
        (PeerRouteOutcome::Unsupported, UiLocale::English) => monitor + " has no "@ + label
            + " input."@,
        (PeerRouteOutcome::Taken, UiLocale::TraditionalChinese) => monitor + " 的 "@ + label
            + " 已指派給其他主機；請確認兩台主機接在不同的 Port，或先切換到這台主機再試一次。"@,
        (PeerRouteOutcome::Taken, UiLocale::English) => label + " on "@ + monitor
            + " is already assigned to another host. Check that the hosts use different ports, or switch to this host and retry."@,
        (PeerRouteOutcome::UnknownPeer, _) => text_in(
            locale,
            "這台主機已不在已加入的清單中。"@,
            "This host is no longer in the added list."@,
        ),
    }
}

fn note_for(locale: UiLocale, outcome: PeerRouteOutcome, monitor: &str, label: &str) -> (note: String)
    ensures
        note@ == outcome_note(locale, outcome, monitor@, label@),
{
    match (outcome, locale) {
        (PeerRouteOutcome::Applied, UiLocale::TraditionalChinese) => join4(
            monitor,
            " 已帶入 ",
            label,
            "。",
        ),
        (PeerRouteOutcome::Applied, UiLocale::English) => join4(monitor, " set to ", label, "."),
        (PeerRouteOutcome::Unchanged, UiLocale::TraditionalChinese) => join4(
            monitor,
            " 已經是 ",
            label,
            "。",
        ),
        (PeerRouteOutcome::Unchanged, UiLocale::English) => join4(
            monitor,
            " was already ",
            label,
            ".",
        ),
        (PeerRouteOutcome::Kept, UiLocale::TraditionalChinese) => join4(
            monitor,
            " 回報 ",
            label,
            "，但這台主機目前不在螢幕上，讀到的可能是別台，因此保留原本的設定。",
        ),
        (PeerRouteOutcome::Kept, UiLocale::English) => join4(
            monitor,
            " reported ",
            label,
            ", but that host is not on screen so the reading may be another host's; the current setting was kept.",
        ),
        (PeerRouteOutcome::UnknownMonitor, _) => ui_text(
            locale,
            "這台主機回報了一台這裡沒有共用的螢幕。",
            "This host reported a display that is not shared here.",
        ).to_owned(),
        (PeerRouteOutcome::Unsupported, UiLocale::TraditionalChinese) => join4(
            monitor,
            " 沒有 ",
            label,
            " 這個輸入。",
        ),
        (PeerRouteOutcome::Unsupported, UiLocale::English) => join4(
            monitor,
            " has no ",
            label,
            " input.",
        ),
        (PeerRouteOutcome::Taken, UiLocale::TraditionalChinese) => join4(
            monitor,
            " 的 ",
            label,
            " 已指派給其他主機；請確認兩台主機接在不同的 Port，或先切換到這台主機再試一次。",
        ),
        (PeerRouteOutcome::Taken, UiLocale::English) => join4(
            label,
            " on ",
            monitor,
            " is already assigned to another host. Check that the hosts use different ports, or switch to this host and retry.",
        ),
        (PeerRouteOutcome::UnknownPeer, _) => ui_text(
            locale,
            "這台主機已不在已加入的清單中。",
            "This host is no longer in the added list.",
        ).to_owned(),
    }
}

/// Whether an outcome is nothing to warn about.
pub open spec fn is_fine(outcome: PeerRouteOutcome) -> bool {
    outcome == PeerRouteOutcome::Applied || outcome == PeerRouteOutcome::Unchanged
}

/// Whether the settings went through `states` as the routes were looked at one
/// after the other.
pub open spec fn went_through(
    states: Seq<AppSettings>,
    peer_id: Seq<char>,
    routes: Seq<AgentDisplayRoute>,
) -> bool {
    &&& states.len() == routes.len() + 1
    &&& forall|k: int|
        0 <= k < routes.len() ==> is_route_step(
            #[trigger] states[k],
            peer_id,
            routes[k],
            states[k + 1],
        )
}

/// What is said of a route, judged by the settings it met.
pub open spec fn route_note(
    locale: UiLocale,
    settings: AppSettings,
    peer_id: Seq<char>,
    route: AgentDisplayRoute,
) -> Seq<char> {
    outcome_note(
        locale,
        route_verdict(settings, peer_id, route),
        reported_monitor(settings, route),
        reported_label(locale, settings, route),
    )
}

/// What is said of the routes, each judged by the settings it met.
pub open spec fn notes_of(
    locale: UiLocale,
    states: Seq<AppSettings>,
    peer_id: Seq<char>,
    routes: Seq<AgentDisplayRoute>,
) -> Seq<Seq<char>> {
    Seq::new(
        routes.len(),
        |k: int| route_note(locale, states[k], peer_id, routes[k]),
    )
}

/// Whether an adoption, which began with `states[0]` and ended with the last of
/// them, says what happened.
pub open spec fn describes_adoption(
    adoption: RouteAdoption,
    locale: UiLocale,
    states: Seq<AppSettings>,
    peer_id: Seq<char>,
    routes: Seq<AgentDisplayRoute>,
) -> bool {
    if routes.len() == 0 {
        &&& adoption.warning
        &&& !adoption.applied
        &&& adoption.detail@ == text_in(
            locale,
            "Agent 已就緒，但這台主機沒有回報任何輸入值；請確認它也把同一台螢幕設為共用。"@,
            "The agent is ready, but this host reported no input. Check that it shares the same display."@,
        )
    } else {
        &&& adoption.detail@ == joined(notes_of(locale, states, peer_id, routes), " "@)
        &&& adoption.applied == some_applied(states, peer_id, routes)
        &&& adoption.warning == some_to_warn_of(states, peer_id, routes)
    }
}

/// Whether one of the routes was applied.
pub open spec fn some_applied(
    states: Seq<AppSettings>,
    peer_id: Seq<char>,
    routes: Seq<AgentDisplayRoute>,
) -> bool {
    exists|k: int|
        0 <= k < routes.len() && route_verdict(#[trigger] states[k], peer_id, routes[k])
            == PeerRouteOutcome::Applied
}

/// Whether one of the routes is something to warn about.
pub open spec fn some_to_warn_of(
    states: Seq<AppSettings>,
    peer_id: Seq<char>,
    routes: Seq<AgentDisplayRoute>,
) -> bool {
    exists|k: int|
        0 <= k < routes.len() && !is_fine(route_verdict(#[trigger] states[k], peer_id, routes[k]))
}

/// Whether the routes that were looked at so far came to this.
spec fn is_adoption_so_far(
    locale: UiLocale,
    states: Seq<AppSettings>,
    peer_id: Seq<char>,
    routes: Seq<AgentDisplayRoute>,
    notes: Seq<Seq<char>>,
    applied: bool,
    warning: bool,
) -> bool {
    &&& went_through(states, peer_id, routes)
    &&& notes == notes_of(locale, states, peer_id, routes)
    &&& applied == some_applied(states, peer_id, routes)
    &&& warning == some_to_warn_of(states, peer_id, routes)
}

/// One more route is one more step, one more note, and may be one more reason.
proof fn lemma_adoption_goes_on(
    locale: UiLocale,
    states: Seq<AppSettings>,
    peer_id: Seq<char>,
    routes: Seq<AgentDisplayRoute>,
    notes: Seq<Seq<char>>,
    applied: bool,
    warning: bool,
    route: AgentDisplayRoute,
    after: AppSettings,
)
    requires
        is_adoption_so_far(locale, states, peer_id, routes, notes, applied, warning),
        is_route_step(states.last(), peer_id, route, after),
    ensures
        ({
            let verdict = route_verdict(states.last(), peer_id, route);
            is_adoption_so_far(
                locale,
                states.push(after),
                peer_id,
                routes.push(route),
                notes.push(route_note(locale, states.last(), peer_id, route)),
                applied || verdict == PeerRouteOutcome::Applied,
                warning || !is_fine(verdict),
            )
        }),
{
    let n = routes.len() as int;
    let longer = states.push(after);
    let more = routes.push(route);
    assert(longer[n] == states.last() && more[n] == route);
    assert forall|k: int| 0 <= k < more.len() implies is_route_step(
        #[trigger] longer[k],
        peer_id,
        more[k],
        longer[k + 1],
    ) by {
        assert(longer[k] == states[k]);
        if k < n {
            assert(more[k] == routes[k] && longer[k + 1] == states[k + 1]);
        }
    }
    assert(notes.push(route_note(locale, states.last(), peer_id, route)) =~= notes_of(
        locale,
        longer,
        peer_id,
        more,
    )) by {
        assert forall|k: int| 0 <= k < n implies notes[k] == notes_of(
            locale,
            longer,
            peer_id,
            more,
        )[k] by {
            assert(longer[k] == states[k] && more[k] == routes[k]);
        }
    }
    assert forall|k: int| 0 <= k < n implies longer[k] == #[trigger] states[k] && more[k]
        == routes[k] by {}
    if applied {
        let k = choose|k: int|
            0 <= k < routes.len() && route_verdict(#[trigger] states[k], peer_id, routes[k])
                == PeerRouteOutcome::Applied;
        assert(longer[k] == states[k] && more[k] == routes[k]);
    }
    if warning {
        let k = choose|k: int|
            0 <= k < routes.len() && !is_fine(
                route_verdict(#[trigger] states[k], peer_id, routes[k]),
            );
        assert(longer[k] == states[k] && more[k] == routes[k]);
    }
    if some_applied(longer, peer_id, more) {
        let k = choose|k: int|
            0 <= k < more.len() && route_verdict(#[trigger] longer[k], peer_id, more[k])
                == PeerRouteOutcome::Applied;
        if k < n {
            assert(states[k] == longer[k]);
        }
    }
    if some_to_warn_of(longer, peer_id, more) {
        let k = choose|k: int|
            0 <= k < more.len() && !is_fine(route_verdict(#[trigger] longer[k], peer_id, more[k]));
        if k < n {
            assert(states[k] == longer[k]);
        }
    }
}

/// Applies one input that a paired host reported, and says what became of it.
fn report_route(
    locale: UiLocale,
    settings: &mut AppSettings,
    peer_id: &str,
    route: &AgentDisplayRoute,
) -> (report: (PeerRouteOutcome, String))
    ensures
        report.0 == route_verdict(*old(settings), peer_id@, *route),
        report.1@ == route_note(locale, *old(settings), peer_id@, *route),
        is_route_step(*old(settings), peer_id@, *route, *final(settings)),
{
    let (label, monitor) = match shared_monitor_index_for_peer(
        &settings.shared_monitors,
        &settings.monitor_identity_links,
        &route.monitor,
    ) {
        Some(index) => {
            let selected = &settings.shared_monitors[index];
            (noted_input_label(locale, settings, selected, route.input), selected.name.clone())
        },
        None => (input_label(locale, false, route.input), String::new()),
    };
    assert(label@ == reported_label(locale, *settings, *route));
    assert(monitor@ =~= reported_monitor(*settings, *route));
    let outcome = apply_verified_peer_route(settings, peer_id, route.clone());
    (outcome, note_for(locale, outcome, &monitor, &label))
}

/// Whether `after` is `before` once the inputs that a paired host reported were looked
/// at one after the other, and `adoption` says what became of them.
pub open spec fn are_routes_adopted(
    locale: UiLocale,
    before: AppSettings,
    peer_id: Seq<char>,
    response: AgentResponse,
    after: AppSettings,
    adoption: RouteAdoption,
) -> bool {
    exists|states: Seq<AppSettings>|
        {
            &&& #[trigger] went_through(states, peer_id, reported_routes(response))
            &&& states[0] == before
            &&& states.last() == after
            &&& describes_adoption(
                adoption,
                locale,
                states,
                peer_id,
                reported_routes(response),
            )
        }
}

/// Applies every input a paired host reported for the displays shared here,
/// and describes what happened. A port that cannot be filled in says why,
/// rather than leaving the user with a field that silently stays empty.
pub fn adopt_peer_routes(
    locale: UiLocale,
    settings: &mut AppSettings,
    peer_id: &str,
    response: &AgentResponse,
) -> (adoption: RouteAdoption)
    ensures
        are_routes_adopted(locale, *old(settings), peer_id@, *response, *final(settings), adoption),
{
    let routes = agent_display_routes(response);
    let ghost mut states: Seq<AppSettings> = seq![*settings];
    if routes.len() == 0 {
        assert(went_through(states, peer_id@, reported_routes(*response)));
        return RouteAdoption {
            detail: ui_text(
                locale,
                "Agent 已就緒，但這台主機沒有回報任何輸入值；請確認它也把同一台螢幕設為共用。",
                "The agent is ready, but this host reported no input. Check that it shares the same display.",
            ).to_owned(),
            warning: true,
            applied: false,
        };
    }
    let mut notes: Vec<String> = Vec::new();
    let mut applied: bool = false;
    let mut warning: bool = false;
    let mut i: usize = 0;
    assert(views(notes@) =~= notes_of(locale, states, peer_id@, routes@.take(0)));
    while i < routes.len()
        invariant
            i <= routes@.len(),
            states[0] == *old(settings),
            states.last() == *settings,
            is_adoption_so_far(
                locale,
                states,
                peer_id@,
                routes@.take(i as int),
                views(notes@),
                applied,
                warning,
            ),
        decreases routes@.len() - i,
    {
        let ghost said = views(notes@);
        let ghost route = routes@[i as int];
        let (outcome, note) = report_route(locale, settings, peer_id, &routes[i]);
        notes.push(note);
        proof {
            lemma_adoption_goes_on(
                locale,
                states,
                peer_id@,
                routes@.take(i as int),
                said,
                applied,
                warning,
                route,
                *settings,
            );
            states = states.push(*settings);
            assert(routes@.take(i + 1) =~= routes@.take(i as int).push(route));
            assert(views(notes@) =~= said.push(note@));
        }
        let fine = outcome == PeerRouteOutcome::Applied || outcome == PeerRouteOutcome::Unchanged;
        applied = applied || outcome == PeerRouteOutcome::Applied;
        warning = warning || !fine;
        i += 1;
    }
    assert(routes@.take(routes@.len() as int) =~= routes@);
    RouteAdoption { detail: join_all(&notes, " "), warning, applied }
}

/// Peers that use `input` of a display.
pub open spec fn uses(monitor: Identity, input: DisplayInput) -> spec_fn(HostRoute) -> bool {
    |peer: HostRoute| peer.input_on(monitor) == Some(input)
}

/// The routes ("local" or a peer id) that use `input` of a display, this host
/// first.
pub open spec fn owners(
    selected: SelectedMonitor,
    peers: Seq<HostRoute>,
    input: DisplayInput,
) -> Seq<Seq<char>> {
    let local = if selected.local_input == Some(input) {
        seq!["local"@]
    } else {
        seq![]
    };
    local + peers.filter(uses(selected.fingerprint@, input)).map_values(|peer: HostRoute| peer.id@)
}

/// Whether `after` is `before` once the display is known to show `input`: the
/// single route that uses the input becomes the active one. An input owned by
/// no route or by several keeps the last confirmed route.
pub open spec fn is_route_adoption(
    before: SelectedMonitor,
    peers: Seq<HostRoute>,
    input: DisplayInput,
    after: SelectedMonitor,
    result: Option<bool>,
) -> bool {
    let all = owners(before, peers, input);
    if all.len() != 1 {
        result is None && after == before
    } else if before.shown_route() == all[0] {
        result == Some(false) && after == before
    } else {
        &&& result == Some(true)
        &&& after.active_route is Some
        &&& after.active_route->0@ == all[0]
        &&& after == (SelectedMonitor { active_route: after.active_route, ..before })
    }
}

/// Marks the single route ("local" or a peer id) configured for `input` as the
/// display's active route. Returns whether the route changed, or `None` when no
/// single route owns `input`.
pub fn adopt_route_for_input(
    selected: &mut SelectedMonitor,
    peers: &[HostRoute],
    input: DisplayInput,
) -> (result: Option<bool>)
    ensures
        is_route_adoption(*old(selected), peers@, input, *final(selected), result),
{
    let ghost wanted = uses(selected.fingerprint@, input);
    let ghost local = if selected.local_input == Some(input) {
        seq!["local"@]
    } else {
        seq![]
    };
    let mut names: Vec<String> = Vec::new();
    if selected.local_input == Some(input) {
        names.push("local".to_owned());
    }
    assert(views(names@) =~= local);
    let mut i: usize = 0;
    assert(peers@.take(0).filter(wanted) =~= seq![]) by {
        reveal(Seq::filter);
    }
    assert(views(names@) =~= local + peers@.take(0).filter(wanted).map_values(
        |peer: HostRoute| peer.id@,
    ));
    while i < peers.len()
        invariant
            i <= peers@.len(),
            *selected == *old(selected),
            wanted == uses(selected.fingerprint@, input),
            views(names@) == local + peers@.take(i as int).filter(wanted).map_values(
                |peer: HostRoute| peer.id@,
            ),
        decreases peers@.len() - i,
    {
        let ghost before = views(names@);
        let ghost kept = peers@.take(i as int).filter(wanted);
        proof {
            assert(peers@.take(i + 1).drop_last() =~= peers@.take(i as int));
            reveal(Seq::filter);
        }
        if peers[i].input_for(&selected.fingerprint) == Some(input) {
            names.push(peers[i].id.clone());
            proof {
                assert(views(names@) =~= before.push(peers@[i as int].id@));
                assert(kept.push(peers@[i as int]).map_values(|peer: HostRoute| peer.id@)
                    =~= kept.map_values(|peer: HostRoute| peer.id@).push(peers@[i as int].id@));
                assert(views(names@) =~= local + kept.push(peers@[i as int]).map_values(
                    |peer: HostRoute| peer.id@,
                ));
            }
        }
        i += 1;
    }
    assert(peers@.take(peers@.len() as int) =~= peers@);
    assert(views(names@) == owners(*selected, peers@, input));
    if names.len() != 1 {
        return None;
    }
    assert(views(names@)[0] == names@[0]@);
    // An unset route is rendered as this host, so it already agrees.
    let agrees = match &selected.active_route {
        Some(route) => same_text(route, &names[0]),
        None => same_text("local", &names[0]),
    };
    if agrees {
        return Some(false);
    }
    selected.active_route = Some(names[0].clone());
    Some(true)
}

/// Whether a notice that the display meant by `fingerprint` shows `input` came
/// to `result`: a recognized one moves the display to the route that owns the
/// input and starts the settle period, even when the route already matches;
/// another changes nothing.
pub open spec fn is_notice_taken(
    before: AppSettings,
    fingerprint: MonitorFingerprint,
    input: DisplayInput,
    now_ms: u64,
    after: Seq<SelectedMonitor>,
    result: Option<bool>,
) -> bool {
    let monitors = before.shared_monitors@;
    match display_meant(monitors, before.monitor_identity_links@, fingerprint) {
        None => result is None && after == monitors,
        Some(i) => {
            &&& after == monitors.update(i, after[i])
            &&& exists|adopted: SelectedMonitor|
                {
                    &&& #[trigger] is_route_adoption(
                        monitors[i],
                        before.peers@,
                        input,
                        adopted,
                        result,
                    )
                    &&& after[i] == if result is Some {
                        SelectedMonitor { active_route_confirmed_at_ms: now_ms, ..adopted }
                    } else {
                        adopted
                    }
                }
        },
    }
}

/// A recognized notice starts the settle period of the display it means, whether
/// or not the route changed; one that is not recognized changes nothing.
pub proof fn a_recognized_notice_starts_the_settle_period(
    before: AppSettings,
    fingerprint: MonitorFingerprint,
    input: DisplayInput,
    now_ms: u64,
    after: Seq<SelectedMonitor>,
    result: Option<bool>,
)
    requires
        is_notice_taken(before, fingerprint, input, now_ms, after, result),
    ensures
        result is None ==> after == before.shared_monitors@,
        result is Some ==> {
            let meant = display_meant(
                before.shared_monitors@,
                before.monitor_identity_links@,
                fingerprint,
            );
            meant is Some && after[meant->0].active_route_confirmed_at_ms == now_ms
        },
{
    let monitors = before.shared_monitors@;
    let links = before.monitor_identity_links@;
    lemma_first_at(monitors, selects(links, fingerprint@));
    lemma_sole_at(monitors, has_model(links, fingerprint));
    if display_meant(monitors, links, fingerprint) is Some && result is None {
        assert(after =~= monitors);
    }
}

/// Takes a paired host's notice that it switched `fingerprint` to `input`. The
/// receiver resolves the owning route from its own settings rather than trusting
/// a route id from the sender. Returns whether the route changed, or `None`
/// where the notice is not recognized.
pub fn take_active_input_notice(
    settings: &mut AppSettings,
    fingerprint: &MonitorFingerprint,
    input: DisplayInput,
    now_ms: u64,
) -> (result: Option<bool>)
    ensures
        *final(settings) == (AppSettings {
            shared_monitors: final(settings).shared_monitors,
            ..*old(settings)
        }),
        is_notice_taken(
            *old(settings),
            *fingerprint,
            input,
            now_ms,
            final(settings).shared_monitors@,
            result,
        ),
{
    let index = match shared_monitor_index_for_peer(
        &settings.shared_monitors,
        &settings.monitor_identity_links,
        fingerprint,
    ) {
        Some(index) => index,
        None => return None,
    };
    let ghost before = settings.shared_monitors@;
    let selected = &mut settings.shared_monitors[index];
    let result = adopt_route_for_input(selected, &settings.peers, input);
    let ghost adopted = *selected;
    assert(is_route_adoption(before[index as int], old(settings).peers@, input, adopted, result));
    if result.is_some() {
        selected.active_route_confirmed_at_ms = now_ms;
    }
    assert(settings.shared_monitors@ =~= before.update(
        index as int,
        settings.shared_monitors@[index as int],
    ));
    result
}

/// Applies a paired host's notice that it switched `fingerprint` to `input`. A
/// recognized notice starts the settle period even when the route already
/// matches. Returns whether the route changed.
pub fn apply_active_input_notice(
    settings: &mut AppSettings,
    fingerprint: &MonitorFingerprint,
    input: DisplayInput,
    now_ms: u64,
) -> (changed: bool)
    ensures
        *final(settings) == (AppSettings {
            shared_monitors: final(settings).shared_monitors,
            ..*old(settings)
        }),
        exists|result: Option<bool>|
            {
                &&& #[trigger] is_notice_taken(
                    *old(settings),
                    *fingerprint,
                    input,
                    now_ms,
                    final(settings).shared_monitors@,
                    result,
                )
                &&& changed == (result == Some(true))
            },
{
    take_active_input_notice(settings, fingerprint, input, now_ms) == Some(true)
}

} // verus!
