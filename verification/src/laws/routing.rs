//! Which display is meant, which host it shows, and which input a host is
//! plugged into.

use crate::agent::AgentResponse;
use crate::domain::{DisplayInput, Identity, MonitorFingerprint, MonitorIdentityLink};
use crate::inventory::{
    are_synced, current_input, is_display_of, is_sync, CurrentInput, MonitorInventory,
};
use crate::laws::claims::{lemma_nothing_is_claimed, lemma_unclaimed};
use crate::laws::{are_one_model, is_plugged_into, is_showing, lemma_plugged, nothing_is_claimed};
use crate::lists::{
    first_at, lemma_first_at, lemma_first_at_is, lemma_kept_none, lemma_kept_one, lemma_sole_at,
    lemma_sole_at_is, some_item,
};
use crate::locale::UiLocale;
use crate::monitor_identity::{aliases_among, primary_of, same_display};
use crate::routes::{
    display_meant, has_model, identities_of, is_route_adoption, of_model, owners, uses,
};
use crate::settings::{selects, AppSettings, HostRoute, SelectedMonitor};
use crate::sharing::{is_request_resolved, requested_display, SwitchTarget};
use vstd::prelude::*;

verus! {

/// Whether a shared display, under its own identity or one that resolves to it by
/// a claim, is of the model of `remote`.
pub open spec fn is_of_model(
    links: Seq<MonitorIdentityLink>,
    selected: SelectedMonitor,
    remote: Identity,
) -> bool {
    are_one_model(selected.fingerprint@, remote) || exists|k: int|
        {
            &&& 0 <= k < links.len()
            &&& (#[trigger] links[k]).primary is Some
            &&& links[k].alias@ != selected.fingerprint@
            &&& primary_of(links, links[k].alias@) == selected.fingerprint@
            &&& are_one_model(links[k].alias@, remote)
        }
}

/// Whether the shared display number `i` is the one that `remote` names: it is
/// that display, by identity or by claim; or, where none is, it is the only one
/// of that model.
pub open spec fn is_named(
    monitors: Seq<SelectedMonitor>,
    links: Seq<MonitorIdentityLink>,
    remote: Identity,
    i: int,
) -> bool {
    &&& 0 <= i < monitors.len()
    &&& {
        ||| {
            &&& same_display(links, monitors[i].fingerprint@, remote)
            &&& forall|j: int|
                0 <= j < i ==> !same_display(links, (#[trigger] monitors[j]).fingerprint@, remote)
        }
        ||| {
            &&& forall|j: int|
                0 <= j < monitors.len() ==> !same_display(
                    links,
                    (#[trigger] monitors[j]).fingerprint@,
                    remote,
                )
            &&& is_of_model(links, monitors[i], remote)
            &&& forall|j: int|
                0 <= j < monitors.len() && j != i ==> !is_of_model(
                    links,
                    #[trigger] monitors[j],
                    remote,
                )
        }
    }
}

proof fn lemma_alias_among(
    links: Seq<MonitorIdentityLink>,
    all: Seq<MonitorIdentityLink>,
    primary: Identity,
    k: int,
)
    requires
        0 <= k < links.len(),
        links[k].primary is Some,
        links[k].alias@ != primary,
        primary_of(all, links[k].alias@) == primary,
    ensures
        aliases_among(links, all, primary).contains(links[k].alias),
    decreases links.len(),
{
    let rest = aliases_among(links.drop_last(), all, primary);
    let whole = aliases_among(links, all, primary);
    if k < links.len() - 1 {
        lemma_alias_among(links.drop_last(), all, primary, k);
        let i = choose|i: int| 0 <= i < rest.len() && rest[i] == links[k].alias;
        assert(whole[i] == rest[i]);
    } else {
        assert(whole[whole.len() - 1] == links[k].alias);
    }
}

proof fn lemma_among_aliases(
    links: Seq<MonitorIdentityLink>,
    all: Seq<MonitorIdentityLink>,
    primary: Identity,
    i: int,
)
    requires
        0 <= i < aliases_among(links, all, primary).len(),
    ensures
        exists|k: int|
            {
                &&& 0 <= k < links.len()
                &&& (#[trigger] links[k]).primary is Some
                &&& links[k].alias@ != primary
                &&& primary_of(all, links[k].alias@) == primary
                &&& links[k].alias == aliases_among(links, all, primary)[i]
            },
    decreases links.len(),
{
    let front = links.drop_last();
    let rest = aliases_among(front, all, primary);
    let whole = aliases_among(links, all, primary);
    if i < rest.len() {
        lemma_among_aliases(front, all, primary, i);
        let k = choose|k: int|
            {
                &&& 0 <= k < front.len()
                &&& (#[trigger] front[k]).primary is Some
                &&& front[k].alias@ != primary
                &&& primary_of(all, front[k].alias@) == primary
                &&& front[k].alias == rest[i]
            };
        assert(links[k] == front[k]);
    } else {
        assert(links[links.len() - 1] == links.last());
    }
}

proof fn lemma_has_model(
    links: Seq<MonitorIdentityLink>,
    selected: SelectedMonitor,
    remote: MonitorFingerprint,
)
    ensures
        has_model(links, remote)(selected) <==> is_of_model(links, selected, remote@),
{
    let own = selected.fingerprint;
    let identities = identities_of(links, own);
    let wanted = of_model(remote);
    let among = aliases_among(links, links, own@);
    lemma_first_at(identities, wanted);
    assert(identities[0] == own);
    if is_of_model(links, selected, remote@) {
        if are_one_model(own@, remote@) {
            assert(wanted(identities[0]));
        } else {
            let k = choose|k: int|
                {
                    &&& 0 <= k < links.len()
                    &&& (#[trigger] links[k]).primary is Some
                    &&& links[k].alias@ != own@
                    &&& primary_of(links, links[k].alias@) == own@
                    &&& are_one_model(links[k].alias@, remote@)
                };
            lemma_alias_among(links, links, own@, k);
            let i = choose|i: int| 0 <= i < among.len() && among[i] == links[k].alias;
            assert(identities[i + 1] == links[k].alias);
            assert(wanted(identities[i + 1]));
        }
    }
    if some_item(identities, wanted) {
        let n = first_at(identities, wanted);
        assert(wanted(identities[n]));
        if n > 0 {
            assert(identities[n] == among[n - 1]);
            lemma_among_aliases(links, links, own@, n - 1);
        }
    }
}

/// The display that a paired host means is the one it names; and where it names
/// one, it is found.
pub proof fn the_display_meant_is_the_named_one(
    monitors: Seq<SelectedMonitor>,
    links: Seq<MonitorIdentityLink>,
    remote: MonitorFingerprint,
)
    ensures
        match display_meant(monitors, links, remote) {
            Some(i) => is_named(monitors, links, remote@, i),
            None => forall|i: int| !#[trigger] is_named(monitors, links, remote@, i),
        },
{
    let exact = selects(links, remote@);
    let model = has_model(links, remote);
    lemma_first_at(monitors, exact);
    let n = first_at(monitors, exact);
    assert forall|j: int| 0 <= j < n implies !same_display(
        links,
        (#[trigger] monitors[j]).fingerprint@,
        remote@,
    ) by {
        assert(!exact(monitors[j]));
    }
    if n < monitors.len() {
        assert(exact(monitors[n]));
    } else {
        lemma_sole_at(monitors, model);
        match display_meant(monitors, links, remote) {
            Some(i) => {
                lemma_has_model(links, monitors[i], remote);
                assert forall|j: int| 0 <= j < monitors.len() && j != i implies !is_of_model(
                    links,
                    #[trigger] monitors[j],
                    remote@,
                ) by {
                    lemma_has_model(links, monitors[j], remote);
                    assert(!model(monitors[j]));
                }
            },
            None => {
                assert forall|i: int| !#[trigger] is_named(monitors, links, remote@, i) by {
                    if is_named(monitors, links, remote@, i) {
                        lemma_has_model(links, monitors[i], remote);
                        assert forall|j: int| 0 <= j < monitors.len() && j != i implies !model(
                            #[trigger] monitors[j],
                        ) by {
                            lemma_has_model(links, monitors[j], remote);
                        }
                        lemma_sole_at_is(monitors, model, i);
                    }
                }
            },
        }
    }
}

/// At most one shared display is named, and it is the one that is meant.
pub proof fn one_display_is_named(
    monitors: Seq<SelectedMonitor>,
    links: Seq<MonitorIdentityLink>,
    remote: MonitorFingerprint,
    i: int,
)
    requires
        is_named(monitors, links, remote@, i),
    ensures
        display_meant(monitors, links, remote) == Some(i),
{
    the_display_meant_is_the_named_one(monitors, links, remote);
    let found = display_meant(monitors, links, remote);
    assert(found is Some);
    let j = found->0;
    if j != i {
        assert(!same_display(links, monitors[i].fingerprint@, remote@) || !same_display(
            links,
            monitors[j].fingerprint@,
            remote@,
        ));
    }
}

/// Where nothing is claimed, the display meant has exactly the identity that was
/// named; or, where no shared display has it, it is the only one of that maker
/// and product.
pub proof fn without_claims_the_display_meant_has_the_named_identity(
    monitors: Seq<SelectedMonitor>,
    links: Seq<MonitorIdentityLink>,
    remote: MonitorFingerprint,
    k: int,
)
    requires
        nothing_is_claimed(links),
    ensures
        0 <= k < monitors.len() && monitors[k].fingerprint@ == remote@ ==> display_meant(
            monitors,
            links,
            remote,
        ) is Some,
        display_meant(monitors, links, remote) matches Some(i) ==> {
            &&& 0 <= i < monitors.len()
            &&& 0 <= k < monitors.len() && monitors[k].fingerprint@ == remote@
                ==> monitors[i].fingerprint@ == remote@ && i <= k
            &&& monitors[i].fingerprint@ == remote@ || are_one_model(
                monitors[i].fingerprint@,
                remote@,
            )
            &&& monitors[i].fingerprint@ != remote@ && 0 <= k < monitors.len() && k != i
                ==> !are_one_model(monitors[k].fingerprint@, remote@)
        },
{
    the_display_meant_is_the_named_one(monitors, links, remote);
    assert forall|j: int| 0 <= j < monitors.len() implies (same_display(
        links,
        (#[trigger] monitors[j]).fingerprint@,
        remote@,
    ) <==> monitors[j].fingerprint@ == remote@) by {
        lemma_nothing_is_claimed(links, monitors[j].fingerprint@);
        lemma_nothing_is_claimed(links, remote@);
        lemma_unclaimed(links, monitors[j].fingerprint@);
        lemma_unclaimed(links, remote@);
    }
    if 0 <= k < monitors.len() && monitors[k].fingerprint@ == remote@ {
        let exact = selects(links, remote@);
        assert(exact(monitors[k]));
        lemma_first_at(monitors, exact);
    }
}

/// Whether a target is the shared display number `i`: its own identity first,
/// then every other identity that resolves to it, and no more.
pub open spec fn is_target(settings: AppSettings, target: SwitchTarget, i: int) -> bool {
    let own = settings.shared_monitors@[i].fingerprint@;
    let links = settings.monitor_identity_links@;
    let listed = target.identities@;
    &&& 0 <= i < settings.shared_monitors@.len()
    &&& target.vendor_indexed == settings.shared_monitors@[i].vendor_indexed_inputs
    &&& listed.len() > 0 && listed[0]@ == own
    &&& forall|n: int|
        0 < n < listed.len() ==> (#[trigger] listed[n])@ != own && primary_of(links, listed[n]@)
            == own
    &&& forall|k: int|
        0 <= k < links.len() && (#[trigger] links[k]).primary is Some && primary_of(
            links,
            links[k].alias@,
        ) == own ==> exists|n: int|
            0 <= n < listed.len() && (#[trigger] listed[n])@ == links[k].alias@
}

/// A request to switch is carried out on the display that it names, under that
/// display's identities; one that names none, on the only shared display.
pub proof fn a_request_is_carried_out_on_the_named_display(
    locale: UiLocale,
    settings: AppSettings,
    monitor: Option<MonitorFingerprint>,
    target: SwitchTarget,
)
    requires
        is_request_resolved(locale, Some(settings), monitor, Ok(target)),
    ensures
        exists|i: int|
            {
                &&& #[trigger] is_target(settings, target, i)
                &&& match monitor {
                    Some(requested) => is_named(
                        settings.shared_monitors@,
                        settings.monitor_identity_links@,
                        requested@,
                        i,
                    ),
                    None => settings.shared_monitors@.len() == 1,
                }
            },
{
    let links = settings.monitor_identity_links@;
    let i = requested_display(settings, monitor)->0;
    if let Some(requested) = monitor {
        the_display_meant_is_the_named_one(settings.shared_monitors@, links, requested);
    }
    let own = settings.shared_monitors@[i].fingerprint;
    let among = aliases_among(links, links, own@);
    let listed = target.identities@;
    assert(listed == seq![own] + among);
    assert forall|n: int| 0 < n < listed.len() implies (#[trigger] listed[n])@ != own@
        && primary_of(links, listed[n]@) == own@ by {
        assert(listed[n] == among[n - 1]);
        lemma_among_aliases(links, links, own@, n - 1);
    }
    assert forall|k: int|
        0 <= k < links.len() && (#[trigger] links[k]).primary is Some && primary_of(
            links,
            links[k].alias@,
        ) == own@ implies exists|n: int|
        0 <= n < listed.len() && (#[trigger] listed[n])@ == links[k].alias@ by {
        if links[k].alias@ == own@ {
            assert(listed[0]@ == links[k].alias@);
        } else {
            lemma_alias_among(links, links, own@, k);
            let n = choose|n: int| 0 <= n < among.len() && among[n] == links[k].alias;
            assert(listed[n + 1]@ == links[k].alias@);
        }
    }
    assert(is_target(settings, target, i));
}

/// A request for an identity that a shared display has is carried out under that
/// identity, unless the user claimed that another shared display is the same one.
pub proof fn a_shared_identity_is_switched_as_requested(
    locale: UiLocale,
    settings: AppSettings,
    requested: MonitorFingerprint,
    target: SwitchTarget,
    k: int,
)
    requires
        is_request_resolved(locale, Some(settings), Some(requested), Ok(target)),
        0 <= k < settings.shared_monitors@.len(),
        settings.shared_monitors@[k].fingerprint@ == requested@,
        forall|j: int|
            0 <= j < settings.shared_monitors@.len() && same_display(
                settings.monitor_identity_links@,
                (#[trigger] settings.shared_monitors@[j]).fingerprint@,
                requested@,
            ) ==> settings.shared_monitors@[j].fingerprint@ == requested@,
    ensures
        target.identities@.len() > 0,
        target.identities@[0]@ == requested@,
        nothing_is_claimed(settings.monitor_identity_links@) ==> target.identities@.len() == 1,
{
    a_request_is_carried_out_on_the_named_display(locale, settings, Some(requested), target);
    let i = choose|i: int|
        {
            &&& #[trigger] is_target(settings, target, i)
            &&& is_named(
                settings.shared_monitors@,
                settings.monitor_identity_links@,
                requested@,
                i,
            )
        };
    assert(same_display(
        settings.monitor_identity_links@,
        settings.shared_monitors@[k].fingerprint@,
        requested@,
    ));
    assert(same_display(
        settings.monitor_identity_links@,
        settings.shared_monitors@[i].fingerprint@,
        requested@,
    ));
    let listed = target.identities@;
    if nothing_is_claimed(settings.monitor_identity_links@) && listed.len() > 1 {
        lemma_nothing_is_claimed(settings.monitor_identity_links@, listed[1]@);
        lemma_unclaimed(settings.monitor_identity_links@, listed[1]@);
    }
}

/// A request is refused only where it names no shared display, or names none and
/// there is not exactly one.
pub proof fn a_request_is_refused_only_where_no_display_is_named(
    locale: UiLocale,
    settings: AppSettings,
    monitor: Option<MonitorFingerprint>,
    response: AgentResponse,
)
    requires
        is_request_resolved(locale, Some(settings), monitor, Err(response)),
    ensures
        !response.ready,
        match monitor {
            Some(requested) => {
                &&& forall|k: int|
                    0 <= k < settings.shared_monitors@.len() ==> (
                    #[trigger] settings.shared_monitors@[k]).fingerprint@ != requested@
                &&& forall|i: int|
                    !#[trigger] is_named(
                        settings.shared_monitors@,
                        settings.monitor_identity_links@,
                        requested@,
                        i,
                    )
            },
            None => settings.shared_monitors@.len() != 1,
        },
{
    if let Some(requested) = monitor {
        let monitors = settings.shared_monitors@;
        let links = settings.monitor_identity_links@;
        the_display_meant_is_the_named_one(monitors, links, requested);
        let exact = selects(links, requested@);
        lemma_first_at(monitors, exact);
        assert forall|k: int| 0 <= k < monitors.len() implies (
        #[trigger] monitors[k]).fingerprint@ != requested@ by {
            assert(!exact(monitors[k]));
        }
    }
}

/// Whether `route` is the only one that uses `input` of a shared display: this
/// computer, or one paired host.
pub open spec fn is_sole_user(
    selected: SelectedMonitor,
    peers: Seq<HostRoute>,
    input: DisplayInput,
    route: Seq<char>,
) -> bool {
    let monitor = selected.fingerprint@;
    if selected.local_input == Some(input) {
        &&& route == "local"@
        &&& forall|p: int|
            0 <= p < peers.len() ==> !is_plugged_into(#[trigger] peers[p], monitor, input)
    } else {
        exists|p: int|
            {
                &&& 0 <= p < peers.len()
                &&& is_plugged_into(#[trigger] peers[p], monitor, input)
                &&& route == peers[p].id@
                &&& forall|q: int|
                    0 <= q < peers.len() && q != p ==> !is_plugged_into(
                        #[trigger] peers[q],
                        monitor,
                        input,
                    )
            }
    }
}

proof fn lemma_uses(peer: HostRoute, monitor: Identity, input: DisplayInput)
    ensures
        uses(monitor, input)(peer) <==> is_plugged_into(peer, monitor, input),
{
    lemma_plugged(peer, monitor);
}

proof fn lemma_owner(
    selected: SelectedMonitor,
    peers: Seq<HostRoute>,
    input: DisplayInput,
    route: Seq<char>,
)
    ensures
        is_sole_user(selected, peers, input, route) <==> owners(selected, peers, input) == seq![
            route,
        ],
{
    let monitor = selected.fingerprint@;
    let keep = uses(monitor, input);
    let kept = peers.filter(keep);
    let ids = kept.map_values(|peer: HostRoute| peer.id@);
    let all = owners(selected, peers, input);
    lemma_kept_none(peers, keep);
    lemma_kept_one(peers, keep);
    assert forall|p: int| 0 <= p < peers.len() implies (keep(#[trigger] peers[p])
        <==> is_plugged_into(peers[p], monitor, input)) by {
        lemma_uses(peers[p], monitor, input);
    }
    if selected.local_input == Some(input) {
        assert(all == seq!["local"@] + ids);
        if is_sole_user(selected, peers, input, route) {
            assert(kept.len() == 0);
            assert(all =~= seq![route]);
        }
        if all == seq![route] {
            assert(all.len() == 1 + kept.len());
            assert(all[0] == "local"@);
            assert(seq![route][0] == route);
            assert forall|p: int| 0 <= p < peers.len() implies !is_plugged_into(
                #[trigger] peers[p],
                monitor,
                input,
            ) by {
                assert(!keep(peers[p]));
            }
        }
    } else {
        assert(all =~= ids);
        if is_sole_user(selected, peers, input, route) {
            let p = choose|p: int|
                {
                    &&& 0 <= p < peers.len()
                    &&& is_plugged_into(#[trigger] peers[p], monitor, input)
                    &&& route == peers[p].id@
                    &&& forall|q: int|
                        0 <= q < peers.len() && q != p ==> !is_plugged_into(
                            #[trigger] peers[q],
                            monitor,
                            input,
                        )
                };
            assert(keep(peers[p]));
            assert forall|q: int| 0 <= q < peers.len() && q != p implies !keep(
                #[trigger] peers[q],
            ) by {}
            assert(kept == seq![peers[p]]);
            assert(all =~= seq![route]);
        }
        if all == seq![route] {
            assert(kept.len() == 1);
            let p = choose|p: int|
                0 <= p < peers.len() && keep(#[trigger] peers[p]) && (forall|q: int|
                    0 <= q < peers.len() && q != p ==> !keep(#[trigger] peers[q]));
            assert(kept == seq![peers[p]]);
            assert(all[0] == peers[p].id@);
            assert(seq![route][0] == route);
            assert(is_plugged_into(peers[p], monitor, input));
            assert forall|q: int| 0 <= q < peers.len() && q != p implies !is_plugged_into(
                #[trigger] peers[q],
                monitor,
                input,
            ) by {
                assert(!keep(peers[q]));
            }
        }
    }
}

/// A display that shows an input shows the only route that uses it; where none or
/// several use it, what it is said to show stays. Nothing else about it changes.
pub proof fn an_input_shows_its_sole_user(
    before: SelectedMonitor,
    peers: Seq<HostRoute>,
    input: DisplayInput,
    after: SelectedMonitor,
    result: Option<bool>,
    route: Seq<char>,
)
    requires
        is_route_adoption(before, peers, input, after, result),
    ensures
        is_sole_user(before, peers, input, route) ==> {
            &&& is_showing(after, route)
            &&& result is Some
            &&& result == Some(!is_showing(before, route))
        },
        result is None ==> after == before && forall|other: Seq<char>|
            !#[trigger] is_sole_user(before, peers, input, other),
        result is Some ==> exists|other: Seq<char>| #[trigger]
            is_sole_user(before, peers, input, other),
        after.fingerprint == before.fingerprint && after.local_input == before.local_input
            && after.supported_inputs == before.supported_inputs && after.name == before.name
            && after.vendor_indexed_inputs == before.vendor_indexed_inputs
            && after.active_route_confirmed_at_ms == before.active_route_confirmed_at_ms,
{
    let all = owners(before, peers, input);
    lemma_owner(before, peers, input, route);
    if is_sole_user(before, peers, input, route) {
        assert(all.len() == 1 && all[0] == route);
    }
    if all.len() == 1 {
        assert(all =~= seq![all[0]]);
        lemma_owner(before, peers, input, all[0]);
    } else {
        assert forall|other: Seq<char>| !#[trigger]
            is_sole_user(before, peers, input, other) by {
            lemma_owner(before, peers, input, other);
            assert(seq![other].len() == 1);
        }
    }
}

/// Whether `input` is what a display reported last.
pub open spec fn is_last_reading(
    readings: Seq<CurrentInput>,
    id: Seq<char>,
    input: DisplayInput,
) -> bool {
    exists|e: int|
        {
            &&& 0 <= e < readings.len()
            &&& (#[trigger] readings[e]).id.text@ == id
            &&& readings[e].input == input
            &&& forall|j: int| e < j < readings.len() ==> (#[trigger] readings[j]).id.text@ != id
        }
}

pub(crate) proof fn lemma_reading(readings: Seq<CurrentInput>, id: Seq<char>)
    ensures
        match current_input(readings, id) {
            Some(input) => is_last_reading(readings, id, input),
            None => forall|e: int|
                0 <= e < readings.len() ==> (#[trigger] readings[e]).id.text@ != id,
        },
        forall|input: DisplayInput| #[trigger]
            is_last_reading(readings, id, input) ==> current_input(readings, id) == Some(input),
    decreases readings.len(),
{
    if readings.len() > 0 {
        let front = readings.drop_last();
        let n = readings.len() - 1;
        lemma_reading(front, id);
        if readings[n].id.text@ == id {
            assert(is_last_reading(readings, id, readings[n].input));
        } else {
            if let Some(input) = current_input(front, id) {
                let e = choose|e: int|
                    {
                        &&& 0 <= e < front.len()
                        &&& (#[trigger] front[e]).id.text@ == id
                        &&& front[e].input == input
                        &&& forall|j: int|
                            e < j < front.len() ==> (#[trigger] front[j]).id.text@ != id
                    };
                assert(readings[e] == front[e]);
                assert forall|j: int| e < j < readings.len() implies (
                #[trigger] readings[j]).id.text@ != id by {
                    if j < n {
                        assert(readings[j] == front[j]);
                    }
                }
            } else {
                assert forall|e: int| 0 <= e < readings.len() implies (
                #[trigger] readings[e]).id.text@ != id by {
                    if e < n {
                        assert(readings[e] == front[e]);
                    }
                }
            }
        }
        assert forall|input: DisplayInput| #[trigger]
            is_last_reading(readings, id, input) implies current_input(readings, id) == Some(
            input,
        ) by {
            let e = choose|e: int|
                {
                    &&& 0 <= e < readings.len()
                    &&& (#[trigger] readings[e]).id.text@ == id
                    &&& readings[e].input == input
                    &&& forall|j: int|
                        e < j < readings.len() ==> (#[trigger] readings[j]).id.text@ != id
                };
            if e < n {
                assert(readings[n].id.text@ != id);
                assert(front[e] == readings[e]);
                assert forall|j: int| e < j < front.len() implies (
                #[trigger] front[j]).id.text@ != id by {
                    assert(front[j] == readings[j]);
                }
                assert(is_last_reading(front, id, input));
            }
        }
    }
}

/// A settled display follows its own reading: where the only controllable display
/// that is it reported an input that exactly one route uses, it shows that route,
/// whatever was read of other displays.
pub proof fn a_settled_display_follows_its_own_reading(
    before: AppSettings,
    inventory: MonitorInventory,
    now_ms: u64,
    after: AppSettings,
    changed: bool,
    k: int,
    m: int,
    input: DisplayInput,
    route: Seq<char>,
)
    requires
        is_sync(before, inventory, now_ms, after, changed),
        0 <= k < before.shared_monitors@.len(),
        now_ms >= before.shared_monitors@[k].active_route_confirmed_at_ms + 15000,
        0 <= m < inventory.controllable@.len(),
        same_display(
            before.monitor_identity_links@,
            before.shared_monitors@[k].fingerprint@,
            inventory.controllable@[m].fingerprint@,
        ),
        forall|j: int|
            0 <= j < m ==> !same_display(
                before.monitor_identity_links@,
                before.shared_monitors@[k].fingerprint@,
                (#[trigger] inventory.controllable@[j]).fingerprint@,
            ),
        is_last_reading(inventory.current_inputs@, inventory.controllable@[m].id.text@, input),
        is_sole_user(before.shared_monitors@[k], before.peers@, input, route),
    ensures
        after.shared_monitors@.len() == before.shared_monitors@.len(),
        is_showing(after.shared_monitors@[k], route),
        !is_showing(before.shared_monitors@[k], route) ==> changed,
{
    let results = choose|results: Seq<Option<bool>>|
        {
            &&& #[trigger] are_synced(
                before,
                inventory,
                now_ms,
                after.shared_monitors@,
                results,
            )
            &&& changed == results.contains(Some(true))
        };
    let selected = before.shared_monitors@[k];
    let wanted = is_display_of(before.monitor_identity_links@, selected);
    lemma_first_at_is(inventory.controllable@, wanted, m);
    lemma_reading(inventory.current_inputs@, inventory.controllable@[m].id.text@);
    let synced = after.shared_monitors@[k];
    an_input_shows_its_sole_user(selected, before.peers@, input, synced, results[k], route);
    if !is_showing(selected, route) {
        assert(results[k] == Some(true));
    }
}

/// A display keeps what it is said to show while it settles after a switch, where
/// no controllable display is it, where that reported nothing, and where what it
/// reported has no sole user. A change is only told where some display changed.
pub proof fn a_display_keeps_its_route_without_a_clear_reading(
    before: AppSettings,
    inventory: MonitorInventory,
    now_ms: u64,
    after: AppSettings,
    changed: bool,
    k: int,
)
    requires
        is_sync(before, inventory, now_ms, after, changed),
        0 <= k < before.shared_monitors@.len(),
    ensures
        after.shared_monitors@.len() == before.shared_monitors@.len(),
        after.peers == before.peers,
        after.shared_monitors@[k] == before.shared_monitors@[k] || {
            &&& now_ms >= before.shared_monitors@[k].active_route_confirmed_at_ms + 15000
            &&& exists|m: int, input: DisplayInput, route: Seq<char>|
                {
                    &&& 0 <= m < inventory.controllable@.len()
                    &&& same_display(
                        before.monitor_identity_links@,
                        before.shared_monitors@[k].fingerprint@,
                        inventory.controllable@[m].fingerprint@,
                    )
                    &&& #[trigger] is_last_reading(
                        inventory.current_inputs@,
                        inventory.controllable@[m].id.text@,
                        input,
                    )
                    &&& #[trigger] is_sole_user(
                        before.shared_monitors@[k],
                        before.peers@,
                        input,
                        route,
                    )
                    &&& is_showing(after.shared_monitors@[k], route)
                }
        },
        changed ==> exists|i: int|
            0 <= i < before.shared_monitors@.len() && (#[trigger] after.shared_monitors@[i])
                != before.shared_monitors@[i],
{
    let results = choose|results: Seq<Option<bool>>|
        {
            &&& #[trigger] are_synced(
                before,
                inventory,
                now_ms,
                after.shared_monitors@,
                results,
            )
            &&& changed == results.contains(Some(true))
        };
    if after.shared_monitors@[k] != before.shared_monitors@[k] {
        lemma_only_clear_readings_move(before, inventory, now_ms, after, results, k);
    }
    if changed {
        let i = choose|i: int| 0 <= i < results.len() && results[i] == Some(true);
        let moved = after.shared_monitors@[i];
        let stood = before.shared_monitors@[i];
        assert(moved.active_route is Some);
        assert(moved.active_route->0@ != stood.shown_route());
        assert(moved != stood);
    }
}

proof fn lemma_only_clear_readings_move(
    before: AppSettings,
    inventory: MonitorInventory,
    now_ms: u64,
    after: AppSettings,
    results: Seq<Option<bool>>,
    k: int,
)
    requires
        are_synced(before, inventory, now_ms, after.shared_monitors@, results),
        0 <= k < before.shared_monitors@.len(),
        after.shared_monitors@[k] != before.shared_monitors@[k],
    ensures
        now_ms >= before.shared_monitors@[k].active_route_confirmed_at_ms + 15000,
        exists|m: int, input: DisplayInput, route: Seq<char>|
            {
                &&& 0 <= m < inventory.controllable@.len()
                &&& same_display(
                    before.monitor_identity_links@,
                    before.shared_monitors@[k].fingerprint@,
                    inventory.controllable@[m].fingerprint@,
                )
                &&& #[trigger] is_last_reading(
                    inventory.current_inputs@,
                    inventory.controllable@[m].id.text@,
                    input,
                )
                &&& #[trigger] is_sole_user(
                    before.shared_monitors@[k],
                    before.peers@,
                    input,
                    route,
                )
                &&& is_showing(after.shared_monitors@[k], route)
            },
{
    let selected = before.shared_monitors@[k];
    let wanted = is_display_of(before.monitor_identity_links@, selected);
    let controllable = inventory.controllable@;
    lemma_first_at(controllable, wanted);
    let m = first_at(controllable, wanted);
    assert(m < controllable.len());
    assert(wanted(controllable[m]));
    lemma_reading(inventory.current_inputs@, controllable[m].id.text@);
    let input = current_input(inventory.current_inputs@, controllable[m].id.text@)->0;
    let synced = after.shared_monitors@[k];
    an_input_shows_its_sole_user(selected, before.peers@, input, synced, results[k], seq![]);
    let route = choose|other: Seq<char>| #[trigger]
        is_sole_user(selected, before.peers@, input, other);
    an_input_shows_its_sole_user(selected, before.peers@, input, synced, results[k], route);
    assert(is_last_reading(inventory.current_inputs@, controllable[m].id.text@, input));
}

} // verus!
