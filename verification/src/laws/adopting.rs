//! What becomes of everything that a paired host reports at once.

use crate::agent::{AgentDisplayRoute, AgentResponse};
use crate::domain::Identity;
use crate::laws::reporting::{a_reported_input_becomes_the_hosts_own, has_input, is_free};
use crate::laws::routing::is_named;
use crate::laws::{is_host_of, is_plugged_into, is_unplugged, lemma_plugged};
use crate::locale::UiLocale;
use crate::routes::{
    are_routes_adopted, describes_adoption, reported_routes, route_verdict, went_through,
    PeerRouteOutcome, RouteAdoption,
};
use crate::settings::AppSettings;
use vstd::prelude::*;

verus! {

/// Every route that a response reports is looked at: the list, or the single route
/// of a host that knows no list.
pub proof fn a_response_reports_its_routes(response: AgentResponse)
    ensures
        response.display_routes@.len() > 0 ==> reported_routes(response)
            == response.display_routes@,
        response.display_routes@.len() == 0 && response.display_route is Some ==> reported_routes(
            response,
        ) == seq![response.display_route->0],
        response.display_routes@.len() == 0 && response.display_route is None ==> reported_routes(
            response,
        ).len() == 0,
{
}

/// Whether two setups share the displays and claims, and hold the same of every
/// host but number `p`, and of that one on a display.
pub open spec fn agree_but_for(
    a: AppSettings,
    b: AppSettings,
    p: int,
    monitor: Identity,
) -> bool {
    &&& a.shared_monitors == b.shared_monitors
    &&& a.monitor_identity_links == b.monitor_identity_links
    &&& a.peers@.len() == b.peers@.len()
    &&& 0 <= p < a.peers@.len()
    &&& forall|q: int| 0 <= q < a.peers@.len() ==> (#[trigger] a.peers@[q]).id == b.peers@[q].id
    &&& forall|q: int|
        0 <= q < a.peers@.len() && q != p ==> #[trigger] a.peers@[q] == b.peers@[q]
    &&& a.peers@[p].input_on(monitor) == b.peers@[p].input_on(monitor)
}

proof fn lemma_other_display(
    before: AppSettings,
    peer_id: Seq<char>,
    route: AgentDisplayRoute,
    after: AppSettings,
    p: int,
    i: int,
)
    requires
        crate::routes::is_route_step(before, peer_id, route, after),
        is_host_of(before.peers@, peer_id, p),
        0 <= i < before.shared_monitors@.len(),
        !is_named(before.shared_monitors@, before.monitor_identity_links@, route.monitor@, i),
        forall|j: int|
            0 <= j < before.shared_monitors@.len() && j != i ==> (
            #[trigger] before.shared_monitors@[j]).fingerprint@
                != before.shared_monitors@[i].fingerprint@,
    ensures
        agree_but_for(before, after, p, before.shared_monitors@[i].fingerprint@),
        is_host_of(after.peers@, peer_id, p),
{
    let monitor = before.shared_monitors@[i].fingerprint@;
    crate::laws::routing::the_display_meant_is_the_named_one(
        before.shared_monitors@,
        before.monitor_identity_links@,
        route.monitor,
    );
    crate::laws::lemma_host(before.peers@, peer_id);
    if route_verdict(before, peer_id, route) == PeerRouteOutcome::Applied {
        let j = crate::routes::display_meant(
            before.shared_monitors@,
            before.monitor_identity_links@,
            route.monitor,
        )->0;
        assert(j != i);
        crate::settings::setting_an_input_sets_that_display_only(
            before.peers@[p].inputs@,
            before.shared_monitors@[j].fingerprint,
            Some(route.input),
            monitor,
        );
        assert forall|q: int| 0 <= q < before.peers@.len() implies (
        #[trigger] before.peers@[q]).id == after.peers@[q].id by {
            if q == p {
                assert(after.peers@[p].id == before.peers@[p].id);
            } else {
                assert(after.peers@[q] == before.peers@[q]);
            }
        }
        assert forall|q: int| 0 <= q < p implies (#[trigger] after.peers@[q]).id@ != peer_id by {
            assert(before.peers@[q].id@ != peer_id);
        }
    }
}

proof fn lemma_routes_to_other_displays(
    states: Seq<AppSettings>,
    peer_id: Seq<char>,
    routes: Seq<AgentDisplayRoute>,
    from: int,
    to: int,
    p: int,
    i: int,
)
    requires
        went_through(states, peer_id, routes),
        0 <= from <= to <= routes.len(),
        is_host_of(states[from].peers@, peer_id, p),
        0 <= i < states[from].shared_monitors@.len(),
        forall|k: int|
            from <= k < to ==> !is_named(
                states[from].shared_monitors@,
                states[from].monitor_identity_links@,
                (#[trigger] routes[k]).monitor@,
                i,
            ),
        forall|j: int|
            0 <= j < states[from].shared_monitors@.len() && j != i ==> (
            #[trigger] states[from].shared_monitors@[j]).fingerprint@
                != states[from].shared_monitors@[i].fingerprint@,
    ensures
        agree_but_for(
            states[from],
            states[to],
            p,
            states[from].shared_monitors@[i].fingerprint@,
        ),
        is_host_of(states[to].peers@, peer_id, p),
    decreases to - from,
{
    if from < to {
        lemma_routes_to_other_displays(states, peer_id, routes, from, to - 1, p, i);
        let last = states[to - 1];
        assert(crate::routes::is_route_step(
            states[to - 1],
            peer_id,
            routes[to - 1],
            states[to - 1 + 1],
        ));
        lemma_other_display(last, peer_id, routes[to - 1], states[to], p, i);
        assert forall|q: int| 0 <= q < states[from].peers@.len() implies (
        #[trigger] states[from].peers@[q]).id == states[to].peers@[q].id by {
            assert(last.peers@[q].id == states[to].peers@[q].id);
        }
        assert forall|q: int| 0 <= q < states[from].peers@.len() && q != p implies (
        #[trigger] states[from].peers@[q]) == states[to].peers@[q] by {
            assert(last.peers@[q] == states[to].peers@[q]);
        }
    }
}

/// Each input that a paired host reports is adopted by itself: where no other
/// route is for that display, it becomes the host's input there exactly as if it
/// were the only one reported.
pub proof fn every_reported_input_is_adopted(
    locale: UiLocale,
    before: AppSettings,
    peer_id: Seq<char>,
    response: AgentResponse,
    after: AppSettings,
    adoption: RouteAdoption,
    r: int,
    i: int,
    p: int,
)
    requires
        are_routes_adopted(locale, before, peer_id, response, after, adoption),
        is_host_of(before.peers@, peer_id, p),
        0 <= r < response.display_routes@.len(),
        is_named(
            before.shared_monitors@,
            before.monitor_identity_links@,
            response.display_routes@[r].monitor@,
            i,
        ),
        forall|k: int|
            0 <= k < response.display_routes@.len() && k != r ==> !is_named(
                before.shared_monitors@,
                before.monitor_identity_links@,
                (#[trigger] response.display_routes@[k]).monitor@,
                i,
            ),
        forall|j: int|
            0 <= j < before.shared_monitors@.len() && j != i ==> (
            #[trigger] before.shared_monitors@[j]).fingerprint@
                != before.shared_monitors@[i].fingerprint@,
        has_input(before.shared_monitors@[i], response.display_routes@[r].input),
        is_free(
            before.shared_monitors@[i],
            before.peers@,
            peer_id,
            response.display_routes@[r].input,
        ),
        response.display_routes@[r].confirmed || is_unplugged(
            before.peers@[p],
            before.shared_monitors@[i].fingerprint@,
        ),
    ensures
        is_plugged_into(
            after.peers@[p],
            before.shared_monitors@[i].fingerprint@,
            response.display_routes@[r].input,
        ),
        !is_plugged_into(
            before.peers@[p],
            before.shared_monitors@[i].fingerprint@,
            response.display_routes@[r].input,
        ) ==> adoption.applied,
        after.shared_monitors == before.shared_monitors,
        after.peers@.len() == before.peers@.len(),
        after.peers@[p].id == before.peers@[p].id,
{
    let routes = reported_routes(response);
    let n = routes.len() as int;
    let route = routes[r];
    let monitor = before.shared_monitors@[i].fingerprint@;
    let states = choose|states: Seq<AppSettings>|
        {
            &&& #[trigger] went_through(states, peer_id, routes)
            &&& states[0] == before
            &&& states.last() == after
            &&& describes_adoption(adoption, locale, states, peer_id, routes)
        };
    lemma_routes_to_other_displays(states, peer_id, routes, 0, r, p, i);
    let met = states[r];
    let next = states[r + 1];
    lemma_plugged(before.peers@[p], monitor);
    lemma_plugged(met.peers@[p], monitor);
    lemma_plugged(next.peers@[p], monitor);
    assert(crate::routes::is_route_step(states[r], peer_id, routes[r], states[r + 1]));
    assert(is_free(met.shared_monitors@[i], met.peers@, peer_id, route.input)) by {
        assert forall|q: int|
            0 <= q < met.peers@.len() && (#[trigger] met.peers@[q]).id@ != peer_id implies
            !is_plugged_into(met.peers@[q], monitor, route.input) by {
            assert(q != p);
            assert(before.peers@[q] == met.peers@[q]);
            assert(before.peers@[q].id@ != peer_id);
        }
    }
    a_reported_input_becomes_the_hosts_own(
        met,
        peer_id,
        route,
        next,
        i,
        p,
        monitor,
        route.input,
    );
    assert(is_plugged_into(next.peers@[p], monitor, route.input));
    assert(is_host_of(next.peers@, peer_id, p)) by {
        assert forall|q: int| 0 <= q < p implies (#[trigger] next.peers@[q]).id@ != peer_id by {
            assert(met.peers@[q].id@ != peer_id);
        }
    }
    lemma_routes_to_other_displays(states, peer_id, routes, r + 1, n, p, i);
    assert(states.last() == states[n]);
    lemma_plugged(after.peers@[p], monitor);
    if !is_plugged_into(before.peers@[p], monitor, route.input) {
        assert(route_verdict(states[r], peer_id, routes[r]) == PeerRouteOutcome::Applied);
    }
}

/// Where nothing is said to be adopted, nothing changed; and where a host reported
/// nothing at all, the user is warned.
pub proof fn an_adoption_says_whether_anything_changed(
    locale: UiLocale,
    before: AppSettings,
    peer_id: Seq<char>,
    response: AgentResponse,
    after: AppSettings,
    adoption: RouteAdoption,
)
    requires
        are_routes_adopted(locale, before, peer_id, response, after, adoption),
    ensures
        !adoption.applied ==> after == before,
        response.display_routes@.len() == 0 && response.display_route is None ==> adoption.warning
            && after == before,
{
    let routes = reported_routes(response);
    let states = choose|states: Seq<AppSettings>|
        {
            &&& #[trigger] went_through(states, peer_id, routes)
            &&& states[0] == before
            &&& states.last() == after
            &&& describes_adoption(adoption, locale, states, peer_id, routes)
        };
    if !adoption.applied {
        lemma_nothing_applied(states, peer_id, routes, routes.len() as int);
        assert(states.last() == states[routes.len() as int]);
    }
}

proof fn lemma_nothing_applied(
    states: Seq<AppSettings>,
    peer_id: Seq<char>,
    routes: Seq<AgentDisplayRoute>,
    n: int,
)
    requires
        went_through(states, peer_id, routes),
        0 <= n <= routes.len(),
        !crate::routes::some_applied(states, peer_id, routes),
    ensures
        states[n] == states[0],
    decreases n,
{
    if n > 0 {
        lemma_nothing_applied(states, peer_id, routes, n - 1);
        assert(crate::routes::is_route_step(
            states[n - 1],
            peer_id,
            routes[n - 1],
            states[n - 1 + 1],
        ));
        assert(route_verdict(states[n - 1], peer_id, routes[n - 1])
            != PeerRouteOutcome::Applied);
    }
}

} // verus!
