//! What paired hosts tell each other of the inputs they are plugged into, and
//! what becomes of it.

use crate::agent::{AgentDisplayRoute, AgentResponse};
use crate::domain::{DisplayInput, Identity};
use crate::laws::routing::{is_named, one_display_is_named, the_display_meant_is_the_named_one};
use crate::laws::{is_host_of, is_plugged_into, is_showing, is_unplugged, lemma_host, lemma_plugged};
use crate::lists::{first_at, lemma_first_at, some_item};
use crate::locale::UiLocale;
use crate::routes::{
    is_route_step, is_taken, offers, other_user, reported_routes, route_verdict, PeerRouteOutcome,
};
use crate::settings::{
    common_inputs, setting_an_input_sets_that_display_only, AppSettings, HostRoute, SelectedMonitor,
};
use crate::sharing::{is_ping_answer, own_routes};
use vstd::prelude::*;

verus! {

/// Whether a shared display has an input: it reported it or, where it reported
/// none at all, it is one that displays commonly have.
pub open spec fn has_input(selected: SelectedMonitor, input: DisplayInput) -> bool {
    match selected.supported_inputs {
        Some(inputs) => exists|i: int| 0 <= i < inputs@.len() && #[trigger] inputs@[i] == input,
        None => {
            ||| input.code == 0x01
            ||| input.code == 0x03
            ||| input.code == 0x0f
            ||| input.code == 0x11
            ||| input.code == 0x12
            ||| input.code == 0x1b
        },
    }
}

/// Whether nobody but `peer_id` is plugged into an input of a shared display.
pub open spec fn is_free(
    selected: SelectedMonitor,
    peers: Seq<HostRoute>,
    peer_id: Seq<char>,
    input: DisplayInput,
) -> bool {
    &&& selected.local_input != Some(input)
    &&& forall|q: int|
        0 <= q < peers.len() && (#[trigger] peers[q]).id@ != peer_id ==> !is_plugged_into(
            peers[q],
            selected.fingerprint@,
            input,
        )
}

proof fn lemma_has_input(selected: SelectedMonitor, input: DisplayInput)
    ensures
        offers(selected, input) <==> has_input(selected, input),
{
    if selected.supported_inputs is None {
        let common = common_inputs();
        assert(common.len() == 6);
        assert(common[0].code == 0x01 && common[1].code == 0x03 && common[2].code == 0x0f);
        assert(common[3].code == 0x11 && common[4].code == 0x12 && common[5].code == 0x1b);
        if has_input(selected, input) {
            let i: int = if input.code == 0x01 {
                0
            } else if input.code == 0x03 {
                1
            } else if input.code == 0x0f {
                2
            } else if input.code == 0x11 {
                3
            } else if input.code == 0x12 {
                4
            } else {
                5
            };
            assert(common[i] == input);
        }
    }
}

proof fn lemma_free(
    selected: SelectedMonitor,
    peers: Seq<HostRoute>,
    peer_id: Seq<char>,
    input: DisplayInput,
)
    ensures
        is_taken(selected, peers, peer_id, input) <==> !is_free(selected, peers, peer_id, input),
{
    let wanted = other_user(peer_id, selected.fingerprint@, input);
    lemma_first_at(peers, wanted);
    assert forall|q: int| 0 <= q < peers.len() implies (wanted(#[trigger] peers[q]) <==> peers[q].id@
        != peer_id && is_plugged_into(peers[q], selected.fingerprint@, input)) by {
        lemma_plugged(peers[q], selected.fingerprint@);
    }
    if some_item(peers, wanted) {
        assert(wanted(peers[first_at(peers, wanted)]));
    }
}

/// What becomes of an input that a paired host reports for a shared display: it
/// becomes that host's input of that display exactly where the display has it,
/// nobody else uses it, and the host either vouches for it or has no input there
/// yet. Nothing else changes, and otherwise nothing at all.
pub proof fn a_reported_input_becomes_the_hosts_own(
    before: AppSettings,
    peer_id: Seq<char>,
    route: AgentDisplayRoute,
    after: AppSettings,
    i: int,
    p: int,
    other: Identity,
    x: DisplayInput,
)
    requires
        is_route_step(before, peer_id, route, after),
        is_named(
            before.shared_monitors@,
            before.monitor_identity_links@,
            route.monitor@,
            i,
        ),
        is_host_of(before.peers@, peer_id, p),
    ensures
        ({
            let selected = before.shared_monitors@[i];
            let monitor = selected.fingerprint@;
            let verdict = route_verdict(before, peer_id, route);
            let mine = before.peers@[p];
            &&& verdict == if !has_input(selected, route.input) {
                PeerRouteOutcome::Unsupported
            } else if is_plugged_into(mine, monitor, route.input) {
                PeerRouteOutcome::Unchanged
            } else if !route.confirmed && !is_unplugged(mine, monitor) {
                PeerRouteOutcome::Kept
            } else if !is_free(selected, before.peers@, peer_id, route.input) {
                PeerRouteOutcome::Taken
            } else {
                PeerRouteOutcome::Applied
            }
            &&& verdict != PeerRouteOutcome::Applied ==> after == before
            &&& verdict == PeerRouteOutcome::Applied ==> {
                &&& after.peers@.len() == before.peers@.len()
                &&& is_plugged_into(after.peers@[p], monitor, route.input)
                &&& after.peers@[p].id == mine.id
                &&& after.peers@[p].address == mine.address
                &&& forall|q: int|
                    0 <= q < before.peers@.len() && q != p ==> #[trigger] after.peers@[q]
                        == before.peers@[q]
                &&& other != monitor ==> (is_plugged_into(after.peers@[p], other, x)
                    <==> is_plugged_into(mine, other, x))
                &&& after.shared_monitors == before.shared_monitors
            }
        }),
{
    let selected = before.shared_monitors@[i];
    let monitor = selected.fingerprint@;
    let mine = before.peers@[p];
    one_display_is_named(
        before.shared_monitors@,
        before.monitor_identity_links@,
        route.monitor,
        i,
    );
    lemma_host(before.peers@, peer_id);
    lemma_has_input(selected, route.input);
    lemma_free(selected, before.peers@, peer_id, route.input);
    lemma_plugged(mine, monitor);
    lemma_plugged(mine, other);
    lemma_plugged(after.peers@[p], monitor);
    lemma_plugged(after.peers@[p], other);
    setting_an_input_sets_that_display_only(
        mine.inputs@,
        selected.fingerprint,
        Some(route.input),
        other,
    );
    if route_verdict(before, peer_id, route) == PeerRouteOutcome::Applied {
        assert forall|q: int| 0 <= q < before.peers@.len() && q != p implies
            #[trigger] after.peers@[q] == before.peers@[q] by {}
    }
}

/// A report for a display that is not shared, or of a host that is not paired,
/// changes nothing.
pub proof fn a_report_of_strangers_changes_nothing(
    before: AppSettings,
    peer_id: Seq<char>,
    route: AgentDisplayRoute,
    after: AppSettings,
)
    requires
        is_route_step(before, peer_id, route, after),
        (forall|i: int|
            !#[trigger] is_named(
                before.shared_monitors@,
                before.monitor_identity_links@,
                route.monitor@,
                i,
            )) || (forall|p: int|
            0 <= p < before.peers@.len() ==> (#[trigger] before.peers@[p]).id@ != peer_id),
    ensures
        after == before,
{
    the_display_meant_is_the_named_one(
        before.shared_monitors@,
        before.monitor_identity_links@,
        route.monitor,
    );
    lemma_host(before.peers@, peer_id);
}

/// Whether a route tells the input of a shared display, vouched for exactly where
/// the display shows this computer.
pub open spec fn tells_input_of(route: AgentDisplayRoute, selected: SelectedMonitor) -> bool {
    &&& route.monitor@ == selected.fingerprint@
    &&& Some(route.input) == selected.local_input
    &&& route.confirmed == is_showing(selected, "local"@)
}

proof fn lemma_own_routes(monitors: Seq<SelectedMonitor>)
    ensures
        forall|k: int|
            0 <= k < monitors.len() && (#[trigger] monitors[k]).local_input is Some ==> exists|
                r: int,
            |
                0 <= r < own_routes(monitors).len() && tells_input_of(
                    #[trigger] own_routes(monitors)[r],
                    monitors[k],
                ),
        forall|r: int|
            0 <= r < own_routes(monitors).len() ==> exists|k: int|
                0 <= k < monitors.len() && tells_input_of(
                    #[trigger] own_routes(monitors)[r],
                    #[trigger] monitors[k],
                ),
        own_routes(monitors).len() <= monitors.len(),
    decreases monitors.len(),
{
    if monitors.len() > 0 {
        let front = monitors.drop_last();
        let rest = own_routes(front);
        let whole = own_routes(monitors);
        let n = monitors.len() - 1;
        lemma_own_routes(front);
        assert forall|k: int|
            0 <= k < monitors.len() && (#[trigger] monitors[k]).local_input is Some implies exists|
            r: int,
        |
            0 <= r < whole.len() && tells_input_of(#[trigger] whole[r], monitors[k]) by {
            if k < n {
                assert(front[k] == monitors[k]);
                let r = choose|r: int|
                    0 <= r < rest.len() && tells_input_of(#[trigger] rest[r], front[k]);
                assert(whole[r] == rest[r]);
            } else {
                assert(tells_input_of(whole[whole.len() - 1], monitors[k]));
            }
        }
        assert forall|r: int| 0 <= r < whole.len() implies exists|k: int|
            0 <= k < monitors.len() && tells_input_of(
                #[trigger] whole[r],
                #[trigger] monitors[k],
            ) by {
            if r < rest.len() {
                assert(whole[r] == rest[r]);
                let k = choose|k: int|
                    0 <= k < front.len() && tells_input_of(
                        #[trigger] rest[r],
                        #[trigger] front[k],
                    );
                assert(monitors[k] == front[k]);
            } else {
                assert(tells_input_of(whole[r], monitors[n]));
            }
        }
    }
}

/// A paired host that asks is told the input of every shared display for which
/// this computer knows it, and vouched for exactly where the display shows this
/// computer; nothing else is told of inputs. It is told the order, and every
/// claim about identities, as they are saved.
pub proof fn a_ping_tells_every_known_input(
    locale: UiLocale,
    settings: AppSettings,
    response: AgentResponse,
)
    requires
        is_ping_answer(locale, Some(settings), response),
    ensures
        response.ready,
        response.protocol_version == 2,
        forall|k: int|
            0 <= k < settings.shared_monitors@.len() && (
            #[trigger] settings.shared_monitors@[k]).local_input is Some ==> exists|r: int|
                0 <= r < response.display_routes@.len() && tells_input_of(
                    #[trigger] response.display_routes@[r],
                    settings.shared_monitors@[k],
                ),
        forall|r: int|
            0 <= r < response.display_routes@.len() ==> exists|k: int|
                0 <= k < settings.shared_monitors@.len() && tells_input_of(
                    #[trigger] response.display_routes@[r],
                    #[trigger] settings.shared_monitors@[k],
                ),
        response.display_routes@.len() > 0 ==> response.display_route == Some(
            response.display_routes@[0],
        ),
        response.display_routes@.len() == 0 ==> response.display_route is None,
        response.host_order@ == settings.host_order@,
        response.host_order_updated_at_ms == settings.host_order_updated_at_ms,
        response.monitor_identity_links@ == settings.monitor_identity_links@,
{
    lemma_own_routes(settings.shared_monitors@);
}

/// A host that is on screen corrects what a paired host holds of it: what it
/// answers to a ping for a display that shows it becomes its input there, whatever
/// other input the asker held for it, as long as the display has that input and
/// nobody else uses it.
pub proof fn a_host_on_screen_corrects_a_wrong_input(
    locale: UiLocale,
    answering: AppSettings,
    response: AgentResponse,
    k: int,
    r: int,
    asking: AppSettings,
    peer_id: Seq<char>,
    i: int,
    p: int,
    after: AppSettings,
)
    requires
        is_ping_answer(locale, Some(answering), response),
        0 <= k < answering.shared_monitors@.len(),
        answering.shared_monitors@[k].local_input is Some,
        answering.shared_monitors@[k].active_route is None || (
        answering.shared_monitors@[k].active_route matches Some(route) && route@ == "local"@),
        0 <= r < response.display_routes@.len(),
        tells_input_of(response.display_routes@[r], answering.shared_monitors@[k]),
        is_named(
            asking.shared_monitors@,
            asking.monitor_identity_links@,
            answering.shared_monitors@[k].fingerprint@,
            i,
        ),
        is_host_of(asking.peers@, peer_id, p),
        !is_plugged_into(
            asking.peers@[p],
            asking.shared_monitors@[i].fingerprint@,
            answering.shared_monitors@[k].local_input->0,
        ),
        has_input(asking.shared_monitors@[i], answering.shared_monitors@[k].local_input->0),
        is_free(
            asking.shared_monitors@[i],
            asking.peers@,
            peer_id,
            answering.shared_monitors@[k].local_input->0,
        ),
        is_route_step(asking, peer_id, response.display_routes@[r], after),
    ensures
        reported_routes(response).contains(response.display_routes@[r]),
        route_verdict(asking, peer_id, response.display_routes@[r]) == PeerRouteOutcome::Applied,
        is_plugged_into(
            after.peers@[p],
            asking.shared_monitors@[i].fingerprint@,
            answering.shared_monitors@[k].local_input->0,
        ),
{
    let route = response.display_routes@[r];
    assert(reported_routes(response)[r] == route);
    a_reported_input_becomes_the_hosts_own(
        asking,
        peer_id,
        route,
        after,
        i,
        p,
        asking.shared_monitors@[i].fingerprint@,
        route.input,
    );
}

} // verus!
