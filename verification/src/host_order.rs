//! Host card ordering shared between paired hosts.
//!
//! The dashboard names hosts by route id: `"local"` for this computer and a
//! peer id for each paired host. Paired hosts cannot use `"local"` to refer to
//! each other, so the saved order uses each host's discovery id instead, which
//! is the same value every peer stores.

use crate::lists::{first_at, lemma_first_at_is};
use crate::text::{chars_of, contains_text, same_text, views};
use vstd::prelude::*;

verus! {

/// Route id the dashboard uses for this computer.
pub const LOCAL_ROUTE_ID: &'static str = "local";

/// Upper bound on hosts accepted in an order received from a paired host.
pub const MAX_SHARED_HOSTS: usize = 64;

/// Upper bound on a single host id received from a paired host.
pub const MAX_HOST_ID_LEN: usize = 128;

/// The texts of `list`, as characters.
pub open spec fn str_views(list: Seq<&str>) -> Seq<Seq<char>> {
    list.map_values(|text: &str| text@)
}

/// The host that a route id names.
pub open spec fn host_of_route(route: Seq<char>, local_host_id: Seq<char>) -> Seq<char> {
    if route == "local"@ {
        local_host_id
    } else {
        route
    }
}

/// Hosts of this id.
pub open spec fn is_host(host: Seq<char>) -> spec_fn(Seq<char>) -> bool {
    |other: Seq<char>| other == host
}

/// The position of `host` in `order`, or the length of `order`.
pub open spec fn rank_of_host(order: Seq<Seq<char>>, host: Seq<char>) -> int {
    first_at(order, is_host(host))
}

/// The position of a route's host in `order`, or the length of `order`.
pub open spec fn rank(order: Seq<Seq<char>>, local: Seq<char>, route: Seq<char>) -> int {
    rank_of_host(order, host_of_route(route, local))
}

/// `sorted` with `route` behind every route that is not ranked after it.
pub open spec fn ranked_in(
    order: Seq<Seq<char>>,
    local: Seq<char>,
    sorted: Seq<Seq<char>>,
    route: Seq<char>,
) -> Seq<Seq<char>>
    decreases sorted.len(),
{
    if sorted.len() == 0 || rank(order, local, sorted.last()) <= rank(order, local, route) {
        sorted.push(route)
    } else {
        ranked_in(order, local, sorted.drop_last(), route).push(sorted.last())
    }
}

/// `routes` by their rank in `order`; routes of one rank keep their order.
pub open spec fn by_rank(
    order: Seq<Seq<char>>,
    local: Seq<char>,
    routes: Seq<Seq<char>>,
) -> Seq<Seq<char>>
    decreases routes.len(),
{
    if routes.len() == 0 {
        routes
    } else {
        ranked_in(order, local, by_rank(order, local, routes.drop_last()), routes.last())
    }
}

/// The route ids of this computer and its peers, this computer first.
pub open spec fn all_routes(peer_ids: Seq<Seq<char>>) -> Seq<Seq<char>> {
    seq!["local"@] + peer_ids
}

/// Whether no route is ranked before the one it follows.
pub open spec fn ranks_rise(order: Seq<Seq<char>>, local: Seq<char>, routes: Seq<Seq<char>>) -> bool {
    forall|i: int, j: int|
        0 <= i < j < routes.len() ==> rank(order, local, #[trigger] routes[i]) <= rank(
            order,
            local,
            #[trigger] routes[j],
        )
}

/// The routes of rank `n`, in order.
pub open spec fn of_rank(
    order: Seq<Seq<char>>,
    local: Seq<char>,
    routes: Seq<Seq<char>>,
    n: int,
) -> Seq<Seq<char>>
    decreases routes.len(),
{
    if routes.len() == 0 {
        routes
    } else if rank(order, local, routes.last()) == n {
        of_rank(order, local, routes.drop_last(), n).push(routes.last())
    } else {
        of_rank(order, local, routes.drop_last(), n)
    }
}

proof fn lemma_ranked_in(
    order: Seq<Seq<char>>,
    local: Seq<char>,
    sorted: Seq<Seq<char>>,
    route: Seq<char>,
    n: int,
)
    requires
        0 <= n <= sorted.len(),
        n > 0 ==> rank(order, local, sorted[n - 1]) <= rank(order, local, route),
        forall|j: int|
            n <= j < sorted.len() ==> rank(order, local, #[trigger] sorted[j]) > rank(
                order,
                local,
                route,
            ),
    ensures
        ranked_in(order, local, sorted, route) == sorted.insert(n, route),
    decreases sorted.len(),
{
    if n == sorted.len() {
        assert(sorted.insert(n, route) =~= sorted.push(route));
    } else {
        assert(rank(order, local, sorted[sorted.len() - 1]) > rank(order, local, route));
        lemma_ranked_in(order, local, sorted.drop_last(), route, n);
        assert(sorted.insert(n, route) =~= sorted.drop_last().insert(n, route).push(sorted.last()));
    }
}

proof fn lemma_ranked_in_keeps(
    order: Seq<Seq<char>>,
    local: Seq<char>,
    sorted: Seq<Seq<char>>,
    route: Seq<char>,
    n: int,
)
    requires
        ranks_rise(order, local, sorted),
    ensures
        ranks_rise(order, local, ranked_in(order, local, sorted, route)),
        ranked_in(order, local, sorted, route).len() == sorted.len() + 1,
        ranked_in(order, local, sorted, route).to_multiset() == sorted.to_multiset().insert(route),
        of_rank(order, local, ranked_in(order, local, sorted, route), n) == if rank(
            order,
            local,
            route,
        ) == n {
            of_rank(order, local, sorted, n).push(route)
        } else {
            of_rank(order, local, sorted, n)
        },
    decreases sorted.len(),
{
    broadcast use vstd::seq_lib::group_to_multiset_ensures;

    if sorted.len() == 0 || rank(order, local, sorted.last()) <= rank(order, local, route) {
        let whole = sorted.push(route);
        assert(whole.drop_last() =~= sorted);
        assert forall|i: int, j: int| 0 <= i < j < whole.len() implies rank(
            order,
            local,
            #[trigger] whole[i],
        ) <= rank(order, local, #[trigger] whole[j]) by {
            if i < sorted.len() - 1 && j == sorted.len() {
                assert(rank(order, local, sorted[i]) <= rank(
                    order,
                    local,
                    sorted[sorted.len() - 1],
                ));
            }
        }
    } else {
        let front = sorted.drop_last();
        lemma_ranked_in_keeps(order, local, front, route, n);
        let inner = ranked_in(order, local, front, route);
        let whole = inner.push(sorted.last());
        assert(whole.drop_last() =~= inner);
        assert(front.push(sorted.last()) =~= sorted);
        assert(whole.to_multiset() =~= sorted.to_multiset().insert(route));
        assert forall|i: int| 0 <= i < inner.len() implies rank(order, local, #[trigger] inner[i])
            <= rank(order, local, sorted.last()) by {
            assert(inner.to_multiset().count(inner[i]) > 0);
            if inner[i] != route {
                assert(front.to_multiset().count(inner[i]) > 0);
                assert(front.contains(inner[i]));
                let k = choose|k: int| 0 <= k < front.len() && front[k] == inner[i];
                assert(rank(order, local, sorted[k]) <= rank(
                    order,
                    local,
                    sorted[sorted.len() - 1],
                ));
            }
        }
    }
}

/// Ordering the routes loses and repeats none, follows the order, and keeps
/// routes of one rank (such as all that the order does not name) as they were.
pub proof fn ordering_sorts_the_routes(
    order: Seq<Seq<char>>,
    local: Seq<char>,
    routes: Seq<Seq<char>>,
    n: int,
)
    ensures
        ranks_rise(order, local, by_rank(order, local, routes)),
        by_rank(order, local, routes).len() == routes.len(),
        by_rank(order, local, routes).to_multiset() == routes.to_multiset(),
        of_rank(order, local, by_rank(order, local, routes), n) == of_rank(order, local, routes, n),
    decreases routes.len(),
{
    broadcast use vstd::seq_lib::group_to_multiset_ensures;

    if routes.len() > 0 {
        ordering_sorts_the_routes(order, local, routes.drop_last(), n);
        lemma_ranked_in_keeps(
            order,
            local,
            by_rank(order, local, routes.drop_last()),
            routes.last(),
            n,
        );
        assert(routes.drop_last().push(routes.last()) =~= routes);
    }
}

fn route_rank(host_order: &[String], local_host_id: &str, route: &str) -> (at: usize)
    ensures
        at == rank(views(host_order@), local_host_id@, route@),
        at <= host_order@.len(),
{
    let host = if same_text(route, LOCAL_ROUTE_ID) {
        local_host_id
    } else {
        route
    };
    let mut i: usize = 0;
    while i < host_order.len() && !same_text(&host_order[i], host)
        invariant
            i <= host_order@.len(),
            forall|j: int| 0 <= j < i ==> #[trigger] views(host_order@)[j] != host@,
        decreases host_order@.len() - i,
    {
        assert(views(host_order@)[i as int] == host_order@[i as int]@);
        i += 1;
    }
    proof {
        if i < host_order@.len() {
            assert(views(host_order@)[i as int] == host_order@[i as int]@);
        }
        lemma_first_at_is(views(host_order@), is_host(host@), i as int);
    }
    i
}

/// Route ids for this computer and `peer_ids`, sorted by `host_order`. Hosts
/// missing from the order keep their original relative position after the
/// ordered ones, so a newly paired host appears last.
pub fn ordered_route_ids(host_order: &[String], local_host_id: &str, peer_ids: &[&str]) -> (routes:
    Vec<String>)
    ensures
        views(routes@) == by_rank(
            views(host_order@),
            local_host_id@,
            all_routes(str_views(peer_ids@)),
        ),
{
    let ghost order = views(host_order@);
    let ghost all = all_routes(str_views(peer_ids@));
    let mut routes: Vec<String> = vec![LOCAL_ROUTE_ID.to_owned()];
    proof {
        let first = all.take(1);
        assert(first.drop_last() =~= seq![]);
        assert(first.last() == "local"@);
        assert(by_rank(order, local_host_id@, first.drop_last()) =~= seq![]);
        assert(views(routes@) =~= seq!["local"@]);
        assert(by_rank(order, local_host_id@, first) =~= seq!["local"@]);
    }
    let mut i: usize = 0;
    while i < peer_ids.len()
        invariant
            i <= peer_ids@.len(),
            order == views(host_order@),
            all == all_routes(str_views(peer_ids@)),
            views(routes@) == by_rank(order, local_host_id@, all.take(i + 1)),
        decreases peer_ids@.len() - i,
    {
        let route = peer_ids[i];
        proof {
            assert(all.take(i + 2).drop_last() =~= all.take(i + 1));
            assert(all.take(i + 2).last() == route@);
        }
        let place: usize = route_rank(host_order, local_host_id, route);
        let mut at: usize = routes.len();
        while at > 0 && route_rank(host_order, local_host_id, &routes[at - 1]) > place
            invariant
                at <= routes@.len(),
                order == views(host_order@),
                place == rank(order, local_host_id@, route@),
                forall|j: int|
                    at <= j < routes@.len() ==> rank(
                        order,
                        local_host_id@,
                        #[trigger] views(routes@)[j],
                    ) > place,
            decreases at,
        {
            at -= 1;
        }
        let ghost before = views(routes@);
        proof {
            if at > 0 {
                assert(before[at - 1] == routes@[at - 1]@);
            }
            lemma_ranked_in(order, local_host_id@, before, route@, at as int);
        }
        routes.insert(at, route.to_owned());
        assert(views(routes@) =~= before.insert(at as int, route@));
        i += 1;
    }
    assert(all.take(all.len() as int) =~= all);
    routes
}

/// Whether `route_ids` lists this computer and every paired host exactly once.
pub open spec fn lists_every_host_once(
    route_ids: Seq<Seq<char>>,
    peer_ids: Seq<Seq<char>>,
) -> bool {
    &&& route_ids.no_duplicates()
    &&& forall|route: Seq<char>| #[trigger]
        route_ids.contains(route) <==> all_routes(peer_ids).contains(route)
}

/// The hosts that `route_ids` names, in order.
pub open spec fn named_hosts(route_ids: Seq<Seq<char>>, local: Seq<char>) -> Seq<Seq<char>> {
    route_ids.map_values(|route: Seq<char>| host_of_route(route, local))
}

/// The hosts of `previous` that are not among `known`, in order.
pub open spec fn unknown_hosts(previous: Seq<Seq<char>>, known: Seq<Seq<char>>) -> Seq<Seq<char>> {
    previous.filter(|host: Seq<char>| !known.contains(host))
}

/// The order to save: the hosts as listed, followed by those of the previous
/// order that this computer does not know.
pub open spec fn saved_order(
    route_ids: Seq<Seq<char>>,
    local: Seq<char>,
    previous: Seq<Seq<char>>,
) -> Seq<Seq<char>> {
    let known = named_hosts(route_ids, local);
    known + unknown_hosts(previous, known)
}

fn is_route(route: &str, peer_ids: &[&str]) -> (yes: bool)
    ensures
        yes == all_routes(str_views(peer_ids@)).contains(route@),
{
    let ghost all = all_routes(str_views(peer_ids@));
    if same_text(route, LOCAL_ROUTE_ID) {
        assert(all[0] == route@);
        return true;
    }
    let mut i: usize = 0;
    while i < peer_ids.len()
        invariant
            i <= peer_ids@.len(),
            all == all_routes(str_views(peer_ids@)),
            forall|j: int| 0 <= j < i + 1 ==> #[trigger] all[j] != route@,
        decreases peer_ids@.len() - i,
    {
        assert(all[i + 1] == peer_ids@[i as int]@);
        if same_text(peer_ids[i], route) {
            return true;
        }
        i += 1;
    }
    false
}

/// Converts a dashboard route order into a host order to save and share.
/// `route_ids` must list this computer and every paired host exactly once.
/// Hosts in `previous` that this computer does not know (paired only with
/// another host) keep their relative order after the known ones. Returns
/// `None` when `route_ids` is not such a list.
pub fn host_order_from_route_ids(
    route_ids: &[String],
    local_host_id: &str,
    peer_ids: &[&str],
    previous: &[String],
) -> (result: Option<Vec<String>>)
    ensures
        match result {
            Some(order) => {
                &&& lists_every_host_once(views(route_ids@), str_views(peer_ids@))
                &&& views(order@) == saved_order(
                    views(route_ids@),
                    local_host_id@,
                    views(previous@),
                )
            },
            None => !lists_every_host_once(views(route_ids@), str_views(peer_ids@)),
        },
{
    let ghost routes = views(route_ids@);
    let ghost all = all_routes(str_views(peer_ids@));
    if !all_distinct(route_ids) {
        return None;
    }
    let mut known: Vec<String> = Vec::new();
    let mut i: usize = 0;
    while i < route_ids.len()
        invariant
            i <= route_ids@.len(),
            routes == views(route_ids@),
            all == all_routes(str_views(peer_ids@)),
            forall|j: int| 0 <= j < i ==> all.contains(#[trigger] routes[j]),
            views(known@) == named_hosts(routes.take(i as int), local_host_id@),
        decreases route_ids@.len() - i,
    {
        assert(routes[i as int] == route_ids@[i as int]@);
        if !is_route(&route_ids[i], peer_ids) {
            assert(routes.contains(routes[i as int]));
            return None;
        }
        let ghost before = views(known@);
        if same_text(&route_ids[i], LOCAL_ROUTE_ID) {
            known.push(local_host_id.to_owned());
        } else {
            known.push(route_ids[i].clone());
        }
        proof {
            assert(views(known@) =~= before.push(host_of_route(routes[i as int], local_host_id@)));
            assert(routes.take(i + 1) =~= routes.take(i as int).push(routes[i as int]));
            assert(named_hosts(routes.take(i + 1), local_host_id@) =~= before.push(
                host_of_route(routes[i as int], local_host_id@),
            ));
        }
        i += 1;
    }
    assert(routes.take(routes.len() as int) =~= routes);
    if !contains_text(route_ids, LOCAL_ROUTE_ID) {
        assert(all[0] == "local"@);
        assert(all.contains("local"@));
        return None;
    }
    let mut k: usize = 0;
    while k < peer_ids.len()
        invariant
            k <= peer_ids@.len(),
            routes == views(route_ids@),
            all == all_routes(str_views(peer_ids@)),
            routes.contains("local"@),
            forall|j: int| 0 <= j < k + 1 ==> routes.contains(#[trigger] all[j]),
        decreases peer_ids@.len() - k,
    {
        assert(all[k + 1] == peer_ids@[k as int]@);
        if !contains_text(route_ids, peer_ids[k]) {
            assert(all.contains(all[k + 1]));
            return None;
        }
        k += 1;
    }
    assert(lists_every_host_once(routes, str_views(peer_ids@))) by {
        assert forall|route: Seq<char>| #[trigger] routes.contains(route) implies all.contains(
            route,
        ) by {
            let j = choose|j: int| 0 <= j < routes.len() && routes[j] == route;
            assert(all.contains(routes[j]));
        }
        assert forall|route: Seq<char>| all.contains(route) implies #[trigger] routes.contains(
            route,
        ) by {
            let j = choose|j: int| 0 <= j < all.len() && all[j] == route;
            assert(routes.contains(all[j]));
        }
    }
    let ghost hosts = views(known@);
    let ghost keep = |host: Seq<char>| !hosts.contains(host);
    let ghost earlier = views(previous@);
    let mut order: Vec<String> = Vec::new();
    let mut unknown: Vec<String> = Vec::new();
    let mut n: usize = 0;
    while n < previous.len()
        invariant
            n <= previous@.len(),
            hosts == views(known@),
            earlier == views(previous@),
            keep == (|host: Seq<char>| !hosts.contains(host)),
            views(unknown@) == earlier.take(n as int).filter(keep),
        decreases previous@.len() - n,
    {
        proof {
            assert(earlier.take(n + 1).drop_last() =~= earlier.take(n as int));
            assert(earlier[n as int] == previous@[n as int]@);
            reveal(Seq::filter);
        }
        if !contains_text(&known, &previous[n]) {
            let ghost before = views(unknown@);
            unknown.push(previous[n].clone());
            assert(views(unknown@) =~= before.push(earlier[n as int]));
        }
        n += 1;
    }
    assert(earlier.take(earlier.len() as int) =~= earlier);
    order.append(&mut known);
    order.append(&mut unknown);
    assert(views(order@) =~= hosts + earlier.filter(keep));
    Some(order)
}

/// Whether no text of `list` occurs twice.
pub fn all_distinct(list: &[String]) -> (distinct: bool)
    ensures
        distinct == views(list@).no_duplicates(),
{
    let ghost texts = views(list@);
    let mut i: usize = 0;
    while i < list.len()
        invariant
            i <= list@.len(),
            texts == views(list@),
            forall|a: int, b: int| 0 <= a < b < i ==> texts[a] != texts[b],
        decreases list@.len() - i,
    {
        let mut j: usize = 0;
        while j < i
            invariant
                j <= i < list@.len(),
                texts == views(list@),
                forall|a: int| 0 <= a < j ==> texts[a] != texts[i as int],
            decreases i - j,
        {
            assert(texts[i as int] == list@[i as int]@ && texts[j as int] == list@[j as int]@);
            if same_text(&list[i], &list[j]) {
                assert(texts[i as int] == texts[j as int]);
                return false;
            }
            j += 1;
        }
        i += 1;
    }
    true
}

/// Saving the order that the dashboard shows and reading it back shows the
/// same order.
pub proof fn a_saved_order_is_shown_again(
    route_ids: Seq<Seq<char>>,
    local: Seq<char>,
    peer_ids: Seq<Seq<char>>,
    previous: Seq<Seq<char>>,
)
    requires
        lists_every_host_once(route_ids, peer_ids),
        peer_ids.no_duplicates(),
        !peer_ids.contains("local"@),
        !peer_ids.contains(local),
    ensures
        by_rank(saved_order(route_ids, local, previous), local, all_routes(peer_ids)) == route_ids,
{
    broadcast use vstd::seq_lib::group_to_multiset_ensures;

    let order = saved_order(route_ids, local, previous);
    let all = all_routes(peer_ids);
    let shown = by_rank(order, local, all);
    let hosts = named_hosts(route_ids, local);
    ordering_sorts_the_routes(order, local, all, 0);
    assert(all.no_duplicates()) by {
        assert forall|i: int, j: int| 0 <= i < j < all.len() implies all[i] != all[j] by {
            if i == 0 {
                assert(peer_ids[j - 1] == all[j]);
            } else {
                assert(peer_ids[i - 1] == all[i] && peer_ids[j - 1] == all[j]);
            }
        }
    }
    assert forall|i: int| 0 <= i < route_ids.len() implies rank(order, local, #[trigger] route_ids[i])
        == i by {
        let host = host_of_route(route_ids[i], local);
        assert forall|j: int| 0 <= j < i implies #[trigger] order[j] != host by {
            assert(order[j] == host_of_route(route_ids[j], local));
            lemma_routes_name_different_hosts(route_ids, local, peer_ids, j, i);
        }
        assert(order[i] == host);
        lemma_first_at_is(order, is_host(host), i);
    }
    lemma_multiset_bounds(shown, route_ids, all);
    assert forall|k: int| 0 <= k < shown.len() implies route_ids.contains(#[trigger] shown[k]) by {
        assert(shown.to_multiset().count(shown[k]) > 0);
        assert(all.to_multiset().count(shown[k]) > 0);
        assert(all.contains(shown[k]));
    }
    assert forall|i: int, j: int| 0 <= i < j < shown.len() implies rank(
        order,
        local,
        #[trigger] shown[i],
    ) < rank(order, local, #[trigger] shown[j]) by {
        assert(route_ids.contains(shown[i]) && route_ids.contains(shown[j]));
        assert(shown[i] != shown[j]);
    }
    assert forall|k: int| 0 <= k < shown.len() implies shown[k] == route_ids[k] by {
        lemma_strictly_rising(order, local, shown, k);
        lemma_strictly_rising_above(order, local, shown, route_ids.len() as int, k);
        assert(route_ids.contains(shown[k]));
        let m = choose|m: int| 0 <= m < route_ids.len() && route_ids[m] == shown[k];
        assert(rank(order, local, route_ids[m]) == m);
    }
    assert(shown =~= route_ids);
}

proof fn lemma_routes_name_different_hosts(
    route_ids: Seq<Seq<char>>,
    local: Seq<char>,
    peer_ids: Seq<Seq<char>>,
    i: int,
    j: int,
)
    requires
        lists_every_host_once(route_ids, peer_ids),
        !peer_ids.contains(local),
        0 <= i < j < route_ids.len(),
    ensures
        host_of_route(route_ids[i], local) != host_of_route(route_ids[j], local),
{
    let all = all_routes(peer_ids);
    assert(route_ids.contains(route_ids[i]) && route_ids.contains(route_ids[j]));
    let a = choose|a: int| 0 <= a < all.len() && all[a] == route_ids[i];
    let b = choose|b: int| 0 <= b < all.len() && all[b] == route_ids[j];
    if route_ids[i] != "local"@ {
        assert(peer_ids[a - 1] == route_ids[i]);
    }
    if route_ids[j] != "local"@ {
        assert(peer_ids[b - 1] == route_ids[j]);
    }
}

/// Sequences without duplicates and with the same members have the same length.
proof fn lemma_multiset_bounds(
    shown: Seq<Seq<char>>,
    route_ids: Seq<Seq<char>>,
    all: Seq<Seq<char>>,
)
    requires
        shown.to_multiset() == all.to_multiset(),
        all.no_duplicates(),
        route_ids.no_duplicates(),
        forall|route: Seq<char>| #[trigger] route_ids.contains(route) <==> all.contains(route),
    ensures
        shown.no_duplicates(),
        shown.len() == route_ids.len(),
{
    broadcast use vstd::seq_lib::group_to_multiset_ensures;

    all.lemma_multiset_has_no_duplicates();
    route_ids.unique_seq_to_set();
    all.unique_seq_to_set();
    assert(route_ids.to_set() =~= all.to_set());
    shown.lemma_multiset_has_no_duplicates_conv();
    assert(shown.len() == shown.to_multiset().len());
    assert(all.len() == all.to_multiset().len());
}

proof fn lemma_strictly_rising(
    order: Seq<Seq<char>>,
    local: Seq<char>,
    shown: Seq<Seq<char>>,
    k: int,
)
    requires
        0 <= k < shown.len(),
        forall|i: int| 0 <= i < shown.len() ==> rank(order, local, #[trigger] shown[i]) >= 0,
        forall|i: int, j: int|
            0 <= i < j < shown.len() ==> rank(order, local, #[trigger] shown[i]) < rank(
                order,
                local,
                #[trigger] shown[j],
            ),
    ensures
        rank(order, local, shown[k]) >= k,
    decreases k,
{
    if k > 0 {
        lemma_strictly_rising(order, local, shown, k - 1);
        assert(rank(order, local, shown[k - 1]) < rank(order, local, shown[k]));
    }
}

proof fn lemma_strictly_rising_above(
    order: Seq<Seq<char>>,
    local: Seq<char>,
    shown: Seq<Seq<char>>,
    n: int,
    k: int,
)
    requires
        0 <= k < shown.len() == n,
        forall|i: int| 0 <= i < shown.len() ==> rank(order, local, #[trigger] shown[i]) < n,
        forall|i: int, j: int|
            0 <= i < j < shown.len() ==> rank(order, local, #[trigger] shown[i]) < rank(
                order,
                local,
                #[trigger] shown[j],
            ),
    ensures
        rank(order, local, shown[k]) <= k,
    decreases n - k,
{
    if k < n - 1 {
        lemma_strictly_rising_above(order, local, shown, n, k + 1);
        assert(rank(order, local, shown[k]) < rank(order, local, shown[k + 1]));
    }
}

/// Letters and digits of ASCII, and the hyphen.
pub open spec fn host_id_char(c: char) -> bool {
    'a' <= c <= 'z' || 'A' <= c <= 'Z' || '0' <= c <= '9' || c == '-'
}

/// What a discovery id looks like: bounded, and made of letters, digits and
/// hyphens.
pub open spec fn valid_host_id(host: Seq<char>) -> bool {
    &&& 1 <= host.len() <= MAX_HOST_ID_LEN
    &&& forall|i: int| 0 <= i < host.len() ==> host_id_char(#[trigger] host[i])
}

/// Whether `host` looks like a discovery id: bounded and limited to the
/// characters that a discovery id is made of.
pub fn is_valid_host_id(host: &str) -> (valid: bool)
    ensures
        valid == valid_host_id(host@),
{
    let chars = chars_of(host);
    if chars.len() == 0 || chars.len() > MAX_HOST_ID_LEN {
        return false;
    }
    let mut i: usize = 0;
    while i < chars.len()
        invariant
            i <= chars@.len(),
            chars@ == host@,
            forall|j: int| 0 <= j < i ==> host_id_char(#[trigger] host@[j]),
        decreases chars@.len() - i,
    {
        let c = chars[i];
        if !(('a' <= c && c <= 'z') || ('A' <= c && c <= 'Z') || ('0' <= c && c <= '9') || c == '-') {
            assert(!host_id_char(host@[i as int]));
            return false;
        }
        i += 1;
    }
    true
}

/// A well-formed shared order: bounded, free of duplicates, and made of
/// discovery ids.
pub open spec fn valid_shared_order(order: Seq<Seq<char>>) -> bool {
    &&& order.len() <= MAX_SHARED_HOSTS
    &&& order.no_duplicates()
    &&& forall|i: int| 0 <= i < order.len() ==> valid_host_id(#[trigger] order[i])
}

/// Whether a host order received from a paired host is well formed: bounded,
/// free of duplicates, and made of discovery-id characters only.
pub fn is_valid_shared_host_order(order: &[String]) -> (valid: bool)
    ensures
        valid == valid_shared_order(views(order@)),
{
    if order.len() > MAX_SHARED_HOSTS {
        return false;
    }
    let mut i: usize = 0;
    while i < order.len()
        invariant
            i <= order@.len(),
            forall|j: int| 0 <= j < i ==> valid_host_id(#[trigger] views(order@)[j]),
        decreases order@.len() - i,
    {
        if !is_valid_host_id(&order[i]) {
            assert(!valid_host_id(views(order@)[i as int]));
            return false;
        }
        i += 1;
    }
    all_distinct(order)
}

} // verus!
