//! What the operations are for, said of what goes in and what comes out. The
//! words of these laws are defined here, by the data alone.

use crate::domain::{DisplayInput, Identity, MonitorFingerprint, MonitorIdentityLink};
use crate::lists::{first_at, lemma_first_at, lemma_first_at_is};
use crate::settings::{assigned_to, has_id, has_key, HostRoute, SelectedMonitor};
use vstd::prelude::*;

pub mod admission;
pub mod adopting;
pub mod attachment;
pub mod claims;
pub mod dashboard;
pub mod devices;
pub mod entries;
pub mod exchange;
pub mod menus;
pub mod naming;
pub mod network;
pub mod reporting;
pub mod reports;
pub mod routing;
pub mod saving;
pub mod setup;
pub mod sharing;
pub mod switching;
pub mod telling;

verus! {

/// Whether a text is the frontend-facing id of an identity: maker, product and
/// serial number between colons.
pub open spec fn is_keyed(identity: Identity, key: Seq<char>) -> bool {
    key == identity.manufacturer + ":"@ + identity.product + ":"@ + match identity.serial {
        Some(serial) => serial,
        None => ""@,
    }
}

/// Whether the shared display number `m` is the first one under `key`.
pub open spec fn is_display_under(monitors: Seq<SelectedMonitor>, key: Seq<char>, m: int) -> bool {
    &&& 0 <= m < monitors.len()
    &&& is_keyed(monitors[m].fingerprint@, key)
    &&& forall|j: int| 0 <= j < m ==> !is_keyed((#[trigger] monitors[j]).fingerprint@, key)
}

/// Whether the paired host number `p` is the first one of an id.
pub open spec fn is_host_of(peers: Seq<HostRoute>, id: Seq<char>, p: int) -> bool {
    &&& 0 <= p < peers.len()
    &&& peers[p].id@ == id
    &&& forall|j: int| 0 <= j < p ==> (#[trigger] peers[j]).id@ != id
}

/// Whether a host is plugged into `input` of a display: the first entry that it
/// has for the display says so.
pub open spec fn is_plugged_into(peer: HostRoute, monitor: Identity, input: DisplayInput) -> bool {
    exists|i: int|
        {
            &&& 0 <= i < peer.inputs@.len()
            &&& (#[trigger] peer.inputs@[i]).monitor@ == monitor
            &&& peer.inputs@[i].input == input
            &&& forall|j: int| 0 <= j < i ==> (#[trigger] peer.inputs@[j]).monitor@ != monitor
        }
}

/// Whether nothing is known of which input of a display a host is plugged into.
pub open spec fn is_unplugged(peer: HostRoute, monitor: Identity) -> bool {
    forall|i: int| 0 <= i < peer.inputs@.len() ==> (#[trigger] peer.inputs@[i]).monitor@ != monitor
}

/// Whether a shared display is said to show a route; one without a route shows
/// this computer.
pub open spec fn is_showing(selected: SelectedMonitor, route: Seq<char>) -> bool {
    match selected.active_route {
        Some(shown) => shown@ == route,
        None => route == "local"@,
    }
}

/// Whether two identities are of one maker and product.
pub open spec fn are_one_model(a: Identity, b: Identity) -> bool {
    a.manufacturer == b.manufacturer && a.product == b.product
}

/// Whether no claim about identities stands.
pub open spec fn nothing_is_claimed(links: Seq<MonitorIdentityLink>) -> bool {
    forall|i: int| 0 <= i < links.len() ==> (#[trigger] links[i]).primary is None
}

/// Two fingerprints are one identity exactly where every part of them agrees.
pub proof fn identities_are_told_apart_by_every_part(a: MonitorFingerprint, b: MonitorFingerprint)
    ensures
        a@ == b@ <==> {
            &&& a.manufacturer_id@ == b.manufacturer_id@
            &&& a.product_code@ == b.product_code@
            &&& match (a.serial_number, b.serial_number) {
                (Some(x), Some(y)) => x@ == y@,
                (None, None) => true,
                _ => false,
            }
        },
{
}

pub(crate) proof fn lemma_plugged(peer: HostRoute, monitor: Identity)
    ensures
        match peer.input_on(monitor) {
            Some(input) => is_plugged_into(peer, monitor, input),
            None => is_unplugged(peer, monitor),
        },
        forall|input: DisplayInput|
            is_plugged_into(peer, monitor, input) ==> peer.input_on(monitor) == Some(input),
        is_unplugged(peer, monitor) ==> peer.input_on(monitor) is None,
{
    let inputs = peer.inputs@;
    let wanted = assigned_to(monitor);
    lemma_first_at(inputs, wanted);
    let n = first_at(inputs, wanted);
    assert forall|j: int| 0 <= j < n implies (#[trigger] inputs[j]).monitor@ != monitor by {
        assert(!wanted(inputs[j]));
    }
    if n < inputs.len() {
        assert(wanted(inputs[n]));
    }
    assert forall|input: DisplayInput| is_plugged_into(peer, monitor, input) implies peer.input_on(
        monitor,
    ) == Some(input) by {
        let i = choose|i: int|
            {
                &&& 0 <= i < peer.inputs@.len()
                &&& (#[trigger] peer.inputs@[i]).monitor@ == monitor
                &&& peer.inputs@[i].input == input
                &&& forall|j: int| 0 <= j < i ==> (#[trigger] peer.inputs@[j]).monitor@ != monitor
            };
        lemma_first_at_is(inputs, wanted, i);
    }
}

pub(crate) proof fn lemma_host(peers: Seq<HostRoute>, id: Seq<char>)
    ensures
        ({
            let p = first_at(peers, has_id(id));
            &&& 0 <= p <= peers.len()
            &&& p < peers.len() ==> is_host_of(peers, id, p)
            &&& p == peers.len() ==> forall|j: int|
                0 <= j < peers.len() ==> (#[trigger] peers[j]).id@ != id
        }),
        forall|p: int| #[trigger] is_host_of(peers, id, p) ==> first_at(peers, has_id(id)) == p,
{
    let wanted = has_id(id);
    lemma_first_at(peers, wanted);
    let p = first_at(peers, wanted);
    assert forall|j: int| 0 <= j < p implies (#[trigger] peers[j]).id@ != id by {
        assert(!wanted(peers[j]));
    }
    assert forall|p: int| #[trigger] is_host_of(peers, id, p) implies first_at(peers, wanted)
        == p by {
        lemma_first_at_is(peers, wanted, p);
    }
}

pub(crate) proof fn lemma_display_under(monitors: Seq<SelectedMonitor>, key: Seq<char>)
    ensures
        ({
            let m = first_at(monitors, has_key(key));
            &&& 0 <= m <= monitors.len()
            &&& m < monitors.len() ==> is_display_under(monitors, key, m)
            &&& m == monitors.len() ==> forall|j: int|
                0 <= j < monitors.len() ==> !is_keyed((#[trigger] monitors[j]).fingerprint@, key)
        }),
        forall|m: int| #[trigger]
            is_display_under(monitors, key, m) ==> first_at(monitors, has_key(key)) == m,
{
    let wanted = has_key(key);
    lemma_first_at(monitors, wanted);
    let m = first_at(monitors, wanted);
    assert forall|j: int| 0 <= j < m implies !is_keyed(
        (#[trigger] monitors[j]).fingerprint@,
        key,
    ) by {
        assert(!wanted(monitors[j]));
    }
    assert forall|m: int| #[trigger] is_display_under(monitors, key, m) implies first_at(
        monitors,
        wanted,
    ) == m by {
        lemma_first_at_is(monitors, wanted, m);
    }
}

} // verus!
