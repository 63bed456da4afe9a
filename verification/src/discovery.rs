//! The hosts that are announced right now, and the order they are shown in.

use crate::domain::DiscoveredPeer;
use crate::network::{discovered_peer, is_announced_peer, names_a_peer, Announcement};
use crate::text::{chars_of, same_text};
use vstd::prelude::*;

verus! {

/// The text in lower case, as Unicode maps it.
pub uninterp spec fn lowercase(text: Seq<char>) -> Seq<char>;

/// `str::to_lowercase` maps a text to lower case by Unicode's rules, whatever
/// the locale; what it gives depends on the text alone.
#[verifier::external_body]
fn to_lowercase(text: &str) -> (lower: String)
    ensures
        lower@ == lowercase(text@),
{
    text.to_lowercase()
}

/// Whether `a` comes before `b`, character by character.
pub open spec fn comes_before(a: Seq<char>, b: Seq<char>) -> bool
    decreases a.len(),
{
    if b.len() == 0 {
        false
    } else if a.len() == 0 {
        true
    } else if a[0] == b[0] {
        comes_before(a.drop_first(), b.drop_first())
    } else {
        a[0] < b[0]
    }
}

pub(crate) proof fn lemma_comes_before_is(a: Seq<char>, b: Seq<char>, n: int)
    requires
        0 <= n <= a.len(),
        n <= b.len(),
        forall|j: int| 0 <= j < n ==> #[trigger] a[j] == b[j],
        n == a.len() || n == b.len() || a[n] != b[n],
    ensures
        comes_before(a, b) == (n < b.len() && (n == a.len() || a[n] < b[n])),
    decreases a.len(),
{
    if n > 0 {
        assert(a[0] == b[0]);
        assert forall|j: int| 0 <= j < n - 1 implies #[trigger] a.drop_first()[j]
            == b.drop_first()[j] by {
            assert(a[j + 1] == b[j + 1]);
        }
        lemma_comes_before_is(a.drop_first(), b.drop_first(), n - 1);
    }
}

/// Whether `left` comes before `right`, character by character.
pub fn is_before(left: &str, right: &str) -> (yes: bool)
    ensures
        yes == comes_before(left@, right@),
{
    let a = chars_of(left);
    let b = chars_of(right);
    let mut n: usize = 0;
    while n < a.len() && n < b.len() && a[n] == b[n]
        invariant
            n <= a@.len(),
            n <= b@.len(),
            forall|j: int| 0 <= j < n ==> #[trigger] a@[j] == b@[j],
        decreases a@.len() - n,
    {
        n += 1;
    }
    proof {
        lemma_comes_before_is(a@, b@, n as int);
    }
    n < b.len() && (n == a.len() || a[n] < b[n])
}

/// Characters are ordered linearly, and so are texts.
pub proof fn comes_before_is_a_linear_order(a: Seq<char>, b: Seq<char>, c: Seq<char>)
    ensures
        !comes_before(a, a),
        comes_before(a, b) && comes_before(b, c) ==> comes_before(a, c),
        a != b ==> comes_before(a, b) || comes_before(b, a),
        !(comes_before(a, b) && comes_before(b, a)),
    decreases a.len() + b.len() + c.len(),
{
    if a.len() > 0 {
        comes_before_is_a_linear_order(
            a.drop_first(),
            if b.len() > 0 {
                b.drop_first()
            } else {
                b
            },
            if c.len() > 0 {
                c.drop_first()
            } else {
                c
            },
        );
        if b.len() > 0 && a[0] == b[0] && a.drop_first() == b.drop_first() {
            assert(a =~= seq![a[0]] + a.drop_first());
            assert(b =~= seq![b[0]] + b.drop_first());
        }
    } else {
        if b.len() == 0 {
            assert(a =~= b);
        }
    }
}

/// Whether `a`'s name, in lower case, comes before `b`'s.
pub open spec fn named_before(a: DiscoveredPeer, b: DiscoveredPeer) -> bool {
    comes_before(lowercase(a.name@), lowercase(b.name@))
}

/// `sorted` with `peer` behind every peer that is not named after it.
pub open spec fn named_in(sorted: Seq<DiscoveredPeer>, peer: DiscoveredPeer) -> Seq<DiscoveredPeer>
    decreases sorted.len(),
{
    if sorted.len() == 0 || !named_before(peer, sorted.last()) {
        sorted.push(peer)
    } else {
        named_in(sorted.drop_last(), peer).push(sorted.last())
    }
}

/// The peers by name, whatever the case; peers of one name keep their order.
pub open spec fn by_name(peers: Seq<DiscoveredPeer>) -> Seq<DiscoveredPeer>
    decreases peers.len(),
{
    if peers.len() == 0 {
        peers
    } else {
        named_in(by_name(peers.drop_last()), peers.last())
    }
}

proof fn lemma_named_in(sorted: Seq<DiscoveredPeer>, peer: DiscoveredPeer, n: int)
    requires
        0 <= n <= sorted.len(),
        n > 0 ==> !named_before(peer, sorted[n - 1]),
        forall|j: int| n <= j < sorted.len() ==> named_before(peer, #[trigger] sorted[j]),
    ensures
        named_in(sorted, peer) == sorted.insert(n, peer),
    decreases sorted.len(),
{
    if n == sorted.len() {
        assert(sorted.insert(n, peer) =~= sorted.push(peer));
    } else {
        assert(named_before(peer, sorted[sorted.len() - 1]));
        lemma_named_in(sorted.drop_last(), peer, n);
        assert(sorted.insert(n, peer) =~= sorted.drop_last().insert(n, peer).push(sorted.last()));
    }
}

/// Whether no peer is named before the one it follows.
pub open spec fn names_rise(peers: Seq<DiscoveredPeer>) -> bool {
    forall|i: int, j: int|
        0 <= i < j < peers.len() ==> !named_before(#[trigger] peers[j], #[trigger] peers[i])
}

proof fn lemma_named_in_keeps(sorted: Seq<DiscoveredPeer>, peer: DiscoveredPeer)
    requires
        names_rise(sorted),
    ensures
        names_rise(named_in(sorted, peer)),
        named_in(sorted, peer).to_multiset() == sorted.to_multiset().insert(peer),
    decreases sorted.len(),
{
    broadcast use vstd::seq_lib::group_to_multiset_ensures;

    if sorted.len() == 0 || !named_before(peer, sorted.last()) {
        let whole = sorted.push(peer);
        assert forall|i: int, j: int| 0 <= i < j < whole.len() implies !named_before(
            #[trigger] whole[j],
            #[trigger] whole[i],
        ) by {
            if j == sorted.len() && i < sorted.len() - 1 {
                let last = sorted[sorted.len() - 1];
                assert(!named_before(last, sorted[i]));
                comes_before_is_a_linear_order(
                    lowercase(peer.name@),
                    lowercase(sorted[i].name@),
                    lowercase(last.name@),
                );
                comes_before_is_a_linear_order(
                    lowercase(sorted[i].name@),
                    lowercase(last.name@),
                    lowercase(last.name@),
                );
            }
        }
    } else {
        let front = sorted.drop_last();
        let last = sorted.last();
        lemma_named_in_keeps(front, peer);
        let inner = named_in(front, peer);
        let whole = inner.push(last);
        assert(front.push(last) =~= sorted);
        assert(whole.to_multiset() =~= sorted.to_multiset().insert(peer));
        assert forall|i: int| 0 <= i < inner.len() implies !named_before(last, #[trigger] inner[i]) by {
            assert(inner.to_multiset().count(inner[i]) > 0);
            if inner[i] != peer {
                assert(front.to_multiset().count(inner[i]) > 0);
                assert(front.contains(inner[i]));
                let k = choose|k: int| 0 <= k < front.len() && front[k] == inner[i];
                assert(!named_before(sorted[sorted.len() - 1], sorted[k]));
            } else {
                comes_before_is_a_linear_order(
                    lowercase(peer.name@),
                    lowercase(last.name@),
                    lowercase(last.name@),
                );
            }
        }
    }
}

/// Sorting by name keeps every peer and puts none before one named earlier.
pub proof fn sorting_by_name_keeps_every_peer(peers: Seq<DiscoveredPeer>)
    ensures
        names_rise(by_name(peers)),
        by_name(peers).to_multiset() == peers.to_multiset(),
    decreases peers.len(),
{
    broadcast use vstd::seq_lib::group_to_multiset_ensures;

    if peers.len() > 0 {
        sorting_by_name_keeps_every_peer(peers.drop_last());
        lemma_named_in_keeps(by_name(peers.drop_last()), peers.last());
        assert(peers.drop_last().push(peers.last()) =~= peers);
    }
}

/// A host as announced under a full service name.
#[derive(Debug, PartialEq, Eq)]
pub struct PeerEntry {
    pub fullname: String,
    pub peer: DiscoveredPeer,
}

/// The hosts that are announced right now.
#[derive(Debug)]
pub struct PeerTable {
    pub entries: Vec<PeerEntry>,
}

/// What happens on the local network.
pub enum DiscoveryEvent {
    /// A service was resolved.
    Resolved(Announcement),
    /// The service of this full name is gone.
    Removed(String),
}

/// Entries under other full names.
pub open spec fn is_not_under(fullname: Seq<char>) -> spec_fn(PeerEntry) -> bool {
    |entry: PeerEntry| entry.fullname@ != fullname
}

/// The entries under other full names, in order.
pub open spec fn others(entries: Seq<PeerEntry>, fullname: Seq<char>) -> Seq<PeerEntry> {
    entries.filter(is_not_under(fullname))
}

/// The id that an announced host goes by.
pub open spec fn announced_id(announcement: Announcement) -> Seq<char> {
    match announcement.id {
        Some(id) => id@,
        None => announcement.fullname@,
    }
}

/// Whether this computer is not among the entries.
pub open spec fn without_host(entries: Seq<PeerEntry>, local_id: Seq<char>) -> bool {
    forall|i: int| 0 <= i < entries.len() ==> (#[trigger] entries[i]).peer.id@ != local_id
}

/// This computer never becomes one of its own peers.
pub proof fn this_computer_is_never_a_peer(
    before: Seq<PeerEntry>,
    entry: PeerEntry,
    announcement: Announcement,
    local_id: Seq<char>,
)
    requires
        without_host(before, local_id),
        is_announced_peer(announcement, entry.peer),
        announced_id(announcement) != local_id,
    ensures
        without_host(others(before, entry.fullname@), local_id),
        without_host(others(before, entry.fullname@).push(entry), local_id),
{
    let kept = others(before, entry.fullname@);
    let keep = is_not_under(entry.fullname@);
    assert forall|i: int| 0 <= i < kept.len() implies (#[trigger] kept[i]).peer.id@ != local_id by {
        assert(kept.contains(kept[i]));
        before.lemma_filter_contains_rev(keep, kept[i]);
        let j = choose|j: int| 0 <= j < before.len() && before[j] == kept[i];
        assert(before[j].peer.id@ != local_id);
    }
}

/// Whether `after` is `before` once an event was seen.
pub open spec fn is_observed(
    before: Seq<PeerEntry>,
    event: DiscoveryEvent,
    local_id: Seq<char>,
    after: Seq<PeerEntry>,
) -> bool {
    match event {
        DiscoveryEvent::Removed(fullname) => after == others(
            before,
            fullname@,
        ),
        DiscoveryEvent::Resolved(announcement) => if !names_a_peer(announcement)
            || announced_id(announcement) == local_id {
            after == before
        } else {
            exists|entry: PeerEntry|
                {
                    &&& #[trigger] is_announced_peer(announcement, entry.peer)
                    &&& entry.fullname == announcement.fullname
                    &&& after == others(
                        before,
                        entry.fullname@,
                    ).push(entry)
                }
        },
    }
}

impl PeerTable {
    /// No full name is there twice.
    pub open spec fn well_formed(self) -> bool {
        forall|i: int, j: int|
            0 <= i < j < self.entries@.len() ==> (#[trigger] self.entries@[i]).fullname@ != (
            #[trigger] self.entries@[j]).fullname@
    }

    /// The announced peers.
    pub open spec fn announced(self) -> Seq<DiscoveredPeer> {
        self.entries@.map_values(|entry: PeerEntry| entry.peer)
    }

    pub fn new() -> (table: Self)
        ensures
            table.entries@.len() == 0,
            table.well_formed(),
    {
        PeerTable { entries: Vec::new() }
    }

    fn remove(&mut self, fullname: &str)
        requires
            old(self).well_formed(),
        ensures
            final(self).entries@ == others(old(self).entries@, fullname@),
            final(self).well_formed(),
            forall|i: int|
                0 <= i < final(self).entries@.len() ==> (
                #[trigger] final(self).entries@[i]).fullname@ != fullname@,
    {
        let ghost all = self.entries@;
        let ghost keep = is_not_under(fullname@);
        let mut i: usize = 0;
        assert(all.skip(0) =~= all);
        assert(Seq::<PeerEntry>::empty() =~= all.take(0).filter(keep)) by {
            reveal(Seq::filter);
        }
        let ghost mut kept = Seq::<PeerEntry>::empty();
        let ghost mut done: int = 0;
        while i < self.entries.len()
            invariant
                i <= self.entries@.len(),
                keep == is_not_under(fullname@),
                kept == self.entries@.take(i as int),
                0 <= done <= all.len(),
                kept == all.take(done).filter(keep),
                self.entries@.skip(i as int) == all.skip(done),
                forall|j: int| 0 <= j < i ==> (#[trigger] self.entries@[j]).fullname@ != fullname@,
                forall|j: int, k: int|
                    0 <= j < k < self.entries@.len() ==> (#[trigger] self.entries@[j]).fullname@
                        != (#[trigger] self.entries@[k]).fullname@,
            decreases self.entries@.len() - i,
        {
            let ghost before = self.entries@;
            proof {
                assert(before.skip(i as int).len() == all.skip(done).len());
                assert(before.skip(i as int)[0] == all.skip(done)[0]);
                assert(all.take(done + 1).drop_last() =~= all.take(done));
                reveal(Seq::filter);
            }
            if same_text(&self.entries[i].fullname, fullname) {
                self.entries.remove(i);
                proof {
                    assert(self.entries@.take(i as int) =~= kept);
                    assert(self.entries@.skip(i as int) =~= before.skip(i as int).skip(1));
                    assert(all.skip(done + 1) =~= all.skip(done).skip(1));
                    done = done + 1;
                }
            } else {
                proof {
                    kept = kept.push(before[i as int]);
                    assert(before.take(i + 1) =~= kept);
                    assert(before.skip(i + 1) =~= before.skip(i as int).skip(1));
                    assert(all.skip(done + 1) =~= all.skip(done).skip(1));
                    done = done + 1;
                }
                i += 1;
            }
        }
        proof {
            assert(all.skip(done).len() == 0);
            assert(all.take(done) =~= all);
            assert(self.entries@.take(i as int) =~= self.entries@);
        }
    }

    /// The table after an event: a resolved host other than this one takes the
    /// place of what was announced under its full name, and a removed service
    /// takes its host away. Anything else changes nothing.
    pub fn observe(&mut self, event: DiscoveryEvent, local_id: &str)
        requires
            old(self).well_formed(),
        ensures
            final(self).well_formed(),
            is_observed(old(self).entries@, event, local_id@, final(self).entries@),
    {
        match event {
            DiscoveryEvent::Removed(fullname) => {
                self.remove(&fullname);
            },
            DiscoveryEvent::Resolved(announcement) => {
                if let Some(peer) = discovered_peer(&announcement) {
                    if !same_text(&peer.id, local_id) {
                        self.remove(&announcement.fullname);
                        let entry = PeerEntry { fullname: announcement.fullname, peer };
                        assert(is_announced_peer(announcement, entry.peer));
                        self.entries.push(entry);
                    }
                }
            },
        }
    }

    /// The announced hosts by name, whatever the case.
    pub fn peers(&self) -> (peers: Vec<DiscoveredPeer>)
        ensures
            peers@ == by_name(self.announced()),
    {
        let ghost all = self.announced();
        let mut sorted: Vec<DiscoveredPeer> = Vec::new();
        let mut keys: Vec<String> = Vec::new();
        let mut i: usize = 0;
        while i < self.entries.len()
            invariant
                i <= self.entries@.len(),
                all == self.announced(),
                sorted@ == by_name(all.take(i as int)),
                keys@.len() == sorted@.len(),
                forall|j: int|
                    0 <= j < keys@.len() ==> (#[trigger] keys@[j])@ == lowercase(sorted@[j].name@),
            decreases self.entries@.len() - i,
        {
            let peer = self.entries[i].peer.clone();
            proof {
                assert(all.take(i + 1).drop_last() =~= all.take(i as int));
                assert(all.take(i + 1).last() == peer);
            }
            let key = to_lowercase(&peer.name);
            let mut at: usize = sorted.len();
            while at > 0 && is_before(&key, &keys[at - 1])
                invariant
                    at <= sorted@.len(),
                    keys@.len() == sorted@.len(),
                    key@ == lowercase(peer.name@),
                    forall|j: int|
                        0 <= j < keys@.len() ==> (#[trigger] keys@[j])@ == lowercase(
                            sorted@[j].name@,
                        ),
                    forall|j: int|
                        at <= j < sorted@.len() ==> named_before(peer, #[trigger] sorted@[j]),
                decreases at,
            {
                assert(keys@[at - 1]@ == lowercase(sorted@[at - 1].name@));
                at -= 1;
            }
            proof {
                if at > 0 {
                    assert(keys@[at - 1]@ == lowercase(sorted@[at - 1].name@));
                }
                lemma_named_in(sorted@, peer, at as int);
            }
            sorted.insert(at, peer);
            keys.insert(at, key);
            i += 1;
        }
        assert(all.take(all.len() as int) =~= all);
        sorted
    }
}

} // verus!
