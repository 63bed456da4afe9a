//! What the user's claims make one display.

use crate::domain::{Identity, MonitorIdentityLink};
use crate::laws::nothing_is_claimed;
use crate::lists::{first_at, lemma_first_at, lemma_first_at_is};
use crate::monitor_identity::{
    claimed, claims_of, follow, primary_of, same_display, MAX_CHAIN_DEPTH,
};
use vstd::prelude::*;

verus! {

/// Whether nothing is claimed of an identity: the first entry about it, if there
/// is one, was withdrawn.
pub open spec fn is_unclaimed(links: Seq<MonitorIdentityLink>, identity: Identity) -> bool {
    (forall|i: int| 0 <= i < links.len() ==> (#[trigger] links[i]).alias@ != identity) || exists|
        i: int,
    |
        {
            &&& 0 <= i < links.len()
            &&& (#[trigger] links[i]).alias@ == identity
            &&& links[i].primary is None
            &&& forall|j: int| 0 <= j < i ==> (#[trigger] links[j]).alias@ != identity
        }
}

/// Whether the first entry about `alias` claims that it is `primary`.
pub open spec fn is_claimed_to_be(
    links: Seq<MonitorIdentityLink>,
    alias: Identity,
    primary: Identity,
) -> bool {
    exists|i: int|
        {
            &&& 0 <= i < links.len()
            &&& (#[trigger] links[i]).alias@ == alias
            &&& links[i].primary is Some
            &&& links[i].primary->0@ == primary
            &&& forall|j: int| 0 <= j < i ==> (#[trigger] links[j]).alias@ != alias
        }
}

pub(crate) proof fn lemma_unclaimed(links: Seq<MonitorIdentityLink>, identity: Identity)
    requires
        is_unclaimed(links, identity),
    ensures
        claimed(links, identity) is None,
        forall|hops: nat| #[trigger] follow(links, identity, hops) == identity,
{
    let wanted = claims_of(identity);
    if exists|i: int|
        {
            &&& 0 <= i < links.len()
            &&& (#[trigger] links[i]).alias@ == identity
            &&& links[i].primary is None
            &&& forall|j: int| 0 <= j < i ==> (#[trigger] links[j]).alias@ != identity
        } {
        let i = choose|i: int|
            {
                &&& 0 <= i < links.len()
                &&& (#[trigger] links[i]).alias@ == identity
                &&& links[i].primary is None
                &&& forall|j: int| 0 <= j < i ==> (#[trigger] links[j]).alias@ != identity
            };
        lemma_first_at_is(links, wanted, i);
    } else {
        lemma_first_at_is(links, wanted, links.len() as int);
    }
    assert forall|hops: nat| #[trigger] follow(links, identity, hops) == identity by {
        if hops > 0 {
            assert(claimed(links, identity) is None);
        }
    }
}

pub(crate) proof fn lemma_nothing_is_claimed(links: Seq<MonitorIdentityLink>, identity: Identity)
    requires
        nothing_is_claimed(links),
    ensures
        is_unclaimed(links, identity),
{
    let wanted = claims_of(identity);
    lemma_first_at(links, wanted);
    let n = first_at(links, wanted);
    assert forall|j: int| 0 <= j < n implies (#[trigger] links[j]).alias@ != identity by {
        assert(!wanted(links[j]));
    }
    if n < links.len() {
        assert(links[n].alias@ == identity && links[n].primary is None);
    }
}

/// Identities of which nothing is claimed are one display only where they are
/// one identity.
pub proof fn unclaimed_identities_are_displays_of_their_own(
    links: Seq<MonitorIdentityLink>,
    a: Identity,
    b: Identity,
)
    requires
        is_unclaimed(links, a),
        is_unclaimed(links, b),
    ensures
        same_display(links, a, b) <==> a == b,
{
    lemma_unclaimed(links, a);
    lemma_unclaimed(links, b);
}

/// An identity that is claimed to be another, of which nothing is claimed, is one
/// display with it, and with nothing else of which nothing is claimed.
pub proof fn a_claim_joins_two_identities(
    links: Seq<MonitorIdentityLink>,
    alias: Identity,
    primary: Identity,
    other: Identity,
)
    requires
        is_claimed_to_be(links, alias, primary),
        is_unclaimed(links, primary),
        is_unclaimed(links, other),
    ensures
        same_display(links, alias, primary),
        other != primary ==> !same_display(links, alias, other),
{
    lemma_unclaimed(links, primary);
    lemma_unclaimed(links, other);
    let i = choose|i: int|
        {
            &&& 0 <= i < links.len()
            &&& (#[trigger] links[i]).alias@ == alias
            &&& links[i].primary is Some
            &&& links[i].primary->0@ == primary
            &&& forall|j: int| 0 <= j < i ==> (#[trigger] links[j]).alias@ != alias
        };
    lemma_first_at_is(links, claims_of(alias), i);
    assert(claimed(links, alias) == links[i].primary);
    if primary != alias {
        assert(follow(links, alias, MAX_CHAIN_DEPTH as nat) == follow(
            links,
            primary,
            (MAX_CHAIN_DEPTH - 1) as nat,
        ));
    }
}

/// A chain of claims, each about what the one before it named, leads to its end:
/// up to eight of them are followed.
pub proof fn a_chain_of_claims_leads_to_its_end(
    links: Seq<MonitorIdentityLink>,
    chain: Seq<Identity>,
)
    requires
        1 <= chain.len() <= 9,
        forall|i: int, j: int|
            #![trigger chain[i], chain[j]]
            0 <= i < j < chain.len() && j == i + 1 ==> chain[i] != chain[j] && is_claimed_to_be(
                links,
                chain[i],
                chain[j],
            ),
        is_unclaimed(links, chain.last()),
    ensures
        same_display(links, chain[0], chain.last()),
        primary_of(links, chain[0]) == chain.last(),
{
    lemma_chain(links, chain, MAX_CHAIN_DEPTH as nat);
    lemma_unclaimed(links, chain.last());
}

proof fn lemma_chain(links: Seq<MonitorIdentityLink>, chain: Seq<Identity>, hops: nat)
    requires
        1 <= chain.len() <= hops + 1,
        forall|i: int, j: int|
            #![trigger chain[i], chain[j]]
            0 <= i < j < chain.len() && j == i + 1 ==> chain[i] != chain[j] && is_claimed_to_be(
                links,
                chain[i],
                chain[j],
            ),
        is_unclaimed(links, chain.last()),
    ensures
        follow(links, chain[0], hops) == chain.last(),
    decreases chain.len(),
{
    lemma_unclaimed(links, chain.last());
    if chain.len() > 1 {
        let (alias, primary) = (chain[0], chain[1]);
        assert(is_claimed_to_be(links, alias, primary));
        let i = choose|i: int|
            {
                &&& 0 <= i < links.len()
                &&& (#[trigger] links[i]).alias@ == alias
                &&& links[i].primary is Some
                &&& links[i].primary->0@ == primary
                &&& forall|j: int| 0 <= j < i ==> (#[trigger] links[j]).alias@ != alias
            };
        lemma_first_at_is(links, claims_of(alias), i);
        assert(claimed(links, alias) == links[i].primary);
        let rest = chain.drop_first();
        assert forall|i: int, j: int|
            #![trigger rest[i], rest[j]]
            0 <= i < j < rest.len() && j == i + 1 implies rest[i] != rest[j] && is_claimed_to_be(
            links,
            rest[i],
            rest[j],
        ) by {
            assert(rest[i] == chain[i + 1] && rest[j] == chain[j + 1]);
        }
        lemma_chain(links, rest, (hops - 1) as nat);
    }
}

} // verus!
