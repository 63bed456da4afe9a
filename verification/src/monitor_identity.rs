//! User-declared equivalences between the EDID identities of one display,
//! shared between paired hosts.
//!
//! A display is normally identified by its full EDID fingerprint, and that is
//! what makes switching safe. Some displays break the assumption that the
//! fingerprint is stable: the MSI MPG 274U publishes `MSI:3CF0` at 3840x2160
//! and `MSI:7CF0` at 1920x1080, carries no serial number in either EDID, and
//! reports the same two product codes through macOS's own display record. A
//! mode switch therefore reads as a different display on every host at once,
//! so the equivalence cannot be derived - only the user can assert it.
//!
//! A claim maps one `alias` identity onto one `primary` identity. Each entry
//! carries its own timestamp, like `input_label`, so paired hosts merge entry
//! by entry. Claims never widen what may be *switched*: they decide which
//! identities count as the same shared display, while every write still
//! demands an exact fingerprint match against a display present right now.

use crate::domain::{Identity, MonitorFingerprint, MonitorIdentityLink};
use crate::entries::{
    about, adopt_all, entry_index, has_entry, last_change, lemma_nothing_newer, merged_entries,
    merging_takes_over_what_is_newer, next_change, next_stamp, not_about, one_per_subject, with_entry,
    without_subject, SharedEntry,
};
use crate::lists::{
    first_at, lemma_added_is_found, lemma_first_at, lemma_first_at_is, lemma_found_beside_added,
};
use vstd::prelude::*;

verus! {

/// Most entries sent in or accepted from one notice; keeps a notice well under
/// the agent's packet limit.
pub const MAX_SHARED_LINKS: usize = 32;

/// Longest alias chain followed before giving up, so a malformed or hostile
/// notice cannot spin `primary_for` on a cycle.
pub const MAX_CHAIN_DEPTH: usize = 8;

impl SharedEntry for MonitorIdentityLink {
    open spec fn about_same(&self, other: &Self) -> bool {
        self.alias@ == other.alias@
    }

    open spec fn changed_at(&self) -> u64 {
        self.updated_at_ms
    }

    /// An identity makes no claim about itself.
    open spec fn adoptable(&self) -> bool {
        !(self.primary matches Some(primary) && primary@ == self.alias@)
    }

    proof fn about_same_is_equivalence(a: &Self, b: &Self, c: &Self) {
    }

    fn is_about_same(&self, other: &Self) -> bool {
        is_entry_for(self, &other.alias)
    }

    fn stamp(&self) -> u64 {
        self.updated_at_ms
    }

    fn is_adoptable(&self) -> bool {
        match &self.primary {
            Some(primary) => !primary.matches_exactly(&self.alias),
            None => true,
        }
    }

    fn duplicate(&self) -> Self {
        self.clone()
    }
}

fn is_entry_for(entry: &MonitorIdentityLink, alias: &MonitorFingerprint) -> (yes: bool)
    ensures
        yes == (entry.alias@ == alias@),
{
    entry.alias.matches_exactly(alias)
}

/// Claims about `alias`.
pub open spec fn claims_of(alias: Identity) -> spec_fn(MonitorIdentityLink) -> bool {
    |link: MonitorIdentityLink| link.alias@ == alias
}

/// What `alias` is claimed to be, if there is a claim that stands.
pub open spec fn claimed(links: Seq<MonitorIdentityLink>, alias: Identity) -> Option<
    MonitorFingerprint,
> {
    let i = first_at(links, claims_of(alias));
    if i < links.len() {
        links[i].primary
    } else {
        None
    }
}

/// The identity reached from `current` by following at most `hops` claims. A
/// claim that points at itself is no step.
pub open spec fn follow(links: Seq<MonitorIdentityLink>, current: Identity, hops: nat) -> Identity
    decreases hops,
{
    if hops == 0 {
        current
    } else {
        match claimed(links, current) {
            Some(next) if next@ != current => follow(links, next@, (hops - 1) as nat),
            _ => current,
        }
    }
}

/// The identity that `fingerprint` should be treated as.
pub open spec fn primary_of(links: Seq<MonitorIdentityLink>, fingerprint: Identity) -> Identity {
    follow(links, fingerprint, MAX_CHAIN_DEPTH as nat)
}

/// Whether two identities name one physical display.
pub open spec fn same_display(
    links: Seq<MonitorIdentityLink>,
    left: Identity,
    right: Identity,
) -> bool {
    primary_of(links, left) == primary_of(links, right)
}

fn linked_primary<'a>(links: &'a [MonitorIdentityLink], alias: &MonitorFingerprint) -> (primary:
    Option<&'a MonitorFingerprint>)
    ensures
        match primary {
            Some(found) => claimed(links@, alias@) == Some(*found),
            None => claimed(links@, alias@) is None,
        },
{
    let ghost wanted = claims_of(alias@);
    let mut i: usize = 0;
    while i < links.len()
        invariant
            i <= links@.len(),
            wanted == claims_of(alias@),
            forall|j: int| 0 <= j < i ==> !wanted(#[trigger] links@[j]),
        decreases links@.len() - i,
    {
        if is_entry_for(&links[i], alias) {
            proof {
                lemma_first_at_is(links@, wanted, i as int);
            }
            return links[i].primary.as_ref();
        }
        i += 1;
    }
    proof {
        lemma_first_at_is(links@, wanted, i as int);
    }
    None
}

/// The identity `fingerprint` should be treated as, following the user's
/// claims. An identity with no claim is its own primary, and a chain that
/// loops or runs too deep resolves to the last identity reached rather than
/// spinning.
pub fn primary_for<'a>(
    links: &'a [MonitorIdentityLink],
    fingerprint: &'a MonitorFingerprint,
) -> (primary: &'a MonitorFingerprint)
    ensures
        primary@ == primary_of(links@, fingerprint@),
{
    let mut current = fingerprint;
    let mut hops: usize = 0;
    while hops < MAX_CHAIN_DEPTH
        invariant
            hops <= MAX_CHAIN_DEPTH,
            primary_of(links@, fingerprint@) == follow(
                links@,
                current@,
                (MAX_CHAIN_DEPTH - hops) as nat,
            ),
        decreases MAX_CHAIN_DEPTH - hops,
    {
        match linked_primary(links, current) {
            Some(next) => {
                // A claim pointing at itself is not a step; stop rather than loop.
                if next.matches_exactly(current) {
                    return current;
                }
                current = next;
            },
            None => {
                return current;
            },
        }
        hops += 1;
    }
    current
}

/// The claimed identities among `links` that resolve to `primary`, in order.
pub open spec fn aliases_among(
    links: Seq<MonitorIdentityLink>,
    all: Seq<MonitorIdentityLink>,
    primary: Identity,
) -> Seq<MonitorFingerprint>
    decreases links.len(),
{
    if links.len() == 0 {
        seq![]
    } else {
        let rest = aliases_among(links.drop_last(), all, primary);
        let entry = links.last();
        if entry.primary is Some && entry.alias@ != primary && primary_of(all, entry.alias@)
            == primary {
            rest.push(entry.alias)
        } else {
            rest
        }
    }
}

/// Every identity that resolves to `primary`, `primary` itself first. Used to
/// decide whether a display present right now is the selected shared display.
pub fn identities_for(links: &[MonitorIdentityLink], primary: &MonitorFingerprint) -> (identities:
    Vec<MonitorFingerprint>)
    ensures
        identities@ == seq![*primary] + aliases_among(links@, links@, primary@),
{
    let mut identities: Vec<MonitorFingerprint> = vec![primary.clone()];
    assert(identities@ =~= seq![*primary] + aliases_among(links@.take(0), links@, primary@));
    let mut i: usize = 0;
    while i < links.len()
        invariant
            i <= links@.len(),
            identities@ == seq![*primary] + aliases_among(
                links@.take(i as int),
                links@,
                primary@,
            ),
        decreases links@.len() - i,
    {
        assert(links@.take(i + 1).drop_last() =~= links@.take(i as int));
        let entry = &links[i];
        if entry.primary.is_some() && !entry.alias.matches_exactly(primary) {
            if primary_for(links, &entry.alias).matches_exactly(primary) {
                identities.push(entry.alias.clone());
            }
        }
        assert(identities@ =~= seq![*primary] + aliases_among(
            links@.take(i + 1),
            links@,
            primary@,
        ));
        i += 1;
    }
    assert(links@.take(links@.len() as int) =~= links@);
    identities
}

/// Each identity listed for a primary, other than the primary itself, resolves
/// to it and is not it.
pub proof fn listed_identities_resolve_to_the_primary(
    links: Seq<MonitorIdentityLink>,
    all: Seq<MonitorIdentityLink>,
    primary: Identity,
)
    ensures
        forall|i: int|
            0 <= i < aliases_among(links, all, primary).len() ==> {
                &&& primary_of(all, (#[trigger] aliases_among(links, all, primary)[i])@) == primary
                &&& aliases_among(links, all, primary)[i]@ != primary
            },
    decreases links.len(),
{
    if links.len() > 0 {
        listed_identities_resolve_to_the_primary(links.drop_last(), all, primary);
        let rest = aliases_among(links.drop_last(), all, primary);
        let whole = aliases_among(links, all, primary);
        assert forall|i: int| 0 <= i < whole.len() implies {
            &&& primary_of(all, (#[trigger] whole[i])@) == primary
            &&& whole[i]@ != primary
        } by {
            if i < rest.len() {
                assert(whole[i] == rest[i]);
            }
        }
    }
}

/// Whether two identities name one physical display. Being the same display is
/// an equivalence, so both sides are resolved: a stored selection can itself be
/// an alias, and comparing only the observed side would never match it.
pub fn is_same_display(
    links: &[MonitorIdentityLink],
    left: &MonitorFingerprint,
    right: &MonitorFingerprint,
) -> (same: bool)
    ensures
        same == same_display(links@, left@, right@),
{
    primary_for(links, left).matches_exactly(primary_for(links, right))
}

/// Being the same display is an equivalence, whatever the claims are.
pub proof fn same_display_is_an_equivalence(
    links: Seq<MonitorIdentityLink>,
    a: Identity,
    b: Identity,
    c: Identity,
)
    ensures
        same_display(links, a, a),
        same_display(links, a, b) ==> same_display(links, b, a),
        same_display(links, a, b) && same_display(links, b, c) ==> same_display(links, a, c),
{
}

/// Without claims every identity is a display of its own.
pub proof fn without_claims_only_exact_identities_are_the_same(a: Identity, b: Identity)
    ensures
        same_display(Seq::empty(), a, b) <==> a == b,
{
    reveal_with_fuel(follow, 2);
    assert(claimed(Seq::empty(), a) is None);
    assert(claimed(Seq::empty(), b) is None);
}

/// `links` with `alias` claimed as `primary` (`None` withdraws the claim) at
/// `now_ms`. The timestamp never moves backwards for that alias, so paired
/// hosts holding the previous entry accept the change, unless that entry has the
/// last time there is.
pub fn with_link(
    links: &[MonitorIdentityLink],
    alias: &MonitorFingerprint,
    primary: Option<&MonitorFingerprint>,
    now_ms: u64,
) -> (result: Vec<MonitorIdentityLink>)
    ensures
        result@.len() > 0,
        result@.last().alias == *alias,
        match primary {
            Some(found) => result@.last().primary == Some(*found),
            None => result@.last().primary is None,
        },
        result@.last().updated_at_ms == next_change(links@, result@.last(), now_ms),
        result@ == without_subject(links@, result@.last()).push(result@.last()),
{
    let claimed_primary = match primary {
        Some(found) => Some(found.clone()),
        None => None,
    };
    let mut updated = MonitorIdentityLink {
        alias: alias.clone(),
        primary: claimed_primary,
        updated_at_ms: 0,
    };
    let ghost probe = updated;
    updated.updated_at_ms = next_stamp(links, &updated, now_ms);
    assert(about(probe) =~= about(updated));
    with_entry(links, updated)
}

/// A claim takes effect: the alias resolves to wherever its primary leads, and
/// a withdrawn claim leaves the identity to itself. What is claimed of any other
/// identity stays.
pub proof fn a_claim_takes_effect(
    links: Seq<MonitorIdentityLink>,
    updated: MonitorIdentityLink,
    other: MonitorIdentityLink,
)
    ensures
        other.alias@ != updated.alias@ ==> claimed(
            without_subject(links, updated).push(updated),
            other.alias@,
        ) == claimed(links, other.alias@),
        ({
            let changed = without_subject(links, updated).push(updated);
            match updated.primary {
                Some(primary) if primary@ != updated.alias@ => primary_of(changed, updated.alias@)
                    == follow(changed, primary@, (MAX_CHAIN_DEPTH - 1) as nat),
                _ => primary_of(changed, updated.alias@) == updated.alias@,
            }
        }),
{
    let keep = not_about(updated);
    lemma_added_is_found(links, keep, claims_of(updated.alias@), updated);
    if other.alias@ != updated.alias@ {
        lemma_found_beside_added(links, keep, claims_of(other.alias@), updated);
    }
}

/// `current` merged with claims from a paired host, keeping the newer entry
/// for each alias. A claim an identity makes about itself is skipped, and a
/// notice with more entries than `MAX_SHARED_LINKS` is rejected. Returns
/// `None` when nothing changes.
pub fn merged_links(
    current: &[MonitorIdentityLink],
    incoming: &[MonitorIdentityLink],
) -> (merged: Option<Vec<MonitorIdentityLink>>)
    ensures
        match merged {
            Some(list) => {
                &&& incoming@.len() <= MAX_SHARED_LINKS
                &&& list@ == adopt_all(current@, incoming@)
                &&& list@ != current@
            },
            None => incoming@.len() > MAX_SHARED_LINKS || adopt_all(current@, incoming@)
                == current@,
        },
{
    merged_entries(current, incoming, MAX_SHARED_LINKS)
}

/// Whether `theirs` holds an entry about the same alias that is at least as new
/// as `entry`.
pub open spec fn holds_as_new(
    theirs: Seq<MonitorIdentityLink>,
    entry: MonitorIdentityLink,
) -> bool {
    exists|k: int|
        0 <= k < theirs.len() && (#[trigger] theirs[k]).alias@ == entry.alias@
            && theirs[k].updated_at_ms >= entry.updated_at_ms
}

/// Whether a host holding `theirs` misses one of `ours`.
pub open spec fn misses_some(
    theirs: Seq<MonitorIdentityLink>,
    ours: Seq<MonitorIdentityLink>,
) -> bool {
    exists|i: int| 0 <= i < ours.len() && !holds_as_new(theirs, #[trigger] ours[i])
}

/// A notice is sent exactly when it would change something: when the host that
/// gets it, holding one claim per identity, has something to merge.
pub proof fn a_notice_is_sent_where_it_changes_something(
    ours: Seq<MonitorIdentityLink>,
    theirs: Seq<MonitorIdentityLink>,
)
    requires
        one_per_subject(theirs),
        forall|i: int| 0 <= i < ours.len() ==> (#[trigger] ours[i]).adoptable(),
    ensures
        misses_some(theirs, ours) <==> adopt_all(theirs, ours) != theirs,
{
    if misses_some(theirs, ours) {
        let i = choose|i: int| 0 <= i < ours.len() && !holds_as_new(theirs, #[trigger] ours[i]);
        merging_takes_over_what_is_newer(theirs, ours, i);
        lemma_first_at(theirs, about(ours[i]));
        if adopt_all(theirs, ours) == theirs {
            let k = entry_index(theirs, ours[i]);
            assert(theirs[k].alias@ == ours[i].alias@);
        }
    } else {
        assert forall|i: int|
            0 <= i < ours.len() && (#[trigger] ours[i]).adoptable() implies has_entry(
            theirs,
            ours[i],
        ) && last_change(theirs, ours[i]) >= ours[i].changed_at() by {
            assert(holds_as_new(theirs, ours[i]));
            let k = choose|k: int|
                0 <= k < theirs.len() && (#[trigger] theirs[k]).alias@ == ours[i].alias@
                    && theirs[k].updated_at_ms >= ours[i].updated_at_ms;
            assert forall|j: int| 0 <= j < k implies !about(ours[i])(#[trigger] theirs[j]) by {
                assert(!theirs[j].about_same(&theirs[k]));
            }
            lemma_first_at_is(theirs, about(ours[i]), k);
        }
        lemma_nothing_newer(theirs, ours);
    }
}

/// Whether a paired host holding `theirs` is missing anything in `ours`, so a
/// notice is only sent when it would change something.
pub fn needs_push(ours: &[MonitorIdentityLink], theirs: &[MonitorIdentityLink]) -> (yes: bool)
    ensures
        yes == misses_some(theirs@, ours@),
{
    let mut i: usize = 0;
    while i < ours.len()
        invariant
            i <= ours@.len(),
            forall|j: int| 0 <= j < i ==> holds_as_new(theirs@, #[trigger] ours@[j]),
        decreases ours@.len() - i,
    {
        let mut held: bool = false;
        let mut k: usize = 0;
        while k < theirs.len() && !held
            invariant
                i < ours@.len(),
                k <= theirs@.len(),
                held ==> holds_as_new(theirs@, ours@[i as int]),
                !held ==> forall|j: int|
                    0 <= j < k ==> !((#[trigger] theirs@[j]).alias@ == ours@[i as int].alias@
                        && theirs@[j].updated_at_ms >= ours@[i as int].updated_at_ms),
            decreases theirs@.len() - k,
        {
            held = is_entry_for(&theirs[k], &ours[i].alias) && theirs[k].updated_at_ms
                >= ours[i].updated_at_ms;
            k += 1;
        }
        if !held {
            assert(!holds_as_new(theirs@, ours@[i as int]));
            return true;
        }
        i += 1;
    }
    false
}

/// A host that holds the same claims needs no notice.
pub proof fn nothing_is_pushed_to_an_equal_host(links: Seq<MonitorIdentityLink>)
    ensures
        !misses_some(links, links),
{
    assert forall|i: int| 0 <= i < links.len() implies holds_as_new(links, #[trigger] links[i]) by {
    }
}

} // verus!
