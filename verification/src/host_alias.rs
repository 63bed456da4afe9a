//! Custom host names shared between paired hosts.
//!
//! Names are keyed by discovery id (see `host_order`), so a name given to a
//! host on one computer shows up for the same host on every paired computer.
//! Each entry carries its own timestamp: two hosts renaming different hosts at
//! the same time keep both names.

use crate::domain::HostAlias;
use crate::entries::{
    about, adopt_all, hosts_say_the_same_after_an_exchange, merged_entries, newest, newest_entries,
    next_change, next_stamp, not_about, one_per_subject, with_entry, without_subject, SharedEntry,
};
use crate::host_order::{is_valid_host_id, valid_host_id};
use crate::lists::{
    first_at, lemma_added_is_found, lemma_first_at, lemma_first_at_is, lemma_found_beside_added,
    some_item,
};
use crate::text::{
    contains_control, has_control, same_text, trim, trimmed, trimming_is_idempotent,
};
use vstd::prelude::*;
use vstd::string::StrSliceExecFns;

verus! {

/// Longest custom name accepted, in characters.
pub const MAX_ALIAS_CHARS: usize = 32;

/// Most entries sent in or accepted from one notice; keeps a notice well under
/// the agent's packet limit.
pub const MAX_SHARED_ALIASES: usize = 16;

#[derive(Clone, Copy, Debug, PartialEq, Eq, Structural)]
pub enum AliasError {
    TooLong,
    ControlCharacter,
}

/// Why a trimmed name cannot be shown as a host name.
pub open spec fn alias_fault(name: Seq<char>) -> Option<AliasError> {
    if has_control(name) {
        Some(AliasError::ControlCharacter)
    } else if name.len() > MAX_ALIAS_CHARS {
        Some(AliasError::TooLong)
    } else {
        None
    }
}

/// Whether a name is trimmed and can be shown as a host name.
pub open spec fn normal_alias(name: Seq<char>) -> bool {
    trimmed(name) == name && alias_fault(name) is None
}

/// Trims `input` and checks it can be shown as a host name. An empty result
/// means "use the default name".
pub fn normalize_alias(input: &str) -> (result: Result<String, AliasError>)
    ensures
        match result {
            Ok(name) => name@ == trimmed(input@) && alias_fault(trimmed(input@)) is None,
            Err(fault) => alias_fault(trimmed(input@)) == Some(fault),
        },
{
    let name = trim(input);
    if contains_control(&name) {
        return Err(AliasError::ControlCharacter);
    }
    if name.as_str().unicode_len() > MAX_ALIAS_CHARS {
        return Err(AliasError::TooLong);
    }
    Ok(name)
}

/// A normalized name is normal, so that a paired host accepts it.
pub proof fn normalized_aliases_are_normal(input: Seq<char>)
    requires
        alias_fault(trimmed(input)) is None,
    ensures
        normal_alias(trimmed(input)),
{
    trimming_is_idempotent(input);
}

impl SharedEntry for HostAlias {
    open spec fn about_same(&self, other: &Self) -> bool {
        self.host_id@ == other.host_id@
    }

    open spec fn changed_at(&self) -> u64 {
        self.updated_at_ms
    }

    open spec fn adoptable(&self) -> bool {
        valid_host_id(self.host_id@) && normal_alias(self.name@)
    }

    proof fn about_same_is_equivalence(a: &Self, b: &Self, c: &Self) {
    }

    fn is_about_same(&self, other: &Self) -> bool {
        same_text(&self.host_id, &other.host_id)
    }

    fn stamp(&self) -> u64 {
        self.updated_at_ms
    }

    fn is_adoptable(&self) -> bool {
        is_valid_host_id(&self.host_id) && match normalize_alias(&self.name) {
            Ok(name) => same_text(&name, &self.name),
            Err(_) => false,
        }
    }

    fn duplicate(&self) -> Self {
        self.clone()
    }
}

/// Entries for `host_id`.
pub open spec fn names_host(host_id: Seq<char>) -> spec_fn(HostAlias) -> bool {
    |alias: HostAlias| alias.host_id@ == host_id
}

/// The custom name for `host_id`, if one is set.
pub open spec fn alias_of(aliases: Seq<HostAlias>, host_id: Seq<char>) -> Option<Seq<char>> {
    let i = first_at(aliases, names_host(host_id));
    if i < aliases.len() && aliases[i].name@.len() > 0 {
        Some(aliases[i].name@)
    } else {
        None
    }
}

/// The custom name for `host_id`, if one is set.
pub fn alias_for<'a>(aliases: &'a [HostAlias], host_id: &str) -> (name: Option<&'a str>)
    ensures
        match name {
            Some(text) => alias_of(aliases@, host_id@) == Some(text@),
            None => alias_of(aliases@, host_id@) is None,
        },
{
    let ghost wanted = names_host(host_id@);
    let mut i: usize = 0;
    while i < aliases.len()
        invariant
            i <= aliases@.len(),
            wanted == names_host(host_id@),
            forall|j: int| 0 <= j < i ==> !wanted(#[trigger] aliases@[j]),
        decreases aliases@.len() - i,
    {
        if same_text(&aliases[i].host_id, host_id) {
            proof {
                lemma_first_at_is(aliases@, wanted, i as int);
            }
            let name = aliases[i].name.as_str();
            return if name.is_empty() {
                None
            } else {
                Some(name)
            };
        }
        i += 1;
    }
    proof {
        lemma_first_at_is(aliases@, wanted, i as int);
    }
    None
}

/// `aliases` with `host_id` renamed to `name` (empty clears it) at `now_ms`.
/// The timestamp never moves backwards for that host, so paired hosts holding
/// the previous entry accept the change, unless that entry has the last time
/// there is.
pub fn with_alias(aliases: &[HostAlias], host_id: &str, name: String, now_ms: u64) -> (result: Vec<
    HostAlias,
>)
    ensures
        result@.len() > 0,
        result@.last().host_id@ == host_id@,
        result@.last().name == name,
        result@.last().updated_at_ms == next_change(aliases@, result@.last(), now_ms),
        result@ == without_subject(aliases@, result@.last()).push(result@.last()),
{
    let mut updated = HostAlias { host_id: host_id.to_owned(), name, updated_at_ms: 0 };
    let ghost probe = updated;
    updated.updated_at_ms = next_stamp(aliases, &updated, now_ms);
    assert(about(probe) =~= about(updated));
    with_entry(aliases, updated)
}

/// Renaming a host sets its name and no other host's.
pub proof fn renaming_sets_that_name_only(
    aliases: Seq<HostAlias>,
    updated: HostAlias,
    other: Seq<char>,
)
    ensures
        ({
            let renamed = without_subject(aliases, updated).push(updated);
            &&& updated.name@.len() > 0 ==> alias_of(renamed, updated.host_id@) == Some(
                updated.name@,
            )
            &&& updated.name@.len() == 0 ==> alias_of(renamed, updated.host_id@) is None
            &&& other != updated.host_id@ ==> alias_of(renamed, other) == alias_of(aliases, other)
        }),
{
    let keep = not_about(updated);
    lemma_added_is_found(aliases, keep, names_host(updated.host_id@), updated);
    if other != updated.host_id@ {
        lemma_found_beside_added(aliases, keep, names_host(other), updated);
    }
}

/// `current` merged with entries from a paired host, keeping the newer entry
/// for each host. Malformed entries are skipped, and a notice with more
/// entries than `MAX_SHARED_ALIASES` is rejected. Returns `None` when nothing
/// changes.
pub fn merged_aliases(current: &[HostAlias], incoming: &[HostAlias]) -> (merged: Option<
    Vec<HostAlias>,
>)
    ensures
        match merged {
            Some(list) => {
                &&& incoming@.len() <= MAX_SHARED_ALIASES
                &&& list@ == adopt_all(current@, incoming@)
                &&& list@ != current@
            },
            None => incoming@.len() > MAX_SHARED_ALIASES || adopt_all(current@, incoming@)
                == current@,
        },
{
    merged_entries(current, incoming, MAX_SHARED_ALIASES)
}

/// Once two hosts have merged each other's names, every host has the same name
/// on both, where names given to a host at one time were the same before.
pub proof fn hosts_show_the_same_names_after_an_exchange(
    a: Seq<HostAlias>,
    b: Seq<HostAlias>,
    host_id: Seq<char>,
)
    requires
        one_per_subject(a),
        one_per_subject(b),
        forall|i: int| 0 <= i < a.len() ==> (#[trigger] a[i]).adoptable(),
        forall|i: int| 0 <= i < b.len() ==> (#[trigger] b[i]).adoptable(),
        forall|i: int, j: int|
            #![trigger a[i], b[j]]
            0 <= i < a.len() && 0 <= j < b.len() && a[i].host_id@ == b[j].host_id@
                && a[i].updated_at_ms == b[j].updated_at_ms ==> a[i].name@ == b[j].name@,
    ensures
        alias_of(adopt_all(a, b), host_id) == alias_of(adopt_all(b, a), host_id),
{
    let here = adopt_all(a, b);
    let there = adopt_all(b, a);
    let wanted = names_host(host_id);
    lemma_first_at(here, wanted);
    lemma_first_at(there, wanted);
    if some_item(here, wanted) || some_item(there, wanted) {
        let probe = if some_item(here, wanted) {
            here[first_at(here, wanted)]
        } else {
            there[first_at(there, wanted)]
        };
        assert(wanted(probe));
        assert(about(probe) =~= wanted);
        hosts_say_the_same_after_an_exchange(a, b, probe, |alias: HostAlias| alias.name@);
    }
}

/// The newest entries that fit in one notice.
pub fn shareable_aliases(aliases: &[HostAlias]) -> (result: Vec<HostAlias>)
    ensures
        result@ == newest(aliases@, MAX_SHARED_ALIASES as int),
{
    newest_entries(aliases, MAX_SHARED_ALIASES)
}

/// Whether a paired host holding `theirs` would gain anything from our entries.
pub fn has_newer_entries(ours: &[HostAlias], theirs: &[HostAlias]) -> (yes: bool)
    ensures
        yes == (adopt_all(theirs@, newest(ours@, MAX_SHARED_ALIASES as int)) != theirs@),
{
    let offered = shareable_aliases(ours);
    proof {
        crate::entries::newest_are_of_the_list(ours@, MAX_SHARED_ALIASES as int);
    }
    merged_aliases(theirs, &offered).is_some()
}

} // verus!
