//! Lists of timestamped entries that paired hosts share: one entry per
//! subject, the newer entry of a subject wins.

use crate::lists::{
    first_at, lemma_added_is_found, lemma_first_at, lemma_first_at_is, lemma_found_beside_added,
    lemma_kept_were_there, some_item,
};
use vstd::prelude::*;

verus! {

/// An entry about one subject, with the time it was last changed.
pub trait SharedEntry: Sized {
    /// Whether the two entries are about the same subject.
    spec fn about_same(&self, other: &Self) -> bool;

    /// When the entry was last changed.
    spec fn changed_at(&self) -> u64;

    /// Whether the entry may be taken over from a paired host.
    spec fn adoptable(&self) -> bool;

    /// Being about the same subject is an equivalence.
    proof fn about_same_is_equivalence(a: &Self, b: &Self, c: &Self)
        ensures
            a.about_same(a),
            a.about_same(b) ==> b.about_same(a),
            a.about_same(b) && b.about_same(c) ==> a.about_same(c),
    ;

    fn is_about_same(&self, other: &Self) -> (yes: bool)
        ensures
            yes == self.about_same(other),
    ;

    fn stamp(&self) -> (at: u64)
        ensures
            at == self.changed_at(),
    ;

    fn is_adoptable(&self) -> (yes: bool)
        ensures
            yes == self.adoptable(),
    ;

    fn duplicate(&self) -> (copy: Self)
        ensures
            copy == *self,
    ;
}

/// Entries about `probe`'s subject.
pub open spec fn about<T: SharedEntry>(probe: T) -> spec_fn(T) -> bool {
    |entry: T| entry.about_same(&probe)
}

/// Entries about other subjects than `probe`'s.
pub open spec fn not_about<T: SharedEntry>(probe: T) -> spec_fn(T) -> bool {
    |entry: T| !entry.about_same(&probe)
}

/// The position of the first entry about `probe`'s subject, or the length of
/// `list`.
pub open spec fn entry_index<T: SharedEntry>(list: Seq<T>, probe: T) -> int {
    first_at(list, about(probe))
}

/// Whether `list` has an entry about `probe`'s subject.
pub open spec fn has_entry<T: SharedEntry>(list: Seq<T>, probe: T) -> bool {
    some_item(list, about(probe))
}

/// The position of the first entry about `probe`'s subject, if there is one.
pub fn find_entry<T: SharedEntry>(list: &[T], probe: &T) -> (found: Option<usize>)
    ensures
        match found {
            Some(i) => i == entry_index(list@, *probe) && i < list@.len(),
            None => entry_index(list@, *probe) == list@.len(),
        },
{
    let mut i: usize = 0;
    while i < list.len()
        invariant
            i <= list@.len(),
            forall|j: int| 0 <= j < i ==> !(#[trigger] list@[j]).about_same(probe),
        decreases list@.len() - i,
    {
        if list[i].is_about_same(probe) {
            proof {
                lemma_first_at_is(list@, about(*probe), i as int);
            }
            return Some(i);
        }
        i += 1;
    }
    proof {
        lemma_first_at_is(list@, about(*probe), i as int);
    }
    None
}

/// A copy of a list of entries.
pub fn copy_entries<T: SharedEntry>(list: &[T]) -> (copy: Vec<T>)
    ensures
        copy@ == list@,
{
    let mut copy: Vec<T> = Vec::new();
    let mut i: usize = 0;
    while i < list.len()
        invariant
            i <= list@.len(),
            copy@ == list@.take(i as int),
        decreases list@.len() - i,
    {
        copy.push(list[i].duplicate());
        assert(list@.take(i + 1) =~= list@.take(i as int).push(list@[i as int]));
        i += 1;
    }
    assert(list@.take(list@.len() as int) =~= list@);
    copy
}

/// `list` without the entries about `probe`'s subject, in the same order.
pub open spec fn without_subject<T: SharedEntry>(list: Seq<T>, probe: T) -> Seq<T> {
    list.filter(not_about(probe))
}

/// When the entry about `probe`'s subject was last changed; 0 without one.
pub open spec fn last_change<T: SharedEntry>(list: Seq<T>, probe: T) -> u64 {
    if has_entry(list, probe) {
        list[entry_index(list, probe)].changed_at()
    } else {
        0
    }
}

/// The time to give a change made at `now` of what was last changed at `last`:
/// later than that, as long as there is a later time.
pub open spec fn time_after(last: u64, now: u64) -> u64 {
    if now > last {
        now
    } else if last < u64::MAX {
        (last + 1) as u64
    } else {
        u64::MAX
    }
}

/// The time to give a change made at `now` of what was last changed at `last`.
pub fn stamp_after(last: u64, now: u64) -> (at: u64)
    ensures
        at == time_after(last, now),
{
    if now > last {
        now
    } else if last < u64::MAX {
        last + 1
    } else {
        u64::MAX
    }
}

/// The time of a change never moves backwards, and is later than the last one's
/// unless that is the last time there is.
pub proof fn changes_never_move_backwards(last: u64, now: u64)
    ensures
        time_after(last, now) >= last,
        time_after(last, now) >= now,
        last < u64::MAX ==> time_after(last, now) > last,
{
}

/// The time to give a change of `probe`'s subject made at `now`.
pub open spec fn next_change<T: SharedEntry>(list: Seq<T>, probe: T, now: u64) -> u64 {
    time_after(last_change(list, probe), now)
}

/// The time to give a change of `probe`'s subject made at `now`.
pub fn next_stamp<T: SharedEntry>(list: &[T], probe: &T, now: u64) -> (at: u64)
    ensures
        at == next_change(list@, *probe, now),
{
    let previous: u64 = match find_entry(list, probe) {
        Some(i) => list[i].stamp(),
        None => 0,
    };
    stamp_after(previous, now)
}

/// `list` with `entry` in place of whatever was said of its subject.
pub fn with_entry<T: SharedEntry>(list: &[T], entry: T) -> (result: Vec<T>)
    ensures
        result@ == without_subject(list@, entry).push(entry),
{
    let mut result: Vec<T> = Vec::new();
    let mut i: usize = 0;
    while i < list.len()
        invariant
            i <= list@.len(),
            result@ == without_subject(list@.take(i as int), entry),
        decreases list@.len() - i,
    {
        proof {
            assert(list@.take(i + 1).drop_last() =~= list@.take(i as int));
            reveal(Seq::filter);
        }
        if !list[i].is_about_same(&entry) {
            result.push(list[i].duplicate());
        }
        i += 1;
    }
    assert(list@.take(list@.len() as int) =~= list@);
    result.push(entry);
    result
}

/// `list` after taking over one entry of a paired host: skipped unless it is
/// adoptable and newer than what `list` says of its subject.
pub open spec fn adopt_one<T: SharedEntry>(list: Seq<T>, entry: T) -> Seq<T> {
    let i = entry_index(list, entry);
    if !entry.adoptable() {
        list
    } else if i == list.len() {
        list.push(entry)
    } else if list[i].changed_at() >= entry.changed_at() {
        list
    } else {
        list.update(i, entry)
    }
}

/// `list` after taking over the entries of a paired host, one by one.
pub open spec fn adopt_all<T: SharedEntry>(list: Seq<T>, incoming: Seq<T>) -> Seq<T>
    decreases incoming.len(),
{
    if incoming.len() == 0 {
        list
    } else {
        adopt_one(adopt_all(list, incoming.drop_last()), incoming.last())
    }
}

/// `after` continues `before`: no entry is gone, none is older, and it is
/// `before` only where no entry is newer or added.
pub open spec fn continues<T: SharedEntry>(before: Seq<T>, after: Seq<T>) -> bool {
    &&& before.len() <= after.len()
    &&& forall|i: int|
        0 <= i < before.len() ==> {
            &&& (#[trigger] after[i]).about_same(&before[i])
            &&& after[i].changed_at() >= before[i].changed_at()
            &&& after[i].changed_at() == before[i].changed_at() ==> after[i] == before[i]
        }
}

/// Taking over one entry continues the list.
proof fn lemma_adopt_one_continues<T: SharedEntry>(list: Seq<T>, entry: T)
    ensures
        continues(list, adopt_one(list, entry)),
{
    lemma_first_at(list, about(entry));
    assert forall|i: int| 0 <= i < list.len() implies {
        &&& (#[trigger] adopt_one(list, entry)[i]).about_same(&list[i])
        &&& adopt_one(list, entry)[i].changed_at() >= list[i].changed_at()
        &&& adopt_one(list, entry)[i].changed_at() == list[i].changed_at() ==> adopt_one(
            list,
            entry,
        )[i] == list[i]
    } by {
        T::about_same_is_equivalence(&list[i], &entry, &list[i]);
    }
}

proof fn lemma_continues_is_transitive<T: SharedEntry>(a: Seq<T>, b: Seq<T>, c: Seq<T>)
    requires
        continues(a, b),
        continues(b, c),
    ensures
        continues(a, c),
{
    assert forall|i: int| 0 <= i < a.len() implies {
        &&& (#[trigger] c[i]).about_same(&a[i])
        &&& c[i].changed_at() >= a[i].changed_at()
        &&& c[i].changed_at() == a[i].changed_at() ==> c[i] == a[i]
    } by {
        assert(b[i].about_same(&a[i]));
        assert(c[i].about_same(&b[i]));
        T::about_same_is_equivalence(&c[i], &b[i], &a[i]);
    }
}

/// Merging never loses a subject and never goes back to an older entry.
pub proof fn merging_never_goes_back<T: SharedEntry>(list: Seq<T>, incoming: Seq<T>)
    ensures
        continues(list, adopt_all(list, incoming)),
    decreases incoming.len(),
{
    if incoming.len() == 0 {
        assert forall|i: int| 0 <= i < list.len() implies (#[trigger] list[i]).about_same(
            &list[i],
        ) by {
            T::about_same_is_equivalence(&list[i], &list[i], &list[i]);
        }
    } else {
        let before = adopt_all(list, incoming.drop_last());
        merging_never_goes_back(list, incoming.drop_last());
        lemma_adopt_one_continues(before, incoming.last());
        lemma_continues_is_transitive(list, before, adopt_one(before, incoming.last()));
    }
}

/// In a list that continues another, a subject stands where it stood.
proof fn lemma_index_is_kept<T: SharedEntry>(before: Seq<T>, after: Seq<T>, probe: T)
    requires
        continues(before, after),
        has_entry(before, probe),
    ensures
        entry_index(after, probe) == entry_index(before, probe),
        last_change(after, probe) >= last_change(before, probe),
{
    lemma_first_at(before, about(probe));
    let n = entry_index(before, probe);
    assert forall|j: int| 0 <= j < n implies !(#[trigger] after[j]).about_same(&probe) by {
        assert(after[j].about_same(&before[j]));
        T::about_same_is_equivalence(&after[j], &before[j], &after[j]);
        T::about_same_is_equivalence(&before[j], &after[j], &probe);
    }
    assert(after[n].about_same(&before[n]));
    T::about_same_is_equivalence(&after[n], &before[n], &probe);
    lemma_first_at_is(after, about(probe), n);
}

/// After a merge, the list says of every subject of an adoptable incoming
/// entry something at least as new as that entry.
pub proof fn merging_takes_over_what_is_newer<T: SharedEntry>(
    list: Seq<T>,
    incoming: Seq<T>,
    k: int,
)
    requires
        0 <= k < incoming.len(),
        incoming[k].adoptable(),
    ensures
        has_entry(adopt_all(list, incoming), incoming[k]),
        last_change(adopt_all(list, incoming), incoming[k]) >= incoming[k].changed_at(),
    decreases incoming.len(),
{
    let before = adopt_all(list, incoming.drop_last());
    let after = adopt_all(list, incoming);
    lemma_adopt_one_continues(before, incoming.last());
    let e = incoming[k];
    if k < incoming.len() - 1 {
        merging_takes_over_what_is_newer(list, incoming.drop_last(), k);
        lemma_index_is_kept(before, after, e);
    } else {
        lemma_first_at(before, about(e));
        T::about_same_is_equivalence(&e, &e, &e);
        let n = entry_index(before, e);
        lemma_first_at_is(after, about(e), n);
    }
}

/// Every entry of a merged list was in the list or came from the paired host.
pub proof fn merging_invents_nothing<T: SharedEntry>(list: Seq<T>, incoming: Seq<T>)
    ensures
        forall|i: int|
            0 <= i < adopt_all(list, incoming).len() ==> list.contains(
                #[trigger] adopt_all(list, incoming)[i],
            ) || (incoming.contains(adopt_all(list, incoming)[i]) && adopt_all(
                list,
                incoming,
            )[i].adoptable()),
    decreases incoming.len(),
{
    let after = adopt_all(list, incoming);
    if incoming.len() > 0 {
        let before = adopt_all(list, incoming.drop_last());
        merging_invents_nothing(list, incoming.drop_last());
        assert forall|i: int| 0 <= i < after.len() implies list.contains(#[trigger] after[i]) || (
        incoming.contains(after[i]) && after[i].adoptable()) by {
            if i < before.len() && after[i] == before[i] {
                if !list.contains(before[i]) {
                    let j = choose|j: int|
                        0 <= j < incoming.len() - 1 && incoming.drop_last()[j] == before[i];
                    assert(incoming[j] == after[i]);
                }
            } else {
                lemma_first_at(before, about(incoming.last()));
                assert(after[i] == incoming.last());
                assert(incoming[incoming.len() - 1] == after[i]);
            }
        }
    } else {
        assert forall|i: int| 0 <= i < after.len() implies list.contains(#[trigger] after[i]) by {}
    }
}

/// Taking over entries none of which is newer changes nothing.
pub proof fn lemma_nothing_newer<T: SharedEntry>(list: Seq<T>, incoming: Seq<T>)
    requires
        forall|k: int|
            0 <= k < incoming.len() && (#[trigger] incoming[k]).adoptable() ==> has_entry(
                list,
                incoming[k],
            ) && last_change(list, incoming[k]) >= incoming[k].changed_at(),
    ensures
        adopt_all(list, incoming) == list,
    decreases incoming.len(),
{
    if incoming.len() > 0 {
        assert forall|k: int|
            0 <= k < incoming.len() - 1 && (
            #[trigger] incoming.drop_last()[k]).adoptable() implies has_entry(
            list,
            incoming.drop_last()[k],
        ) && last_change(list, incoming.drop_last()[k]) >= incoming.drop_last()[k].changed_at() by {
            assert(incoming[k].adoptable());
        }
        lemma_nothing_newer(list, incoming.drop_last());
        assert(incoming.last() == incoming[incoming.len() - 1]);
    }
}

/// Merging the same entries a second time changes nothing.
pub proof fn merging_twice_changes_nothing<T: SharedEntry>(list: Seq<T>, incoming: Seq<T>)
    ensures
        adopt_all(adopt_all(list, incoming), incoming) == adopt_all(list, incoming),
{
    let merged = adopt_all(list, incoming);
    assert forall|k: int|
        0 <= k < incoming.len() && (#[trigger] incoming[k]).adoptable() implies has_entry(
        merged,
        incoming[k],
    ) && last_change(merged, incoming[k]) >= incoming[k].changed_at() by {
        merging_takes_over_what_is_newer(list, incoming, k);
    }
    lemma_nothing_newer(merged, incoming);
}

/// No two entries are about the same subject.
pub open spec fn one_per_subject<T: SharedEntry>(list: Seq<T>) -> bool {
    forall|i: int, j: int|
        #![trigger list[i], list[j]]
        0 <= i < j < list.len() ==> !list[i].about_same(&list[j])
}

/// Merging keeps one entry per subject.
pub proof fn merging_keeps_one_per_subject<T: SharedEntry>(list: Seq<T>, incoming: Seq<T>)
    requires
        one_per_subject(list),
    ensures
        one_per_subject(adopt_all(list, incoming)),
    decreases incoming.len(),
{
    if incoming.len() > 0 {
        let before = adopt_all(list, incoming.drop_last());
        let after = adopt_all(list, incoming);
        let e = incoming.last();
        merging_keeps_one_per_subject(list, incoming.drop_last());
        lemma_first_at(before, about(e));
        let n = entry_index(before, e);
        assert forall|i: int, j: int|
            #![trigger after[i], after[j]]
            0 <= i < j < after.len() implies !after[i].about_same(&after[j]) by {
            if i < before.len() && j < before.len() {
                assert(!before[i].about_same(&before[j]));
                T::about_same_is_equivalence(&before[i], &e, &before[j]);
                T::about_same_is_equivalence(&before[j], &e, &before[j]);
                T::about_same_is_equivalence(&e, &before[j], &e);
            }
        }
    }
}

/// Merging what the list itself holds changes nothing.
pub proof fn merging_with_itself_changes_nothing<T: SharedEntry>(list: Seq<T>, part: Seq<T>)
    requires
        one_per_subject(list),
        forall|k: int| 0 <= k < part.len() ==> list.contains(#[trigger] part[k]),
    ensures
        adopt_all(list, part) == list,
{
    assert forall|k: int| 0 <= k < part.len() && (#[trigger] part[k]).adoptable() implies has_entry(
        list,
        part[k],
    ) && last_change(list, part[k]) >= part[k].changed_at() by {
        let n = choose|n: int| 0 <= n < list.len() && list[n] == part[k];
        T::about_same_is_equivalence(&part[k], &part[k], &part[k]);
        lemma_first_at_is(list, about(part[k]), n);
    }
    lemma_nothing_newer(list, part);
}

/// A change leaves what the list says of every other subject.
pub proof fn a_change_leaves_other_subjects<T: SharedEntry>(list: Seq<T>, entry: T, probe: T)
    requires
        !probe.about_same(&entry),
    ensures
        ({
            let changed = without_subject(list, entry).push(entry);
            &&& has_entry(changed, probe) == has_entry(list, probe)
            &&& has_entry(list, probe) ==> changed[entry_index(changed, probe)]
                == list[entry_index(list, probe)]
        }),
{
    let keep = not_about(entry);
    let wanted = about(probe);
    T::about_same_is_equivalence(&entry, &probe, &entry);
    assert forall|item: T| #[trigger] wanted(item) implies keep(item) by {
        T::about_same_is_equivalence(&item, &probe, &item);
        T::about_same_is_equivalence(&probe, &item, &entry);
    }
    lemma_found_beside_added(list, keep, wanted, entry);
}

/// A change keeps one entry per subject.
pub proof fn a_change_keeps_one_per_subject<T: SharedEntry>(list: Seq<T>, entry: T)
    requires
        one_per_subject(list),
    ensures
        one_per_subject(without_subject(list, entry).push(entry)),
{
    let kept = without_subject(list, entry);
    let changed = kept.push(entry);
    lemma_kept_were_there(list, not_about(entry));
    lemma_kept_are_one_per_subject(list, entry);
    assert forall|i: int, j: int|
        #![trigger changed[i], changed[j]]
        0 <= i < j < changed.len() implies !changed[i].about_same(&changed[j]) by {
        assert(not_about(entry)(kept[i]));
        if j < kept.len() {
            assert(!kept[i].about_same(&kept[j]));
        }
    }
}

proof fn lemma_kept_are_one_per_subject<T: SharedEntry>(list: Seq<T>, entry: T)
    requires
        one_per_subject(list),
    ensures
        one_per_subject(without_subject(list, entry)),
    decreases list.len(),
{
    reveal(Seq::filter);
    if list.len() > 0 {
        let front = list.drop_last();
        let kept = without_subject(front, entry);
        let whole = without_subject(list, entry);
        assert(one_per_subject(front)) by {
            assert forall|i: int, j: int|
                #![trigger front[i], front[j]]
                0 <= i < j < front.len() implies !front[i].about_same(&front[j]) by {
                assert(front[i] == list[i] && front[j] == list[j]);
            }
        }
        lemma_kept_are_one_per_subject(front, entry);
        lemma_kept_were_there(front, not_about(entry));
        assert forall|i: int, j: int|
            #![trigger whole[i], whole[j]]
            0 <= i < j < whole.len() implies !whole[i].about_same(&whole[j]) by {
            if j < kept.len() {
                assert(whole[i] == kept[i] && whole[j] == kept[j]);
            } else {
                assert(front.contains(kept[i]));
                let k = choose|k: int| 0 <= k < front.len() && front[k] == kept[i];
                assert(list[k] == whole[i] && list[list.len() - 1] == whole[j]);
            }
        }
    }
}

/// In a list with one entry per subject, every entry is what the list says of
/// its subject.
proof fn lemma_sole_entry<T: SharedEntry>(list: Seq<T>, e: T, probe: T)
    requires
        one_per_subject(list),
        list.contains(e),
        e.about_same(&probe),
    ensures
        has_entry(list, probe),
        list[entry_index(list, probe)] == e,
{
    let n = choose|n: int| 0 <= n < list.len() && list[n] == e;
    assert forall|j: int| 0 <= j < n implies !(#[trigger] list[j]).about_same(&probe) by {
        assert(!list[j].about_same(&list[n]));
        T::about_same_is_equivalence(&e, &probe, &e);
        T::about_same_is_equivalence(&list[j], &probe, &e);
    }
    lemma_first_at_is(list, about(probe), n);
}

proof fn lemma_merged_age<T: SharedEntry>(a: Seq<T>, b: Seq<T>, probe: T)
    requires
        one_per_subject(a),
        one_per_subject(b),
        forall|i: int| 0 <= i < b.len() ==> (#[trigger] b[i]).adoptable(),
    ensures
        has_entry(adopt_all(a, b), probe) <==> has_entry(a, probe) || has_entry(b, probe),
        last_change(adopt_all(a, b), probe) == if last_change(a, probe) >= last_change(b, probe) {
            last_change(a, probe)
        } else {
            last_change(b, probe)
        },
{
    let merged = adopt_all(a, b);
    merging_never_goes_back(a, b);
    merging_invents_nothing(a, b);
    lemma_first_at(merged, about(probe));
    lemma_first_at(a, about(probe));
    lemma_first_at(b, about(probe));
    if has_entry(a, probe) {
        lemma_index_is_kept(a, merged, probe);
    }
    if has_entry(b, probe) {
        let k = entry_index(b, probe);
        merging_takes_over_what_is_newer(a, b, k);
        lemma_same_subject_same_entry(merged, b[k], probe);
    }
    if has_entry(merged, probe) {
        let e = merged[entry_index(merged, probe)];
        if a.contains(e) {
            lemma_sole_entry(a, e, probe);
        } else {
            lemma_sole_entry(b, e, probe);
        }
    }
}

/// Probes about one subject find the same entry.
proof fn lemma_same_subject_same_entry<T: SharedEntry>(list: Seq<T>, p: T, q: T)
    requires
        p.about_same(&q),
    ensures
        entry_index(list, p) == entry_index(list, q),
{
    lemma_first_at(list, about(p));
    let n = entry_index(list, p);
    assert forall|j: int| 0 <= j < n implies !(#[trigger] list[j]).about_same(&q) by {
        T::about_same_is_equivalence(&p, &q, &p);
        T::about_same_is_equivalence(&list[j], &q, &p);
    }
    if n < list.len() {
        T::about_same_is_equivalence(&list[n], &p, &q);
    }
    lemma_first_at_is(list, about(q), n);
}

/// Once two hosts have merged each other's entries, they hold entries of the
/// same age about the same subjects.
pub proof fn hosts_agree_after_an_exchange<T: SharedEntry>(a: Seq<T>, b: Seq<T>, probe: T)
    requires
        one_per_subject(a),
        one_per_subject(b),
        forall|i: int| 0 <= i < a.len() ==> (#[trigger] a[i]).adoptable(),
        forall|i: int| 0 <= i < b.len() ==> (#[trigger] b[i]).adoptable(),
    ensures
        has_entry(adopt_all(a, b), probe) == has_entry(adopt_all(b, a), probe),
        last_change(adopt_all(a, b), probe) == last_change(adopt_all(b, a), probe),
{
    lemma_merged_age(a, b, probe);
    lemma_merged_age(b, a, probe);
}

/// Once two hosts have merged each other's entries, they say the same of every
/// subject, where entries of one subject and one age said the same before.
pub proof fn hosts_say_the_same_after_an_exchange<T: SharedEntry, C>(
    a: Seq<T>,
    b: Seq<T>,
    probe: T,
    said: spec_fn(T) -> C,
)
    requires
        one_per_subject(a),
        one_per_subject(b),
        forall|i: int| 0 <= i < a.len() ==> (#[trigger] a[i]).adoptable(),
        forall|i: int| 0 <= i < b.len() ==> (#[trigger] b[i]).adoptable(),
        forall|i: int, j: int|
            #![trigger a[i], b[j]]
            0 <= i < a.len() && 0 <= j < b.len() && a[i].about_same(&b[j]) && a[i].changed_at()
                == b[j].changed_at() ==> said(a[i]) == said(b[j]),
    ensures
        has_entry(adopt_all(a, b), probe) == has_entry(adopt_all(b, a), probe),
        has_entry(adopt_all(a, b), probe) ==> said(
            adopt_all(a, b)[entry_index(adopt_all(a, b), probe)],
        ) == said(adopt_all(b, a)[entry_index(adopt_all(b, a), probe)]),
{
    let here = adopt_all(a, b);
    let there = adopt_all(b, a);
    hosts_agree_after_an_exchange(a, b, probe);
    if has_entry(here, probe) {
        lemma_first_at(here, about(probe));
        lemma_first_at(there, about(probe));
        let e = here[entry_index(here, probe)];
        let f = there[entry_index(there, probe)];
        merging_invents_nothing(a, b);
        merging_invents_nothing(b, a);
        T::about_same_is_equivalence(&f, &probe, &f);
        T::about_same_is_equivalence(&e, &probe, &f);
        T::about_same_is_equivalence(&e, &f, &e);
        if a.contains(e) && a.contains(f) {
            lemma_sole_entry(a, e, probe);
            lemma_sole_entry(a, f, probe);
        } else if b.contains(e) && b.contains(f) {
            lemma_sole_entry(b, e, probe);
            lemma_sole_entry(b, f, probe);
        } else if a.contains(e) {
            let i = choose|i: int| 0 <= i < a.len() && a[i] == e;
            let j = choose|j: int| 0 <= j < b.len() && b[j] == f;
            assert(a[i].about_same(&b[j]));
        } else {
            let i = choose|i: int| 0 <= i < a.len() && a[i] == f;
            let j = choose|j: int| 0 <= j < b.len() && b[j] == e;
            assert(a[i].about_same(&b[j]));
        }
    }
}

/// A change is the one entry about its subject afterwards; and as long as the
/// previous entry leaves a later time, a paired host that holds the previous
/// entries takes it over.
pub proof fn a_change_is_accepted_by_holders_of_the_previous_entries<T: SharedEntry>(
    list: Seq<T>,
    entry: T,
    now: u64,
)
    requires
        entry.changed_at() == next_change(list, entry, now),
        entry.adoptable(),
    ensures
        ({
            let changed = without_subject(list, entry).push(entry);
            &&& has_entry(changed, entry)
            &&& changed[entry_index(changed, entry)] == entry
        }),
        last_change(list, entry) < u64::MAX ==> {
            let adopted = adopt_one(list, entry);
            &&& adopted != list
            &&& has_entry(adopted, entry)
            &&& adopted[entry_index(adopted, entry)] == entry
        },
{
    T::about_same_is_equivalence(&entry, &entry, &entry);
    lemma_added_is_found(list, not_about(entry), about(entry), entry);
    if last_change(list, entry) < u64::MAX {
        lemma_first_at(list, about(entry));
        let n = entry_index(list, entry);
        let adopted = adopt_one(list, entry);
        lemma_first_at_is(adopted, about(entry), n);
        if n < list.len() {
            assert(adopted[n] != list[n]);
        }
    }
}

/// The list merged with the entries of a paired host. `None` where the notice
/// holds more than `limit` entries or nothing changes.
pub fn merged_entries<T: SharedEntry>(current: &[T], incoming: &[T], limit: usize) -> (merged:
    Option<Vec<T>>)
    ensures
        match merged {
            Some(list) => {
                &&& incoming@.len() <= limit
                &&& list@ == adopt_all(current@, incoming@)
                &&& list@ != current@
            },
            None => incoming@.len() > limit || adopt_all(current@, incoming@) == current@,
        },
{
    if incoming.len() > limit {
        return None;
    }
    let mut merged: Vec<T> = copy_entries(current);
    let mut changed: bool = false;
    let mut i: usize = 0;
    while i < incoming.len()
        invariant
            i <= incoming@.len(),
            merged@ == adopt_all(current@, incoming@.take(i as int)),
            changed == (merged@ != current@),
        decreases incoming@.len() - i,
    {
        proof {
            assert(incoming@.take(i + 1).drop_last() =~= incoming@.take(i as int));
            assert(incoming@.take(i + 1).last() == incoming@[i as int]);
            merging_never_goes_back(current@, incoming@.take(i as int));
            lemma_adopt_one_continues(merged@, incoming@[i as int]);
            lemma_first_at(merged@, about(incoming@[i as int]));
            lemma_changes_do_not_cancel(
                current@,
                merged@,
                adopt_one(merged@, incoming@[i as int]),
            );
        }
        let entry = &incoming[i];
        if entry.is_adoptable() {
            match find_entry(&merged, entry) {
                Some(at) => {
                    if merged[at].stamp() < entry.stamp() {
                        merged.set(at, entry.duplicate());
                        changed = true;
                    }
                },
                None => {
                    merged.push(entry.duplicate());
                    changed = true;
                },
            }
        }
        i += 1;
    }
    assert(incoming@.take(incoming@.len() as int) =~= incoming@);
    if changed {
        Some(merged)
    } else {
        None
    }
}

/// A list that continues a changed list is still changed.
proof fn lemma_changes_do_not_cancel<T: SharedEntry>(a: Seq<T>, b: Seq<T>, c: Seq<T>)
    requires
        continues(a, b),
        continues(b, c),
    ensures
        a != b || b != c ==> a != c,
{
    if a == c {
        assert(b.len() == a.len());
        assert forall|i: int| 0 <= i < a.len() implies a[i] == b[i] by {
            assert(b[i].about_same(&a[i]));
            assert(c[i].about_same(&b[i]));
        }
        assert(a =~= b);
    }
}

/// Whether newer entries come before older ones.
pub open spec fn newest_come_first<T: SharedEntry>(list: Seq<T>) -> bool {
    forall|i: int, j: int|
        0 <= i < j < list.len() ==> (#[trigger] list[i]).changed_at() >= (
        #[trigger] list[j]).changed_at()
}

/// `list` with `entry` behind every entry that is not older.
pub open spec fn placed<T: SharedEntry>(list: Seq<T>, entry: T) -> Seq<T>
    decreases list.len(),
{
    if list.len() == 0 || list.last().changed_at() >= entry.changed_at() {
        list.push(entry)
    } else {
        placed(list.drop_last(), entry).push(list.last())
    }
}

/// `list` from newest to oldest; entries of one age keep their order.
pub open spec fn newest_first<T: SharedEntry>(list: Seq<T>) -> Seq<T>
    decreases list.len(),
{
    if list.len() == 0 {
        list
    } else {
        placed(newest_first(list.drop_last()), list.last())
    }
}

/// The entries of `list` that were changed at `at`, in order.
pub open spec fn of_age<T: SharedEntry>(list: Seq<T>, at: u64) -> Seq<T>
    decreases list.len(),
{
    if list.len() == 0 {
        list
    } else if list.last().changed_at() == at {
        of_age(list.drop_last(), at).push(list.last())
    } else {
        of_age(list.drop_last(), at)
    }
}

proof fn lemma_placed<T: SharedEntry>(list: Seq<T>, entry: T, n: int)
    requires
        0 <= n <= list.len(),
        n > 0 ==> list[n - 1].changed_at() >= entry.changed_at(),
        forall|j: int| n <= j < list.len() ==> (#[trigger] list[j]).changed_at() < entry.changed_at(),
    ensures
        placed(list, entry) == list.insert(n, entry),
    decreases list.len(),
{
    if n == list.len() {
        assert(list.insert(n, entry) =~= list.push(entry));
    } else {
        assert(list[list.len() - 1].changed_at() < entry.changed_at());
        lemma_placed(list.drop_last(), entry, n);
        assert(list.insert(n, entry) =~= list.drop_last().insert(n, entry).push(list.last()));
    }
}

proof fn lemma_placed_keeps<T: SharedEntry>(list: Seq<T>, entry: T, at: u64)
    requires
        newest_come_first(list),
    ensures
        newest_come_first(placed(list, entry)),
        placed(list, entry).len() == list.len() + 1,
        placed(list, entry).to_multiset() == list.to_multiset().insert(entry),
        list.len() > 0 && list.last().changed_at() < entry.changed_at() ==> placed(
            list,
            entry,
        ).last() == list.last(),
        of_age(placed(list, entry), at) == if entry.changed_at() == at {
            of_age(list, at).push(entry)
        } else {
            of_age(list, at)
        },
    decreases list.len(),
{
    broadcast use vstd::seq_lib::group_to_multiset_ensures;

    if list.len() == 0 || list.last().changed_at() >= entry.changed_at() {
        assert(list.push(entry).drop_last() =~= list);
        assert forall|i: int, j: int| 0 <= i < j < list.len() + 1 implies (
        #[trigger] list.push(entry)[i]).changed_at() >= (
        #[trigger] list.push(entry)[j]).changed_at() by {
            if i < list.len() - 1 && j == list.len() {
                assert(list[i].changed_at() >= list[list.len() - 1].changed_at());
            }
        }
    } else {
        let front = list.drop_last();
        lemma_placed_keeps(front, entry, at);
        let inner = placed(front, entry);
        let whole = inner.push(list.last());
        assert(whole.drop_last() =~= inner);
        assert(front.push(list.last()) =~= list);
        assert(whole.to_multiset() =~= list.to_multiset().insert(entry));
        assert forall|i: int| 0 <= i < inner.len() implies (#[trigger] inner[i]).changed_at()
            >= list.last().changed_at() by {
            assert(inner.to_multiset().count(inner[i]) > 0);
            assert(front.to_multiset().count(inner[i]) > 0 || inner[i] == entry);
            if inner[i] != entry {
                assert(front.contains(inner[i]));
                let k = choose|k: int| 0 <= k < front.len() && front[k] == inner[i];
                assert(list[k].changed_at() >= list[list.len() - 1].changed_at());
            }
        }
        lemma_none_of_age(list, entry, at);
    }
}

/// Where every entry is older than `entry`, none is of its age.
proof fn lemma_none_of_age<T: SharedEntry>(list: Seq<T>, entry: T, at: u64)
    requires
        newest_come_first(list),
        list.len() > 0,
        list.last().changed_at() < entry.changed_at(),
    ensures
        entry.changed_at() == at ==> list.last().changed_at() != at,
{
}

/// Sorting keeps every entry, puts newer ones first, and keeps the order of
/// entries of one age.
pub proof fn newest_first_sorts<T: SharedEntry>(list: Seq<T>, at: u64)
    ensures
        newest_come_first(newest_first(list)),
        newest_first(list).len() == list.len(),
        newest_first(list).to_multiset() == list.to_multiset(),
        of_age(newest_first(list), at) == of_age(list, at),
    decreases list.len(),
{
    broadcast use vstd::seq_lib::group_to_multiset_ensures;

    if list.len() > 0 {
        newest_first_sorts(list.drop_last(), at);
        lemma_placed_keeps(newest_first(list.drop_last()), list.last(), at);
        assert(list.drop_last().push(list.last()) =~= list);
    }
}

/// At most `limit` entries, from the newest on.
pub open spec fn newest<T: SharedEntry>(list: Seq<T>, limit: int) -> Seq<T> {
    if list.len() <= limit {
        newest_first(list)
    } else {
        newest_first(list).take(limit)
    }
}

/// The newest entries are at most `limit`, and each is in the list.
pub proof fn newest_are_of_the_list<T: SharedEntry>(list: Seq<T>, limit: int)
    requires
        0 <= limit,
    ensures
        newest(list, limit).len() <= limit,
        newest_come_first(newest(list, limit)),
        forall|i: int|
            0 <= i < newest(list, limit).len() ==> list.contains(
                #[trigger] newest(list, limit)[i],
            ),
{
    broadcast use vstd::seq_lib::group_to_multiset_ensures;

    newest_first_sorts(list, 0);
    assert forall|i: int| 0 <= i < newest(list, limit).len() implies list.contains(
        #[trigger] newest(list, limit)[i],
    ) by {
        let e = newest_first(list)[i];
        assert(newest_first(list).to_multiset().count(e) > 0);
        assert(list.to_multiset().count(e) > 0);
    }
}

/// A host gains nothing from the newest entries of an equal list.
pub proof fn an_equal_list_holds_nothing_newer<T: SharedEntry>(list: Seq<T>, limit: int)
    requires
        0 <= limit,
        one_per_subject(list),
    ensures
        adopt_all(list, newest(list, limit)) == list,
{
    newest_are_of_the_list(list, limit);
    merging_with_itself_changes_nothing(list, newest(list, limit));
}

/// The newest entries that fit under `limit`, newest first.
pub fn newest_entries<T: SharedEntry>(list: &[T], limit: usize) -> (result: Vec<T>)
    ensures
        result@ == newest(list@, limit as int),
{
    let mut sorted: Vec<T> = Vec::new();
    let mut i: usize = 0;
    while i < list.len()
        invariant
            i <= list@.len(),
            sorted@ == newest_first(list@.take(i as int)),
        decreases list@.len() - i,
    {
        proof {
            newest_first_sorts(list@.take(i as int), 0);
            assert(list@.take(i + 1).drop_last() =~= list@.take(i as int));
        }
        let entry = list[i].duplicate();
        let mut at: usize = sorted.len();
        while at > 0 && sorted[at - 1].stamp() < entry.stamp()
            invariant
                at <= sorted@.len(),
                forall|j: int|
                    at <= j < sorted@.len() ==> (#[trigger] sorted@[j]).changed_at()
                        < entry.changed_at(),
            decreases at,
        {
            at -= 1;
        }
        proof {
            lemma_placed(sorted@, entry, at as int);
        }
        sorted.insert(at, entry);
        i += 1;
    }
    assert(list@.take(list@.len() as int) =~= list@);
    proof {
        newest_first_sorts(list@, 0);
    }
    if sorted.len() > limit {
        sorted.truncate(limit);
        assert(sorted@ =~= newest_first(list@).take(limit as int));
    }
    sorted
}

} // verus!
