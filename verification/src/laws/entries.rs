//! What merging and changing shared entries does to what is said of a subject.

use crate::domain::{DisplayInput, HostAlias, Identity, InputLabel, MonitorIdentityLink};
use crate::entries::{
    about, adopt_all, adopt_one, entry_index, has_entry, newest, newest_first, newest_first_sorts,
    not_about, without_subject, SharedEntry,
};
use crate::laws::claims::{is_claimed_to_be, is_unclaimed};
use crate::laws::naming::{
    a_note_is_of_its_own_display_and_input, is_annotated, is_called, is_nameless, lemma_called,
};
use crate::lists::{
    lemma_added_is_found, lemma_first_at, lemma_first_at_is, lemma_found_beside_added,
};
use crate::host_alias::normal_alias;
use crate::input_label::normal_label;
use crate::text::{
    control, has_control, trimmed, trimmed_has_bare_ends, trimming_takes_off_just_the_white_space,
    white_space,
};
use vstd::prelude::*;

verus! {

proof fn lemma_one_adopted<T: SharedEntry>(list: Seq<T>, entry: T, probe: T)
    ensures
        ({
            let after = adopt_one(list, entry);
            let newer = entry.adoptable() && entry.about_same(&probe) && (!has_entry(list, probe)
                || list[entry_index(list, probe)].changed_at() < entry.changed_at());
            &&& newer ==> has_entry(after, probe) && after[entry_index(after, probe)] == entry
            &&& !newer ==> has_entry(after, probe) == has_entry(list, probe)
            &&& !newer && has_entry(list, probe) ==> after[entry_index(after, probe)]
                == list[entry_index(list, probe)]
        }),
{
    let after = adopt_one(list, entry);
    let i = entry_index(list, entry);
    let p = entry_index(list, probe);
    lemma_first_at(list, about(entry));
    lemma_first_at(list, about(probe));
    assert forall|j: int| 0 <= j < list.len() && entry.about_same(&probe) implies (about(entry)(
        #[trigger] list[j],
    ) <==> about(probe)(list[j])) by {
        T::about_same_is_equivalence(&list[j], &entry, &probe);
        T::about_same_is_equivalence(&entry, &probe, &list[j]);
        T::about_same_is_equivalence(&list[j], &probe, &entry);
    }
    T::about_same_is_equivalence(&entry, &entry, &entry);
    if entry.about_same(&probe) {
        assert(i == p) by {
            lemma_first_at_is(list, about(probe), i);
        }
    }
    if after != list {
        if i == list.len() {
            assert forall|j: int| 0 <= j < list.len() implies (#[trigger] after[j])
                == list[j] by {}
            if p < list.len() {
                assert(about(probe)(after[p]));
                lemma_first_at_is(after, about(probe), p);
            } else if entry.about_same(&probe) {
                lemma_first_at_is(after, about(probe), list.len() as int);
            } else {
                lemma_first_at_is(after, about(probe), after.len() as int);
            }
        } else {
            assert(about(entry)(list[i]));
            if entry.about_same(&probe) {
                assert(about(probe)(entry));
                lemma_first_at_is(after, about(probe), i);
            } else {
                assert(!about(probe)(list[i])) by {
                    T::about_same_is_equivalence(&list[i], &entry, &probe);
                    T::about_same_is_equivalence(&entry, &list[i], &probe);
                }
                assert forall|j: int| 0 <= j < p implies !about(probe)(#[trigger] after[j]) by {
                    assert(!about(probe)(list[j]));
                }
                if p < list.len() {
                    assert(about(probe)(list[p]));
                    assert(after[p] == list[p]);
                }
                lemma_first_at_is(after, about(probe), p);
            }
        }
    }
}

/// Where nothing that comes in is about a subject, what is said of it stays.
pub proof fn merging_leaves_what_is_not_mentioned<T: SharedEntry>(
    list: Seq<T>,
    incoming: Seq<T>,
    probe: T,
)
    requires
        forall|j: int| 0 <= j < incoming.len() ==> !(#[trigger] incoming[j]).about_same(&probe)
            || !incoming[j].adoptable(),
    ensures
        has_entry(adopt_all(list, incoming), probe) == has_entry(list, probe),
        has_entry(list, probe) ==> adopt_all(list, incoming)[entry_index(
            adopt_all(list, incoming),
            probe,
        )] == list[entry_index(list, probe)],
    decreases incoming.len(),
{
    if incoming.len() > 0 {
        let front = incoming.drop_last();
        assert forall|j: int| 0 <= j < front.len() implies !(#[trigger] front[j]).about_same(&probe)
            || !front[j].adoptable() by {
            assert(front[j] == incoming[j]);
        }
        merging_leaves_what_is_not_mentioned(list, front, probe);
        lemma_one_adopted(adopt_all(list, front), incoming.last(), probe);
        assert(incoming.last() == incoming[incoming.len() - 1]);
    }
}

/// What comes in about a subject, where it is the only entry about it, is what is
/// said afterwards if it is newer, and else what was said stays.
pub proof fn merging_takes_the_newer_entry<T: SharedEntry>(
    list: Seq<T>,
    incoming: Seq<T>,
    k: int,
)
    requires
        0 <= k < incoming.len(),
        incoming[k].adoptable(),
        forall|j: int| 0 <= j < incoming.len() && j != k ==> !(#[trigger] incoming[j]).about_same(
            &incoming[k],
        ),
    ensures
        has_entry(adopt_all(list, incoming), incoming[k]),
        ({
            let after = adopt_all(list, incoming);
            let kept = has_entry(list, incoming[k]) && list[entry_index(
                list,
                incoming[k],
            )].changed_at() >= incoming[k].changed_at();
            after[entry_index(after, incoming[k])] == if kept {
                list[entry_index(list, incoming[k])]
            } else {
                incoming[k]
            }
        }),
    decreases incoming.len(),
{
    let front = incoming.drop_last();
    let entry = incoming[k];
    T::about_same_is_equivalence(&entry, &entry, &entry);
    lemma_one_adopted(adopt_all(list, front), incoming.last(), entry);
    if k == incoming.len() - 1 {
        assert forall|j: int| 0 <= j < front.len() implies !(#[trigger] front[j]).about_same(&entry)
            || !front[j].adoptable() by {
            assert(front[j] == incoming[j]);
        }
        merging_leaves_what_is_not_mentioned(list, front, entry);
    } else {
        assert forall|j: int| 0 <= j < front.len() && j != k implies !(
        #[trigger] front[j]).about_same(&front[k]) by {
            assert(front[j] == incoming[j]);
        }
        merging_takes_the_newer_entry(list, front, k);
        assert(!incoming[incoming.len() - 1].about_same(&entry));
    }
}

/// What is sent of a list that fits is all of it.
pub proof fn a_list_that_fits_is_sent_whole<T: SharedEntry>(list: Seq<T>, limit: int, i: int)
    requires
        list.len() <= limit,
    ensures
        newest(list, limit).len() == list.len(),
        0 <= i < list.len() ==> newest(list, limit).contains(list[i]),
{
    newest_first_sorts(list, 0);
    if 0 <= i < list.len() {
        list.to_multiset_ensures();
        newest_first(list).to_multiset_ensures();
        assert(list.to_multiset().count(list[i]) > 0);
        assert(newest_first(list).to_multiset().count(list[i]) > 0);
    }
}

/// Of a list that does not fit, nothing is left out that is newer than something
/// sent.
pub proof fn the_newest_entries_are_sent<T: SharedEntry>(list: Seq<T>, limit: int, i: int, k: int)
    requires
        0 <= limit < list.len(),
        0 <= i < list.len(),
        0 <= k < limit,
        !newest(list, limit).contains(list[i]),
    ensures
        newest(list, limit).len() == limit,
        newest(list, limit)[k].changed_at() >= list[i].changed_at(),
{
    newest_first_sorts(list, 0);
    let sorted = newest_first(list);
    list.to_multiset_ensures();
    sorted.to_multiset_ensures();
    assert(list.to_multiset().count(list[i]) > 0);
    assert(sorted.contains(list[i]));
    let n = choose|n: int| 0 <= n < sorted.len() && sorted[n] == list[i];
    if n < limit {
        assert(newest(list, limit)[n] == list[i]);
    }
    assert(sorted[k].changed_at() >= sorted[n].changed_at());
    assert(newest(list, limit)[k] == sorted[k]);
}

/// Whether a host id can come from a paired host: at most 128 letters, digits and
/// hyphens.
pub open spec fn is_plain_id(id: Seq<char>) -> bool {
    &&& 0 < id.len() <= 128
    &&& forall|i: int| 0 <= i < id.len() ==> is_plain_id_char(#[trigger] id[i])
}

/// Letters, digits and the hyphen.
pub open spec fn is_plain_id_char(c: char) -> bool {
    'a' <= c <= 'z' || 'A' <= c <= 'Z' || '0' <= c <= '9' || c == '-'
}

/// Whether a text can be shown: at most `limit` characters, none that controls,
/// and no white space at either end.
pub open spec fn is_presentable(text: Seq<char>, limit: int) -> bool {
    &&& text.len() <= limit
    &&& forall|i: int| 0 <= i < text.len() ==> !control(#[trigger] text[i])
    &&& text.len() > 0 ==> !white_space(text[0]) && !white_space(text.last())
}

proof fn lemma_bare(text: Seq<char>)
    ensures
        trimmed(text) == text <==> (text.len() > 0 ==> !white_space(text[0]) && !white_space(
            text.last(),
        )),
{
    trimmed_has_bare_ends(text);
    let ends = trimming_takes_off_just_the_white_space(text);
    if text.len() > 0 && !white_space(text[0]) && !white_space(text.last()) {
        assert(text.last() == text[text.len() - 1]);
        assert(ends.0 == 0);
        assert(ends.1 == text.len());
        assert(text.subrange(0, text.len() as int) =~= text);
    }
    if text.len() == 0 {
        assert(text.subrange(0, 0) =~= text);
    }
}

pub(crate) proof fn lemma_presentable(text: Seq<char>)
    ensures
        is_presentable(text, 32) <==> normal_alias(text),
        is_presentable(text, 24) <==> normal_label(text),
{
    lemma_bare(text);
    assert(has_control(text) <==> !(forall|i: int|
        0 <= i < text.len() ==> !control(#[trigger] text[i])));
}

/// Whether nothing newer is said of a host than at `at`, or nothing at all.
pub open spec fn is_name_older(aliases: Seq<HostAlias>, host_id: Seq<char>, at: u64) -> bool {
    forall|i: int|
        0 <= i < aliases.len() && (#[trigger] aliases[i]).host_id@ == host_id
            ==> aliases[i].updated_at_ms < at
}

/// Whether something at least as new as at `at` is said of a host in its first
/// entry.
pub open spec fn is_name_newer(aliases: Seq<HostAlias>, host_id: Seq<char>, at: u64) -> bool {
    exists|i: int|
        {
            &&& 0 <= i < aliases.len()
            &&& (#[trigger] aliases[i]).host_id@ == host_id
            &&& aliases[i].updated_at_ms >= at
            &&& forall|j: int| 0 <= j < i ==> (#[trigger] aliases[j]).host_id@ != host_id
        }
}

/// A name that a paired host gave later becomes the name of its host; a name that
/// was given here later stays; and a host that was not mentioned keeps its own.
pub proof fn the_later_name_stands(
    ours: Seq<HostAlias>,
    theirs: Seq<HostAlias>,
    k: int,
    other: Seq<char>,
    name: Seq<char>,
)
    requires
        0 <= k < theirs.len(),
        is_plain_id(theirs[k].host_id@),
        is_presentable(theirs[k].name@, 32),
        forall|j: int| 0 <= j < theirs.len() && j != k ==> (#[trigger] theirs[j]).host_id@
            != theirs[k].host_id@,
    ensures
        is_name_older(ours, theirs[k].host_id@, theirs[k].updated_at_ms) ==> {
            &&& theirs[k].name@.len() > 0 ==> is_called(
                adopt_all(ours, theirs),
                theirs[k].host_id@,
                theirs[k].name@,
            )
            &&& theirs[k].name@.len() == 0 ==> is_nameless(
                adopt_all(ours, theirs),
                theirs[k].host_id@,
            )
        },
        is_name_newer(ours, theirs[k].host_id@, theirs[k].updated_at_ms) && is_called(
            ours,
            theirs[k].host_id@,
            name,
        ) ==> is_called(adopt_all(ours, theirs), theirs[k].host_id@, name),
        (forall|j: int| 0 <= j < theirs.len() ==> (#[trigger] theirs[j]).host_id@ != other)
            && is_called(ours, other, name) ==> is_called(adopt_all(ours, theirs), other, name),
{
    let entry = theirs[k];
    lemma_presentable(entry.name@);
    assert(entry.adoptable()) by {
        assert(crate::host_order::valid_host_id(entry.host_id@)) by {
            assert forall|i: int| 0 <= i < entry.host_id@.len() implies
                crate::host_order::host_id_char(#[trigger] entry.host_id@[i]) by {
                assert(is_plain_id_char(entry.host_id@[i]));
            }
        }
    }
    merging_takes_the_newer_entry(ours, theirs, k);
    let after = adopt_all(ours, theirs);
    lemma_first_named(after, entry);
    lemma_first_named(ours, entry);
    if (forall|j: int| 0 <= j < theirs.len() ==> (#[trigger] theirs[j]).host_id@ != other)
        && is_called(ours, other, name) {
        let i = choose|i: int|
            {
                &&& 0 <= i < ours.len()
                &&& (#[trigger] ours[i]).host_id@ == other
                &&& ours[i].name@ == name
                &&& forall|j: int| 0 <= j < i ==> (#[trigger] ours[j]).host_id@ != other
            };
        merging_leaves_what_is_not_mentioned(ours, theirs, ours[i]);
        lemma_first_named(after, ours[i]);
        lemma_first_named(ours, ours[i]);
    }
}

proof fn lemma_first_named(aliases: Seq<HostAlias>, probe: HostAlias)
    ensures
        has_entry(aliases, probe) ==> {
            let n = entry_index(aliases, probe);
            &&& 0 <= n < aliases.len()
            &&& aliases[n].host_id@ == probe.host_id@
            &&& forall|j: int| 0 <= j < n ==> (#[trigger] aliases[j]).host_id@ != probe.host_id@
            &&& aliases[n].name@.len() > 0 ==> is_called(aliases, probe.host_id@, aliases[n].name@)
            &&& aliases[n].name@.len() == 0 ==> is_nameless(aliases, probe.host_id@)
        },
        forall|i: int| #![trigger aliases[i]]
            0 <= i < aliases.len() && aliases[i].host_id@ == probe.host_id@ && (forall|j: int|
                0 <= j < i ==> (#[trigger] aliases[j]).host_id@ != probe.host_id@) ==> has_entry(
                aliases,
                probe,
            ) && entry_index(aliases, probe) == i,
{
    let wanted = about(probe);
    lemma_first_at(aliases, wanted);
    let n = entry_index(aliases, probe);
    assert forall|j: int| 0 <= j < n implies (#[trigger] aliases[j]).host_id@ != probe.host_id@ by {
        assert(!wanted(aliases[j]));
    }
    assert forall|i: int| #![trigger aliases[i]]
        0 <= i < aliases.len() && aliases[i].host_id@ == probe.host_id@ && (forall|j: int|
            0 <= j < i ==> (#[trigger] aliases[j]).host_id@ != probe.host_id@) implies has_entry(
        aliases,
        probe,
    ) && entry_index(aliases, probe) == i by {
        lemma_first_at_is(aliases, wanted, i);
    }
}

/// Whether nothing is said of an input of a display that is as new as `at`.
pub open spec fn is_note_older(
    labels: Seq<InputLabel>,
    monitor: Identity,
    input: DisplayInput,
    at: u64,
) -> bool {
    forall|i: int|
        0 <= i < labels.len() && (#[trigger] labels[i]).monitor@ == monitor && labels[i].input
            == input ==> labels[i].updated_at_ms < at
}

/// Whether the first entry about an input of a display is at least as new as `at`.
pub open spec fn is_note_newer(
    labels: Seq<InputLabel>,
    monitor: Identity,
    input: DisplayInput,
    at: u64,
) -> bool {
    exists|i: int|
        {
            &&& 0 <= i < labels.len()
            &&& (#[trigger] labels[i]).monitor@ == monitor && labels[i].input == input
            &&& labels[i].updated_at_ms >= at
            &&& forall|j: int|
                0 <= j < i ==> !((#[trigger] labels[j]).monitor@ == monitor && labels[j].input
                    == input)
        }
}

proof fn lemma_first_annotated(labels: Seq<InputLabel>, probe: InputLabel)
    ensures
        has_entry(labels, probe) ==> {
            let n = entry_index(labels, probe);
            &&& 0 <= n < labels.len()
            &&& labels[n].monitor@ == probe.monitor@ && labels[n].input == probe.input
            &&& forall|j: int|
                0 <= j < n ==> !((#[trigger] labels[j]).monitor@ == probe.monitor@
                    && labels[j].input == probe.input)
            &&& labels[n].label@.len() > 0 ==> is_annotated(
                labels,
                probe.monitor@,
                probe.input,
                labels[n].label@,
            )
        },
        forall|i: int| #![trigger labels[i]]
            0 <= i < labels.len() && labels[i].monitor@ == probe.monitor@ && labels[i].input
                == probe.input && (forall|j: int|
                0 <= j < i ==> !((#[trigger] labels[j]).monitor@ == probe.monitor@
                    && labels[j].input == probe.input)) ==> has_entry(labels, probe)
                && entry_index(labels, probe) == i,
{
    let wanted = about(probe);
    lemma_first_at(labels, wanted);
    let n = entry_index(labels, probe);
    assert forall|j: int| 0 <= j < n implies !((#[trigger] labels[j]).monitor@ == probe.monitor@
        && labels[j].input == probe.input) by {
        assert(!wanted(labels[j]));
    }
    assert forall|i: int| #![trigger labels[i]]
        0 <= i < labels.len() && labels[i].monitor@ == probe.monitor@ && labels[i].input
            == probe.input && (forall|j: int|
            0 <= j < i ==> !((#[trigger] labels[j]).monitor@ == probe.monitor@ && labels[j].input
                == probe.input)) implies has_entry(labels, probe) && entry_index(labels, probe)
        == i by {
        lemma_first_at_is(labels, wanted, i);
    }
}

/// A note that a paired host set later becomes the note of its input; one that was
/// set here later stays; and an input that was not mentioned keeps its own.
pub proof fn the_later_note_stands(
    ours: Seq<InputLabel>,
    theirs: Seq<InputLabel>,
    k: int,
    other: Identity,
    other_input: DisplayInput,
    note: Seq<char>,
)
    requires
        0 <= k < theirs.len(),
        1 <= theirs[k].input.code <= 255,
        is_presentable(theirs[k].label@, 24),
        forall|j: int| 0 <= j < theirs.len() && j != k ==> !((#[trigger] theirs[j]).monitor@
            == theirs[k].monitor@ && theirs[j].input == theirs[k].input),
    ensures
        is_note_older(ours, theirs[k].monitor@, theirs[k].input, theirs[k].updated_at_ms)
            && theirs[k].label@.len() > 0 ==> is_annotated(
            adopt_all(ours, theirs),
            theirs[k].monitor@,
            theirs[k].input,
            theirs[k].label@,
        ),
        is_note_older(ours, theirs[k].monitor@, theirs[k].input, theirs[k].updated_at_ms)
            && theirs[k].label@.len() == 0 ==> !is_annotated(
            adopt_all(ours, theirs),
            theirs[k].monitor@,
            theirs[k].input,
            note,
        ),
        is_note_newer(ours, theirs[k].monitor@, theirs[k].input, theirs[k].updated_at_ms)
            && is_annotated(ours, theirs[k].monitor@, theirs[k].input, note) ==> is_annotated(
            adopt_all(ours, theirs),
            theirs[k].monitor@,
            theirs[k].input,
            note,
        ),
        (forall|j: int| 0 <= j < theirs.len() ==> !((#[trigger] theirs[j]).monitor@ == other
            && theirs[j].input == other_input)) && is_annotated(ours, other, other_input, note)
            ==> is_annotated(adopt_all(ours, theirs), other, other_input, note),
{
    let entry = theirs[k];
    lemma_presentable(entry.label@);
    merging_takes_the_newer_entry(ours, theirs, k);
    let after = adopt_all(ours, theirs);
    lemma_first_annotated(after, entry);
    lemma_first_annotated(ours, entry);
    if (forall|j: int| 0 <= j < theirs.len() ==> !((#[trigger] theirs[j]).monitor@ == other
        && theirs[j].input == other_input)) && is_annotated(ours, other, other_input, note) {
        let i = choose|i: int|
            {
                &&& 0 <= i < ours.len()
                &&& (#[trigger] ours[i]).monitor@ == other && ours[i].input == other_input
                &&& ours[i].label@ == note
                &&& forall|j: int|
                    0 <= j < i ==> !((#[trigger] ours[j]).monitor@ == other && ours[j].input
                        == other_input)
            };
        merging_leaves_what_is_not_mentioned(ours, theirs, ours[i]);
        lemma_first_annotated(after, ours[i]);
        lemma_first_annotated(ours, ours[i]);
    }
}

proof fn lemma_first_claim(links: Seq<MonitorIdentityLink>, probe: MonitorIdentityLink)
    ensures
        has_entry(links, probe) ==> {
            let n = entry_index(links, probe);
            &&& 0 <= n < links.len()
            &&& links[n].alias@ == probe.alias@
            &&& forall|j: int| 0 <= j < n ==> (#[trigger] links[j]).alias@ != probe.alias@
            &&& links[n].primary is Some ==> is_claimed_to_be(
                links,
                probe.alias@,
                links[n].primary->0@,
            )
            &&& links[n].primary is None ==> is_unclaimed(links, probe.alias@)
        },
        forall|i: int| #![trigger links[i]]
            0 <= i < links.len() && links[i].alias@ == probe.alias@ && (forall|j: int|
                0 <= j < i ==> (#[trigger] links[j]).alias@ != probe.alias@) ==> has_entry(
                links,
                probe,
            ) && entry_index(links, probe) == i,
{
    let wanted = about(probe);
    lemma_first_at(links, wanted);
    let n = entry_index(links, probe);
    assert forall|j: int| 0 <= j < n implies (#[trigger] links[j]).alias@ != probe.alias@ by {
        assert(!wanted(links[j]));
    }
    assert forall|i: int| #![trigger links[i]]
        0 <= i < links.len() && links[i].alias@ == probe.alias@ && (forall|j: int|
            0 <= j < i ==> (#[trigger] links[j]).alias@ != probe.alias@) implies has_entry(
        links,
        probe,
    ) && entry_index(links, probe) == i by {
        lemma_first_at_is(links, wanted, i);
    }
}

/// A claim that a paired host made or withdrew later stands; one that was made
/// here later stays; and what was not mentioned stays claimed.
pub proof fn the_later_claim_stands(
    ours: Seq<MonitorIdentityLink>,
    theirs: Seq<MonitorIdentityLink>,
    k: int,
    other: Identity,
    primary: Identity,
)
    requires
        0 <= k < theirs.len(),
        theirs[k].primary is Some ==> theirs[k].primary->0@ != theirs[k].alias@,
        forall|j: int| 0 <= j < theirs.len() && j != k ==> (#[trigger] theirs[j]).alias@
            != theirs[k].alias@,
    ensures
        (forall|i: int| 0 <= i < ours.len() && (#[trigger] ours[i]).alias@ == theirs[k].alias@
            ==> ours[i].updated_at_ms < theirs[k].updated_at_ms) ==> {
            &&& theirs[k].primary is Some ==> is_claimed_to_be(
                adopt_all(ours, theirs),
                theirs[k].alias@,
                theirs[k].primary->0@,
            )
            &&& theirs[k].primary is None ==> is_unclaimed(adopt_all(ours, theirs), theirs[k].alias@)
        },
        (forall|i: int| 0 <= i < ours.len() && (#[trigger] ours[i]).alias@ == theirs[k].alias@
            ==> ours[i].updated_at_ms >= theirs[k].updated_at_ms) && is_claimed_to_be(
            ours,
            theirs[k].alias@,
            primary,
        ) ==> is_claimed_to_be(adopt_all(ours, theirs), theirs[k].alias@, primary),
        (forall|j: int| 0 <= j < theirs.len() ==> (#[trigger] theirs[j]).alias@ != other)
            && is_claimed_to_be(ours, other, primary) ==> is_claimed_to_be(
            adopt_all(ours, theirs),
            other,
            primary,
        ),
{
    let entry = theirs[k];
    merging_takes_the_newer_entry(ours, theirs, k);
    let after = adopt_all(ours, theirs);
    lemma_first_claim(after, entry);
    lemma_first_claim(ours, entry);
    if (forall|j: int| 0 <= j < theirs.len() ==> (#[trigger] theirs[j]).alias@ != other)
        && is_claimed_to_be(ours, other, primary) {
        let i = choose|i: int|
            {
                &&& 0 <= i < ours.len()
                &&& (#[trigger] ours[i]).alias@ == other
                &&& ours[i].primary is Some
                &&& ours[i].primary->0@ == primary
                &&& forall|j: int| 0 <= j < i ==> (#[trigger] ours[j]).alias@ != other
            };
        merging_leaves_what_is_not_mentioned(ours, theirs, ours[i]);
        lemma_first_claim(after, ours[i]);
        lemma_first_claim(ours, ours[i]);
    }
}

/// A claim that was recorded here stands, or is withdrawn, and no other changes.
pub(crate) proof fn lemma_claim_recorded(
    before: Seq<MonitorIdentityLink>,
    entry: MonitorIdentityLink,
    other: Identity,
    primary: Identity,
)
    ensures
        ({
            let after = without_subject(before, entry).push(entry);
            &&& entry.primary is Some ==> is_claimed_to_be(
                after,
                entry.alias@,
                entry.primary->0@,
            )
            &&& entry.primary is None ==> is_unclaimed(after, entry.alias@)
            &&& other != entry.alias@ && is_claimed_to_be(before, other, primary)
                ==> is_claimed_to_be(after, other, primary)
        }),
{
    let after = without_subject(before, entry).push(entry);
    lemma_added_is_found(before, not_about(entry), about(entry), entry);
    lemma_first_claim(after, entry);
    if other != entry.alias@ && is_claimed_to_be(before, other, primary) {
        let i = choose|i: int|
            {
                &&& 0 <= i < before.len()
                &&& (#[trigger] before[i]).alias@ == other
                &&& before[i].primary is Some
                &&& before[i].primary->0@ == primary
                &&& forall|j: int| 0 <= j < i ==> (#[trigger] before[j]).alias@ != other
            };
        lemma_first_claim(before, before[i]);
        lemma_found_beside_added(before, not_about(entry), about(before[i]), entry);
        lemma_first_claim(after, before[i]);
    }
}

/// A name that was set here is the name of its host, and no other changes.
pub(crate) proof fn lemma_name_set(
    before: Seq<HostAlias>,
    entry: HostAlias,
    other: Seq<char>,
    name: Seq<char>,
)
    ensures
        ({
            let after = without_subject(before, entry).push(entry);
            &&& entry.name@.len() > 0 ==> is_called(after, entry.host_id@, entry.name@)
            &&& entry.name@.len() == 0 ==> is_nameless(after, entry.host_id@)
            &&& other != entry.host_id@ && is_called(before, other, name) ==> is_called(
                after,
                other,
                name,
            )
            &&& other != entry.host_id@ && is_nameless(before, other) ==> is_nameless(after, other)
        }),
{
    let after = without_subject(before, entry).push(entry);
    crate::host_alias::renaming_sets_that_name_only(before, entry, other);
    lemma_called(after, entry.host_id@);
    lemma_called(after, other);
    lemma_called(before, other);
}

/// A note that was set here is the note of its input, and no other changes.
pub(crate) proof fn lemma_note_set(
    before: Seq<InputLabel>,
    entry: InputLabel,
    other: Identity,
    other_input: DisplayInput,
    note: Seq<char>,
)
    ensures
        ({
            let after = without_subject(before, entry).push(entry);
            &&& entry.label@.len() > 0 ==> is_annotated(
                after,
                entry.monitor@,
                entry.input,
                entry.label@,
            )
            &&& entry.label@.len() == 0 ==> !is_annotated(after, entry.monitor@, entry.input, note)
            &&& !(other == entry.monitor@ && other_input == entry.input) ==> (is_annotated(
                before,
                other,
                other_input,
                note,
            ) <==> is_annotated(after, other, other_input, note))
        }),
{
    let after = without_subject(before, entry).push(entry);
    lemma_added_is_found(before, not_about(entry), about(entry), entry);
    lemma_first_annotated(after, entry);
    a_note_is_of_its_own_display_and_input(after, entry.monitor@, entry.input);
    a_note_is_of_its_own_display_and_input(after, other, other_input);
    a_note_is_of_its_own_display_and_input(before, other, other_input);
    if !(other == entry.monitor@ && other_input == entry.input) {
        lemma_found_beside_added(
            before,
            not_about(entry),
            crate::input_label::is_label_for(other, other_input),
            entry,
        );
    }
}

} // verus!
