//! What hosts and inputs are called.

use crate::domain::{DisplayInput, HostAlias, Identity, InputLabel};
use crate::host_alias::{alias_of, names_host};
use crate::input_label::{is_label_for, label_of};
use crate::lists::{first_at, lemma_first_at, lemma_first_at_is};
use crate::settings::key_of;
use vstd::prelude::*;

verus! {

/// Whether a host has a custom name: the first entry about it holds one.
pub open spec fn is_called(aliases: Seq<HostAlias>, host_id: Seq<char>, name: Seq<char>) -> bool {
    name.len() > 0 && exists|i: int|
        {
            &&& 0 <= i < aliases.len()
            &&& (#[trigger] aliases[i]).host_id@ == host_id
            &&& aliases[i].name@ == name
            &&& forall|j: int| 0 <= j < i ==> (#[trigger] aliases[j]).host_id@ != host_id
        }
}

/// Whether a host has no custom name: no entry is about it, or the first holds an
/// empty one.
pub open spec fn is_nameless(aliases: Seq<HostAlias>, host_id: Seq<char>) -> bool {
    (forall|i: int| 0 <= i < aliases.len() ==> (#[trigger] aliases[i]).host_id@ != host_id)
        || exists|i: int|
        {
            &&& 0 <= i < aliases.len()
            &&& (#[trigger] aliases[i]).host_id@ == host_id
            &&& aliases[i].name@.len() == 0
            &&& forall|j: int| 0 <= j < i ==> (#[trigger] aliases[j]).host_id@ != host_id
        }
}

/// Whether an input of a display has a note: the first entry about it holds one.
pub open spec fn is_annotated(
    labels: Seq<InputLabel>,
    monitor: Identity,
    input: DisplayInput,
    note: Seq<char>,
) -> bool {
    note.len() > 0 && exists|i: int|
        {
            &&& 0 <= i < labels.len()
            &&& (#[trigger] labels[i]).monitor@ == monitor && labels[i].input == input
            &&& labels[i].label@ == note
            &&& forall|j: int|
                0 <= j < i ==> !((#[trigger] labels[j]).monitor@ == monitor && labels[j].input
                    == input)
        }
}

/// What a host is called is what the first entry about it says.
pub proof fn lemma_called(aliases: Seq<HostAlias>, host_id: Seq<char>)
    ensures
        match alias_of(aliases, host_id) {
            Some(name) => is_called(aliases, host_id, name),
            None => is_nameless(aliases, host_id),
        },
        forall|name: Seq<char>| #[trigger]
            is_called(aliases, host_id, name) ==> alias_of(aliases, host_id) == Some(name),
        is_nameless(aliases, host_id) ==> alias_of(aliases, host_id) is None,
{
    let wanted = names_host(host_id);
    lemma_first_at(aliases, wanted);
    let n = first_at(aliases, wanted);
    assert forall|j: int| 0 <= j < n implies (#[trigger] aliases[j]).host_id@ != host_id by {
        assert(!wanted(aliases[j]));
    }
    if n < aliases.len() {
        assert(wanted(aliases[n]));
    }
    assert forall|name: Seq<char>| #[trigger] is_called(aliases, host_id, name) implies alias_of(
        aliases,
        host_id,
    ) == Some(name) by {
        let i = choose|i: int|
            {
                &&& 0 <= i < aliases.len()
                &&& (#[trigger] aliases[i]).host_id@ == host_id
                &&& aliases[i].name@ == name
                &&& forall|j: int| 0 <= j < i ==> (#[trigger] aliases[j]).host_id@ != host_id
            };
        lemma_first_at_is(aliases, wanted, i);
    }
    if is_nameless(aliases, host_id) {
        if exists|i: int|
            {
                &&& 0 <= i < aliases.len()
                &&& (#[trigger] aliases[i]).host_id@ == host_id
                &&& aliases[i].name@.len() == 0
                &&& forall|j: int| 0 <= j < i ==> (#[trigger] aliases[j]).host_id@ != host_id
            } {
            let i = choose|i: int|
                {
                    &&& 0 <= i < aliases.len()
                    &&& (#[trigger] aliases[i]).host_id@ == host_id
                    &&& aliases[i].name@.len() == 0
                    &&& forall|j: int| 0 <= j < i ==> (#[trigger] aliases[j]).host_id@ != host_id
                };
            lemma_first_at_is(aliases, wanted, i);
        } else {
            lemma_first_at_is(aliases, wanted, aliases.len() as int);
        }
    }
}

/// The note of an input is the one that was set for that input of that display.
pub proof fn a_note_is_of_its_own_display_and_input(
    labels: Seq<InputLabel>,
    monitor: Identity,
    input: DisplayInput,
)
    ensures
        label_of(labels, monitor, input) matches Some(note) ==> is_annotated(
            labels,
            monitor,
            input,
            note,
        ),
        forall|note: Seq<char>| #[trigger]
            is_annotated(labels, monitor, input, note) ==> label_of(labels, monitor, input) == Some(
                note,
            ),
{
    let wanted = is_label_for(monitor, input);
    lemma_first_at(labels, wanted);
    let n = first_at(labels, wanted);
    assert forall|j: int| 0 <= j < n implies !((#[trigger] labels[j]).monitor@ == monitor
        && labels[j].input == input) by {
        assert(!wanted(labels[j]));
    }
    if n < labels.len() {
        assert(wanted(labels[n]));
    }
    assert forall|note: Seq<char>| #[trigger]
        is_annotated(labels, monitor, input, note) implies label_of(labels, monitor, input)
        == Some(note) by {
        let i = choose|i: int|
            {
                &&& 0 <= i < labels.len()
                &&& (#[trigger] labels[i]).monitor@ == monitor && labels[i].input == input
                &&& labels[i].label@ == note
                &&& forall|j: int|
                    0 <= j < i ==> !((#[trigger] labels[j]).monitor@ == monitor && labels[j].input
                        == input)
            };
        lemma_first_at_is(labels, wanted, i);
    }
}

/// Keys tell identities apart, where neither maker nor product holds a colon: the
/// maker, the product and the serial number, where there is one, are the same.
pub proof fn keys_tell_identities_apart(a: Identity, b: Identity)
    requires
        key_of(a) == key_of(b),
        !a.manufacturer.contains(':'),
        !a.product.contains(':'),
        !b.manufacturer.contains(':'),
        !b.product.contains(':'),
    ensures
        a.manufacturer == b.manufacturer,
        a.product == b.product,
        a.serial is Some && b.serial is Some ==> a.serial == b.serial,
        a.serial is Some && b.serial is None ==> a.serial->0.len() == 0,
{
    reveal_strlit(":");
    reveal_strlit("");
    let x = match a.serial {
        Some(serial) => serial,
        None => ""@,
    };
    let y = match b.serial {
        Some(serial) => serial,
        None => ""@,
    };
    let after_a = a.product + ":"@ + x;
    let after_b = b.product + ":"@ + y;
    assert(key_of(a) =~= a.manufacturer + ":"@ + after_a);
    assert(key_of(b) =~= b.manufacturer + ":"@ + after_b);
    lemma_before_colon(a.manufacturer, after_a, b.manufacturer, after_b);
    lemma_before_colon(a.product, x, b.product, y);
    assert(""@ =~= Seq::<char>::empty());
}

proof fn lemma_before_colon(a: Seq<char>, x: Seq<char>, b: Seq<char>, y: Seq<char>)
    requires
        a + ":"@ + x == b + ":"@ + y,
        !a.contains(':'),
        !b.contains(':'),
    ensures
        a == b,
        x == y,
{
    reveal_strlit(":");
    let whole = a + ":"@ + x;
    let other = b + ":"@ + y;
    assert(":"@.len() == 1 && ":"@[0] == ':');
    assert(whole[a.len() as int] == ':');
    assert(other[b.len() as int] == ':');
    if a.len() < b.len() {
        assert(other[a.len() as int] == b[a.len() as int]);
    } else if b.len() < a.len() {
        assert(whole[b.len() as int] == a[b.len() as int]);
    }
    assert(whole.take(a.len() as int) =~= a);
    assert(other.take(b.len() as int) =~= b);
    assert(whole.skip(a.len() as int + 1) =~= x);
    assert(other.skip(b.len() as int + 1) =~= y);
}

} // verus!
