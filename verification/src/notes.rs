//! Notes on inputs as values, and how those of one display move to another.

use crate::domain::{DisplayInput, Identity, InputLabel};
use crate::entries::{about, last_change, next_change, time_after, without_subject};
use crate::input_label::{is_label_for, label_of};
use crate::lists::{
    first_at, lemma_added_is_found, lemma_first_at, lemma_first_at_is, lemma_found_beside_added,
    lemma_found_in_kept,
};
use vstd::prelude::*;

verus! {

/// What a note says, of which input, and since when.
pub struct Note {
    pub monitor: Identity,
    pub input: DisplayInput,
    pub label: Seq<char>,
    pub changed_at: u64,
}

/// The value of an entry.
pub open spec fn note_of(entry: InputLabel) -> Note {
    Note {
        monitor: entry.monitor@,
        input: entry.input,
        label: entry.label@,
        changed_at: entry.updated_at_ms,
    }
}

/// The values of the entries, in order.
pub open spec fn notes_of(entries: Seq<InputLabel>) -> Seq<Note> {
    entries.map_values(|entry: InputLabel| note_of(entry))
}

/// Notes for `input` of `monitor`.
pub open spec fn is_for(monitor: Identity, input: DisplayInput) -> spec_fn(Note) -> bool {
    |note: Note| note.monitor == monitor && note.input == input
}

/// Notes for other inputs, or other displays.
pub open spec fn is_not_for(monitor: Identity, input: DisplayInput) -> spec_fn(Note) -> bool {
    |note: Note| !(note.monitor == monitor && note.input == input)
}

/// Notes for any input of `monitor`.
pub open spec fn is_about(monitor: Identity) -> spec_fn(Note) -> bool {
    |note: Note| note.monitor == monitor
}

/// The note for `input` of `monitor`, if one is set.
pub open spec fn noted(notes: Seq<Note>, monitor: Identity, input: DisplayInput) -> Option<
    Seq<char>,
> {
    let i = first_at(notes, is_for(monitor, input));
    if i < notes.len() && notes[i].label.len() > 0 {
        Some(notes[i].label)
    } else {
        None
    }
}

/// When the note for `input` of `monitor` was last changed; 0 where it never
/// was.
pub open spec fn noted_at(notes: Seq<Note>, monitor: Identity, input: DisplayInput) -> u64 {
    let i = first_at(notes, is_for(monitor, input));
    if i < notes.len() {
        notes[i].changed_at
    } else {
        0
    }
}

/// The notes with the one for `input` of `monitor` set at `now_ms`: it comes
/// last, and its time is later than that of the one it takes the place of, as
/// long as there is a later time.
pub open spec fn with_note(
    notes: Seq<Note>,
    monitor: Identity,
    input: DisplayInput,
    label: Seq<char>,
    now_ms: u64,
) -> Seq<Note> {
    let changed_at = time_after(noted_at(notes, monitor, input), now_ms);
    notes.filter(is_not_for(monitor, input)).push(Note { monitor, input, label, changed_at })
}

/// The notes once one of `alias` was handed to `primary`: it becomes the note of
/// `primary`, unless there is one already.
pub open spec fn note_handed_over(
    notes: Seq<Note>,
    note: Note,
    primary: Identity,
    now_ms: u64,
) -> Seq<Note> {
    if noted(notes, primary, note.input) is None {
        with_note(notes, primary, note.input, note.label, now_ms)
    } else {
        notes
    }
}

/// The notes once one of `alias` was moved to `primary`: it is handed over, and
/// cleared for `alias`.
pub open spec fn note_moved(
    notes: Seq<Note>,
    note: Note,
    alias: Identity,
    primary: Identity,
    now_ms: u64,
) -> Seq<Note> {
    with_note(
        note_handed_over(notes, note, primary, now_ms),
        alias,
        note.input,
        seq![],
        now_ms,
    )
}

/// The notes once those in `moved` were moved from `alias` to `primary`, one
/// after the other.
pub open spec fn notes_moved(
    notes: Seq<Note>,
    moved: Seq<Note>,
    alias: Identity,
    primary: Identity,
    now_ms: u64,
) -> Seq<Note>
    decreases moved.len(),
{
    if moved.len() == 0 {
        notes
    } else {
        note_moved(
            notes_moved(notes, moved.drop_last(), alias, primary, now_ms),
            moved.last(),
            alias,
            primary,
            now_ms,
        )
    }
}

/// The notes once every one of `alias` was moved to `primary`.
pub open spec fn notes_absorbed(
    notes: Seq<Note>,
    alias: Identity,
    primary: Identity,
    now_ms: u64,
) -> Seq<Note> {
    notes_moved(notes, notes.filter(is_about(alias)), alias, primary, now_ms)
}

/// An entry is found where its value is.
pub proof fn lemma_lookup(entries: Seq<InputLabel>, monitor: Identity, input: DisplayInput)
    ensures
        first_at(notes_of(entries), is_for(monitor, input)) == first_at(
            entries,
            is_label_for(monitor, input),
        ),
        noted(notes_of(entries), monitor, input) == label_of(entries, monitor, input),
    decreases entries.len(),
{
    if entries.len() > 0 {
        assert(notes_of(entries).drop_first() =~= notes_of(entries.drop_first()));
        lemma_lookup(entries.drop_first(), monitor, input);
    }
    lemma_first_at(entries, is_label_for(monitor, input));
}

/// Leaving entries out leaves their values out.
pub proof fn lemma_without(entries: Seq<InputLabel>, probe: InputLabel)
    ensures
        notes_of(without_subject(entries, probe)) == notes_of(entries).filter(
            is_not_for(probe.monitor@, probe.input),
        ),
    decreases entries.len(),
{
    reveal(Seq::filter);
    let keep = is_not_for(probe.monitor@, probe.input);
    let notes = notes_of(entries);
    if entries.len() == 0 {
        assert(notes_of(without_subject(entries, probe)) =~= notes.filter(keep));
    } else {
        let shorter = entries.drop_last();
        lemma_without(shorter, probe);
        assert(notes.drop_last() =~= notes_of(shorter));
        assert(notes.last() == note_of(entries.last()));
        assert(notes_of(without_subject(shorter, probe).push(entries.last())) =~= notes_of(
            without_subject(shorter, probe),
        ).push(note_of(entries.last())));
    }
}

/// Setting an entry sets its value.
pub proof fn lemma_note_set(
    before: Seq<InputLabel>,
    entry: InputLabel,
    now_ms: u64,
    after: Seq<InputLabel>,
)
    requires
        entry.updated_at_ms == next_change(before, entry, now_ms),
        after == without_subject(before, entry).push(entry),
    ensures
        notes_of(after) == with_note(
            notes_of(before),
            entry.monitor@,
            entry.input,
            entry.label@,
            now_ms,
        ),
{
    lemma_lookup(before, entry.monitor@, entry.input);
    lemma_without(before, entry);
    assert(about(entry) =~= is_label_for(entry.monitor@, entry.input));
    lemma_first_at(before, about(entry));
    assert(noted_at(notes_of(before), entry.monitor@, entry.input) == last_change(before, entry));
    assert(notes_of(after) =~= notes_of(without_subject(before, entry)).push(note_of(entry)));
}

/// Setting a note makes it the note of that input, and leaves every other
/// input's.
pub proof fn setting_a_note_leaves_the_others(
    notes: Seq<Note>,
    monitor: Identity,
    input: DisplayInput,
    label: Seq<char>,
    now_ms: u64,
    other: Identity,
    other_input: DisplayInput,
)
    ensures
        noted(with_note(notes, monitor, input, label, now_ms), other, other_input) == if other
            == monitor && other_input == input {
            if label.len() > 0 {
                Some(label)
            } else {
                None
            }
        } else {
            noted(notes, other, other_input)
        },
{
    let keep = is_not_for(monitor, input);
    let wanted = is_for(other, other_input);
    let added = with_note(notes, monitor, input, label, now_ms).last();
    if other == monitor && other_input == input {
        lemma_added_is_found(notes, keep, wanted, added);
    } else {
        lemma_found_beside_added(notes, keep, wanted, added);
    }
}

/// The first of the notes for `input` that says something.
pub open spec fn first_said(notes: Seq<Note>, input: DisplayInput) -> Option<Seq<char>> {
    let i = first_at(notes, |note: Note| note.input == input && note.label.len() > 0);
    if i < notes.len() {
        Some(notes[i].label)
    } else {
        None
    }
}

proof fn lemma_first_said_of_longer(notes: Seq<Note>, input: DisplayInput)
    requires
        notes.len() > 0,
    ensures
        first_said(notes, input) == match first_said(notes.drop_last(), input) {
            Some(label) => Some(label),
            None => if notes.last().input == input && notes.last().label.len() > 0 {
                Some(notes.last().label)
            } else {
                None
            },
        },
{
    let wanted = |note: Note| note.input == input && note.label.len() > 0;
    let shorter = notes.drop_last();
    lemma_first_at(shorter, wanted);
    let j = first_at(shorter, wanted);
    assert forall|k: int| 0 <= k < j implies !wanted(#[trigger] notes[k]) by {
        assert(notes[k] == shorter[k]);
    }
    if j < shorter.len() {
        assert(notes[j] == shorter[j]);
        lemma_first_at_is(notes, wanted, j);
    } else if wanted(notes.last()) {
        lemma_first_at_is(notes, wanted, j);
    } else {
        lemma_first_at_is(notes, wanted, notes.len() as int);
    }
}

/// Moving notes overwrites none: the display that is joined keeps the notes that
/// it has, takes over the first moved one that says something where it has none,
/// what was moved is gone from the absorbed display, and other displays are left
/// alone.
pub proof fn moving_notes_overwrites_none(
    notes: Seq<Note>,
    moved: Seq<Note>,
    alias: Identity,
    primary: Identity,
    now_ms: u64,
    input: DisplayInput,
    other: Identity,
)
    requires
        alias != primary,
    ensures
        ({
            let after = notes_moved(notes, moved, alias, primary, now_ms);
            &&& noted(after, primary, input) == match noted(notes, primary, input) {
                Some(label) => Some(label),
                None => first_said(moved, input),
            }
            &&& (exists|n: int| 0 <= n < moved.len() && (#[trigger] moved[n]).input == input)
                ==> noted(after, alias, input) is None
            &&& (forall|n: int| 0 <= n < moved.len() ==> (#[trigger] moved[n]).input != input)
                ==> noted(after, alias, input) == noted(notes, alias, input)
            &&& other != alias && other != primary ==> noted(after, other, input) == noted(
                notes,
                other,
                input,
            )
        }),
    decreases moved.len(),
{
    if moved.len() > 0 {
        let shorter = moved.drop_last();
        let note = moved.last();
        let before = notes_moved(notes, shorter, alias, primary, now_ms);
        let between = note_handed_over(before, note, primary, now_ms);
        moving_notes_overwrites_none(notes, shorter, alias, primary, now_ms, input, other);
        lemma_first_said_of_longer(moved, input);
        assert forall|n: int| 0 <= n < shorter.len() implies shorter[n] == #[trigger] moved[n] by {}
        if exists|n: int| 0 <= n < shorter.len() && (#[trigger] shorter[n]).input == input {
            let n = choose|n: int| 0 <= n < shorter.len() && (#[trigger] shorter[n]).input == input;
            assert(moved[n].input == input);
        }
        assert(moved[moved.len() - 1] == note);
        for_every_display(before, note, alias, primary, now_ms, input, primary);
        for_every_display(before, note, alias, primary, now_ms, input, alias);
        for_every_display(before, note, alias, primary, now_ms, input, other);
        if note.input != input && (forall|n: int|
            0 <= n < shorter.len() ==> (#[trigger] shorter[n]).input != input) {
            assert(noted(before, alias, input) == noted(notes, alias, input));
        }
        if note.input != input && exists|n: int|
            0 <= n < moved.len() && (#[trigger] moved[n]).input == input {
            let n = choose|n: int| 0 <= n < moved.len() && (#[trigger] moved[n]).input == input;
            assert(shorter[n].input == input);
        }
        if forall|n: int| 0 <= n < moved.len() ==> (#[trigger] moved[n]).input != input {
            assert forall|n: int| 0 <= n < shorter.len() implies (#[trigger] shorter[n]).input
                != input by {
                assert(moved[n].input != input);
            }
        }
    } else {
        let wanted = |note: Note| note.input == input && note.label.len() > 0;
        lemma_first_at(moved, wanted);
    }
}

/// What moving one note does to the note of a display.
proof fn for_every_display(
    before: Seq<Note>,
    note: Note,
    alias: Identity,
    primary: Identity,
    now_ms: u64,
    input: DisplayInput,
    monitor: Identity,
)
    requires
        alias != primary,
    ensures
        noted(note_moved(before, note, alias, primary, now_ms), monitor, input) == if note.input
            != input {
            noted(before, monitor, input)
        } else if monitor == alias {
            None
        } else if monitor == primary && noted(before, primary, input) is None {
            if note.label.len() > 0 {
                Some(note.label)
            } else {
                None
            }
        } else {
            noted(before, monitor, input)
        },
{
    let between = note_handed_over(before, note, primary, now_ms);
    setting_a_note_leaves_the_others(
        between,
        alias,
        note.input,
        seq![],
        now_ms,
        monitor,
        input,
    );
    setting_a_note_leaves_the_others(
        before,
        primary,
        note.input,
        note.label,
        now_ms,
        monitor,
        input,
    );
}

/// Every note of the absorbed display is gone once all were moved.
pub proof fn an_absorbed_display_has_no_notes(
    notes: Seq<Note>,
    alias: Identity,
    primary: Identity,
    now_ms: u64,
    input: DisplayInput,
)
    requires
        alias != primary,
    ensures
        noted(notes_absorbed(notes, alias, primary, now_ms), alias, input) is None,
{
    let keep = is_about(alias);
    let moved = notes.filter(keep);
    let wanted = is_for(alias, input);
    moving_notes_overwrites_none(notes, moved, alias, primary, now_ms, input, alias);
    if noted(notes, alias, input) is Some {
        lemma_found_in_kept(notes, keep, wanted);
        lemma_first_at(notes, wanted);
        lemma_first_at(moved, wanted);
        assert(wanted(moved[first_at(moved, wanted)]));
        assert(moved[first_at(moved, wanted)].input == input);
    }
}

} // verus!
