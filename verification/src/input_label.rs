//! User notes for a shared display's inputs, shared between paired hosts.
//!
//! Some displays only report input numbers ("Input 8"), so users can note what
//! each input is. An input number names the same physical port on every host,
//! so a note set on one computer shows up on every paired computer. Each entry
//! carries its own timestamp, like `host_alias`.

use crate::domain::{DisplayInput, Identity, InputLabel, MonitorFingerprint};
use crate::entries::{
    about, adopt_all, merged_entries, newest, newest_entries, next_change, next_stamp, not_about,
    with_entry, without_subject, SharedEntry,
};
use crate::lists::{
    first_at, lemma_added_is_found, lemma_first_at_is, lemma_found_beside_added,
};
use crate::text::{
    contains_control, has_control, same_text, trim, trimmed, trimming_is_idempotent,
};
use vstd::prelude::*;
use vstd::string::StrSliceExecFns;

verus! {

/// Longest note accepted, in characters.
pub const MAX_LABEL_CHARS: usize = 24;

/// Most entries sent in or accepted from one notice; keeps a notice well under
/// the agent's packet limit.
pub const MAX_SHARED_LABELS: usize = 16;

#[derive(Clone, Copy, Debug, PartialEq, Eq, Structural)]
pub enum LabelError {
    TooLong,
    ControlCharacter,
}

/// Why a trimmed note cannot be shown.
pub open spec fn label_fault(label: Seq<char>) -> Option<LabelError> {
    if has_control(label) {
        Some(LabelError::ControlCharacter)
    } else if label.len() > MAX_LABEL_CHARS {
        Some(LabelError::TooLong)
    } else {
        None
    }
}

/// Whether a note is trimmed and can be shown.
pub open spec fn normal_label(label: Seq<char>) -> bool {
    trimmed(label) == label && label_fault(label) is None
}

/// Trims `input` and checks it can be shown as an input note. An empty result
/// means "no note".
pub fn normalize_label(input: &str) -> (result: Result<String, LabelError>)
    ensures
        match result {
            Ok(label) => label@ == trimmed(input@) && label_fault(trimmed(input@)) is None,
            Err(fault) => label_fault(trimmed(input@)) == Some(fault),
        },
{
    let label = trim(input);
    if contains_control(&label) {
        return Err(LabelError::ControlCharacter);
    }
    if label.as_str().unicode_len() > MAX_LABEL_CHARS {
        return Err(LabelError::TooLong);
    }
    Ok(label)
}

/// A normalized note is normal, so that a paired host accepts it.
pub proof fn normalized_labels_are_normal(input: Seq<char>)
    requires
        label_fault(trimmed(input)) is None,
    ensures
        normal_label(trimmed(input)),
{
    trimming_is_idempotent(input);
}

impl SharedEntry for InputLabel {
    open spec fn about_same(&self, other: &Self) -> bool {
        self.monitor@ == other.monitor@ && self.input == other.input
    }

    open spec fn changed_at(&self) -> u64 {
        self.updated_at_ms
    }

    open spec fn adoptable(&self) -> bool {
        self.input.usable() && normal_label(self.label@)
    }

    proof fn about_same_is_equivalence(a: &Self, b: &Self, c: &Self) {
    }

    fn is_about_same(&self, other: &Self) -> bool {
        is_entry_for(self, &other.monitor, other.input)
    }

    fn stamp(&self) -> u64 {
        self.updated_at_ms
    }

    fn is_adoptable(&self) -> bool {
        DisplayInput::new(self.input.value()).is_ok() && match normalize_label(&self.label) {
            Ok(label) => same_text(&label, &self.label),
            Err(_) => false,
        }
    }

    fn duplicate(&self) -> Self {
        self.clone()
    }
}

/// Whether the entry is about `input` of `monitor`.
pub open spec fn entry_is_for(entry: InputLabel, monitor: Identity, input: DisplayInput) -> bool {
    entry.monitor@ == monitor && entry.input == input
}

fn is_entry_for(entry: &InputLabel, monitor: &MonitorFingerprint, input: DisplayInput) -> (yes: bool)
    ensures
        yes == entry_is_for(*entry, monitor@, input),
{
    entry.input == input && entry.monitor.matches_exactly(monitor)
}

/// Entries for `input` of `monitor`.
pub open spec fn is_label_for(monitor: Identity, input: DisplayInput) -> spec_fn(InputLabel) -> bool {
    |entry: InputLabel| entry_is_for(entry, monitor, input)
}

/// The note for `input` of `monitor`, if one is set.
pub open spec fn label_of(
    labels: Seq<InputLabel>,
    monitor: Identity,
    input: DisplayInput,
) -> Option<Seq<char>> {
    let i = first_at(labels, is_label_for(monitor, input));
    if i < labels.len() && labels[i].label@.len() > 0 {
        Some(labels[i].label@)
    } else {
        None
    }
}

/// The note for `input` on `monitor`, if one is set.
pub fn label_for<'a>(
    labels: &'a [InputLabel],
    monitor: &MonitorFingerprint,
    input: DisplayInput,
) -> (label: Option<&'a str>)
    ensures
        match label {
            Some(text) => label_of(labels@, monitor@, input) == Some(text@),
            None => label_of(labels@, monitor@, input) is None,
        },
{
    let ghost wanted = is_label_for(monitor@, input);
    let mut i: usize = 0;
    while i < labels.len()
        invariant
            i <= labels@.len(),
            wanted == is_label_for(monitor@, input),
            forall|j: int| 0 <= j < i ==> !wanted(#[trigger] labels@[j]),
        decreases labels@.len() - i,
    {
        if is_entry_for(&labels[i], monitor, input) {
            proof {
                lemma_first_at_is(labels@, wanted, i as int);
            }
            let label = labels[i].label.as_str();
            return if label.is_empty() {
                None
            } else {
                Some(label)
            };
        }
        i += 1;
    }
    proof {
        lemma_first_at_is(labels@, wanted, i as int);
    }
    None
}

/// `labels` with the note for `input` on `monitor` set to `label` (empty clears
/// it) at `now_ms`. The timestamp never moves backwards for that input, so
/// paired hosts holding the previous entry accept the change, unless that entry
/// has the last time there is.
pub fn with_label(
    labels: &[InputLabel],
    monitor: &MonitorFingerprint,
    input: DisplayInput,
    label: String,
    now_ms: u64,
) -> (result: Vec<InputLabel>)
    ensures
        result@.len() > 0,
        result@.last().monitor == *monitor,
        result@.last().input == input,
        result@.last().label == label,
        result@.last().updated_at_ms == next_change(labels@, result@.last(), now_ms),
        result@ == without_subject(labels@, result@.last()).push(result@.last()),
{
    let mut updated = InputLabel { monitor: monitor.clone(), input, label, updated_at_ms: 0 };
    let ghost probe = updated;
    updated.updated_at_ms = next_stamp(labels, &updated, now_ms);
    assert(about(probe) =~= about(updated));
    with_entry(labels, updated)
}

/// Setting a note makes it the note of that input, and leaves every other
/// input's.
pub proof fn setting_a_note_shows_it(
    labels: Seq<InputLabel>,
    updated: InputLabel,
    other: InputLabel,
)
    ensures
        ({
            let noted = without_subject(labels, updated).push(updated);
            let shown = label_of(noted, updated.monitor@, updated.input);
            &&& updated.label@.len() > 0 ==> shown == Some(updated.label@)
            &&& updated.label@.len() == 0 ==> shown is None
            &&& !other.about_same(&updated) ==> label_of(noted, other.monitor@, other.input)
                == label_of(labels, other.monitor@, other.input)
        }),
{
    let keep = not_about(updated);
    lemma_added_is_found(labels, keep, is_label_for(updated.monitor@, updated.input), updated);
    if !other.about_same(&updated) {
        lemma_found_beside_added(labels, keep, is_label_for(other.monitor@, other.input), updated);
    }
}

/// Whether `to_local` answers `answers` for the displays of `labels`.
pub open spec fn are_answers_of<F: Fn(&MonitorFingerprint) -> Option<MonitorFingerprint>>(
    to_local: F,
    labels: Seq<InputLabel>,
    answers: Seq<Option<MonitorFingerprint>>,
) -> bool {
    &&& answers.len() == labels.len()
    &&& forall|i: int|
        0 <= i < labels.len() ==> to_local.ensures((&labels[i].monitor,), #[trigger] answers[i])
}

/// `labels` with the answered displays in place of their own.
pub open spec fn relocated(
    labels: Seq<InputLabel>,
    answers: Seq<Option<MonitorFingerprint>>,
) -> Seq<InputLabel> {
    Seq::new(
        labels.len(),
        |i: int|
            InputLabel {
                monitor: match answers[i] {
                    Some(monitor) => monitor,
                    None => labels[i].monitor,
                },
                ..labels[i]
            },
    )
}

/// `labels` with each monitor replaced by `to_local`'s answer, so notes from a
/// paired host line up with this host's fingerprints (hosts can read a
/// display's serial number differently). Unmatched monitors are kept as sent.
pub fn with_local_monitors<F: Fn(&MonitorFingerprint) -> Option<MonitorFingerprint>>(
    labels: &[InputLabel],
    to_local: F,
) -> (result: Vec<InputLabel>)
    requires
        forall|i: int|
            0 <= i < labels@.len() ==> to_local.requires((&(#[trigger] labels@[i]).monitor,)),
    ensures
        exists|answers: Seq<Option<MonitorFingerprint>>| #[trigger]
            are_answers_of(to_local, labels@, answers) && result@ == relocated(labels@, answers),
{
    let mut result: Vec<InputLabel> = Vec::new();
    let ghost mut answers: Seq<Option<MonitorFingerprint>> = seq![];
    let mut i: usize = 0;
    while i < labels.len()
        invariant
            i <= labels@.len(),
            answers.len() == i,
            forall|j: int|
                0 <= j < labels@.len() ==> to_local.requires((&(#[trigger] labels@[j]).monitor,)),
            forall|j: int|
                0 <= j < i ==> to_local.ensures((&labels@[j].monitor,), #[trigger] answers[j]),
            result@ == relocated(labels@.take(i as int), answers),
        decreases labels@.len() - i,
    {
        let answer = to_local(&labels[i].monitor);
        let ghost before = result@;
        proof {
            answers = answers.push(answer);
        }
        let mut entry = labels[i].clone();
        if let Some(monitor) = answer {
            entry.monitor = monitor;
        }
        result.push(entry);
        assert(result@ =~= relocated(labels@.take(i + 1), answers)) by {
            assert forall|j: int| 0 <= j < i implies result@[j] == relocated(
                labels@.take(i + 1),
                answers,
            )[j] by {
                assert(before[j] == result@[j]);
            }
        }
        i += 1;
    }
    assert(labels@.take(labels@.len() as int) =~= labels@);
    assert(are_answers_of(to_local, labels@, answers));
    result
}

/// `current` merged with entries from a paired host, keeping the newer entry
/// for each input. Malformed entries are skipped, and a notice with more
/// entries than `MAX_SHARED_LABELS` is rejected. Returns `None` when nothing
/// changes.
pub fn merged_labels(current: &[InputLabel], incoming: &[InputLabel]) -> (merged: Option<
    Vec<InputLabel>,
>)
    ensures
        match merged {
            Some(list) => {
                &&& incoming@.len() <= MAX_SHARED_LABELS
                &&& list@ == adopt_all(current@, incoming@)
                &&& list@ != current@
            },
            None => incoming@.len() > MAX_SHARED_LABELS || adopt_all(current@, incoming@)
                == current@,
        },
{
    merged_entries(current, incoming, MAX_SHARED_LABELS)
}

/// Whether a paired host holding `theirs` (already mapped to our monitors)
/// would gain anything from our entries.
pub fn has_newer_entries(ours: &[InputLabel], theirs: &[InputLabel]) -> (yes: bool)
    ensures
        yes == (adopt_all(theirs@, newest(ours@, MAX_SHARED_LABELS as int)) != theirs@),
{
    let offered = shareable_labels(ours);
    proof {
        crate::entries::newest_are_of_the_list(ours@, MAX_SHARED_LABELS as int);
    }
    merged_labels(theirs, &offered).is_some()
}

/// The newest entries that fit in one notice.
pub fn shareable_labels(labels: &[InputLabel]) -> (result: Vec<InputLabel>)
    ensures
        result@ == newest(labels@, MAX_SHARED_LABELS as int),
{
    newest_entries(labels, MAX_SHARED_LABELS)
}

} // verus!
