use displaymux::domain::{DisplayInput, InputLabel, MonitorFingerprint};
use displaymux::input_label::{
    has_newer_entries, label_for, merged_labels, normalize_label, shareable_labels, with_label,
    with_local_monitors, LabelError, MAX_LABEL_CHARS, MAX_SHARED_LABELS,
};

fn mpg(serial: Option<&str>) -> MonitorFingerprint {
    MonitorFingerprint::new("MSI", "3CF0", serial.map(str::to_owned))
}

fn input(value: u32) -> DisplayInput {
    DisplayInput::new(value).unwrap()
}

fn entry(
    monitor: &MonitorFingerprint,
    value: u32,
    label: &str,
    updated_at_ms: u64,
) -> InputLabel {
    InputLabel {
        monitor: monitor.clone(),
        input: input(value),
        label: label.to_owned(),
        updated_at_ms,
    }
}

#[test]
fn notes_are_trimmed_and_limited_to_printable_short_text() {
    assert_eq!(normalize_label("  USB-C  "), Ok("USB-C".to_owned()));
    assert_eq!(normalize_label("   "), Ok(String::new()));
    assert_eq!(
        normalize_label(&"字".repeat(MAX_LABEL_CHARS)),
        Ok("字".repeat(MAX_LABEL_CHARS))
    );
    assert_eq!(
        normalize_label(&"字".repeat(MAX_LABEL_CHARS + 1)),
        Err(LabelError::TooLong)
    );
    assert_eq!(normalize_label("USB\tC"), Err(LabelError::ControlCharacter));
}

#[test]
fn a_note_belongs_to_one_input_of_one_display() {
    let monitor = mpg(None);
    let other = MonitorFingerprint::new("ACR", "0725", Some("576726074".to_owned()));
    let labels = vec![entry(&monitor, 8, "USB-C", 10), entry(&monitor, 9, "", 20)];

    assert_eq!(label_for(&labels, &monitor, input(8)), Some("USB-C"));
    assert_eq!(label_for(&labels, &monitor, input(9)), None);
    assert_eq!(label_for(&labels, &monitor, input(7)), None);
    assert_eq!(label_for(&labels, &other, input(8)), None);
}

#[test]
fn setting_a_note_replaces_the_entry_with_a_newer_timestamp() {
    let monitor = mpg(None);
    let labels = vec![
        entry(&monitor, 8, "舊備註", 500),
        entry(&monitor, 7, "DP", 20),
    ];

    let updated = with_label(&labels, &monitor, input(8), "USB-C".to_owned(), 100);

    assert_eq!(label_for(&updated, &monitor, input(8)), Some("USB-C"));
    assert_eq!(label_for(&updated, &monitor, input(7)), Some("DP"));
    let changed = updated.iter().find(|item| item.input == input(8)).unwrap();
    assert_eq!(changed.updated_at_ms, 501);
    assert_eq!(labels[0].label, "舊備註");
}

#[test]
fn a_paired_host_note_lines_up_with_this_host_display() {
    let theirs = mpg(Some("PC-SERIAL"));
    let ours = mpg(None);
    let incoming = vec![entry(&theirs, 8, "USB-C", 10)];

    let local = with_local_monitors(&incoming, |monitor: &MonitorFingerprint| {
        if monitor.is_same_model(&ours) {
            Some(ours.clone())
        } else {
            None
        }
    });
    let merged = merged_labels(&[], &local).unwrap();

    assert_eq!(label_for(&merged, &ours, input(8)), Some("USB-C"));
    assert_eq!(incoming[0].monitor, theirs);
}

#[test]
fn merging_keeps_the_newer_entry_for_each_input() {
    let monitor = mpg(None);
    let current = vec![
        entry(&monitor, 8, "本機改的", 200),
        entry(&monitor, 7, "舊", 100),
    ];
    let incoming = vec![
        entry(&monitor, 8, "遠端改的", 150),
        entry(&monitor, 7, "DP", 300),
    ];

    let merged = merged_labels(&current, &incoming).unwrap();

    assert_eq!(label_for(&merged, &monitor, input(8)), Some("本機改的"));
    assert_eq!(label_for(&merged, &monitor, input(7)), Some("DP"));
}

#[test]
fn input_label_merging_an_older_or_identical_notice_changes_nothing() {
    let monitor = mpg(None);
    let current = vec![entry(&monitor, 8, "USB-C", 200)];

    assert_eq!(
        merged_labels(&current, &[entry(&monitor, 8, "舊", 100)]),
        None
    );
    assert_eq!(merged_labels(&current, &current), None);
}

#[test]
fn a_newer_clear_from_a_peer_removes_the_note() {
    let monitor = mpg(None);
    let current = vec![entry(&monitor, 8, "USB-C", 200)];

    let merged = merged_labels(&current, &[entry(&monitor, 8, "", 300)]).unwrap();

    assert_eq!(label_for(&merged, &monitor, input(8)), None);
}

#[test]
fn input_label_malformed_or_oversized_notices_are_not_adopted() {
    let monitor = mpg(None);
    let invalid_input = InputLabel {
        monitor: MonitorFingerprint::new("MSI", "3CF0", None),
        input: DisplayInput { code: 0 },
        label: "零".to_owned(),
        updated_at_ms: 1,
    };

    assert_eq!(merged_labels(&[], &[invalid_input]), None);
    assert_eq!(
        merged_labels(&[], &[entry(&monitor, 8, " padded ", 1)]),
        None
    );
    assert_eq!(
        merged_labels(
            &[],
            &[entry(&monitor, 8, &"字".repeat(MAX_LABEL_CHARS + 1), 1)]
        ),
        None
    );
    let too_many: Vec<InputLabel> = (1..=MAX_SHARED_LABELS as u32 + 1)
        .map(|value| entry(&monitor, value, "備註", 1))
        .collect();
    assert_eq!(merged_labels(&[], &too_many), None);
}

#[test]
fn a_peer_needs_our_notes_only_when_we_hold_something_newer() {
    let monitor = mpg(None);
    let ours = vec![
        entry(&monitor, 8, "USB-C", 200),
        entry(&monitor, 7, "DP", 50),
    ];

    assert!(has_newer_entries(&ours, &[]));
    assert!(has_newer_entries(&ours, &[entry(&monitor, 8, "舊", 100)]));
    assert!(!has_newer_entries(&ours, &ours));
    assert!(!has_newer_entries(&[], &[entry(&monitor, 8, "USB-C", 1)]));
}

#[test]
fn input_label_only_the_newest_entries_are_shared() {
    let monitor = mpg(None);
    let labels: Vec<InputLabel> = (1..=MAX_SHARED_LABELS as u32 + 2)
        .map(|value| entry(&monitor, value, "備註", u64::from(value)))
        .collect();

    let shared = shareable_labels(&labels);

    assert_eq!(shared.len(), MAX_SHARED_LABELS);
    assert!(shared.iter().all(|item| item.updated_at_ms >= 3));
}
