use displaymux::agent::{action_text, AgentAction};
use displaymux::clock::{millis_stamp, seconds_since_epoch, unix_time, unix_time_ms};
use displaymux::domain::{
    DisplayInput, HostAlias, InputLabel, MonitorFingerprint, MonitorIdentityLink,
};
use displaymux::error::DisplayMuxError;
use displaymux::json::json_text;
use displaymux::messages::nonce_text;
use displaymux::network::to_ascii_lower;
use displaymux::text::{
    contains_control, cut_at, decimal_text, is_white_space, join_all, same_text, strip_prefix, trim,
    wide_decimal_text,
};
use displaymux::windows_connection::wide_null;

fn display() -> MonitorFingerprint {
    MonitorFingerprint::new("MSI", "3CF0", None)
}

#[test]
fn white_space_and_control_characters_are_those_of_unicode() {
    for code in 0..=0x10ffff_u32 {
        if let Some(c) = char::from_u32(code) {
            assert_eq!(is_white_space(c), c.is_whitespace(), "{code:x}");
            assert_eq!(contains_control(&c.to_string()), c.is_control(), "{code:x}");
            assert_eq!(to_ascii_lower(c), c.to_ascii_lowercase(), "{code:x}");
        }
    }
}

#[test]
fn trimming_takes_white_space_off_both_ends_only() {
    for text in ["", "  ", " a b\t", "\u{3000}字 字\u{a0}", "x"] {
        assert_eq!(trim(text), text.trim());
        assert_eq!(trim(&trim(text)), trim(text));
    }
}

#[test]
fn texts_are_compared_character_by_character() {
    assert!(same_text("螢幕", "螢幕"));
    assert!(!same_text("螢幕", "螢"));
    assert!(!same_text("a", "b"));
    assert!(same_text("", ""));
}

#[test]
fn texts_are_cut_stripped_and_joined() {
    assert_eq!(cut_at("a@b@c", '@'), ("a".to_owned(), Some("b@c".to_owned())));
    assert_eq!(cut_at("abc", '@'), ("abc".to_owned(), None));
    assert_eq!(strip_prefix("Port-HDMI", "Port-"), Some("HDMI".to_owned()));
    assert_eq!(strip_prefix("Por", "Port-"), None);
    let parts = vec!["a".to_owned(), "b".to_owned(), "c".to_owned()];
    assert_eq!(join_all(&parts, " "), "a b c");
    assert_eq!(join_all(&Vec::new(), " "), "");
}

#[test]
fn numbers_are_written_in_decimal() {
    for n in [0, 7, 10, 255, 47_653, u64::MAX] {
        assert_eq!(decimal_text(n), n.to_string());
        assert_eq!(wide_decimal_text(u128::from(n)), n.to_string());
    }
    assert_eq!(wide_decimal_text(u128::MAX), u128::MAX.to_string());
}

#[test]
fn nonces_of_one_process_differ_by_their_count() {
    assert_eq!(nonce_text(12, 3_400, 5), "12-3400-5");
    assert_ne!(nonce_text(12, 3_400, 5), nonce_text(12, 3_400, 6));
}

#[test]
fn json_strings_are_escaped_as_serde_json_does() {
    for text in ["", "plain", "quote \" and \\", "\u{8}\t\n\u{c}\r", "\u{0}\u{1f}\u{7f}", "螢幕/😀"] {
        assert_eq!(json_text(text), serde_json::to_string(text).unwrap());
    }
    assert_eq!(json_text("\u{1}"), "\"\\u0001\"");
}

#[test]
fn actions_are_written_without_white_space_in_field_order() {
    let input = DisplayInput::new(17).unwrap();
    assert_eq!(action_text(&AgentAction::Ping), r#"{"type":"ping"}"#);
    assert_eq!(
        action_text(&AgentAction::SwitchInput { monitor: None, input }),
        r#"{"type":"switch_input","input":17}"#
    );
    assert_eq!(
        action_text(&AgentAction::SwitchInput { monitor: Some(display()), input }),
        r#"{"type":"switch_input","monitor":{"manufacturer_id":"MSI","product_code":"3CF0","serial_number":null},"input":17}"#
    );
    assert_eq!(
        action_text(&AgentAction::ActiveInputChanged {
            monitor: MonitorFingerprint::new("A", "B", Some("C".to_owned())),
            input,
        }),
        r#"{"type":"active_input_changed","monitor":{"manufacturer_id":"A","product_code":"B","serial_number":"C"},"input":17}"#
    );
    assert_eq!(
        action_text(&AgentAction::HostOrderChanged {
            order: vec!["a".to_owned(), "b".to_owned()],
            updated_at_ms: 9,
        }),
        r#"{"type":"host_order_changed","order":["a","b"],"updated_at_ms":9}"#
    );
    assert_eq!(
        action_text(&AgentAction::HostOrderChanged { order: Vec::new(), updated_at_ms: 0 }),
        r#"{"type":"host_order_changed","order":[],"updated_at_ms":0}"#
    );
    assert_eq!(
        action_text(&AgentAction::HostAliasesChanged {
            aliases: vec![HostAlias {
                host_id: "pc".to_owned(),
                name: "Game \"PC\"".to_owned(),
                updated_at_ms: 3,
            }],
        }),
        r#"{"type":"host_aliases_changed","aliases":[{"hostId":"pc","name":"Game \"PC\"","updatedAtMs":3}]}"#
    );
    assert_eq!(
        action_text(&AgentAction::InputLabelsChanged {
            labels: vec![InputLabel {
                monitor: display(),
                input,
                label: "USB-C".to_owned(),
                updated_at_ms: 4,
            }],
        }),
        r#"{"type":"input_labels_changed","labels":[{"monitor":{"manufacturer_id":"MSI","product_code":"3CF0","serial_number":null},"input":17,"label":"USB-C","updatedAtMs":4}]}"#
    );
    assert_eq!(
        action_text(&AgentAction::MonitorIdentitiesChanged {
            links: vec![MonitorIdentityLink {
                alias: display(),
                primary: None,
                updated_at_ms: 5,
            }],
        }),
        r#"{"type":"monitor_identities_changed","links":[{"alias":{"manufacturer_id":"MSI","product_code":"3CF0","serial_number":null},"primary":null,"updatedAtMs":5}]}"#
    );
    assert_eq!(
        action_text(&AgentAction::LocalInputConfirmed {
            host_id: "mac".to_owned(),
            monitor: display(),
            input,
        }),
        r#"{"type":"local_input_confirmed","host_id":"mac","monitor":{"manufacturer_id":"MSI","product_code":"3CF0","serial_number":null},"input":17}"#
    );
}

#[test]
fn wide_text_ends_in_a_zero_and_uses_surrogates() {
    for text in ["", "EDID", "螢幕", "a😀b"] {
        let mut expected: Vec<u16> = text.encode_utf16().collect();
        expected.push(0);
        assert_eq!(wide_null(text), expected);
    }
}

#[test]
fn stamps_stay_within_their_range() {
    assert_eq!(millis_stamp(None), 0);
    assert_eq!(millis_stamp(Some(1_700_000_000_123)), 1_700_000_000_123);
    assert_eq!(millis_stamp(Some(u128::from(u64::MAX))), u64::MAX);
    assert_eq!(millis_stamp(Some(u128::from(u64::MAX) + 1)), u64::MAX);
    let first = unix_time_ms();
    assert!(first > 1_600_000_000_000);
    assert!(unix_time().unwrap().abs_diff(first / 1000) <= 5);
}

#[test]
fn a_clock_before_the_epoch_is_told_in_its_own_words() {
    assert_eq!(seconds_since_epoch(Ok(7)), Ok(7));
    assert_eq!(
        seconds_since_epoch(Err("too early".to_owned())),
        Err(DisplayMuxError::Backend("too early".to_owned()))
    );
}
