use displaymux::tray::{parse_action, switch_all_id, switch_one_id, TrayAction};

#[test]
fn menu_ids_round_trip() {
    match parse_action(&switch_one_id("DMO/3410/DEMO-001", "peer-1")) {
        Some(TrayAction::SwitchOne {
            monitor_key,
            host_id,
        }) => {
            assert_eq!(monitor_key, "DMO/3410/DEMO-001");
            assert_eq!(host_id, "peer-1");
        }
        _ => panic!("expected a single-display switch"),
    }
    match parse_action(&switch_all_id("local")) {
        Some(TrayAction::SwitchAll { host_id }) => assert_eq!(host_id, "local"),
        _ => panic!("expected an every-display switch"),
    }
}

#[test]
fn unknown_or_malformed_ids_do_nothing() {
    assert!(parse_action("tray-something").is_none());
    assert!(
        parse_action("tray-one\nonly-a-display").is_none()
    );
    assert!(parse_action("tray-all\na\nb")
    .is_none());
}
