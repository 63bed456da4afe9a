use displaymux::agent::{
    action_text, parse_agent_response, rejection_response, AgentAction, AgentRequest,
};
use displaymux::domain::{DisplayInput, MonitorFingerprint};
use displaymux::error::DisplayMuxError;
use displaymux::network::{
    dns_label, peer_id, preferred_address, HostAddress, MacAddress, WakeTarget,
};

#[test]
fn parses_both_common_mac_address_formats() {
    let colon = "AA:BB:CC:DD:EE:FF".parse::<MacAddress>().unwrap();
    let dash = "aa-bb-cc-dd-ee-ff".parse::<MacAddress>().unwrap();
    assert_eq!(colon, dash);
    assert_eq!(colon.to_string(), "AA:BB:CC:DD:EE:FF");
}

#[test]
fn rejects_incomplete_mac_address() {
    assert!(matches!(
        "AA:BB:CC".parse::<MacAddress>(),
        Err(DisplayMuxError::InvalidMacAddress(_))
    ));
}

#[test]
fn creates_stable_dns_safe_peer_identity() {
    assert_eq!(dns_label("Henry's MacBook.local"), "henry-s-macbook");
    assert_eq!(
        peer_id("Henry-PC", "windows", Some("AA:BB:CC:DD:EE:FF")),
        "aabbccddeeff-windows"
    );
}

#[test]
fn signed_request_rejects_tampering() {
    let key = b"a test key that is never persisted";
    let mut request = AgentRequest::signed(AgentAction::Ping, "nonce-1", key).unwrap();
    request.action = AgentAction::SwitchInput {
        monitor: None,
        input: DisplayInput::new(0x11).unwrap(),
    };
    assert_eq!(
        request.verify(key),
        Err(DisplayMuxError::AuthenticationFailed)
    );
}

#[test]
fn authentication_rejection_explains_pairing_password_mismatch() {
    let response = rejection_response(&DisplayMuxError::AuthenticationFailed);
    assert!(!response.ready);
    assert!(response.message.contains("配對密碼不一致"));
}

#[test]
fn empty_legacy_response_is_not_reported_as_json_eof() {
    let error = parse_agent_response("", Err("EOF while parsing a value".to_owned())).unwrap_err();
    assert!(matches!(error, DisplayMuxError::PeerUnavailable(_)));
    assert!(!error.localized_message(true).contains("EOF"));
    assert!(error.localized_message(true).contains("配對密碼"));
}

#[test]
fn prefers_private_ipv4_for_lan_connections() {
    let addresses = [
        HostAddress::V6([0xfe80, 0, 0, 0, 0, 0, 0, 0x1234]),
        HostAddress::V4([192, 168, 1, 25]),
        HostAddress::V4([127, 0, 0, 1]),
    ];
    assert_eq!(
        preferred_address(&addresses).map(|index| addresses[index]),
        Some(HostAddress::V4([192, 168, 1, 25]))
    );
}

#[test]
fn wake_packet_has_the_expected_shape() {
    let mac = "01:23:45:67:89:AB".parse::<MacAddress>().unwrap();
    let packet = WakeTarget {
        mac_address: mac,
        broadcast_address: [255, 255, 255, 255],
        port: 9,
    }
    .packet();
    assert_eq!(packet.len(), 102);
    assert!(packet[..6].iter().all(|byte| *byte == 0xff));
    assert!(packet[6..]
        .chunks_exact(6)
        .all(|chunk| chunk == mac.octets()));
}

#[test]
fn switch_input_with_monitor_serializes_the_monitor_field() {
    let action = AgentAction::SwitchInput {
        monitor: Some(MonitorFingerprint::new(
            "ACM",
            "1234",
            Some("SERIAL-1".to_owned()),
        )),
        input: DisplayInput::new(0x11).unwrap(),
    };
    let serialized: serde_json::Value = serde_json::from_str(&action_text(&action)).unwrap();
    assert!(serialized.get("monitor").is_some());
}
