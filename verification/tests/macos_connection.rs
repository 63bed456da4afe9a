use displaymux::connection::{DdcRisk, HostOutput, MonitorConnection, SinkInterface};
use displaymux::domain::MonitorFingerprint;
use displaymux::macos_connection::{connection_for, host_output, shares_usb_data, DisplayLink};

fn link(port_name: &str, via_thunderbolt: bool, transports: &[&str]) -> DisplayLink {
    DisplayLink {
        edid: Vec::new(),
        port_name: port_name.to_owned(),
        via_thunderbolt,
        port_transports: transports.iter().map(|value| (*value).to_owned()).collect(),
    }
}

fn fingerprint(serial: &str) -> MonitorFingerprint {
    MonitorFingerprint::new("AOC", "2402", Some(serial.to_owned()))
}

#[test]
fn port_node_names_map_to_host_outputs() {
    assert_eq!(host_output("Port-HDMI@1", false), Some(HostOutput::Hdmi));
    assert_eq!(host_output("Port-USB-C@2", false), Some(HostOutput::UsbC));
    assert_eq!(
        host_output("Port-USB-C@1", true),
        Some(HostOutput::Thunderbolt)
    );
    assert_eq!(host_output("Port-MagSafe 3@1", false), None);
    assert_eq!(host_output("DisplayPort", false), None);
}

#[test]
fn only_usb3_on_the_same_port_counts_as_shared_usb_data() {
    assert!(shares_usb_data(
        &link(
            "Port-USB-C@2",
            false,
            &["CC", "USB3", "USB2", "DisplayPort"]
        )
        .port_transports
    ));
    assert!(!shares_usb_data(
        &link("Port-USB-C@3", false, &["CC", "USB2", "DisplayPort"]).port_transports
    ));
}

#[test]
fn usb_c_hub_into_the_captured_hdmi_monitor_is_an_elevated_risk_conversion() {
    let mut hub = link(
        "Port-USB-C@2",
        false,
        &["CC", "USB3", "USB2", "DisplayPort"],
    );
    hub.edid = vec![0; 128];
    let connection = MonitorConnection::classify(
        host_output(&hub.port_name, hub.via_thunderbolt),
        Some(hub.port_name.clone()),
        Some(SinkInterface::Hdmi),
        shares_usb_data(&hub.port_transports),
    );
    assert_eq!(connection.host_output, Some(HostOutput::UsbC));
    assert!(connection.shares_usb_data);
    assert_eq!(connection.ddc_risk, Some(DdcRisk::Elevated));
}

#[test]
fn connection_is_attributed_only_to_the_exactly_matching_monitor() {
    let mut first = link("Port-USB-C@2", false, &[]);
    first.edid = vec![1];
    let mut second = link("Port-USB-C@3", false, &[]);
    second.edid = vec![2];
    let identity = |edid: &Vec<u8>| Some(fingerprint(if *edid == [1] { "232" } else { "2885" }));

    let found = connection_for(&[first, second], &fingerprint("2885"), identity).unwrap();

    assert_eq!(found.host_port.as_deref(), Some("Port-USB-C@3"));
}

#[test]
fn ambiguous_or_unknown_monitors_get_no_connection() {
    let links = [
        link("Port-USB-C@2", false, &[]),
        link("Port-USB-C@3", false, &[]),
    ];
    let same_identity = |_: &Vec<u8>| Some(fingerprint("232"));
    assert_eq!(
        connection_for(&links, &fingerprint("232"), same_identity),
        None
    );
    assert_eq!(
        connection_for(&links, &fingerprint("999"), same_identity),
        None
    );
    assert_eq!(
        connection_for(&links, &fingerprint("232"), |_: &Vec<u8>| None),
        None
    );
}
