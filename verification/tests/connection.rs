use displaymux::connection::{
    candidate_inputs, input_matches_sink, DdcRisk, HostOutput, MonitorConnection, SinkInterface,
};
use displaymux::domain::DisplayInput;

fn input(value: u32) -> DisplayInput {
    DisplayInput::new(value).unwrap()
}

#[test]
fn usb_c_into_an_hdmi_input_is_a_conversion_with_elevated_ddc_risk() {
    let connection = MonitorConnection::classify(
        Some(HostOutput::UsbC),
        Some("Port-USB-C@3".to_owned()),
        Some(SinkInterface::Hdmi),
        false,
    );
    assert!(connection.signal_conversion);
    assert_eq!(connection.ddc_risk, Some(DdcRisk::Elevated));
}

#[test]
fn thunderbolt_into_a_displayport_input_is_direct_with_low_ddc_risk() {
    let connection = MonitorConnection::classify(
        Some(HostOutput::Thunderbolt),
        None,
        Some(SinkInterface::DisplayPort),
        false,
    );
    assert!(!connection.signal_conversion);
    assert_eq!(connection.ddc_risk, Some(DdcRisk::Low));
}

#[test]
fn hdmi_and_dvi_share_tmds_signalling_and_are_not_a_conversion() {
    let connection = MonitorConnection::classify(
        Some(HostOutput::Hdmi),
        None,
        Some(SinkInterface::Dvi),
        false,
    );
    assert!(!connection.signal_conversion);
    assert_eq!(connection.ddc_risk, Some(DdcRisk::Low));
}

#[test]
fn digital_output_into_a_vga_input_is_a_conversion() {
    let connection = MonitorConnection::classify(
        Some(HostOutput::Hdmi),
        None,
        Some(SinkInterface::Vga),
        false,
    );
    assert!(connection.signal_conversion);
    assert_eq!(connection.ddc_risk, Some(DdcRisk::Elevated));
}

#[test]
fn indirect_displays_never_have_a_ddc_channel() {
    let connection = MonitorConnection::classify(
        Some(HostOutput::Indirect),
        None,
        Some(SinkInterface::Hdmi),
        true,
    );
    assert_eq!(connection.ddc_risk, Some(DdcRisk::Unsupported));
}

#[test]
fn usb_data_on_a_displayport_connection_alone_is_not_treated_as_risky() {
    // A USB-C monitor with a built-in hub looks exactly like this, and
    // DDC/CI normally works on it.
    let connection = MonitorConnection::classify(
        Some(HostOutput::UsbC),
        None,
        Some(SinkInterface::DisplayPort),
        true,
    );
    assert!(connection.shares_usb_data);
    assert!(!connection.signal_conversion);
    assert_eq!(connection.ddc_risk, Some(DdcRisk::Low));
}

#[test]
fn unknown_side_leaves_conversion_and_risk_undetermined() {
    for (host, sink) in [
        (None, Some(SinkInterface::Hdmi)),
        (Some(HostOutput::UsbC), None),
        (Some(HostOutput::UsbC), Some(SinkInterface::UnknownDigital)),
    ] {
        let connection = MonitorConnection::classify(host, None, sink, false);
        assert!(!connection.signal_conversion, "{host:?} -> {sink:?}");
        assert_eq!(connection.ddc_risk, None, "{host:?} -> {sink:?}");
    }
}

#[test]
fn standard_input_codes_are_matched_against_the_sink_interface() {
    assert_eq!(
        input_matches_sink(SinkInterface::Hdmi, input(0x11)),
        Some(true)
    );
    assert_eq!(
        input_matches_sink(SinkInterface::Hdmi, input(0x0f)),
        Some(false)
    );
    assert_eq!(
        input_matches_sink(SinkInterface::DisplayPort, input(0x10)),
        Some(true)
    );
    assert_eq!(
        input_matches_sink(SinkInterface::Vga, input(0x12)),
        Some(false)
    );
}

#[test]
fn vendor_specific_codes_and_unknown_sinks_cannot_be_judged() {
    // 0x1b is a common vendor USB-C code, not an MCCS standard input.
    assert_eq!(
        input_matches_sink(SinkInterface::DisplayPort, input(0x1b)),
        None
    );
    assert_eq!(
        input_matches_sink(SinkInterface::UnknownDigital, input(0x11)),
        None
    );
}

#[test]
fn candidate_inputs_keep_only_ports_of_the_same_kind() {
    let available = [0x01, 0x0f, 0x11, 0x12, 0x1b].map(input);
    assert_eq!(
        candidate_inputs(SinkInterface::Hdmi, &available),
        vec![input(0x11), input(0x12)]
    );
    assert_eq!(
        candidate_inputs(SinkInterface::DisplayPort, &available),
        vec![input(0x0f)]
    );
    assert!(candidate_inputs(SinkInterface::UnknownDigital, &available).is_empty());
}
