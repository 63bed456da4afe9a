use displaymux::connection::{DdcRisk, HostOutput, SinkInterface};
use displaymux::windows_connection::{connection, edid_registry_subkey, host_output};

fn hdmi_edid() -> Vec<u8> {
    let mut edid = vec![0_u8; 128];
    edid[..8].copy_from_slice(&[0x00, 0xff, 0xff, 0xff, 0xff, 0xff, 0xff, 0x00]);
    edid[18] = 1;
    edid[19] = 4;
    edid[20] = 0x80 | 0x02;
    edid[127] = 0_u8.wrapping_sub(
        edid[..127]
            .iter()
            .fold(0_u8, |sum, byte| sum.wrapping_add(*byte)),
    );
    edid
}

#[test]
fn documented_output_technologies_map_to_host_connectors() {
    assert_eq!(host_output(0), Some(HostOutput::Vga));
    assert_eq!(host_output(4), Some(HostOutput::Dvi));
    assert_eq!(host_output(5), Some(HostOutput::Hdmi));
    assert_eq!(host_output(10), Some(HostOutput::DisplayPort));
    assert_eq!(host_output(18), Some(HostOutput::Thunderbolt));
    for indirect in [15, 16, 17] {
        assert_eq!(host_output(indirect), Some(HostOutput::Indirect));
    }
}

#[test]
fn internal_or_unlisted_technologies_have_no_host_connector() {
    for technology in [6, 11, 13, 0x8000_0000, 0xffff_ffff, 1, 9, 12, 14] {
        assert_eq!(host_output(technology), None, "{technology:#x}");
    }
}

#[test]
fn edid_lives_under_the_device_instance_parameters_key() {
    assert_eq!(
        edid_registry_subkey(r"DISPLAY\AUS3554\5&5405411&0&UID4353"),
        r"SYSTEM\CurrentControlSet\Enum\DISPLAY\AUS3554\5&5405411&0&UID4353\Device Parameters"
    );
}

#[test]
fn displayport_output_into_an_hdmi_sink_is_flagged_as_converted() {
    let connection = connection(Some(10), Some(&hdmi_edid())).unwrap();
    assert_eq!(connection.host_output, Some(HostOutput::DisplayPort));
    assert_eq!(connection.sink_interface, Some(SinkInterface::Hdmi));
    assert_eq!(connection.ddc_risk, Some(DdcRisk::Elevated));
    // WMI exposes no USB topology, so this is never claimed.
    assert!(!connection.shares_usb_data);
}

#[test]
fn missing_both_ends_yields_no_connection() {
    assert_eq!(connection(None, None), None);
    assert_eq!(connection(Some(0xffff_ffff), Some(&[0_u8; 16])), None);
    assert!(connection(Some(5), None).is_some());
}
