use displaymux::connection::SinkInterface;
use displaymux::domain::{MonitorResolution, ResolutionSource};
use displaymux::edid::{is_valid, preferred_resolution, sink_interface, EDID_BLOCK_SIZE};

/// Captured from an AOC 24B2HM2 behind a USB-C hub (EDID 1.3 + CTA-861
/// with an HDMI 1.x VSDB).
const AOC_24B2HM2_HDMI: &str = "00ffffffffffff0005e30224e80000000122010380361f782a9945a755509a26125054bfef00d1c0b30095008180814081c001010101023a801871382d40582c4500173a2100001e000000ff0031474151314841303030323332000000fc0032344232484d320a2020202020000000fd0030641e7318000a20202020202001cb020329f14b101f051404130312021101230907078301000067030c001000003c681a000001013064e6605980a07038144030203500173a2100001e2a4480a07038274030203500173a2100001a011d007251d01e206e285500173a2100001e8c0ad08a20e02d10103e9600173a210000180000000000000000000000000000f3";
/// Captured from an AOC 24B2W1 on a USB-C to HDMI cable.
const AOC_24B2W1_HDMI: &str = "00ffffffffffff0005e30224450b0000331f010380351e782a0ca5a5554ea0260e5054bfef00d1c0b30095008180814081c001010101023a801871382d40582c45000f282100001e2a4480a070382740302035000f282100001a000000fc003234423257310a202020202020000000fd00304b1e5512000a202020202020013102031ef14b101f051404130312021101230f07078301000065030c001000023a801871382d40582c45000f282100001e011d007251d01e206e2855000f282100001e8c0ad08a20e02d10103e96000f28210000188c0ad090204031200c4055000f2821000018000000000000000000000000000000000000000000000000001f";

fn decode_hex(value: &str) -> Vec<u8> {
    (0..value.len())
        .step_by(2)
        .map(|index| u8::from_str_radix(&value[index..index + 2], 16).unwrap())
        .collect()
}

fn fix_checksum(block: &mut [u8]) {
    block[127] = 0_u8.wrapping_sub(
        block[..127]
            .iter()
            .fold(0_u8, |sum, byte| sum.wrapping_add(*byte)),
    );
}

#[test]
fn real_hdmi_edids_with_an_hdmi_vsdb_are_hdmi_sinks() {
    for captured in [AOC_24B2HM2_HDMI, AOC_24B2W1_HDMI] {
        let edid = decode_hex(captured);
        assert!(is_valid(&edid));
        assert_eq!(sink_interface(&edid), Some(SinkInterface::Hdmi));
    }
}

#[test]
fn edid_1_4_interface_field_identifies_displayport() {
    let mut edid = edid_with_timings(&[(2560, 1440)]);
    edid[18] = 1;
    edid[19] = 4;
    edid[20] = 0x80 | 0x05;
    fix_checksum(&mut edid);
    assert_eq!(sink_interface(&edid), Some(SinkInterface::DisplayPort));
}

#[test]
fn edid_1_4_interface_field_identifies_dvi_and_hdmi() {
    for (field, expected) in [
        (0x01, SinkInterface::Dvi),
        (0x02, SinkInterface::Hdmi),
        (0x03, SinkInterface::Hdmi),
    ] {
        let mut edid = edid_with_timings(&[(1920, 1080)]);
        edid[18] = 1;
        edid[19] = 4;
        edid[20] = 0x80 | field;
        fix_checksum(&mut edid);
        assert_eq!(sink_interface(&edid), Some(expected));
    }
}

#[test]
fn analog_edid_is_a_vga_sink() {
    let mut edid = edid_with_timings(&[(1920, 1080)]);
    edid[18] = 1;
    edid[19] = 3;
    edid[20] = 0x0e;
    fix_checksum(&mut edid);
    assert_eq!(sink_interface(&edid), Some(SinkInterface::Vga));
}

#[test]
fn digital_edid_1_3_without_hdmi_blocks_is_unknown_digital() {
    let mut edid = edid_with_timings(&[(1920, 1080)]);
    edid[18] = 1;
    edid[19] = 3;
    edid[20] = 0x80;
    fix_checksum(&mut edid);
    assert_eq!(sink_interface(&edid), Some(SinkInterface::UnknownDigital));
}

#[test]
fn the_hdmi_forum_vsdb_alone_also_marks_an_hdmi_sink() {
    let mut edid = decode_hex(AOC_24B2W1_HDMI);
    // Rewrite the HDMI 1.x OUI (03 0c 00) into the HDMI Forum OUI (d8 5d c4).
    let block = &mut edid[128..256];
    let position = block
        .windows(3)
        .position(|window| window == [0x03, 0x0c, 0x00])
        .unwrap();
    block[position..position + 3].copy_from_slice(&[0xd8, 0x5d, 0xc4]);
    fix_checksum(block);
    assert_eq!(sink_interface(&edid), Some(SinkInterface::Hdmi));
}

#[test]
fn invalid_edid_has_no_sink_interface() {
    let mut edid = decode_hex(AOC_24B2HM2_HDMI);
    edid[20] ^= 0x01;
    assert_eq!(sink_interface(&edid), None);
}

fn edid_with_timings(timings: &[(u32, u32)]) -> [u8; EDID_BLOCK_SIZE] {
    let mut edid = [0_u8; EDID_BLOCK_SIZE];
    edid[..8].copy_from_slice(&[0x00, 0xff, 0xff, 0xff, 0xff, 0xff, 0xff, 0x00]);
    for (index, (width, height)) in timings.iter().take(4).enumerate() {
        let offset = 54 + index * 18;
        edid[offset] = 1;
        edid[offset + 2] = *width as u8;
        edid[offset + 4] = ((*width >> 8) as u8) << 4;
        edid[offset + 5] = *height as u8;
        edid[offset + 7] = ((*height >> 8) as u8) << 4;
    }
    edid[127] = 0_u8.wrapping_sub(
        edid[..127]
            .iter()
            .fold(0_u8, |sum, byte| sum.wrapping_add(*byte)),
    );
    edid
}

#[test]
fn valid_edid_uses_the_largest_detailed_timing() {
    for expected in [(3440, 1440), (2560, 1080), (2560, 1440), (3840, 2160)] {
        let edid = edid_with_timings(&[(1920, 1080), expected]);
        let (resolution, source) =
            preferred_resolution(Some(&edid), Some(MonitorResolution::new(1280, 720)));
        assert_eq!(
            resolution,
            Some(MonitorResolution::new(expected.0, expected.1))
        );
        assert_eq!(source, Some(ResolutionSource::Edid));
    }
}

#[test]
fn malformed_or_missing_edid_uses_core_graphics_physical_pixels() {
    let fallback = Some(MonitorResolution::new(3440, 1440));
    for edid in [None, Some(&[0_u8; 32][..]), Some(&[0_u8; 128][..])] {
        assert_eq!(
            preferred_resolution(edid, fallback),
            (fallback, Some(ResolutionSource::CoreGraphicsDisplayMode))
        );
    }
}

#[test]
fn valid_edid_without_a_timing_uses_core_graphics_physical_pixels() {
    let edid = edid_with_timings(&[]);
    let fallback = Some(MonitorResolution::new(2560, 1440));
    assert_eq!(
        preferred_resolution(Some(&edid), fallback),
        (fallback, Some(ResolutionSource::CoreGraphicsDisplayMode))
    );
}

#[test]
fn bad_checksum_invalidates_an_otherwise_well_formed_edid() {
    let mut edid = edid_with_timings(&[(3840, 2160)]);
    edid[20] = edid[20].wrapping_add(1);
    assert!(!is_valid(&edid));
}
