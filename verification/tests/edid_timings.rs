use displaymux::connection::SinkInterface;
use displaymux::domain::{MonitorResolution, ResolutionSource};
use displaymux::edid::{is_valid, preferred_resolution, sink_interface};

fn seal(block: &mut [u8]) {
    block[127] = 0;
    block[127] = 0_u8.wrapping_sub(block.iter().fold(0_u8, |sum, byte| sum.wrapping_add(*byte)));
}

fn put_timing(block: &mut [u8], offset: usize, width: u32, height: u32) {
    block[offset] = 1;
    block[offset + 2] = width as u8;
    block[offset + 4] = ((width >> 8) as u8) << 4;
    block[offset + 5] = height as u8;
    block[offset + 7] = ((height >> 8) as u8) << 4;
}

fn base(extensions: u8) -> Vec<u8> {
    let mut edid = vec![0_u8; 128];
    edid[..8].copy_from_slice(&[0x00, 0xff, 0xff, 0xff, 0xff, 0xff, 0xff, 0x00]);
    edid[19] = 3;
    edid[20] = 0x80;
    edid[126] = extensions;
    edid
}

#[test]
fn a_timing_of_an_extension_counts_where_it_is_a_cta_block() {
    let mut edid = base(1);
    put_timing(&mut edid, 54, 1920, 1080);
    seal(&mut edid);
    let mut extension = vec![0_u8; 128];
    extension[0] = 2;
    extension[2] = 4;
    put_timing(&mut extension, 4 + 18, 3840, 2160);
    seal(&mut extension);
    let mut whole = edid.clone();
    whole.extend_from_slice(&extension);
    assert!(is_valid(&whole));
    assert_eq!(
        preferred_resolution(Some(&whole), None),
        (Some(MonitorResolution::new(3840, 2160)), Some(ResolutionSource::Edid))
    );

    extension[0] = 3;
    seal(&mut extension);
    let mut other = edid;
    other.extend_from_slice(&extension);
    assert_eq!(
        preferred_resolution(Some(&other), None).0,
        Some(MonitorResolution::new(1920, 1080))
    );
}

#[test]
fn an_edid_that_claims_a_missing_extension_is_refused() {
    let mut edid = base(1);
    seal(&mut edid);
    assert!(!is_valid(&edid));
    assert_eq!(sink_interface(&edid), None);
    assert_eq!(preferred_resolution(Some(&edid), None), (None, None));
}

#[test]
fn of_two_timings_of_one_area_the_wider_counts() {
    let mut edid = base(0);
    put_timing(&mut edid, 54, 1000, 2000);
    put_timing(&mut edid, 72, 2000, 1000);
    seal(&mut edid);
    assert_eq!(
        preferred_resolution(Some(&edid), None).0,
        Some(MonitorResolution::new(2000, 1000))
    );
}

#[test]
fn a_displayport_field_outranks_an_hdmi_block_and_reserved_bits_are_ignored() {
    let mut edid = base(1);
    edid[19] = 4;
    edid[20] = 0x85;
    seal(&mut edid);
    let mut extension = vec![0_u8; 128];
    extension[0] = 2;
    extension[2] = 9;
    extension[4..8].copy_from_slice(&[0x63, 0x03, 0x0c, 0x00]);
    seal(&mut extension);
    let mut whole = edid.clone();
    whole.extend_from_slice(&extension);
    assert_eq!(sink_interface(&whole), Some(SinkInterface::DisplayPort));
    whole[19] = 3;
    seal(&mut whole[..128]);
    assert_eq!(sink_interface(&whole), Some(SinkInterface::Hdmi));
}
