//! How each monitor is physically attached on Windows.
//!
//! The host side comes from `WmiMonitorConnectionParams.VideoOutputTechnology`
//! (a `DISPLAYCONFIG_VIDEO_OUTPUT_TECHNOLOGY` value). The monitor side comes
//! from the raw EDID Windows caches for the monitor's device instance under
//! `HKLM\SYSTEM\CurrentControlSet\Enum\<instance>\Device Parameters\EDID`.
//! Neither touches DDC/CI.

use crate::connection::{HostOutput, MonitorConnection, SinkInterface};
use crate::edid::{bytes_of, interface_of, sink_interface};
use crate::text::{chars_of, join3};
use vstd::prelude::*;

verus! {

/// The connector that an output technology names: 0 is HD15, 4 DVI, 5 HDMI,
/// 10 an external DisplayPort (USB-C Alt Mode too), 15 Miracast, 16 and 17 the
/// indirect ones, 18 a tunnelled DisplayPort. Panels are handled as built-in
/// elsewhere.
pub open spec fn output_of(technology: u32) -> Option<HostOutput> {
    if technology == 0 {
        Some(HostOutput::Vga)
    } else if technology == 4 {
        Some(HostOutput::Dvi)
    } else if technology == 5 {
        Some(HostOutput::Hdmi)
    } else if technology == 10 {
        Some(HostOutput::DisplayPort)
    } else if technology == 18 {
        Some(HostOutput::Thunderbolt)
    } else if 15 <= technology <= 17 {
        Some(HostOutput::Indirect)
    } else {
        None
    }
}

pub const OUTPUT_HD15: u32 = 0;

pub const OUTPUT_DVI: u32 = 4;

pub const OUTPUT_HDMI: u32 = 5;

pub const OUTPUT_DISPLAYPORT_EXTERNAL: u32 = 10;

pub const OUTPUT_MIRACAST: u32 = 15;

pub const OUTPUT_INDIRECT_WIRED: u32 = 16;

pub const OUTPUT_INDIRECT_VIRTUAL: u32 = 17;

/// Declared right after INDIRECT_VIRTUAL without an explicit value in wingdi.h.
pub const OUTPUT_DISPLAYPORT_USB_TUNNEL: u32 = 18;

/// `DISPLAYCONFIG_VIDEO_OUTPUT_TECHNOLOGY` values that name an external
/// connector. Embedded/internal panels are handled as built-in elsewhere.
pub fn host_output(technology: u32) -> (output: Option<HostOutput>)
    ensures
        output == output_of(technology),
{
    match technology {
        OUTPUT_HD15 => Some(HostOutput::Vga),
        OUTPUT_DVI => Some(HostOutput::Dvi),
        OUTPUT_HDMI => Some(HostOutput::Hdmi),
        // USB-C DisplayPort Alt Mode also reports DISPLAYPORT_EXTERNAL.
        OUTPUT_DISPLAYPORT_EXTERNAL => Some(HostOutput::DisplayPort),
        OUTPUT_DISPLAYPORT_USB_TUNNEL => Some(HostOutput::Thunderbolt),
        OUTPUT_MIRACAST | OUTPUT_INDIRECT_WIRED | OUTPUT_INDIRECT_VIRTUAL => Some(
            HostOutput::Indirect,
        ),
        _ => None,
    }
}

/// Registry subkey (relative to HKLM) holding the cached EDID of a monitor
/// device instance such as `DISPLAY\AUS3554\5&5405411&0&UID4353`.
pub fn edid_registry_subkey(instance_key: &str) -> (subkey: String)
    ensures
        subkey@ == "SYSTEM\\CurrentControlSet\\Enum\\"@ + instance_key@ + "\\Device Parameters"@,
{
    join3("SYSTEM\\CurrentControlSet\\Enum\\", instance_key, "\\Device Parameters")
}

/// The host's end of a connection, as far as a technology names one.
pub open spec fn known_output(technology: Option<u32>) -> Option<HostOutput> {
    match technology {
        Some(value) => output_of(value),
        None => None,
    }
}

/// The monitor's end of a connection, as far as an EDID names one.
pub open spec fn known_sink(edid: Option<Seq<u8>>) -> Option<SinkInterface> {
    match edid {
        Some(bytes) => interface_of(bytes),
        None => None,
    }
}

/// Whether `result` is the connection of a monitor, as far as its ends are known.
pub open spec fn is_connection(
    technology: Option<u32>,
    edid: Option<Seq<u8>>,
    result: Option<MonitorConnection>,
) -> bool {
    result == ({
        let host = known_output(technology);
        let sink = known_sink(edid);
        if host is Some || sink is Some {
            Some(MonitorConnection::classified(host, None, sink, false))
        } else {
            None
        }
    })
}

/// The connection for one monitor, or `None` when neither end is known.
pub fn connection(technology: Option<u32>, raw_edid: Option<&[u8]>) -> (result: Option<
    MonitorConnection,
>)
    ensures
        is_connection(technology, bytes_of(raw_edid), result),
{
    let host = match technology {
        Some(value) => host_output(value),
        None => None,
    };
    let sink = match raw_edid {
        Some(bytes) => sink_interface(bytes),
        None => None,
    };
    if host.is_some() || sink.is_some() {
        Some(MonitorConnection::classify(host, None, sink, false))
    } else {
        None
    }
}

/// One character in UTF-16: itself, or a surrogate pair above U+FFFF.
pub open spec fn utf16_units(c: char) -> Seq<u16> {
    let code = c as u32 as int;
    if code < 0x10000 {
        seq![code as u16]
    } else {
        seq![
            (0xd800 + (code - 0x10000) / 0x400) as u16,
            (0xdc00 + (code - 0x10000) % 0x400) as u16,
        ]
    }
}

/// A text in UTF-16.
pub open spec fn utf16(text: Seq<char>) -> Seq<u16>
    decreases text.len(),
{
    if text.len() == 0 {
        seq![]
    } else {
        utf16(text.drop_last()) + utf16_units(text.last())
    }
}

/// A text in UTF-16, ended by a zero.
pub fn wide_null(value: &str) -> (units: Vec<u16>)
    ensures
        units@ == utf16(value@).push(0),
{
    let chars = chars_of(value);
    let mut units: Vec<u16> = Vec::new();
    let mut i: usize = 0;
    while i < chars.len()
        invariant
            i <= chars@.len(),
            units@ == utf16(chars@.take(i as int)),
        decreases chars@.len() - i,
    {
        proof {
            assert(chars@.take(i + 1).drop_last() =~= chars@.take(i as int));
            vstd::utf8::char_is_scalar(chars@[i as int]);
        }
        let ghost before = units@;
        let code: u32 = chars[i] as u32;
        if code < 0x10000 {
            units.push(code as u16);
        } else {
            let rest: u32 = code - 0x10000;
            units.push((0xd800 + rest / 0x400) as u16);
            units.push((0xdc00 + rest % 0x400) as u16);
        }
        assert(units@ =~= before + utf16_units(chars@[i as int]));
        i += 1;
    }
    assert(chars@.take(chars@.len() as int) =~= chars@);
    units.push(0);
    units
}

} // verus!
