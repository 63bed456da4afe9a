//! Physical connection between a host and a monitor, inferred from two
//! independent sources: the host's output connector and the input interface
//! the monitor itself declares in the EDID it hands this host. Everything here
//! is a read-only hint; it never authorizes a switch.

use crate::domain::DisplayInput;
use vstd::prelude::*;

verus! {

/// The monitor-side input interface, as declared by the EDID the host reads.
/// Many monitors expose a different EDID per input, so this usually tells
/// which *kind* of input (not which numbered port) this host is plugged into.
#[derive(Clone, Copy, Debug, PartialEq, Eq, Structural)]
pub enum SinkInterface {
    Hdmi,
    DisplayPort,
    Dvi,
    Vga,
    /// Digital, but the EDID does not say which interface.
    UnknownDigital,
}

/// The host-side connector the video signal leaves from.
#[derive(Clone, Copy, Debug, PartialEq, Eq, Structural)]
pub enum HostOutput {
    Hdmi,
    DisplayPort,
    /// DisplayPort Alt Mode on a USB-C connector.
    UsbC,
    /// DisplayPort tunnelled over Thunderbolt / USB4.
    Thunderbolt,
    Dvi,
    Vga,
    /// Rendered by software and sent over USB or the network (DisplayLink,
    /// Miracast, virtual displays); there is no DDC/CI channel at all.
    Indirect,
}

/// How likely DDC/CI is to reach the monitor over this connection.
#[derive(Clone, Copy, Debug, PartialEq, Eq, Structural)]
pub enum DdcRisk {
    /// Same signal family end to end; DDC/CI normally passes.
    Low,
    /// The signal is converted (e.g. USB-C/DP to HDMI); many converter chips
    /// forward video but drop DDC/CI.
    Elevated,
    /// No physical DDC/CI channel exists on this path.
    Unsupported,
}

#[derive(Debug, PartialEq, Eq)]
pub struct MonitorConnection {
    pub host_output: Option<HostOutput>,
    /// Platform connector label for diagnostics, e.g. `Port-USB-C@2`.
    pub host_port: Option<String>,
    pub sink_interface: Option<SinkInterface>,
    /// USB data is active on the same connector as the video signal: a hub,
    /// dock, or a USB-C monitor with a built-in USB hub.
    pub shares_usb_data: bool,
    pub signal_conversion: bool,
    pub ddc_risk: Option<DdcRisk>,
}

impl Clone for MonitorConnection {
    fn clone(&self) -> (copy: Self)
        ensures
            copy == *self,
    {
        MonitorConnection {
            host_output: self.host_output,
            host_port: self.host_port.clone(),
            sink_interface: self.sink_interface,
            shares_usb_data: self.shares_usb_data,
            signal_conversion: self.signal_conversion,
            ddc_risk: self.ddc_risk,
        }
    }
}

/// A connection is converted where both ends are known and carry different
/// signal families.
pub open spec fn converts(host: Option<HostOutput>, sink: Option<SinkInterface>) -> bool {
    match (host, sink) {
        (Some(h), Some(s)) => {
            &&& family_of_host(h) is Some
            &&& family_of_sink(s) is Some
            &&& family_of_host(h) != family_of_sink(s)
        },
        _ => false,
    }
}

/// The DDC/CI risk of a connection: none is named while either end is too
/// vague, except that a software-rendered output has no channel at all.
pub open spec fn risk_of(host: Option<HostOutput>, sink: Option<SinkInterface>) -> Option<DdcRisk> {
    if host == Some(HostOutput::Indirect) {
        Some(DdcRisk::Unsupported)
    } else if host is None || sink is None || sink == Some(SinkInterface::UnknownDigital) {
        None
    } else if converts(host, sink) {
        Some(DdcRisk::Elevated)
    } else {
        Some(DdcRisk::Low)
    }
}

impl MonitorConnection {
    /// What `classify` makes of the two ends.
    pub open spec fn classified(
        host_output: Option<HostOutput>,
        host_port: Option<String>,
        sink_interface: Option<SinkInterface>,
        shares_usb_data: bool,
    ) -> MonitorConnection {
        MonitorConnection {
            host_output,
            host_port,
            sink_interface,
            shares_usb_data,
            signal_conversion: converts(host_output, sink_interface),
            ddc_risk: risk_of(host_output, sink_interface),
        }
    }

    pub fn classify(
        host_output: Option<HostOutput>,
        host_port: Option<String>,
        sink_interface: Option<SinkInterface>,
        shares_usb_data: bool,
    ) -> (result: Self)
        ensures
            result == Self::classified(host_output, host_port, sink_interface, shares_usb_data),
    {
        let signal_conversion = match (host_output, sink_interface) {
            (Some(host), Some(sink)) => is_conversion(host, sink),
            _ => false,
        };
        let ddc_risk = match (host_output, sink_interface) {
            (Some(HostOutput::Indirect), _) => Some(DdcRisk::Unsupported),
            (_, Some(SinkInterface::UnknownDigital)) => None,
            (None, _) => None,
            (_, None) => None,
            _ => if signal_conversion {
                Some(DdcRisk::Elevated)
            } else {
                Some(DdcRisk::Low)
            },
        };
        MonitorConnection {
            host_output,
            host_port,
            sink_interface,
            shares_usb_data,
            signal_conversion,
            ddc_risk,
        }
    }
}

/// A risk is only ever elevated by a conversion, and a conversion is only ever
/// reported with an elevated risk.
pub proof fn elevated_means_converted(host: Option<HostOutput>, sink: Option<SinkInterface>)
    ensures
        risk_of(host, sink) == Some(DdcRisk::Elevated) <==> converts(host, sink),
{
}

/// Signals that pass into each other without an active converter.
#[derive(Clone, Copy, Debug, PartialEq, Eq, Structural)]
pub enum SignalFamily {
    DisplayPort,
    /// HDMI and DVI both use TMDS and pass DDC through passive adapters.
    Tmds,
    Analog,
}

/// The signal a host output sends.
pub open spec fn family_of_host(host: HostOutput) -> Option<SignalFamily> {
    match host {
        HostOutput::DisplayPort => Some(SignalFamily::DisplayPort),
        HostOutput::UsbC => Some(SignalFamily::DisplayPort),
        HostOutput::Thunderbolt => Some(SignalFamily::DisplayPort),
        HostOutput::Hdmi => Some(SignalFamily::Tmds),
        HostOutput::Dvi => Some(SignalFamily::Tmds),
        HostOutput::Vga => Some(SignalFamily::Analog),
        HostOutput::Indirect => None,
    }
}

/// The signal a monitor input takes.
pub open spec fn family_of_sink(sink: SinkInterface) -> Option<SignalFamily> {
    match sink {
        SinkInterface::DisplayPort => Some(SignalFamily::DisplayPort),
        SinkInterface::Hdmi => Some(SignalFamily::Tmds),
        SinkInterface::Dvi => Some(SignalFamily::Tmds),
        SinkInterface::Vga => Some(SignalFamily::Analog),
        SinkInterface::UnknownDigital => None,
    }
}

fn host_family(host: HostOutput) -> (family: Option<SignalFamily>)
    ensures
        family == family_of_host(host),
{
    match host {
        HostOutput::DisplayPort | HostOutput::UsbC | HostOutput::Thunderbolt => Some(
            SignalFamily::DisplayPort,
        ),
        HostOutput::Hdmi | HostOutput::Dvi => Some(SignalFamily::Tmds),
        HostOutput::Vga => Some(SignalFamily::Analog),
        HostOutput::Indirect => None,
    }
}

fn sink_family(sink: SinkInterface) -> (family: Option<SignalFamily>)
    ensures
        family == family_of_sink(sink),
{
    match sink {
        SinkInterface::DisplayPort => Some(SignalFamily::DisplayPort),
        SinkInterface::Hdmi | SinkInterface::Dvi => Some(SignalFamily::Tmds),
        SinkInterface::Vga => Some(SignalFamily::Analog),
        SinkInterface::UnknownDigital => None,
    }
}

fn is_conversion(host: HostOutput, sink: SinkInterface) -> (yes: bool)
    ensures
        yes == converts(Some(host), Some(sink)),
{
    match (host_family(host), sink_family(sink)) {
        (Some(from), Some(to)) => from != to,
        _ => false,
    }
}

/// Standard MCCS VCP 0x60 codes per interface. USB-C has no standard code.
pub open spec fn codes_of(sink: SinkInterface) -> Set<u32> {
    match sink {
        SinkInterface::Vga => set![0x01u32, 0x02u32],
        SinkInterface::Dvi => set![0x03u32, 0x04u32],
        SinkInterface::DisplayPort => set![0x0fu32, 0x10u32],
        SinkInterface::Hdmi => set![0x11u32, 0x12u32],
        SinkInterface::UnknownDigital => set![],
    }
}

/// The codes that name a standard video input of some interface.
pub open spec fn is_standard_video_input(code: u32) -> bool {
    1 <= code <= 4 || 0x0f <= code <= 0x12
}

/// The standard codes are those of the four named interfaces.
pub proof fn standard_codes_are_those_of_the_interfaces(code: u32)
    ensures
        is_standard_video_input(code) <==> (codes_of(SinkInterface::Vga).contains(code) || codes_of(
            SinkInterface::Dvi,
        ).contains(code) || codes_of(SinkInterface::DisplayPort).contains(code) || codes_of(
            SinkInterface::Hdmi,
        ).contains(code)),
{
}

/// Whether `code` is a standard code of the interface.
fn has_standard_code(sink: SinkInterface, code: u32) -> (yes: bool)
    ensures
        yes == codes_of(sink).contains(code),
{
    match sink {
        SinkInterface::Vga => code == 0x01 || code == 0x02,
        SinkInterface::Dvi => code == 0x03 || code == 0x04,
        SinkInterface::DisplayPort => code == 0x0f || code == 0x10,
        SinkInterface::Hdmi => code == 0x11 || code == 0x12,
        SinkInterface::UnknownDigital => false,
    }
}

/// Whether `verdict` says whether an input is a standard one of an interface.
pub open spec fn is_match(
    sink: SinkInterface,
    input: DisplayInput,
    verdict: Option<bool>,
) -> bool {
    verdict == if sink == SinkInterface::UnknownDigital || !is_standard_video_input(
        input.code,
    ) {
        None
    } else {
        Some(codes_of(sink).contains(input.code))
    }
}

/// Whether a VCP 0x60 value is a standard MCCS input of the given interface.
/// `None` when either side is too vague to judge (vendor-specific values,
/// USB-C inputs without a standard code, or an unknown digital sink).
pub fn input_matches_sink(sink: SinkInterface, input: DisplayInput) -> (verdict: Option<bool>)
    ensures
        is_match(sink, input, verdict),
{
    let code: u32 = input.value();
    let standard = (1 <= code && code <= 4) || (0x0f <= code && code <= 0x12);
    if sink == SinkInterface::UnknownDigital || !standard {
        return None;
    }
    Some(has_standard_code(sink, code))
}

/// The inputs of `available` that are of the interface kind, in order.
pub open spec fn inputs_of_kind(sink: SinkInterface, available: Seq<DisplayInput>) -> Seq<
    DisplayInput,
> {
    available.filter(|input: DisplayInput| codes_of(sink).contains(input.code))
}

/// The inputs from `available` that are of the given interface kind.
pub fn candidate_inputs(sink: SinkInterface, available: &[DisplayInput]) -> (candidates: Vec<
    DisplayInput,
>)
    ensures
        candidates@ == inputs_of_kind(sink, available@),
{
    let mut candidates: Vec<DisplayInput> = Vec::new();
    let ghost keep = |input: DisplayInput| codes_of(sink).contains(input.code);
    let mut i: usize = 0;
    while i < available.len()
        invariant
            i <= available@.len(),
            keep == (|input: DisplayInput| codes_of(sink).contains(input.code)),
            candidates@ == available@.take(i as int).filter(keep),
        decreases available@.len() - i,
    {
        proof {
            assert(available@.take(i + 1).drop_last() =~= available@.take(i as int));
            reveal(Seq::filter);
        }
        let input = available[i];
        if has_standard_code(sink, input.value()) {
            candidates.push(input);
        }
        i += 1;
    }
    assert(available@.take(available@.len() as int) =~= available@);
    candidates
}

} // verus!
