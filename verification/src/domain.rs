//! The displays, inputs and hosts that everything else speaks of.

use crate::connection::MonitorConnection;
use crate::error::DisplayMuxError;
use crate::text::{same_optional_text, same_text};
use vstd::prelude::*;

verus! {

/// The operating system of a host that a display can be switched to.
#[derive(Clone, Copy, Debug, PartialEq, Eq, Structural)]
pub enum DestinationHost {
    Windows,
    Mac,
}

/// A VCP 0x60 input value of a display. Values that arrive from disk or from a
/// paired host are carried as they came; `new` is what checks one.
#[derive(Clone, Copy, Debug, PartialEq, Eq, Structural)]
pub struct DisplayInput {
    pub code: u32,
}

impl DisplayInput {
    /// Whether the value is one a display can be asked for: VCP 0x60 holds one
    /// byte, and 0 names no input.
    pub open spec fn usable(self) -> bool {
        1 <= self.code <= 0xff
    }

    /// The input of this value, where a display can be asked for it.
    pub fn new(value: u32) -> (result: Result<DisplayInput, DisplayMuxError>)
        ensures
            result == if (DisplayInput { code: value }).usable() {
                Ok::<DisplayInput, DisplayMuxError>(DisplayInput { code: value })
            } else {
                Err(DisplayMuxError::InvalidInput(value))
            },
    {
        if value >= 1 && value <= 0xff {
            Ok(DisplayInput { code: value })
        } else {
            Err(DisplayMuxError::InvalidInput(value))
        }
    }

    /// The VCP 0x60 value.
    pub fn value(self) -> (value: u32)
        ensures
            value == self.code,
    {
        self.code
    }

    /// The name that MCCS gives the value.
    pub open spec fn standard_name_of(code: u32) -> Option<Seq<char>> {
        if code == 0x01 {
            Some("VGA 1"@)
        } else if code == 0x02 {
            Some("VGA 2"@)
        } else if code == 0x03 {
            Some("DVI 1"@)
        } else if code == 0x04 {
            Some("DVI 2"@)
        } else if code == 0x05 {
            Some("Composite video 1"@)
        } else if code == 0x06 {
            Some("Composite video 2"@)
        } else if code == 0x07 {
            Some("S-Video 1"@)
        } else if code == 0x08 {
            Some("S-Video 2"@)
        } else if code == 0x09 {
            Some("Tuner 1"@)
        } else if code == 0x0a {
            Some("Tuner 2"@)
        } else if code == 0x0b {
            Some("Tuner 3"@)
        } else if code == 0x0c {
            Some("Component video 1"@)
        } else if code == 0x0d {
            Some("Component video 2"@)
        } else if code == 0x0e {
            Some("Component video 3"@)
        } else if code == 0x0f {
            Some("DisplayPort 1"@)
        } else if code == 0x10 {
            Some("DisplayPort 2"@)
        } else if code == 0x11 {
            Some("HDMI 1"@)
        } else if code == 0x12 {
            Some("HDMI 2"@)
        } else {
            None
        }
    }

    /// The name that MCCS gives the value, if it gives one.
    pub fn standard_name(self) -> (name: Option<&'static str>)
        ensures
            match name {
                Some(text) => Self::standard_name_of(self.code) == Some(text@),
                None => Self::standard_name_of(self.code) is None,
            },
    {
        match self.code {
            0x01 => Some("VGA 1"),
            0x02 => Some("VGA 2"),
            0x03 => Some("DVI 1"),
            0x04 => Some("DVI 2"),
            0x05 => Some("Composite video 1"),
            0x06 => Some("Composite video 2"),
            0x07 => Some("S-Video 1"),
            0x08 => Some("S-Video 2"),
            0x09 => Some("Tuner 1"),
            0x0a => Some("Tuner 2"),
            0x0b => Some("Tuner 3"),
            0x0c => Some("Component video 1"),
            0x0d => Some("Component video 2"),
            0x0e => Some("Component video 3"),
            0x0f => Some("DisplayPort 1"),
            0x10 => Some("DisplayPort 2"),
            0x11 => Some("HDMI 1"),
            0x12 => Some("HDMI 2"),
            _ => None,
        }
    }
}

/// Whether `input` is one of `list`.
pub fn contains_input(list: &[DisplayInput], input: DisplayInput) -> (yes: bool)
    ensures
        yes == list@.contains(input),
{
    let mut i: usize = 0;
    while i < list.len()
        invariant
            i <= list@.len(),
            forall|j: int| 0 <= j < i ==> list@[j] != input,
        decreases list@.len() - i,
    {
        if list[i] == input {
            return true;
        }
        i += 1;
    }
    false
}

/// What an EDID identity says: maker, product and, where the EDID has one,
/// serial number.
pub struct Identity {
    pub manufacturer: Seq<char>,
    pub product: Seq<char>,
    pub serial: Option<Seq<char>>,
}

/// The EDID identity of a display.
#[derive(Debug, PartialEq, Eq)]
pub struct MonitorFingerprint {
    pub manufacturer_id: String,
    pub product_code: String,
    pub serial_number: Option<String>,
}

impl View for MonitorFingerprint {
    type V = Identity;

    open spec fn view(&self) -> Identity {
        Identity {
            manufacturer: self.manufacturer_id@,
            product: self.product_code@,
            serial: match self.serial_number {
                Some(serial) => Some(serial@),
                None => None,
            },
        }
    }
}

impl Clone for MonitorFingerprint {
    fn clone(&self) -> (copy: Self)
        ensures
            copy == *self,
    {
        MonitorFingerprint {
            manufacturer_id: self.manufacturer_id.clone(),
            product_code: self.product_code.clone(),
            serial_number: self.serial_number.clone(),
        }
    }
}

impl MonitorFingerprint {
    pub fn new(manufacturer_id: &str, product_code: &str, serial_number: Option<String>) -> (result:
        Self)
        ensures
            result@ == (Identity {
                manufacturer: manufacturer_id@,
                product: product_code@,
                serial: match serial_number {
                    Some(serial) => Some(serial@),
                    None => None,
                },
            }),
            result.serial_number == serial_number,
    {
        MonitorFingerprint {
            manufacturer_id: manufacturer_id.to_owned(),
            product_code: product_code.to_owned(),
            serial_number,
        }
    }

    /// Whether the two identities say the same; an absent serial number only
    /// matches an absent one.
    pub fn matches_exactly(&self, other: &MonitorFingerprint) -> (same: bool)
        ensures
            same == (self@ == other@),
    {
        same_text(&self.manufacturer_id, &other.manufacturer_id) && same_text(
            &self.product_code,
            &other.product_code,
        ) && same_optional_text(&self.serial_number, &other.serial_number)
    }

    /// Whether maker and product agree, whatever the serial numbers say.
    pub open spec fn same_model(self, other: MonitorFingerprint) -> bool {
        self@.manufacturer == other@.manufacturer && self@.product == other@.product
    }

    /// Whether maker and product agree, whatever the serial numbers say.
    pub fn is_same_model(&self, other: &MonitorFingerprint) -> (same: bool)
        ensures
            same == self.same_model(*other),
    {
        same_text(&self.manufacturer_id, &other.manufacturer_id) && same_text(
            &self.product_code,
            &other.product_code,
        )
    }
}

/// The platform's handle of a connected display.
#[derive(Debug, PartialEq, Eq, Hash)]
pub struct MonitorId {
    pub text: String,
}

impl Clone for MonitorId {
    fn clone(&self) -> (copy: Self)
        ensures
            copy == *self,
    {
        MonitorId { text: self.text.clone() }
    }
}

impl MonitorId {
    pub fn new(text: &str) -> (id: Self)
        ensures
            id.text@ == text@,
    {
        MonitorId { text: text.to_owned() }
    }

    pub fn as_str(&self) -> (text: &str)
        ensures
            text@ == self.text@,
    {
        &self.text
    }
}

#[derive(Clone, Copy, Debug, PartialEq, Eq, Structural)]
pub struct MonitorResolution {
    pub width: u32,
    pub height: u32,
}

impl MonitorResolution {
    pub fn new(width: u32, height: u32) -> (resolution: Self)
        ensures
            resolution == (MonitorResolution { width, height }),
    {
        MonitorResolution { width, height }
    }
}

/// Where a resolution was read.
#[derive(Clone, Copy, Debug, PartialEq, Eq, Structural)]
pub enum ResolutionSource {
    Edid,
    CoreGraphicsDisplayMode,
    WindowsDisplayMode,
}

/// A display that is connected to this host.
#[derive(Debug, PartialEq, Eq)]
pub struct MonitorDescriptor {
    pub id: MonitorId,
    pub name: String,
    pub fingerprint: MonitorFingerprint,
    pub active: bool,
    pub built_in: bool,
    pub max_resolution: Option<MonitorResolution>,
    pub resolution_source: Option<ResolutionSource>,
    pub connection: Option<MonitorConnection>,
}

impl Clone for MonitorDescriptor {
    fn clone(&self) -> (copy: Self)
        ensures
            copy == *self,
    {
        MonitorDescriptor {
            id: self.id.clone(),
            name: self.name.clone(),
            fingerprint: self.fingerprint.clone(),
            active: self.active,
            built_in: self.built_in,
            max_resolution: self.max_resolution,
            resolution_source: self.resolution_source,
            connection: self.connection.clone(),
        }
    }
}

/// The display that a switch acts on.
#[derive(Debug, PartialEq, Eq)]
pub struct DisplayMuxProfile {
    pub shared_monitor: MonitorFingerprint,
}

/// Whether a switch is carried out or only looked at.
#[derive(Clone, Copy, Debug, PartialEq, Eq, Structural)]
pub enum SwitchMode {
    DryRun,
    Apply,
}

/// What a switch came to.
#[derive(Debug, PartialEq, Eq)]
pub enum SwitchOutcome {
    DryRun { target: MonitorDescriptor, current: DisplayInput, requested: DisplayInput },
    AlreadySelected { target: MonitorDescriptor, input: DisplayInput },
    Switched { target: MonitorDescriptor, previous: DisplayInput, selected: DisplayInput },
}

/// A host found on the local network.
#[derive(Debug, PartialEq, Eq)]
pub struct DiscoveredPeer {
    pub id: String,
    pub name: String,
    pub platform: DestinationHost,
    pub address: String,
    pub port: u16,
    pub mac_address: Option<String>,
}

impl Clone for DiscoveredPeer {
    fn clone(&self) -> (copy: Self)
        ensures
            copy == *self,
    {
        DiscoveredPeer {
            id: self.id.clone(),
            name: self.name.clone(),
            platform: self.platform,
            address: self.address.clone(),
            port: self.port,
            mac_address: self.mac_address.clone(),
        }
    }
}

/// A custom name for a host, known on every paired host.
#[derive(Debug, PartialEq, Eq)]
pub struct HostAlias {
    pub host_id: String,
    pub name: String,
    pub updated_at_ms: u64,
}

impl Clone for HostAlias {
    fn clone(&self) -> (copy: Self)
        ensures
            copy == *self,
    {
        HostAlias {
            host_id: self.host_id.clone(),
            name: self.name.clone(),
            updated_at_ms: self.updated_at_ms,
        }
    }
}

/// A note for an input of a display, known on every paired host.
#[derive(Debug, PartialEq, Eq)]
pub struct InputLabel {
    pub monitor: MonitorFingerprint,
    pub input: DisplayInput,
    pub label: String,
    pub updated_at_ms: u64,
}

impl Clone for InputLabel {
    fn clone(&self) -> (copy: Self)
        ensures
            copy == *self,
    {
        InputLabel {
            monitor: self.monitor.clone(),
            input: self.input,
            label: self.label.clone(),
            updated_at_ms: self.updated_at_ms,
        }
    }
}

/// The user's claim that the identity `alias` is the display `primary`; without
/// a primary, that the claim is withdrawn.
#[derive(Debug, PartialEq, Eq)]
pub struct MonitorIdentityLink {
    pub alias: MonitorFingerprint,
    pub primary: Option<MonitorFingerprint>,
    pub updated_at_ms: u64,
}

impl Clone for MonitorIdentityLink {
    fn clone(&self) -> (copy: Self)
        ensures
            copy == *self,
    {
        MonitorIdentityLink {
            alias: self.alias.clone(),
            primary: self.primary.clone(),
            updated_at_ms: self.updated_at_ms,
        }
    }
}

} // verus!
