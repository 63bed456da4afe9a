//! How each external display is physically attached on macOS.
//!
//! Every display transport that the I/O registry exposes hangs off the physical
//! connector it runs through (`Port-HDMI@1`, `Port-USB-C@2`, optionally via a
//! Thunderbolt `CIO` tunnel) and carries the raw EDID the display sent over
//! that path. Pairing the two gives both ends of the connection without
//! touching DDC/CI.

use crate::connection::{HostOutput, MonitorConnection};
use crate::domain::MonitorFingerprint;
use crate::edid::{interface_of, sink_interface};
use crate::text::{begins_with, contains_text, copy_texts, cut, cut_at, same_text, strip_prefix, views};
use vstd::prelude::*;

verus! {

/// Transport, optional tunnel, port; a little slack for firmware that inserts
/// an extra node.
pub const MAX_PARENT_HOPS: usize = 4;

/// One live display link found in the registry.
#[derive(Debug, PartialEq, Eq)]
pub struct DisplayLink {
    pub edid: Vec<u8>,
    pub port_name: String,
    pub via_thunderbolt: bool,
    pub port_transports: Vec<String>,
}

impl DisplayLink {
    /// The connection that the link makes.
    pub open spec fn connection_spec(self) -> MonitorConnection {
        MonitorConnection::classified(
            output_of(self.port_name@, self.via_thunderbolt),
            Some(self.port_name),
            interface_of(self.edid@),
            views(self.port_transports@).contains("USB3"@),
        )
    }

    pub fn connection(&self) -> (result: MonitorConnection)
        ensures
            result == self.connection_spec(),
    {
        MonitorConnection::classify(
            host_output(&self.port_name, self.via_thunderbolt),
            Some(self.port_name.clone()),
            sink_interface(&self.edid),
            shares_usb_data(&self.port_transports),
        )
    }
}

/// The connector that a port node names: what stands between `Port-` and the
/// location. A tunnel makes a USB-C connector a Thunderbolt one.
pub open spec fn output_of(port_name: Seq<char>, via_thunderbolt: bool) -> Option<HostOutput> {
    let kind = cut(port_name.skip("Port-"@.len() as int), '@').0;
    if !begins_with(port_name, "Port-"@) {
        None
    } else if kind == "HDMI"@ {
        Some(HostOutput::Hdmi)
    } else if kind == "USB-C"@ {
        Some(
            if via_thunderbolt {
                HostOutput::Thunderbolt
            } else {
                HostOutput::UsbC
            },
        )
    } else if kind == "DisplayPort"@ || kind == "DP"@ {
        Some(HostOutput::DisplayPort)
    } else {
        None
    }
}

pub fn host_output(port_name: &str, via_thunderbolt: bool) -> (output: Option<HostOutput>)
    ensures
        output == output_of(port_name@, via_thunderbolt),
{
    match strip_prefix(port_name, "Port-") {
        None => None,
        Some(rest) => {
            let kind = cut_at(&rest, '@').0;
            proof {
                reveal_strlit("HDMI");
                reveal_strlit("USB-C");
                reveal_strlit("DisplayPort");
                reveal_strlit("DP");
            }
            if same_text(&kind, "HDMI") {
                Some(HostOutput::Hdmi)
            } else if same_text(&kind, "USB-C") {
                if via_thunderbolt {
                    Some(HostOutput::Thunderbolt)
                } else {
                    Some(HostOutput::UsbC)
                }
            } else if same_text(&kind, "DisplayPort") || same_text(&kind, "DP") {
                Some(HostOutput::DisplayPort)
            } else {
                None
            }
        },
    }
}

/// USB 3 data on the same connector means a hub, dock or hub-equipped USB-C
/// monitor sits on the other end. USB 2 alone is not counted: a plain
/// USB-C video cable may still negotiate it.
pub fn shares_usb_data(port_transports: &[String]) -> (yes: bool)
    ensures
        yes == views(port_transports@).contains("USB3"@),
{
    contains_text(port_transports, "USB3")
}

/// Whether `i` is the only position whose identity is `wanted`.
pub open spec fn sole_match(
    identities: Seq<Option<MonitorFingerprint>>,
    wanted: MonitorFingerprint,
    i: int,
) -> bool {
    &&& 0 <= i < identities.len()
    &&& identities[i] matches Some(found) && found@ == wanted@
    &&& forall|j: int|
        0 <= j < identities.len() && j != i ==> !(#[trigger] identities[j] matches Some(found)
            && found@ == wanted@)
}

/// Whether `identity` answers `identities` for the EDIDs of `links`.
pub open spec fn are_identities_of<F: Fn(&Vec<u8>) -> Option<MonitorFingerprint>>(
    identity: F,
    links: Seq<DisplayLink>,
    identities: Seq<Option<MonitorFingerprint>>,
) -> bool {
    &&& identities.len() == links.len()
    &&& forall|i: int|
        0 <= i < links.len() ==> identity.ensures((&links[i].edid,), #[trigger] identities[i])
}

/// Whether `result` is the connection of the only link whose identity is `wanted`;
/// none where no link or several have it.
pub open spec fn is_sole_connection(
    links: Seq<DisplayLink>,
    identities: Seq<Option<MonitorFingerprint>>,
    wanted: MonitorFingerprint,
    result: Option<MonitorConnection>,
) -> bool {
    match result {
        Some(connection) => exists|i: int| #[trigger]
            sole_match(identities, wanted, i) && connection == links[i].connection_spec(),
        None => forall|i: int| !#[trigger] sole_match(identities, wanted, i),
    }
}

/// The connection of the display whose EDID identity is exactly
/// `fingerprint`. `None` when no link matches or several do (identical
/// monitors without serial numbers), so a connection is never misattributed.
pub fn connection_for<F: Fn(&Vec<u8>) -> Option<MonitorFingerprint>>(
    links: &[DisplayLink],
    fingerprint: &MonitorFingerprint,
    identity: F,
) -> (result: Option<MonitorConnection>)
    requires
        forall|i: int| 0 <= i < links@.len() ==> identity.requires((&(#[trigger] links@[i]).edid,)),
    ensures
        exists|identities: Seq<Option<MonitorFingerprint>>|
            {
                &&& #[trigger] are_identities_of(identity, links@, identities)
                &&& is_sole_connection(links@, identities, *fingerprint, result)
            },
{
    let mut matching: Vec<usize> = Vec::new();
    let ghost mut identities: Seq<Option<MonitorFingerprint>> = seq![];
    let mut i: usize = 0;
    while i < links.len()
        invariant
            i <= links@.len(),
            identities.len() == i,
            forall|j: int|
                0 <= j < links@.len() ==> identity.requires((&(#[trigger] links@[j]).edid,)),
            forall|j: int|
                0 <= j < i ==> identity.ensures((&links@[j].edid,), #[trigger] identities[j]),
            forall|k: int| 0 <= k < matching@.len() ==> (#[trigger] matching@[k]) < i,
            forall|k: int, l: int|
                0 <= k < l < matching@.len() ==> #[trigger] matching@[k] < #[trigger] matching@[l],
            forall|j: int|
                0 <= j < i ==> (matching@.contains(j as usize) <==> (#[trigger] identities[j] matches Some(found)
                    && found@ == fingerprint@)),
        decreases links@.len() - i,
    {
        let found = identity(&links[i].edid);
        let ghost before = matching@;
        let hit = match &found {
            Some(candidate) => candidate.matches_exactly(fingerprint),
            None => false,
        };
        proof {
            identities = identities.push(found);
        }
        if hit {
            matching.push(i);
        }
        proof {
            assert forall|j: int| 0 <= j < i + 1 implies (matching@.contains(j as usize) <==> (
            #[trigger] identities[j] matches Some(found) && found@ == fingerprint@)) by {
                if hit {
                    assert(matching@[before.len() as int] == i);
                    if before.contains(j as usize) {
                        let k = choose|k: int| 0 <= k < before.len() && before[k] == j as usize;
                        assert(matching@[k] == j as usize);
                    }
                    if matching@.contains(j as usize) && j != i {
                        let k = choose|k: int|
                            0 <= k < matching@.len() && matching@[k] == j as usize;
                        assert(before[k] == j as usize);
                    }
                } else if j == i {
                    if before.contains(j as usize) {
                        let k = choose|k: int| 0 <= k < before.len() && before[k] == j as usize;
                        assert(before[k] < i);
                    }
                }
            }
        }
        i += 1;
    }
    assert(are_identities_of(identity, links@, identities));
    if matching.len() == 1 {
        let at = matching[0];
        proof {
            assert(matching@.contains(at));
            assert(identities[at as int] matches Some(found) && found@ == fingerprint@);
            assert forall|j: int| 0 <= j < identities.len() && j != at implies !(
            #[trigger] identities[j] matches Some(found) && found@ == fingerprint@) by {
                if matching@.contains(j as usize) {
                    let k = choose|k: int| 0 <= k < matching@.len() && matching@[k] == j as usize;
                }
            }
            assert(sole_match(identities, *fingerprint, at as int));
        }
        Some(links[at].connection())
    } else {
        proof {
            assert forall|n: int| !#[trigger] sole_match(identities, *fingerprint, n) by {
                if sole_match(identities, *fingerprint, n) {
                    assert(matching@.contains(n as usize));
                    let k = choose|k: int| 0 <= k < matching@.len() && matching@[k] == n as usize;
                    let other = if k == 0 {
                        1int
                    } else {
                        0int
                    };
                    let m = matching@[other];
                    assert(matching@.contains(m));
                    assert(identities[m as int] matches Some(found) && found@ == fingerprint@);
                    assert(matching@[0] < matching@[1]);
                }
            }
        }
        None
    }
}

/// One node above a display transport: its name, as far as it has one, and the
/// transports active on it.
#[derive(Debug, PartialEq, Eq)]
pub struct RegistryNode {
    pub name: Option<String>,
    pub transports: Vec<String>,
}

/// Whether the node is a physical port.
pub open spec fn is_port(node: RegistryNode) -> bool {
    node.name matches Some(name) && begins_with(name@, "Port-"@)
}

/// Whether the node is a Thunderbolt tunnel.
pub open spec fn is_tunnel(node: RegistryNode) -> bool {
    node.name matches Some(name) && name@ == "CIO"@
}

/// Whether the port that a transport runs through is the ancestor of number
/// `n`: it is the first port, it is within reach, and every node below it has a
/// name.
pub open spec fn port_at(ancestors: Seq<RegistryNode>, n: int) -> bool {
    &&& 0 <= n < ancestors.len()
    &&& n < MAX_PARENT_HOPS
    &&& is_port(ancestors[n])
    &&& forall|j: int| 0 <= j < n ==> (#[trigger] ancestors[j]).name is Some && !is_port(ancestors[j])
}

/// Whether one of the first `n` ancestors is a Thunderbolt tunnel.
pub open spec fn tunnelled(ancestors: Seq<RegistryNode>, n: int) -> bool {
    exists|j: int| 0 <= j < n && is_tunnel(#[trigger] ancestors[j])
}

/// Whether `link` is the link of a display transport below these nodes.
pub open spec fn is_link(
    edid: Vec<u8>,
    ancestors: Seq<RegistryNode>,
    link: Option<DisplayLink>,
) -> bool {
    match link {
        Some(found) => exists|n: int|
            {
                &&& #[trigger] port_at(ancestors, n)
                &&& found.edid == edid
                &&& Some(found.port_name) == ancestors[n].name
                &&& found.via_thunderbolt == tunnelled(ancestors, n)
                &&& found.port_transports@ == ancestors[n].transports@
            },
        None => forall|n: int| !#[trigger] port_at(ancestors, n),
    }
}

/// The link of a display transport with this EDID, found by walking up from it.
/// `None` where no port is within reach.
pub fn link_from_ancestors(edid: Vec<u8>, ancestors: &[RegistryNode]) -> (link: Option<DisplayLink>)
    ensures
        is_link(edid, ancestors@, link),
{
    let mut via_thunderbolt: bool = false;
    let mut hop: usize = 0;
    while hop < MAX_PARENT_HOPS && hop < ancestors.len()
        invariant
            hop <= ancestors@.len(),
            hop <= MAX_PARENT_HOPS,
            via_thunderbolt == tunnelled(ancestors@, hop as int),
            forall|j: int|
                0 <= j < hop ==> (#[trigger] ancestors@[j]).name is Some && !is_port(ancestors@[j]),
        decreases MAX_PARENT_HOPS - hop,
    {
        match &ancestors[hop].name {
            None => {
                assert forall|n: int| !#[trigger] port_at(ancestors@, n) by {
                    if port_at(ancestors@, n) {
                        assert(ancestors@[hop as int].name is None);
                        if n < hop {
                            assert(!is_port(ancestors@[n]));
                        }
                    }
                }
                return None;
            },
            Some(name) => {
                if strip_prefix(name, "Port-").is_some() {
                    assert(port_at(ancestors@, hop as int));
                    return Some(
                        DisplayLink {
                            edid,
                            port_name: name.clone(),
                            via_thunderbolt,
                            port_transports: copy_texts(&ancestors[hop].transports),
                        },
                    );
                }
                if same_text(name, "CIO") {
                    assert(is_tunnel(ancestors@[hop as int]));
                    via_thunderbolt = true;
                }
            },
        }
        assert(tunnelled(ancestors@, hop + 1) == via_thunderbolt) by {
            if tunnelled(ancestors@, hop as int) {
                let j = choose|j: int|
                    0 <= j < hop && is_tunnel(#[trigger] ancestors@[j]);
                assert(is_tunnel(ancestors@[j]));
            }
        }
        hop += 1;
    }
    assert forall|n: int| !#[trigger] port_at(ancestors@, n) by {
        if port_at(ancestors@, n) {
            assert(!is_port(ancestors@[n]));
        }
    }
    None
}

/// The connector label of a registry node: its name and, where it has one, its
/// location.
pub fn node_label(name: &str, location: Option<&str>) -> (label: String)
    ensures
        label@ == match location {
            Some(place) if place@.len() > 0 => name@ + "@"@ + place@,
            _ => name@,
        },
{
    match location {
        Some(place) => if place.is_empty() {
            name.to_owned()
        } else {
            crate::text::join3(name, "@", place)
        },
        None => name.to_owned(),
    }
}

} // verus!
