//! How a display is attached, by what the platform says of its connector and its
//! EDID.

use crate::connection::{is_match, HostOutput, MonitorConnection, SinkInterface};
use crate::domain::{DisplayInput, MonitorFingerprint};
use crate::edid::{interface_of, sound};
use crate::laws::devices::is_code_of;
use crate::macos_connection::{
    is_link, is_sole_connection, output_of, sole_match, tunnelled, DisplayLink, RegistryNode,
};
use crate::text::{lemma_first_index_is, views};
use crate::windows_connection::is_connection;
use vstd::prelude::*;

verus! {

/// Whether an input of a known interface is judged, and how: a standard code is of
/// the interface or it is not, and any other is not judged.
pub proof fn a_standard_input_is_judged_by_its_code(
    sink: SinkInterface,
    input: DisplayInput,
    verdict: Option<bool>,
)
    requires
        is_match(sink, input, verdict),
    ensures
        is_code_of(input.code, sink) ==> verdict == Some(true),
        sink != SinkInterface::UnknownDigital && !is_code_of(input.code, sink) && (exists|
            other: SinkInterface,
        | #[trigger] is_code_of(input.code, other)) ==> verdict == Some(false),
        sink == SinkInterface::UnknownDigital || (forall|other: SinkInterface|
            !#[trigger] is_code_of(input.code, other)) ==> verdict is None,
{
    let code = input.code;
    assert(is_code_of(code, SinkInterface::Vga) || is_code_of(code, SinkInterface::Dvi)
        || is_code_of(code, SinkInterface::DisplayPort) || is_code_of(code, SinkInterface::Hdmi)
        <==> crate::connection::is_standard_video_input(code));
    assert(crate::connection::codes_of(sink).contains(code) <==> is_code_of(code, sink));
}

/// On Windows the host's end is the connector that the technology names, the
/// monitor's the interface that a sound EDID declares; a connection is told where
/// one of them is known.
pub proof fn a_windows_connection_has_the_ends_that_are_known(
    technology: Option<u32>,
    edid: Option<Seq<u8>>,
    result: Option<MonitorConnection>,
)
    requires
        is_connection(technology, edid, result),
    ensures
        edid is Some && sound(edid->0) ==> result is Some && result->0.sink_interface
            == interface_of(edid->0),
        technology == Some(5u32) ==> result is Some && result->0.host_output == Some(
            HostOutput::Hdmi,
        ),
        technology == Some(10u32) ==> result is Some && result->0.host_output == Some(
            HostOutput::DisplayPort,
        ),
        technology == Some(4u32) ==> result is Some && result->0.host_output == Some(
            HostOutput::Dvi,
        ),
        technology == Some(0u32) ==> result is Some && result->0.host_output == Some(
            HostOutput::Vga,
        ),
        technology == Some(18u32) ==> result is Some && result->0.host_output == Some(
            HostOutput::Thunderbolt,
        ),
        technology is Some && 15 <= technology->0 <= 17 ==> result is Some
            && result->0.host_output == Some(HostOutput::Indirect),
        technology is None && (edid is None || !sound(edid->0)) ==> result is None,
        technology is None && result is Some ==> result->0.host_output is None,
        (edid is None || !sound(edid->0)) && result is Some ==> result->0.sink_interface is None,
        result is Some ==> result->0.host_port is None && !result->0.shares_usb_data,
{
}

/// Whether a node is a physical port: its name begins with the word for one.
pub open spec fn is_named_port(node: RegistryNode) -> bool {
    node.name is Some && "Port-"@.is_prefix_of(node.name->0@)
}

/// Whether a node is a Thunderbolt tunnel.
pub open spec fn is_named_tunnel(node: RegistryNode) -> bool {
    node.name is Some && node.name->0@ == "CIO"@
}

proof fn lemma_port(node: RegistryNode)
    ensures
        crate::macos_connection::is_port(node) <==> is_named_port(node),
        crate::macos_connection::is_tunnel(node) <==> is_named_tunnel(node),
{
    if node.name is Some {
        let name = node.name->0@;
        let word = "Port-"@;
        if name.len() >= word.len() {
            assert(name.take(word.len() as int) =~= name.subrange(0, word.len() as int));
        }
    }
}

/// On a Mac a display runs through the nearest port above it, at most four nodes
/// up, and through Thunderbolt where a tunnel stands between; the port's name and
/// transports are those of that node.
pub proof fn a_link_runs_through_the_nearest_port(
    edid: Vec<u8>,
    ancestors: Seq<RegistryNode>,
    link: Option<DisplayLink>,
    n: int,
)
    requires
        is_link(edid, ancestors, link),
        0 <= n < ancestors.len(),
        n < 4,
        is_named_port(ancestors[n]),
        forall|j: int| 0 <= j < n ==> (#[trigger] ancestors[j]).name is Some && !is_named_port(
            ancestors[j],
        ),
    ensures
        link is Some,
        link->0.edid == edid,
        Some(link->0.port_name) == ancestors[n].name,
        link->0.port_transports@ == ancestors[n].transports@,
        link->0.via_thunderbolt <==> exists|j: int|
            0 <= j < n && is_named_tunnel(#[trigger] ancestors[j]),
{
    lemma_port(ancestors[n]);
    assert forall|j: int| 0 <= j < n implies (#[trigger] ancestors[j]).name is Some
        && !crate::macos_connection::is_port(ancestors[j]) by {
        lemma_port(ancestors[j]);
    }
    assert(crate::macos_connection::port_at(ancestors, n));
    let found = link->0;
    let k = choose|k: int|
        {
            &&& #[trigger] crate::macos_connection::port_at(ancestors, k)
            &&& found.edid == edid
            &&& Some(found.port_name) == ancestors[k].name
            &&& found.via_thunderbolt == tunnelled(ancestors, k)
            &&& found.port_transports@ == ancestors[k].transports@
        };
    assert(k == n) by {
        if k < n {
            assert(!crate::macos_connection::is_port(ancestors[k]));
        } else if n < k {
            assert(!crate::macos_connection::is_port(ancestors[n]));
        }
    }
    assert forall|j: int| 0 <= j < n implies (crate::macos_connection::is_tunnel(
        #[trigger] ancestors[j],
    ) <==> is_named_tunnel(ancestors[j])) by {
        lemma_port(ancestors[j]);
    }
    if tunnelled(ancestors, n) {
        let j = choose|j: int|
            0 <= j < n && crate::macos_connection::is_tunnel(#[trigger] ancestors[j]);
        assert(is_named_tunnel(ancestors[j]));
    }
}

/// No link is made up where no port is within reach.
pub proof fn without_a_port_there_is_no_link(
    edid: Vec<u8>,
    ancestors: Seq<RegistryNode>,
    link: Option<DisplayLink>,
)
    requires
        is_link(edid, ancestors, link),
        forall|j: int| 0 <= j < ancestors.len() && j < 4 ==> !is_named_port(
            #[trigger] ancestors[j],
        ),
    ensures
        link is None,
{
    if link is Some {
        let found = link->0;
        let k = choose|k: int|
            {
                &&& #[trigger] crate::macos_connection::port_at(ancestors, k)
                &&& found.edid == edid
                &&& Some(found.port_name) == ancestors[k].name
                &&& found.via_thunderbolt == tunnelled(ancestors, k)
                &&& found.port_transports@ == ancestors[k].transports@
            };
        lemma_port(ancestors[k]);
    }
}

/// The connector is told by the word between the port's mark and its location.
pub proof fn a_port_is_told_by_its_name(kind: Seq<char>, place: Seq<char>, tunnel: bool)
    requires
        !kind.contains('@'),
    ensures
        ({
            let output = output_of("Port-"@ + kind + "@"@ + place, tunnel);
            &&& kind == "HDMI"@ ==> output == Some(HostOutput::Hdmi)
            &&& kind == "USB-C"@ ==> output == Some(
                if tunnel {
                    HostOutput::Thunderbolt
                } else {
                    HostOutput::UsbC
                },
            )
            &&& kind == "DisplayPort"@ || kind == "DP"@ ==> output == Some(
                HostOutput::DisplayPort,
            )
            &&& kind != "HDMI"@ && kind != "USB-C"@ && kind != "DisplayPort"@ && kind != "DP"@
                ==> output is None
        }),
{
    reveal_strlit("Port-");
    reveal_strlit("@");
    reveal_strlit("HDMI");
    reveal_strlit("USB-C");
    reveal_strlit("DisplayPort");
    reveal_strlit("DP");
    let word = "Port-"@;
    let name = word + kind + "@"@ + place;
    let rest = kind + "@"@ + place;
    assert(name.take(word.len() as int) =~= word);
    assert(name.skip(word.len() as int) =~= rest);
    assert forall|j: int| 0 <= j < kind.len() implies #[trigger] rest[j] != '@' by {
        assert(rest[j] == kind[j]);
    }
    assert(rest[kind.len() as int] == '@');
    lemma_first_index_is(rest, '@', kind.len() as int);
    assert(rest.take(kind.len() as int) =~= kind);
    assert("HDMI"@.len() == 4 && "USB-C"@.len() == 5 && "DisplayPort"@.len() == 11 && "DP"@.len()
        == 2);
}

/// A connection is attributed to the only link that has exactly the wanted identity:
/// with the connector that its port names, the interface that its EDID declares,
/// and whether USB data shares the port; and to none where several have it.
pub proof fn a_connection_is_of_the_only_matching_link(
    links: Seq<DisplayLink>,
    identities: Seq<Option<MonitorFingerprint>>,
    wanted: MonitorFingerprint,
    result: Option<MonitorConnection>,
    i: int,
    j: int,
)
    requires
        is_sole_connection(links, identities, wanted, result),
        identities.len() == links.len(),
        0 <= i < links.len(),
        identities[i] is Some && identities[i]->0@ == wanted@,
    ensures
        (forall|k: int|
            0 <= k < links.len() && k != i ==> (#[trigger] identities[k]) is None
                || identities[k]->0@ != wanted@) ==> {
            &&& result is Some
            &&& result->0.host_port == Some(links[i].port_name)
            &&& result->0.host_output == output_of(links[i].port_name@, links[i].via_thunderbolt)
            &&& result->0.sink_interface == interface_of(links[i].edid@)
            &&& result->0.shares_usb_data <==> views(links[i].port_transports@).contains("USB3"@)
        },
        0 <= j < links.len() && j != i && identities[j] is Some && identities[j]->0@ == wanted@
            ==> result is None,
{
    if forall|k: int|
        0 <= k < links.len() && k != i ==> (#[trigger] identities[k]) is None || identities[k]->0@
            != wanted@ {
        assert(sole_match(identities, wanted, i));
        let n = choose|n: int| #[trigger]
            sole_match(identities, wanted, n) && result->0 == links[n].connection_spec();
        if n != i {
            assert(identities[n] is None || identities[n]->0@ != wanted@);
        }
    }
    if 0 <= j < links.len() && j != i && identities[j] is Some && identities[j]->0@ == wanted@ {
        if result is Some {
            let n = choose|n: int| #[trigger]
                sole_match(identities, wanted, n) && result->0 == links[n].connection_spec();
            if n != i {
                assert(!(identities[i] matches Some(found) && found@ == wanted@));
            } else {
                assert(!(identities[j] matches Some(found) && found@ == wanted@));
            }
        }
    }
}

} // verus!
