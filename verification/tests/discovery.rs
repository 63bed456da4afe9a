use displaymux::discovery::{is_before, DiscoveryEvent, PeerTable};
use displaymux::domain::DestinationHost;
use displaymux::error::DisplayMuxError;
use displaymux::macos_connection::{link_from_ancestors, node_label, RegistryNode};
use displaymux::network::{
    dns_label, discovered_peer, friendly_name, peer_id, platform_name, preferred_address,
    AnnouncedAddress, Announcement, HostAddress, LocalHostIdentity, MacAddress,
};

fn announcement(id: &str, name: &str) -> Announcement {
    Announcement {
        fullname: format!("{name}._displaymux._tcp.local."),
        host_name: format!("{name}.local.."),
        port: 47_653,
        addresses: vec![
            AnnouncedAddress {
                address: HostAddress::V6([0, 0, 0, 0, 0, 0, 0, 1]),
                text: "::1".to_owned(),
            },
            AnnouncedAddress {
                address: HostAddress::V4([8, 8, 8, 8]),
                text: "8.8.8.8".to_owned(),
            },
            AnnouncedAddress {
                address: HostAddress::V4([172, 31, 0, 9]),
                text: "172.31.0.9".to_owned(),
            },
            AnnouncedAddress {
                address: HostAddress::V4([10, 0, 0, 1]),
                text: "10.0.0.1".to_owned(),
            },
        ],
        platform: Some("mac".to_owned()),
        name: Some(name.to_owned()),
        id: Some(id.to_owned()),
        mac: Some("aa-bb-cc-dd-ee-0f".to_owned()),
    }
}

#[test]
fn an_announcement_names_a_peer_by_its_best_address() {
    let peer = discovered_peer(&announcement("id-1", "Studio")).unwrap();
    assert_eq!(peer.id, "id-1");
    assert_eq!(peer.name, "Studio");
    assert_eq!(peer.platform, DestinationHost::Mac);
    assert_eq!(peer.address, "172.31.0.9");
    assert_eq!(peer.port, 47_653);
    assert_eq!(peer.mac_address.as_deref(), Some("AA:BB:CC:DD:EE:0F"));
}

#[test]
fn an_announcement_without_id_or_name_falls_back() {
    let mut found = announcement("id", "Studio");
    found.id = None;
    found.name = None;
    found.mac = Some("no address".to_owned());
    found.platform = Some("windows".to_owned());
    let peer = discovered_peer(&found).unwrap();
    assert_eq!(peer.id, "Studio._displaymux._tcp.local.");
    assert_eq!(peer.name, "Studio.local");
    assert_eq!(peer.platform, DestinationHost::Windows);
    assert_eq!(peer.mac_address, None);
}

#[test]
fn an_announcement_without_platform_or_address_names_nobody() {
    let mut no_platform = announcement("id", "Studio");
    no_platform.platform = None;
    assert_eq!(discovered_peer(&no_platform), None);
    let mut linux = announcement("id", "Studio");
    linux.platform = Some("linux".to_owned());
    assert_eq!(discovered_peer(&linux), None);
    let mut only_loopback = announcement("id", "Studio");
    only_loopback.addresses.truncate(1);
    assert_eq!(discovered_peer(&only_loopback), None);
}

#[test]
fn addresses_are_preferred_by_kind_and_then_by_place() {
    let public = HostAddress::V4([8, 8, 8, 8]);
    let private = HostAddress::V4([192, 168, 0, 2]);
    let six = HostAddress::V6([0x2001, 0xdb8, 0, 0, 0, 0, 0, 1]);
    assert_eq!(preferred_address(&[six, public, private, private]), Some(2));
    assert_eq!(preferred_address(&[six, public]), Some(1));
    assert_eq!(preferred_address(&[six, six]), Some(0));
    assert_eq!(preferred_address(&[HostAddress::V4([127, 3, 2, 1])]), None);
    assert_eq!(
        preferred_address(&[HostAddress::V4([172, 32, 0, 1]), HostAddress::V4([172, 16, 0, 1])]),
        Some(1)
    );
}

#[test]
fn announced_hosts_come_and_go_and_this_computer_is_never_listed() {
    let mut table = PeerTable::new();
    table.observe(DiscoveryEvent::Resolved(announcement("me", "This")), "me");
    assert!(table.entries.is_empty());
    table.observe(DiscoveryEvent::Resolved(announcement("b", "beta")), "me");
    table.observe(DiscoveryEvent::Resolved(announcement("z", "Zeta")), "me");
    table.observe(DiscoveryEvent::Resolved(announcement("a", "Alpha")), "me");
    let mut moved = announcement("b", "beta");
    moved.port = 1;
    table.observe(DiscoveryEvent::Resolved(moved), "me");
    let names: Vec<String> = table.peers().into_iter().map(|peer| peer.name).collect();
    assert_eq!(names, vec!["Alpha", "beta", "Zeta"]);
    assert_eq!(table.peers()[1].port, 1);
    table.observe(
        DiscoveryEvent::Removed("Alpha._displaymux._tcp.local.".to_owned()),
        "me",
    );
    table.observe(DiscoveryEvent::Removed("unknown".to_owned()), "me");
    assert_eq!(table.peers().len(), 2);
}

#[test]
fn peers_are_sorted_by_lower_case_names() {
    let mut table = PeerTable::new();
    for name in ["Zoe", "ÄRGER", "anna", "ärger", "Bob"] {
        table.observe(DiscoveryEvent::Resolved(announcement(name, name)), "me");
    }
    let names: Vec<String> = table.peers().into_iter().map(|peer| peer.name).collect();
    assert_eq!(names, vec!["anna", "Bob", "Zoe", "ÄRGER", "ärger"]);
    assert!(is_before("a", "ab"));
    assert!(!is_before("b", "ab"));
    assert!(!is_before("a", "a"));
}

#[test]
fn a_host_announces_its_identity() {
    let identity = LocalHostIdentity::from_parts(
        "  Henry's Mac.local ",
        DestinationHost::Mac,
        Some("AA:BB:CC:DD:EE:FF".to_owned()),
    );
    assert_eq!(identity.id, "aabbccddeeff-mac");
    assert_eq!(identity.name, "Henry's Mac.local");
    assert_eq!(identity.dns_host_name(), "henry-s-mac.local.");
    let properties = identity.properties("1.2.3");
    assert_eq!(properties.len(), 5);
    assert_eq!(properties[3], ("version".to_owned(), "1.2.3".to_owned()));
    assert_eq!(
        properties[4],
        ("mac".to_owned(), "AA:BB:CC:DD:EE:FF".to_owned())
    );
    let kept = LocalHostIdentity::with_id(
        "kept".to_owned(),
        identity.name,
        identity.platform,
        None,
    );
    assert_eq!(kept.id, "kept");
    assert_eq!(kept.properties("1").len(), 4);
}

#[test]
fn nameless_hosts_get_default_names() {
    assert_eq!(friendly_name("   "), "DisplayMux");
    assert_eq!(dns_label("---"), "displaymux");
    assert_eq!(dns_label("Büro.example"), "b-ro");
    assert_eq!(peer_id("My Host", platform_name(DestinationHost::Windows), None), "myhost-windows");
}

#[test]
fn mac_addresses_round_trip_and_follow_the_number_grammar() {
    let mac = MacAddress::parse("01:23:45:67:89:ab").unwrap();
    assert_eq!(mac.octets(), [1, 0x23, 0x45, 0x67, 0x89, 0xab]);
    assert_eq!(mac.to_string(), "01:23:45:67:89:AB");
    assert_eq!(MacAddress::parse(&mac.to_string()), Ok(mac));
    assert_eq!(MacAddress::parse("1:2-3:4-5:+6").unwrap().octets(), [1, 2, 3, 4, 5, 6]);
    assert_eq!(
        MacAddress::parse("0000ff:0:0:0:0:0").unwrap().octets(),
        [0xff, 0, 0, 0, 0, 0]
    );
    for text in ["", "1:2:3:4:5", "1:2:3:4:5:6:7", "1:2:3:4:5:100", "1:2:3:4:5:", "1:2:3:4:5:g", "1:2:3:4:5:+"] {
        assert_eq!(
            MacAddress::parse(text),
            Err(DisplayMuxError::InvalidMacAddress(text.to_owned())),
            "{text}"
        );
    }
}

fn node(name: Option<&str>) -> RegistryNode {
    RegistryNode {
        name: name.map(str::to_owned),
        transports: vec!["USB3".to_owned()],
    }
}

#[test]
fn a_link_is_found_at_the_first_port_within_reach() {
    let link = link_from_ancestors(
        vec![1, 2],
        &[node(Some("Other")), node(Some("CIO")), node(Some("Port-USB-C@1")), node(Some("Port-HDMI@1"))],
    )
    .unwrap();
    assert_eq!(link.port_name, "Port-USB-C@1");
    assert!(link.via_thunderbolt);
    assert_eq!(link.edid, vec![1, 2]);
    assert_eq!(link.port_transports, vec!["USB3"]);

    let direct = link_from_ancestors(Vec::new(), &[node(Some("Port-HDMI@1"))]).unwrap();
    assert!(!direct.via_thunderbolt);
    assert_eq!(link_from_ancestors(Vec::new(), &[]), None);
    assert_eq!(
        link_from_ancestors(Vec::new(), &[node(None), node(Some("Port-HDMI@1"))]),
        None
    );
    let far: Vec<RegistryNode> = (0..4)
        .map(|_| node(Some("Other")))
        .chain([node(Some("Port-HDMI@1"))])
        .collect();
    assert_eq!(link_from_ancestors(Vec::new(), &far), None);
}

#[test]
fn registry_nodes_are_labelled_with_their_location() {
    assert_eq!(node_label("Port-USB-C", Some("2")), "Port-USB-C@2");
    assert_eq!(node_label("CIO", Some("")), "CIO");
    assert_eq!(node_label("CIO", None), "CIO");
}
