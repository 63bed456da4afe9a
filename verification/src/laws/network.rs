//! Which hosts are found on the network, where they are reached, and how they are
//! woken.

use crate::discovery::{
    by_name, is_not_under, is_observed, lemma_comes_before_is, lowercase, named_before, others,
    sorting_by_name_keeps_every_peer, DiscoveryEvent, PeerEntry,
};
use crate::domain::{DestinationHost, DiscoveredPeer};
use crate::lists::lemma_kept_were_there;
use crate::network::{
    announced_addresses, are_properties, ascii_alphanumeric, ascii_lower, bare_end,
    friendly_name_of, is_announced_peer, is_identity_of, is_mac_mark, is_preferred, lemma_one_part,
    lemma_parts_split, mac_of, mac_parts, mac_text, names_a_peer, octet_of, plain, wake_bytes,
    Announcement, HostAddress, LocalHostIdentity,
};
use crate::text::hex_value;
use vstd::prelude::*;

verus! {

/// A wake packet is six bytes of ones and then the address sixteen times.
pub proof fn a_wake_packet_repeats_the_address(octets: Seq<u8>, r: int, j: int)
    requires
        octets.len() == 6,
        0 <= r < 16,
        0 <= j < 6,
    ensures
        wake_bytes(octets).len() == 102,
        wake_bytes(octets)[j] == 255,
        wake_bytes(octets)[6 + 6 * r + j] == octets[j],
{
    assert((6 + 6 * r + j) % 6 == j) by (nonlinear_arith)
        requires
            0 <= j < 6,
            0 <= r,
    ;
}

/// The value of a hexadecimal digit.
pub open spec fn is_digit_of(c: char, value: int) -> bool {
    ||| 0 <= value <= 9 && c as int == '0' as int + value
    ||| 10 <= value <= 15 && (c as int == 'a' as int + value - 10 || c as int == 'A' as int + value
        - 10)
}

proof fn lemma_digit(c: char, value: int)
    requires
        is_digit_of(c, value),
    ensures
        hex_value(c) == Some(value),
        c != '+',
        !is_mac_mark(c),
{
}

proof fn lemma_two_digits(text: Seq<char>, at: int, octet: u8)
    requires
        0 <= at,
        at + 2 <= text.len(),
        is_digit_of(text[at], octet as int / 16),
        is_digit_of(text[at + 1], octet as int % 16),
    ensures
        octet_of(text.subrange(at, at + 2)) == Some(octet),
        forall|i: int|
            0 <= i < 2 ==> !is_mac_mark(#[trigger] text.subrange(at, at + 2)[i]),
{
    let part = text.subrange(at, at + 2);
    lemma_digit(text[at], octet as int / 16);
    lemma_digit(text[at + 1], octet as int % 16);
    assert(part[0] == text[at] && part[1] == text[at + 1]);
    let digits = crate::network::octet_digits(part);
    assert(digits == part);
    assert(part.drop_last().drop_last().len() == 0);
    assert(part.drop_last().last() == text[at]);
    reveal_with_fuel(crate::network::hex_number, 3);
    assert(crate::network::hex_number(part) == octet as int);
    assert forall|i: int| 0 <= i < digits.len() implies hex_value(#[trigger] digits[i])
        is Some by {
        if i == 0 {
            assert(digits[0] == text[at]);
        } else {
            assert(digits[1] == text[at + 1]);
        }
    }
    assert forall|i: int| 0 <= i < 2 implies !is_mac_mark(#[trigger] part[i]) by {
        if i == 0 {
            assert(part[0] == text[at]);
        } else {
            assert(part[1] == text[at + 1]);
        }
    }
}

/// A hardware address is read digit by digit: two hexadecimal digits for each of
/// six octets, the higher first, between colons or hyphens.
pub proof fn an_address_is_read_digit_by_digit(text: Seq<char>, octets: Seq<u8>)
    requires
        text.len() == 17,
        octets.len() == 6,
        forall|i: int| 0 <= i < 6 ==> is_digit_of(text[3 * i], (#[trigger] octets[i]) as int / 16),
        forall|i: int| 0 <= i < 6 ==> is_digit_of(
            text[3 * i + 1],
            (#[trigger] octets[i]) as int % 16,
        ),
        text[2] == ':' || text[2] == '-',
        text[5] == ':' || text[5] == '-',
        text[8] == ':' || text[8] == '-',
        text[11] == ':' || text[11] == '-',
        text[14] == ':' || text[14] == '-',
    ensures
        mac_of(text) == Some(octets),
{
    let t0 = text.subrange(0, 2);
    let t1 = text.subrange(3, 5);
    let t2 = text.subrange(6, 8);
    let t3 = text.subrange(9, 11);
    let t4 = text.subrange(12, 14);
    let t5 = text.subrange(15, 17);
    assert(is_digit_of(text[3 * 0int], octets[0] as int / 16));
    assert(is_digit_of(text[3 * 1int], octets[1] as int / 16));
    assert(is_digit_of(text[3 * 2int], octets[2] as int / 16));
    assert(is_digit_of(text[3 * 3int], octets[3] as int / 16));
    assert(is_digit_of(text[3 * 4int], octets[4] as int / 16));
    assert(is_digit_of(text[3 * 5int], octets[5] as int / 16));
    lemma_two_digits(text, 0, octets[0]);
    lemma_two_digits(text, 3, octets[1]);
    lemma_two_digits(text, 6, octets[2]);
    lemma_two_digits(text, 9, octets[3]);
    lemma_two_digits(text, 12, octets[4]);
    lemma_two_digits(text, 15, octets[5]);
    lemma_one_part(t0);
    let f1 = t0.push(text[2]) + t1;
    lemma_parts_split(t0, text[2], t1);
    let f2 = f1.push(text[5]) + t2;
    lemma_parts_split(f1, text[5], t2);
    let f3 = f2.push(text[8]) + t3;
    lemma_parts_split(f2, text[8], t3);
    let f4 = f3.push(text[11]) + t4;
    lemma_parts_split(f3, text[11], t4);
    let f5 = f4.push(text[14]) + t5;
    lemma_parts_split(f4, text[14], t5);
    assert(f5 =~= text);
    let parts = mac_parts(f5);
    assert(parts =~= seq![t0, t1, t2, t3, t4, t5]);
    assert forall|i: int| 0 <= i < 6 implies octet_of(#[trigger] parts[i]) == Some(octets[i]) by {}
    assert(Seq::new(6, |i: int| octet_of(parts[i])->0) =~= octets);
}

/// A hardware address is printed digit by digit, in upper case between colons.
pub proof fn an_address_is_printed_digit_by_digit(octets: Seq<u8>, i: int)
    requires
        octets.len() == 6,
        0 <= i < 6,
    ensures
        mac_text(octets).len() == 17,
        is_digit_of(mac_text(octets)[3 * i], octets[i] as int / 16),
        is_digit_of(mac_text(octets)[3 * i + 1], octets[i] as int % 16),
        i < 5 ==> mac_text(octets)[3 * i + 2] == ':',
{
    let digits = crate::text::upper_digits();
    assert forall|n: int| 0 <= n < 16 implies is_digit_of(#[trigger] digits[n], n) by {}
    assert(is_digit_of(digits[octets[i] as int / 16], octets[i] as int / 16));
    assert(is_digit_of(digits[octets[i] as int % 16], octets[i] as int % 16));
}

/// Whether an address is one of a private network.
pub open spec fn is_private(address: HostAddress) -> bool {
    address matches HostAddress::V4(octets) && (octets@[0] == 10 || (octets@[0] == 172 && 16
        <= octets@[1] <= 31) || (octets@[0] == 192 && octets@[1] == 168))
}

/// Whether an address is this computer's own.
pub open spec fn is_own_address(address: HostAddress) -> bool {
    match address {
        HostAddress::V4(octets) => octets@[0] == 127,
        HostAddress::V6(groups) => groups@ =~= seq![0u16, 0, 0, 0, 0, 0, 0, 1],
    }
}

/// The address to reach a host at is never this computer's own; it is one of a
/// private network where there is one, and else not of version 6 where there is
/// one of version 4.
pub proof fn a_host_is_reached_on_the_local_network(
    addresses: Seq<HostAddress>,
    i: int,
    j: int,
)
    requires
        is_preferred(addresses, i),
        0 <= j < addresses.len(),
        !is_own_address(addresses[j]),
    ensures
        !is_own_address(addresses[i]),
        is_private(addresses[j]) ==> is_private(addresses[i]),
        addresses[j] is V4 ==> addresses[i] is V4,
{
    assert(addresses[j].loopback() ==> is_own_address(addresses[j]));
    assert(is_own_address(addresses[i]) ==> addresses[i].loopback()) by {
        if let HostAddress::V6(groups) = addresses[i] {
            if is_own_address(addresses[i]) {
                let own = seq![0u16, 0, 0, 0, 0, 0, 0, 1];
                assert(groups@ == own);
                assert(groups@[7] == 1);
                assert forall|k: int| 0 <= k < 7 implies #[trigger] groups@[k] == 0 by {
                    assert(own[k] == 0);
                }
            }
        }
    }
}

/// Whether a host was found as an announcement names it.
pub open spec fn is_found_as(peer: DiscoveredPeer, announcement: Announcement) -> bool {
    &&& announcement.platform is Some
    &&& announcement.platform->0@ == match peer.platform {
        DestinationHost::Windows => "windows"@,
        DestinationHost::Mac => "mac"@,
    }
    &&& peer.port == announcement.port
    &&& announcement.name is Some ==> peer.name@ == announcement.name->0@
    &&& announcement.id is Some ==> peer.id@ == announcement.id->0@
    &&& announcement.id is None ==> peer.id@ == announcement.fullname@
    &&& exists|i: int|
        {
            &&& 0 <= i < announcement.addresses@.len()
            &&& peer.address@ == (#[trigger] announcement.addresses@[i]).text@
            &&& !is_own_address(announcement.addresses@[i].address)
        }
    &&& announcement.mac is None ==> peer.mac_address is None
    &&& announcement.mac is Some && mac_of(announcement.mac->0@) is None ==> peer.mac_address
        is None
    &&& announcement.mac is Some && mac_of(announcement.mac->0@) is Some ==> peer.mac_address
        is Some && mac_of(peer.mac_address->0@) == mac_of(announcement.mac->0@)
}

/// A host that is found is the one that was announced.
pub proof fn a_found_host_is_the_announced_one(announcement: Announcement, peer: DiscoveredPeer)
    requires
        is_announced_peer(announcement, peer),
    ensures
        is_found_as(peer, announcement),
{
    let known = announced_addresses(announcement);
    let i = choose|i: int|
        #[trigger] is_preferred(known, i) && peer.address == announcement.addresses@[i].text;
    assert(known[i] == announcement.addresses@[i].address);
    lemma_not_own(known, i);
    if announcement.mac is Some && mac_of(announcement.mac->0@) is Some {
        crate::network::mac_round_trip(mac_of(announcement.mac->0@)->0);
    }
}

proof fn lemma_not_own(addresses: Seq<HostAddress>, i: int)
    requires
        is_preferred(addresses, i),
    ensures
        !is_own_address(addresses[i]),
{
    if is_own_address(addresses[i]) {
        if let HostAddress::V6(groups) = addresses[i] {
            let own = seq![0u16, 0, 0, 0, 0, 0, 0, 1];
            assert(groups@ == own);
            assert(groups@[7] == 1);
            assert forall|k: int| 0 <= k < 7 implies #[trigger] groups@[k] == 0 by {
                assert(own[k] == 0);
            }
        }
    }
}

proof fn lemma_others(before: Seq<PeerEntry>, fullname: Seq<char>, k: int)
    ensures
        ({
            let kept = others(before, fullname);
            &&& forall|i: int|
                0 <= i < kept.len() ==> (#[trigger] kept[i]).fullname@ != fullname
                    && before.contains(kept[i])
            &&& 0 <= k < before.len() && before[k].fullname@ != fullname ==> kept.contains(
                before[k],
            )
        }),
{
    let keep = is_not_under(fullname);
    let kept = others(before, fullname);
    lemma_kept_were_there(before, keep);
    assert forall|i: int| 0 <= i < kept.len() implies (#[trigger] kept[i]).fullname@ != fullname
        && before.contains(kept[i]) by {
        assert(keep(before.filter(keep)[i]));
    }
    if 0 <= k < before.len() && before[k].fullname@ != fullname {
        before.lemma_filter_contains(keep, k);
    }
}

/// A resolved service puts its host, as announced, in the place of what was found
/// under its name; a removed one takes its host away; every other host stays.
pub proof fn the_hosts_found_follow_what_is_announced(
    before: Seq<PeerEntry>,
    event: DiscoveryEvent,
    local_id: Seq<char>,
    after: Seq<PeerEntry>,
    k: int,
)
    requires
        is_observed(before, event, local_id, after),
    ensures
        event matches DiscoveryEvent::Removed(fullname) ==> {
            &&& forall|i: int|
                0 <= i < after.len() ==> (#[trigger] after[i]).fullname@ != fullname@
            &&& 0 <= k < before.len() && before[k].fullname@ != fullname@ ==> after.contains(
                before[k],
            )
            &&& forall|i: int| 0 <= i < after.len() ==> before.contains(#[trigger] after[i])
        },
        event matches DiscoveryEvent::Resolved(announcement) ==> {
            let id = match announcement.id {
                Some(given) => given@,
                None => announcement.fullname@,
            };
            &&& id == local_id ==> after == before
            &&& id != local_id && names_a_peer(announcement) ==> {
                &&& after.len() > 0
                &&& after.last().fullname@ == announcement.fullname@
                &&& is_found_as(after.last().peer, announcement)
                &&& 0 <= k < before.len() && before[k].fullname@ != announcement.fullname@
                    ==> after.contains(before[k])
                &&& forall|i: int|
                    0 <= i < after.len() - 1 ==> (#[trigger] after[i]).fullname@
                        != announcement.fullname@ && before.contains(after[i])
            }
            &&& !names_a_peer(announcement) ==> after == before
        },
{
    let fullname = match event {
        DiscoveryEvent::Removed(name) => name@,
        DiscoveryEvent::Resolved(announcement) => announcement.fullname@,
    };
    let kept = others(before, fullname);
    lemma_others(before, fullname, k);
    if let DiscoveryEvent::Resolved(announcement) = event {
        if names_a_peer(announcement) && crate::discovery::announced_id(announcement)
            != local_id {
            let entry = choose|entry: PeerEntry|
                {
                    &&& #[trigger] is_announced_peer(announcement, entry.peer)
                    &&& entry.fullname == announcement.fullname
                    &&& after == others(before, entry.fullname@).push(entry)
                };
            a_found_host_is_the_announced_one(announcement, entry.peer);
            assert(after.drop_last() =~= kept);
            if 0 <= k < before.len() && before[k].fullname@ != fullname {
                let n = choose|n: int| 0 <= n < kept.len() && kept[n] == before[k];
                assert(after[n] == kept[n]);
            }
            assert forall|i: int| 0 <= i < after.len() - 1 implies (#[trigger] after[i]).fullname@
                != announcement.fullname@ && before.contains(after[i]) by {
                assert(after[i] == kept[i]);
            }
        }
    }
}

/// Whether two texts agree up to `n`, where the first ends or has the smaller
/// character.
pub open spec fn is_smaller_at(a: Seq<char>, b: Seq<char>, n: int) -> bool {
    &&& 0 <= n <= a.len()
    &&& n < b.len()
    &&& forall|j: int| 0 <= j < n ==> #[trigger] a[j] == b[j]
    &&& n == a.len() || a[n] < b[n]
}

/// Hosts that were found are shown by name: one whose name, in lower case, is
/// smaller does not come behind, and all of them are shown.
pub proof fn found_hosts_are_shown_by_name(
    peers: Seq<DiscoveredPeer>,
    x: int,
    y: int,
    n: int,
    k: int,
)
    ensures
        by_name(peers).len() == peers.len(),
        0 <= x < peers.len() && 0 <= y < peers.len() && is_smaller_at(
            lowercase(by_name(peers)[x].name@),
            lowercase(by_name(peers)[y].name@),
            n,
        ) ==> x < y,
        0 <= k < peers.len() ==> by_name(peers).contains(peers[k]),
{
    broadcast use vstd::seq_lib::group_to_multiset_ensures;

    sorting_by_name_keeps_every_peer(peers);
    let sorted = by_name(peers);
    assert(sorted.len() == sorted.to_multiset().len());
    if 0 <= x < peers.len() && 0 <= y < peers.len() {
        let a = lowercase(sorted[x].name@);
        let b = lowercase(sorted[y].name@);
        if is_smaller_at(a, b, n) {
            lemma_comes_before_is(a, b, n);
            if y < x {
                assert(!named_before(sorted[x], sorted[y]));
            }
        }
    }
    if 0 <= k < peers.len() {
        assert(peers.to_multiset().count(peers[k]) > 0);
    }
}

/// Whether a host announces something under a key.
pub open spec fn has_property(
    properties: Seq<(String, String)>,
    key: Seq<char>,
    value: Seq<char>,
) -> bool {
    exists|i: int|
        0 <= i < properties.len() && (#[trigger] properties[i]).0@ == key && properties[i].1@
            == value
}

/// Whether an announcement carries what a host announces of itself.
pub open spec fn carries(announcement: Announcement, properties: Seq<(String, String)>) -> bool {
    &&& announcement.id is Some && has_property(properties, "id"@, announcement.id->0@)
    &&& announcement.name is Some && has_property(properties, "name"@, announcement.name->0@)
    &&& announcement.platform is Some && has_property(
        properties,
        "platform"@,
        announcement.platform->0@,
    )
    &&& announcement.mac is Some ==> has_property(properties, "mac"@, announcement.mac->0@)
    &&& announcement.mac is None ==> forall|value: Seq<char>|
        !#[trigger] has_property(properties, "mac"@, value)
}

proof fn lemma_properties(
    identity: LocalHostIdentity,
    version: Seq<char>,
    properties: Seq<(String, String)>,
    value: Seq<char>,
)
    requires
        are_properties(identity, version, properties),
    ensures
        has_property(properties, "id"@, value) ==> value == identity.id@,
        has_property(properties, "name"@, value) ==> value == identity.name@,
        has_property(properties, "platform"@, value) ==> value == match identity.platform {
            DestinationHost::Windows => "windows"@,
            DestinationHost::Mac => "mac"@,
        },
        has_property(properties, "mac"@, value) ==> identity.mac_address is Some && value
            == identity.mac_address->0@,
        identity.mac_address is Some ==> has_property(
            properties,
            "mac"@,
            identity.mac_address->0@,
        ),
{
    reveal_strlit("id");
    reveal_strlit("name");
    reveal_strlit("platform");
    reveal_strlit("version");
    reveal_strlit("mac");
    lemma_property(properties, "id"@, value, 0);
    lemma_property(properties, "name"@, value, 1);
    lemma_property(properties, "platform"@, value, 2);
    lemma_property(properties, "mac"@, value, 4);
    if identity.mac_address is Some {
        assert(properties[4].0@ == "mac"@);
    }
}

proof fn lemma_property(
    properties: Seq<(String, String)>,
    key: Seq<char>,
    value: Seq<char>,
    n: int,
)
    requires
        properties.len() <= 5,
        0 <= n < 5,
        forall|i: int|
            0 <= i < properties.len() && i != n ==> (#[trigger] properties[i]).0@.len()
                != key.len(),
    ensures
        has_property(properties, key, value) ==> n < properties.len() && properties[n].1@ == value,
{
    if has_property(properties, key, value) {
        let i = choose|i: int|
            0 <= i < properties.len() && (#[trigger] properties[i]).0@ == key && properties[i].1@
                == value;
        assert(i == n);
    }
}

/// What a host announces of itself is what others find it as: by its id and name,
/// on its platform, and with its hardware address where that is one.
pub proof fn a_host_is_found_as_it_announces_itself(
    identity: LocalHostIdentity,
    version: Seq<char>,
    properties: Seq<(String, String)>,
    announcement: Announcement,
    peer: DiscoveredPeer,
)
    requires
        are_properties(identity, version, properties),
        carries(announcement, properties),
        is_announced_peer(announcement, peer),
    ensures
        peer.id@ == identity.id@,
        peer.name@ == identity.name@,
        peer.platform == identity.platform,
        identity.mac_address is Some && mac_of(identity.mac_address->0@) is Some
            ==> peer.mac_address is Some && mac_of(peer.mac_address->0@) == mac_of(
            identity.mac_address->0@,
        ),
        identity.mac_address is None ==> peer.mac_address is None,
{
    a_found_host_is_the_announced_one(announcement, peer);
    lemma_properties(identity, version, properties, announcement.id->0@);
    lemma_properties(identity, version, properties, announcement.name->0@);
    lemma_properties(identity, version, properties, announcement.platform->0@);
    reveal_strlit("windows");
    reveal_strlit("mac");
    assert("windows"@.len() == 7 && "mac"@.len() == 3);
    if announcement.mac is Some {
        lemma_properties(identity, version, properties, announcement.mac->0@);
    } else if identity.mac_address is Some {
        assert(has_property(properties, "mac"@, identity.mac_address->0@));
    }
}

/// The id that a host is given is made of letters in lower case, digits and one
/// hyphen before its platform, so paired hosts take it over; and it is told by the
/// hardware address alone where that is known.
pub proof fn a_host_id_is_plain(
    identity: LocalHostIdentity,
    host_name: Seq<char>,
    platform: DestinationHost,
    mac_address: Option<String>,
    i: int,
)
    requires
        is_identity_of(identity, host_name, platform, mac_address),
        0 <= i < identity.id@.len(),
    ensures
        'a' <= identity.id@[i] <= 'z' || '0' <= identity.id@[i] <= '9' || identity.id@[i] == '-',
        identity.platform == platform,
        identity.mac_address == mac_address,
{
    reveal_strlit("-");
    reveal_strlit("windows");
    reveal_strlit("mac");
    let source = match mac_address {
        Some(mac) => mac@,
        None => friendly_name_of(host_name),
    };
    lemma_plain(source);
    let head = plain(source);
    let end = match platform {
        DestinationHost::Windows => "windows"@,
        DestinationHost::Mac => "mac"@,
    };
    assert(identity.id@ =~= head + "-"@ + end);
    if i < head.len() {
        assert(identity.id@[i] == head[i]);
    } else if i == head.len() {
        assert(identity.id@[i] == "-"@[0]);
    } else {
        assert(identity.id@[i] == end[i - head.len() - 1]);
    }
}

proof fn lemma_plain(text: Seq<char>)
    ensures
        forall|i: int|
            0 <= i < plain(text).len() ==> 'a' <= (#[trigger] plain(text)[i]) <= 'z' || '0'
                <= plain(text)[i] <= '9',
    decreases text.len(),
{
    if text.len() > 0 {
        lemma_plain(text.drop_last());
        let c = text.last();
        let before = plain(text.drop_last());
        let after = plain(text);
        if ascii_alphanumeric(c) {
            let lower = ascii_lower(c);
            assert('a' <= lower <= 'z' || '0' <= lower <= '9') by {
                if 'A' <= c <= 'Z' {
                    let code = c as u32;
                    assert(65 <= code <= 90);
                    assert((code + 32) as u8 == code + 32);
                }
            }
            assert(after == before.push(lower));
            assert forall|i: int| 0 <= i < after.len() implies 'a' <= (#[trigger] after[i]) <= 'z'
                || '0' <= after[i] <= '9' by {
                if i < before.len() {
                    assert(after[i] == before[i]);
                }
            }
        }
    }
}

/// A host that announces no name is called by its host name without the dots at
/// its end.
pub proof fn a_nameless_host_is_called_by_its_host_name(
    announcement: Announcement,
    peer: DiscoveredPeer,
    i: int,
)
    requires
        is_announced_peer(announcement, peer),
        announcement.name is None,
    ensures
        peer.name@.is_prefix_of(announcement.host_name@),
        peer.name@.len() <= i < announcement.host_name@.len() ==> announcement.host_name@[i] == '.',
        peer.name@.len() > 0 ==> peer.name@.last() != '.',
{
    lemma_without_dots(announcement.host_name@);
}

proof fn lemma_without_dots(text: Seq<char>)
    ensures
        bare_end(text, '.').is_prefix_of(text),
        forall|i: int|
            bare_end(text, '.').len() <= i < text.len() ==> #[trigger] text[i] == '.',
        bare_end(text, '.').len() > 0 ==> bare_end(text, '.').last() != '.',
    decreases text.len(),
{
    if text.len() > 0 && text.last() == '.' {
        let front = text.drop_last();
        lemma_without_dots(front);
        let bare = bare_end(front, '.');
        assert(bare =~= text.subrange(0, bare.len() as int));
        assert forall|i: int| bare.len() <= i < text.len() implies #[trigger] text[i] == '.' by {
            if i < front.len() {
                assert(front[i] == '.');
            }
        }
    } else {
        assert(text.subrange(0, text.len() as int) =~= text);
    }
}

} // verus!
