//! Finding and waking hosts: MAC addresses, wake-on-LAN packets, and what a
//! host announces of itself on the local network.

use crate::domain::{DestinationHost, DiscoveredPeer};
use crate::error::DisplayMuxError;
use crate::text::{
    chars_of, cut, cut_at, hex_digit_value, hex_value, join2, join3, same_text, text_between,
    text_of, trim, trimmed, upper_digit, upper_digits,
};
use vstd::prelude::*;

verus! {

/// The service that hosts announce.
pub const DISPLAYMUX_SERVICE_TYPE: &'static str = "_displaymux._tcp.local.";

#[derive(Clone, Copy, Debug, PartialEq, Eq)]
pub struct MacAddress {
    pub bytes: [u8; 6],
}

/// Whether a character separates the octets of a MAC address.
pub open spec fn is_mac_mark(c: char) -> bool {
    c == ':' || c == '-'
}

/// A text cut at every separator.
pub open spec fn mac_parts(text: Seq<char>) -> Seq<Seq<char>>
    decreases text.len(),
{
    if text.len() == 0 {
        seq![Seq::empty()]
    } else {
        let parts = mac_parts(text.drop_last());
        if is_mac_mark(text.last()) {
            parts.push(Seq::empty())
        } else {
            parts.drop_last().push(parts.last().push(text.last()))
        }
    }
}

/// The number that hexadecimal digits give.
pub open spec fn hex_number(digits: Seq<char>) -> int
    decreases digits.len(),
{
    if digits.len() == 0 {
        0
    } else {
        16 * hex_number(digits.drop_last()) + hex_value(digits.last())->0
    }
}

/// The digits of an octet: a plus sign may stand before them.
pub open spec fn octet_digits(part: Seq<char>) -> Seq<char> {
    if part.len() > 0 && part[0] == '+' {
        part.drop_first()
    } else {
        part
    }
}

/// The octet that a part gives: one or more hexadecimal digits of a value below
/// 256.
pub open spec fn octet_of(part: Seq<char>) -> Option<u8> {
    let digits = octet_digits(part);
    if digits.len() > 0 && (forall|i: int|
        0 <= i < digits.len() ==> hex_value(#[trigger] digits[i]) is Some) && hex_number(digits)
        <= 255 {
        Some(hex_number(digits) as u8)
    } else {
        None
    }
}

/// The address that a text gives: six octets between separators.
pub open spec fn mac_of(text: Seq<char>) -> Option<Seq<u8>> {
    let parts = mac_parts(text);
    if parts.len() == 6 && forall|i: int| 0 <= i < 6 ==> octet_of(#[trigger] parts[i]) is Some {
        Some(Seq::new(6, |i: int| octet_of(parts[i])->0))
    } else {
        None
    }
}

proof fn lemma_hex_number_grows(digits: Seq<char>, n: int)
    requires
        0 <= n <= digits.len(),
        forall|i: int| 0 <= i < digits.len() ==> hex_value(#[trigger] digits[i]) is Some,
    ensures
        0 <= hex_number(digits.take(n)) <= hex_number(digits),
    decreases digits.len(),
{
    if digits.len() == 0 {
        assert(digits.take(n) =~= digits);
    } else if n == digits.len() {
        assert(digits.take(n) =~= digits);
        assert(digits.drop_last().take(n - 1) =~= digits.drop_last());
        lemma_hex_number_grows(digits.drop_last(), n - 1);
        assert(hex_value(digits[n - 1]) is Some);
    } else {
        assert(digits.take(n) =~= digits.drop_last().take(n));
        lemma_hex_number_grows(digits.drop_last(), n);
        assert(hex_value(digits[digits.len() - 1]) is Some);
    }
}

/// The octet that `chars[start..end]` gives.
fn parse_octet(chars: &Vec<char>, start: usize, end: usize) -> (octet: Option<u8>)
    requires
        start <= end <= chars@.len(),
    ensures
        octet == octet_of(chars@.subrange(start as int, end as int)),
{
    let ghost part = chars@.subrange(start as int, end as int);
    let ghost digits = octet_digits(part);
    let first: usize = if start < end && chars[start] == '+' {
        start + 1
    } else {
        start
    };
    assert(digits =~= chars@.subrange(first as int, end as int));
    if first == end {
        return None;
    }
    let mut value: u32 = 0;
    let mut i: usize = first;
    let mut too_large: bool = false;
    while i < end
        invariant
            first <= i <= end <= chars@.len(),
            digits == chars@.subrange(first as int, end as int),
            digits == octet_digits(chars@.subrange(start as int, end as int)),
            forall|j: int| 0 <= j < i - first ==> hex_value(#[trigger] digits[j]) is Some,
            !too_large ==> value == hex_number(digits.take(i - first)) && value <= 255,
            too_large ==> exists|n: int|
                0 <= n <= i - first && hex_number(#[trigger] digits.take(n)) > 255,
        decreases end - i,
    {
        assert(digits[i - first] == chars@[i as int]);
        match hex_digit_value(chars[i]) {
            None => {
                assert(hex_value(digits[i - first]) is None);
                return None;
            },
            Some(digit) => {
                let ghost before = digits.take(i - first);
                let ghost after = digits.take(i - first + 1);
                assert(after.drop_last() =~= before);
                assert(after.last() == digits[i - first]);
                if !too_large {
                    value = 16 * value + digit as u32;
                    assert(hex_number(after) == value);
                    if value > 255 {
                        too_large = true;
                    }
                }
            },
        }
        i += 1;
    }
    assert(digits.take(end - first) =~= digits);
    if too_large {
        proof {
            let n = choose|n: int| 0 <= n <= i - first && hex_number(#[trigger] digits.take(n)) > 255;
            lemma_hex_number_grows(digits, n);
        }
        None
    } else {
        Some(value as u8)
    }
}

/// A text that has no separator is one part.
pub(crate) proof fn lemma_one_part(text: Seq<char>)
    requires
        forall|i: int| 0 <= i < text.len() ==> !is_mac_mark(#[trigger] text[i]),
    ensures
        mac_parts(text) == seq![text],
    decreases text.len(),
{
    if text.len() > 0 {
        lemma_one_part(text.drop_last());
        assert(!is_mac_mark(text[text.len() - 1]));
        assert(text.drop_last().push(text.last()) =~= text);
        assert(mac_parts(text) =~= seq![text]);
    } else {
        assert(text =~= Seq::empty());
    }
}

/// Cutting before and after a separator.
pub(crate) proof fn lemma_parts_split(front: Seq<char>, mark: char, last: Seq<char>)
    requires
        is_mac_mark(mark),
        forall|i: int| 0 <= i < last.len() ==> !is_mac_mark(#[trigger] last[i]),
    ensures
        mac_parts(front.push(mark) + last) == mac_parts(front).push(last),
    decreases last.len(),
{
    let whole = front.push(mark) + last;
    if last.len() == 0 {
        assert(whole =~= front.push(mark));
        assert(whole.drop_last() =~= front);
        assert(last =~= Seq::empty());
    } else {
        lemma_parts_split(front, mark, last.drop_last());
        assert(!is_mac_mark(last[last.len() - 1]));
        assert(whole.drop_last() =~= front.push(mark) + last.drop_last());
        assert(last.drop_last().push(last.last()) =~= last);
        assert(mac_parts(whole) =~= mac_parts(front).push(last));
    }
}

proof fn lemma_parts_nonempty(text: Seq<char>)
    ensures
        mac_parts(text).len() > 0,
    decreases text.len(),
{
    if text.len() > 0 {
        lemma_parts_nonempty(text.drop_last());
    }
}

/// An octet in two upper-case hexadecimal digits.
pub open spec fn octet_text(octet: u8) -> Seq<char> {
    seq![upper_digits()[octet as int / 16], upper_digits()[octet as int % 16]]
}

/// Six octets between colons.
pub open spec fn mac_text(octets: Seq<u8>) -> Seq<char> {
    octet_text(octets[0]).push(':') + octet_text(octets[1]).push(':') + octet_text(octets[2]).push(
        ':',
    ) + octet_text(octets[3]).push(':') + octet_text(octets[4]).push(':') + octet_text(octets[5])
}

proof fn lemma_octet_round_trip(octet: u8)
    ensures
        octet_of(octet_text(octet)) == Some(octet),
        forall|i: int| 0 <= i < octet_text(octet).len() ==> !is_mac_mark(#[trigger] octet_text(octet)[i]),
{
    let text = octet_text(octet);
    let high = octet as int / 16;
    let low = octet as int % 16;
    assert(hex_value(upper_digits()[high]) == Some(high));
    assert(hex_value(upper_digits()[low]) == Some(low));
    assert(text.drop_last() =~= seq![upper_digits()[high]]);
    assert(text.drop_last().drop_last() =~= Seq::empty());
    reveal_with_fuel(hex_number, 3);
    assert(hex_number(text.drop_last()) == high);
    assert(hex_number(text) == 16 * high + low);
    assert(text[0] != '+');
    assert(octet_digits(text) == text);
    assert forall|i: int| 0 <= i < text.len() implies hex_value(#[trigger] text[i]) is Some by {}
}

/// Reading a printed address gives the same address.
pub proof fn mac_round_trip(octets: Seq<u8>)
    requires
        octets.len() == 6,
    ensures
        mac_of(mac_text(octets)) == Some(octets),
{
    let t0 = octet_text(octets[0]);
    let t1 = octet_text(octets[1]);
    let t2 = octet_text(octets[2]);
    let t3 = octet_text(octets[3]);
    let t4 = octet_text(octets[4]);
    let t5 = octet_text(octets[5]);
    lemma_octet_round_trip(octets[0]);
    lemma_octet_round_trip(octets[1]);
    lemma_octet_round_trip(octets[2]);
    lemma_octet_round_trip(octets[3]);
    lemma_octet_round_trip(octets[4]);
    lemma_octet_round_trip(octets[5]);
    lemma_one_part(t0);
    let f1 = t0.push(':') + t1;
    lemma_parts_split(t0, ':', t1);
    let f2 = f1.push(':') + t2;
    lemma_parts_split(f1, ':', t2);
    let f3 = f2.push(':') + t3;
    lemma_parts_split(f2, ':', t3);
    let f4 = f3.push(':') + t4;
    lemma_parts_split(f3, ':', t4);
    let f5 = f4.push(':') + t5;
    lemma_parts_split(f4, ':', t5);
    assert(f5 =~= mac_text(octets));
    let parts = mac_parts(f5);
    assert(parts =~= seq![t0, t1, t2, t3, t4, t5]);
    assert forall|i: int| 0 <= i < 6 implies octet_of(#[trigger] parts[i]) == Some(octets[i]) by {}
    assert(Seq::new(6, |i: int| octet_of(parts[i])->0) =~= octets);
}

impl MacAddress {
    /// The address that `value` gives.
    pub fn parse(value: &str) -> (result: Result<Self, DisplayMuxError>)
        ensures
            match result {
                Ok(address) => mac_of(value@) == Some(address.bytes@),
                Err(error) => mac_of(value@) is None && (
                error matches DisplayMuxError::InvalidMacAddress(text) && text@ == value@),
            },
    {
        let chars = chars_of(value);
        let mut octets: Vec<u8> = Vec::new();
        let mut valid: bool = true;
        let mut start: usize = 0;
        let mut i: usize = 0;
        assert(chars@.take(0) =~= Seq::empty());
        assert(chars@.subrange(0, 0) =~= Seq::empty());
        while i < chars.len()
            invariant
                start <= i <= chars@.len(),
                mac_parts(chars@.take(i as int)).len() > 0,
                mac_parts(chars@.take(i as int)).last() == chars@.subrange(start as int, i as int),
                valid ==> octets@.len() == mac_parts(chars@.take(i as int)).len() - 1,
                valid ==> forall|k: int|
                    0 <= k < octets@.len() ==> octet_of(
                        #[trigger] mac_parts(chars@.take(i as int))[k],
                    ) == Some(octets@[k]),
                !valid ==> exists|k: int|
                    0 <= k < mac_parts(chars@.take(i as int)).len() - 1 && octet_of(
                        #[trigger] mac_parts(chars@.take(i as int))[k],
                    ) is None,
            decreases chars@.len() - i,
        {
            let ghost before = mac_parts(chars@.take(i as int));
            let ghost after = mac_parts(chars@.take(i + 1));
            assert(chars@.take(i + 1).drop_last() =~= chars@.take(i as int));
            assert(chars@.take(i + 1).last() == chars@[i as int]);
            let c = chars[i];
            let ghost was_valid = valid;
            if c == ':' || c == '-' {
                match parse_octet(&chars, start, i) {
                    Some(octet) => {
                        octets.push(octet);
                    },
                    None => {
                        valid = false;
                    },
                }
                start = i + 1;
                proof {
                    assert(chars@.subrange(start as int, i + 1) =~= Seq::empty());
                    assert(after == before.push(Seq::empty()));
                    if !was_valid {
                        let k = choose|k: int|
                            0 <= k < before.len() - 1 && octet_of(#[trigger] before[k]) is None;
                        assert(octet_of(after[k]) is None);
                    } else if !valid {
                        assert(octet_of(after[before.len() - 1]) is None);
                    } else {
                        assert forall|k: int| 0 <= k < octets@.len() implies octet_of(
                            #[trigger] after[k],
                        ) == Some(octets@[k]) by {
                            assert(after[k] == before[k]);
                        }
                    }
                }
            } else {
                proof {
                    assert(chars@.subrange(start as int, i + 1) =~= chars@.subrange(
                        start as int,
                        i as int,
                    ).push(c));
                    assert(after == before.drop_last().push(before.last().push(c)));
                    if !was_valid {
                        let k = choose|k: int|
                            0 <= k < before.len() - 1 && octet_of(#[trigger] before[k]) is None;
                        assert(after[k] == before[k]);
                    } else {
                        assert forall|k: int| 0 <= k < octets@.len() implies octet_of(
                            #[trigger] after[k],
                        ) == Some(octets@[k]) by {
                            assert(after[k] == before[k]);
                        }
                    }
                }
            }
            i += 1;
        }
        let ghost parts = mac_parts(value@);
        assert(chars@.take(chars@.len() as int) =~= value@);
        match parse_octet(&chars, start, chars.len()) {
            Some(octet) => {
                octets.push(octet);
            },
            None => {
                assert(octet_of(parts[parts.len() - 1]) is None);
                return Err(DisplayMuxError::InvalidMacAddress(value.to_owned()));
            },
        }
        if !valid || octets.len() != 6 {
            return Err(DisplayMuxError::InvalidMacAddress(value.to_owned()));
        }
        let bytes: [u8; 6] = [octets[0], octets[1], octets[2], octets[3], octets[4], octets[5]];
        assert(bytes@ =~= Seq::new(6, |k: int| octet_of(parts[k])->0));
        Ok(MacAddress { bytes })
    }

    /// The six octets.
    pub fn octets(self) -> (octets: [u8; 6])
        ensures
            octets == self.bytes,
    {
        self.bytes
    }

    /// The address in upper-case hexadecimal between colons.
    pub fn to_string(&self) -> (text: String)
        ensures
            text@ == mac_text(self.bytes@),
    {
        let mut text = String::new();
        let mut i: usize = 0;
        let ghost b = self.bytes@;
        while i < 6
            invariant
                i <= 6,
                b == self.bytes@,
                b.len() == 6,
                i == 0 ==> text@ == Seq::<char>::empty(),
                i == 1 ==> text@ == octet_text(b[0]),
                i == 2 ==> text@ == octet_text(b[0]).push(':') + octet_text(b[1]),
                i == 3 ==> text@ == octet_text(b[0]).push(':') + octet_text(b[1]).push(':')
                    + octet_text(b[2]),
                i == 4 ==> text@ == octet_text(b[0]).push(':') + octet_text(b[1]).push(':')
                    + octet_text(b[2]).push(':') + octet_text(b[3]),
                i == 5 ==> text@ == octet_text(b[0]).push(':') + octet_text(b[1]).push(':')
                    + octet_text(b[2]).push(':') + octet_text(b[3]).push(':') + octet_text(b[4]),
                i == 6 ==> text@ == mac_text(b),
            decreases 6 - i,
        {
            let ghost before = text@;
            if i > 0 {
                text.push(':');
            }
            let octet = self.bytes[i];
            text.push(upper_digit(octet / 16));
            text.push(upper_digit(octet % 16));
            assert(text@ =~= if i == 0 {
                octet_text(octet)
            } else {
                before.push(':') + octet_text(octet)
            });
            proof {
                if i == 1 {
                    assert(text@ =~= octet_text(b[0]).push(':') + octet_text(b[1]));
                } else if i == 2 {
                    assert(text@ =~= octet_text(b[0]).push(':') + octet_text(b[1]).push(':')
                        + octet_text(b[2]));
                } else if i == 3 {
                    assert(text@ =~= octet_text(b[0]).push(':') + octet_text(b[1]).push(':')
                        + octet_text(b[2]).push(':') + octet_text(b[3]));
                } else if i == 4 {
                    assert(text@ =~= octet_text(b[0]).push(':') + octet_text(b[1]).push(':')
                        + octet_text(b[2]).push(':') + octet_text(b[3]).push(':') + octet_text(b[4]));
                } else if i == 5 {
                    assert(text@ =~= mac_text(b));
                }
            }
            i += 1;
        }
        text
    }
}

impl std::str::FromStr for MacAddress {
    type Err = DisplayMuxError;

    /// The address that a text gives, as `parse` reads it.
    fn from_str(value: &str) -> (result: Result<Self, DisplayMuxError>)
        ensures
            match result {
                Ok(address) => mac_of(value@) == Some(address.bytes@),
                Err(error) => mac_of(value@) is None && (
                error matches DisplayMuxError::InvalidMacAddress(text) && text@ == value@),
            },
    {
        MacAddress::parse(value)
    }
}

/// A host to wake, and where to broadcast to reach it.
#[derive(Clone, Copy, Debug, PartialEq, Eq)]
pub struct WakeTarget {
    pub mac_address: MacAddress,
    pub broadcast_address: [u8; 4],
    pub port: u16,
}

/// A wake-on-LAN packet: six bytes of 0xff, and sixteen times the address.
pub open spec fn wake_bytes(octets: Seq<u8>) -> Seq<u8> {
    Seq::new(
        102,
        |i: int|
            if i < 6 {
                0xffu8
            } else {
                octets[i % 6]
            },
    )
}

impl WakeTarget {
    /// The packet that wakes the host.
    pub fn packet(&self) -> (packet: Vec<u8>)
        ensures
            packet@ == wake_bytes(self.mac_address.bytes@),
    {
        let octets = self.mac_address.octets();
        let mut packet: Vec<u8> = Vec::new();
        let mut i: usize = 0;
        while i < 102
            invariant
                i <= 102,
                octets == self.mac_address.bytes,
                packet@ == wake_bytes(octets@).take(i as int),
            decreases 102 - i,
        {
            if i < 6 {
                packet.push(0xff);
            } else {
                packet.push(octets[i % 6]);
            }
            assert(packet@ =~= wake_bytes(octets@).take(i + 1));
            i += 1;
        }
        assert(wake_bytes(octets@).take(102) =~= wake_bytes(octets@));
        packet
    }
}

/// The address of a host: the octets of IPv4 or the groups of IPv6.
#[derive(Clone, Copy, Debug, PartialEq, Eq)]
pub enum HostAddress {
    V4([u8; 4]),
    V6([u16; 8]),
}

/// Where a paired host listens.
#[derive(Clone, Copy, Debug, PartialEq, Eq)]
pub struct PeerEndpoint {
    pub address: HostAddress,
    pub port: u16,
}

impl HostAddress {
    /// 127.0.0.0/8 and ::1.
    pub open spec fn loopback(self) -> bool {
        match self {
            HostAddress::V4(octets) => octets@[0] == 127,
            HostAddress::V6(groups) => groups@[7] == 1 && forall|i: int|
                0 <= i < 7 ==> #[trigger] groups@[i] == 0,
        }
    }

    /// How well an address suits the local network: private IPv4 (10.0.0.0/8,
    /// 172.16.0.0/12, 192.168.0.0/16), other IPv4, IPv6.
    pub open spec fn preference(self) -> int {
        match self {
            HostAddress::V4(octets) => if octets@[0] == 10 || (octets@[0] == 172 && 16 <= octets@[1]
                <= 31) || (octets@[0] == 192 && octets@[1] == 168) {
                0
            } else {
                1
            },
            HostAddress::V6(_) => 2,
        }
    }

    /// Whether the address names this computer itself.
    pub fn is_loopback(&self) -> (yes: bool)
        ensures
            yes == self.loopback(),
    {
        match self {
            HostAddress::V4(octets) => octets[0] == 127,
            HostAddress::V6(groups) => {
                let zeros = groups[0] == 0 && groups[1] == 0 && groups[2] == 0 && groups[3] == 0
                    && groups[4] == 0 && groups[5] == 0 && groups[6] == 0;
                proof {
                    if self.loopback() {
                        assert(groups@[0] == 0 && groups@[1] == 0 && groups@[2] == 0 && groups@[3] == 0
                            && groups@[4] == 0 && groups@[5] == 0 && groups@[6] == 0);
                    }
                }
                zeros && groups[7] == 1
            },
        }
    }

    fn preference_rank(&self) -> (rank: u8)
        ensures
            rank == self.preference(),
    {
        match self {
            HostAddress::V4(octets) => if octets[0] == 10 || (octets[0] == 172 && 16 <= octets[1]
                && octets[1] <= 31) || (octets[0] == 192 && octets[1] == 168) {
                0
            } else {
                1
            },
            HostAddress::V6(_) => 2,
        }
    }
}

/// Whether the address at `i` is the one to use: it names another computer, no
/// such address suits better, and none before it suits as well.
pub open spec fn is_preferred(addresses: Seq<HostAddress>, i: int) -> bool {
    &&& 0 <= i < addresses.len()
    &&& !addresses[i].loopback()
    &&& forall|j: int|
        0 <= j < addresses.len() && !(#[trigger] addresses[j]).loopback()
            ==> addresses[i].preference() <= addresses[j].preference()
    &&& forall|j: int|
        0 <= j < i && !(#[trigger] addresses[j]).loopback() ==> addresses[i].preference()
            < addresses[j].preference()
}

/// The position of the address to use, if there is one.
pub fn preferred_address(addresses: &[HostAddress]) -> (chosen: Option<usize>)
    ensures
        match chosen {
            Some(i) => is_preferred(addresses@, i as int),
            None => forall|j: int| 0 <= j < addresses@.len() ==> (#[trigger] addresses@[j]).loopback(),
        },
{
    let mut chosen: Option<usize> = None;
    let mut i: usize = 0;
    while i < addresses.len()
        invariant
            i <= addresses@.len(),
            match chosen {
                Some(c) => c < i && is_preferred(addresses@.take(i as int), c as int),
                None => forall|j: int| 0 <= j < i ==> (#[trigger] addresses@[j]).loopback(),
            },
        decreases addresses@.len() - i,
    {
        let ghost before = addresses@.take(i as int);
        let ghost after = addresses@.take(i + 1);
        assert forall|j: int| 0 <= j < i implies #[trigger] after[j] == before[j] by {}
        let ghost was = chosen;
        if !addresses[i].is_loopback() {
            chosen = match chosen {
                None => Some(i),
                Some(c) => if addresses[i].preference_rank() < addresses[c].preference_rank() {
                    Some(i)
                } else {
                    Some(c)
                },
            };
        }
        proof {
            if let Some(c) = chosen {
                assert forall|j: int| 0 <= j < after.len() && !(
                #[trigger] after[j]).loopback() implies after[c as int].preference()
                    <= after[j].preference() by {
                    if j < i {
                        assert(before[j] == addresses@[j]);
                        assert(was is Some);
                    }
                }
                assert forall|j: int| 0 <= j < c && !(#[trigger] after[j]).loopback() implies after[c as int].preference()
                    < after[j].preference() by {
                    assert(before[j] == addresses@[j]);
                    assert(was is Some);
                }
            }
        }
        i += 1;
    }
    assert(addresses@.take(addresses@.len() as int) =~= addresses@);
    chosen
}

/// The name of a platform in an announcement.
pub open spec fn platform_text(platform: DestinationHost) -> Seq<char> {
    match platform {
        DestinationHost::Windows => "windows"@,
        DestinationHost::Mac => "mac"@,
    }
}

pub fn platform_name(platform: DestinationHost) -> (name: &'static str)
    ensures
        name@ == platform_text(platform),
{
    match platform {
        DestinationHost::Windows => "windows",
        DestinationHost::Mac => "mac",
    }
}

/// Whether a character is a letter or digit of ASCII.
pub open spec fn ascii_alphanumeric(c: char) -> bool {
    'a' <= c <= 'z' || 'A' <= c <= 'Z' || '0' <= c <= '9'
}

/// A letter of ASCII in lower case, any other character as it is.
pub open spec fn ascii_lower(c: char) -> char {
    if 'A' <= c <= 'Z' {
        ((c as u32 + 32) as u8) as char
    } else {
        c
    }
}

/// Whether a character is a letter or digit of ASCII.
pub fn is_ascii_alphanumeric(c: char) -> (yes: bool)
    ensures
        yes == ascii_alphanumeric(c),
{
    ('a' <= c && c <= 'z') || ('A' <= c && c <= 'Z') || ('0' <= c && c <= '9')
}

/// A letter of ASCII in lower case, any other character as it is.
pub fn to_ascii_lower(c: char) -> (lower: char)
    ensures
        lower == ascii_lower(c),
{
    if 'A' <= c && c <= 'Z' {
        ((c as u32 + 32) as u8) as char
    } else {
        c
    }
}

/// The letters and digits of a text, in lower case.
pub open spec fn plain(text: Seq<char>) -> Seq<char>
    decreases text.len(),
{
    if text.len() == 0 {
        text
    } else if ascii_alphanumeric(text.last()) {
        plain(text.drop_last()).push(ascii_lower(text.last()))
    } else {
        plain(text.drop_last())
    }
}

/// The discovery id of a host: its MAC address where it is known, else its
/// name, in plain letters and digits, and its platform.
pub open spec fn peer_id_of(
    host_name: Seq<char>,
    platform: Seq<char>,
    mac_address: Option<Seq<char>>,
) -> Seq<char> {
    plain(
        match mac_address {
            Some(mac) => mac,
            None => host_name,
        },
    ) + "-"@ + platform
}

/// The characters of an optional text.
pub open spec fn optional_view(text: Option<&str>) -> Option<Seq<char>> {
    match text {
        Some(found) => Some(found@),
        None => None,
    }
}

/// The discovery id of a host.
pub fn peer_id(host_name: &str, platform: &str, mac_address: Option<&str>) -> (id: String)
    ensures
        id@ == peer_id_of(host_name@, platform@, optional_view(mac_address)),
{
    let identity = match mac_address {
        Some(mac) => mac,
        None => host_name,
    };
    let chars = chars_of(identity);
    let mut letters: Vec<char> = Vec::new();
    let mut i: usize = 0;
    while i < chars.len()
        invariant
            i <= chars@.len(),
            letters@ == plain(chars@.take(i as int)),
        decreases chars@.len() - i,
    {
        assert(chars@.take(i + 1).drop_last() =~= chars@.take(i as int));
        if is_ascii_alphanumeric(chars[i]) {
            letters.push(to_ascii_lower(chars[i]));
        }
        i += 1;
    }
    assert(chars@.take(chars@.len() as int) =~= chars@);
    join3(&text_of(&letters), "-", platform)
}

/// The characters of a DNS label: letters and digits in lower case, hyphens for
/// everything else.
pub open spec fn label_chars(text: Seq<char>) -> Seq<char> {
    text.map_values(
        |c: char|
            if ascii_alphanumeric(c) || c == '-' {
                ascii_lower(c)
            } else {
                '-'
            },
    )
}

/// A text without the hyphens it starts with.
pub open spec fn bare_start(text: Seq<char>) -> Seq<char>
    decreases text.len(),
{
    if text.len() > 0 && text[0] == '-' {
        bare_start(text.drop_first())
    } else {
        text
    }
}

/// A text without the `mark`s it ends with.
pub open spec fn bare_end(text: Seq<char>, mark: char) -> Seq<char>
    decreases text.len(),
{
    if text.len() > 0 && text.last() == mark {
        bare_end(text.drop_last(), mark)
    } else {
        text
    }
}

proof fn lemma_bare_start_is(text: Seq<char>, n: int)
    requires
        0 <= n <= text.len(),
        forall|j: int| 0 <= j < n ==> #[trigger] text[j] == '-',
        n < text.len() ==> text[n] != '-',
    ensures
        bare_start(text) == text.subrange(n, text.len() as int),
    decreases text.len(),
{
    if n == 0 {
        assert(text.subrange(0, text.len() as int) =~= text);
    } else {
        assert(text[0] == '-');
        assert forall|j: int| 0 <= j < n - 1 implies #[trigger] text.drop_first()[j] == '-' by {
            assert(text[j + 1] == '-');
        }
        lemma_bare_start_is(text.drop_first(), n - 1);
        assert(text.drop_first().subrange(n - 1, text.len() - 1) =~= text.subrange(
            n,
            text.len() as int,
        ));
    }
}

/// The bare end of a text is what stands before the `mark`s it ends with.
pub proof fn lemma_bare_end_is(text: Seq<char>, mark: char, n: int)
    requires
        0 <= n <= text.len(),
        forall|j: int| n <= j < text.len() ==> #[trigger] text[j] == mark,
        n > 0 ==> text[n - 1] != mark,
    ensures
        bare_end(text, mark) == text.subrange(0, n),
    decreases text.len(),
{
    if n == text.len() {
        assert(text.subrange(0, n) =~= text);
    } else {
        assert(text[text.len() - 1] == mark);
        lemma_bare_end_is(text.drop_last(), mark, n);
        assert(text.drop_last().subrange(0, n) =~= text.subrange(0, n));
    }
}

/// The DNS label of a host: the first part of its name, in label characters,
/// without hyphens at the ends, and never empty.
pub open spec fn dns_label_of(host_name: Seq<char>) -> Seq<char> {
    let label = bare_end(bare_start(label_chars(cut(host_name, '.').0)), '-');
    if label.len() == 0 {
        "displaymux"@
    } else {
        label
    }
}

/// The DNS label of a host.
pub fn dns_label(host_name: &str) -> (label: String)
    ensures
        label@ == dns_label_of(host_name@),
{
    let first = cut_at(host_name, '.').0;
    let chars = chars_of(&first);
    let mut safe: Vec<char> = Vec::new();
    let mut i: usize = 0;
    while i < chars.len()
        invariant
            i <= chars@.len(),
            safe@ == label_chars(chars@.take(i as int)),
        decreases chars@.len() - i,
    {
        let c = chars[i];
        let ghost before = safe@;
        if is_ascii_alphanumeric(c) || c == '-' {
            safe.push(to_ascii_lower(c));
        } else {
            safe.push('-');
        }
        proof {
            assert(chars@.take(i + 1) =~= chars@.take(i as int).push(c));
            assert(label_chars(chars@.take(i + 1)) =~= before.push(safe@.last()));
        }
        i += 1;
    }
    assert(chars@.take(chars@.len() as int) =~= chars@);
    let mut start: usize = 0;
    while start < safe.len() && safe[start] == '-'
        invariant
            start <= safe@.len(),
            forall|j: int| 0 <= j < start ==> #[trigger] safe@[j] == '-',
        decreases safe@.len() - start,
    {
        start += 1;
    }
    proof {
        lemma_bare_start_is(safe@, start as int);
    }
    let ghost rest = safe@.subrange(start as int, safe@.len() as int);
    let mut end: usize = safe.len();
    while end > start && safe[end - 1] == '-'
        invariant
            start <= end <= safe@.len(),
            rest == safe@.subrange(start as int, safe@.len() as int),
            forall|j: int| end - start <= j < rest.len() ==> #[trigger] rest[j] == '-',
        decreases end,
    {
        end -= 1;
    }
    proof {
        lemma_bare_end_is(rest, '-', end - start);
        assert(rest.subrange(0, end - start) =~= safe@.subrange(start as int, end as int));
    }
    if start == end {
        "displaymux".to_owned()
    } else {
        text_between(&safe, start, end)
    }
}

/// `text` without the dots it ends with.
fn without_final_dots(text: &str) -> (result: String)
    ensures
        result@ == bare_end(text@, '.'),
{
    let chars = chars_of(text);
    let mut end: usize = chars.len();
    while end > 0 && chars[end - 1] == '.'
        invariant
            end <= chars@.len(),
            forall|j: int| end <= j < chars@.len() ==> #[trigger] chars@[j] == '.',
        decreases end,
    {
        end -= 1;
    }
    proof {
        lemma_bare_end_is(chars@, '.', end as int);
    }
    text_between(&chars, 0, end)
}

/// The name to show for a host name: trimmed, and never empty.
pub open spec fn friendly_name_of(host_name: Seq<char>) -> Seq<char> {
    if trimmed(host_name).len() == 0 {
        "DisplayMux"@
    } else {
        trimmed(host_name)
    }
}

/// The name to show for a host name.
pub fn friendly_name(host_name: &str) -> (name: String)
    ensures
        name@ == friendly_name_of(host_name@),
{
    let name = trim(host_name);
    if name.as_str().is_empty() {
        "DisplayMux".to_owned()
    } else {
        name
    }
}

/// Who this computer is to its peers.
#[derive(Debug, PartialEq, Eq)]
pub struct LocalHostIdentity {
    pub id: String,
    pub name: String,
    pub platform: DestinationHost,
    pub mac_address: Option<String>,
}

/// The characters of an optional owned text.
pub open spec fn owned_view(text: Option<String>) -> Option<Seq<char>> {
    match text {
        Some(found) => Some(found@),
        None => None,
    }
}

/// Whether `properties` are what to announce of a host.
pub open spec fn are_properties(
    identity: LocalHostIdentity,
    version: Seq<char>,
    properties: Seq<(String, String)>,
) -> bool {
    &&& properties.len() == if identity.mac_address is Some {
        5int
    } else {
        4int
    }
    &&& properties[0].0@ == "id"@ && properties[0].1@ == identity.id@
    &&& properties[1].0@ == "name"@ && properties[1].1@ == identity.name@
    &&& properties[2].0@ == "platform"@ && properties[2].1@ == platform_text(identity.platform)
    &&& properties[3].0@ == "version"@ && properties[3].1@ == version
    &&& identity.mac_address matches Some(mac) ==> properties[4].0@ == "mac"@ && properties[4].1@
        == mac@
}

/// Whether an identity is that of a host of this name, platform and MAC address.
pub open spec fn is_identity_of(
    identity: LocalHostIdentity,
    host_name: Seq<char>,
    platform: DestinationHost,
    mac_address: Option<String>,
) -> bool {
    &&& identity.name@ == friendly_name_of(host_name)
    &&& identity.platform == platform
    &&& identity.mac_address == mac_address
    &&& identity.id@ == peer_id_of(
        friendly_name_of(host_name),
        platform_text(platform),
        owned_view(mac_address),
    )
}

impl LocalHostIdentity {
    /// The identity of a host of this name, platform and MAC address.
    pub fn from_parts(host_name: &str, platform: DestinationHost, mac_address: Option<String>) -> (identity:
        Self)
        ensures
            is_identity_of(identity, host_name@, platform, mac_address),
    {
        let name = friendly_name(host_name);
        let id = match &mac_address {
            Some(mac) => peer_id(&name, platform_name(platform), Some(mac.as_str())),
            None => peer_id(&name, platform_name(platform), None),
        };
        LocalHostIdentity { id, name, platform, mac_address }
    }

    /// A host under an id that was fixed earlier.
    pub fn with_id(
        id: String,
        name: String,
        platform: DestinationHost,
        mac_address: Option<String>,
    ) -> (identity: Self)
        ensures
            identity == (LocalHostIdentity { id, name, platform, mac_address }),
    {
        LocalHostIdentity { id, name, platform, mac_address }
    }

    /// The host name to announce.
    pub fn dns_host_name(&self) -> (name: String)
        ensures
            name@ == dns_label_of(self.name@) + ".local."@,
    {
        join2(&dns_label(&self.name), ".local.")
    }

    /// What to announce of this host: its id, name, platform and version, and
    /// its MAC address where it is known.
    pub fn properties(&self, version: &str) -> (properties: Vec<(String, String)>)
        ensures
            are_properties(*self, version@, properties@),
    {
        let mut properties: Vec<(String, String)> = Vec::new();
        properties.push(("id".to_owned(), self.id.clone()));
        properties.push(("name".to_owned(), self.name.clone()));
        properties.push(("platform".to_owned(), platform_name(self.platform).to_owned()));
        properties.push(("version".to_owned(), version.to_owned()));
        if let Some(mac) = &self.mac_address {
            properties.push(("mac".to_owned(), mac.clone()));
        }
        properties
    }
}

/// An address of an announced host, and how it is written.
#[derive(Debug, PartialEq, Eq)]
pub struct AnnouncedAddress {
    pub address: HostAddress,
    pub text: String,
}

/// What an announcement of a host says.
#[derive(Debug, PartialEq, Eq)]
pub struct Announcement {
    pub fullname: String,
    pub host_name: String,
    pub port: u16,
    pub addresses: Vec<AnnouncedAddress>,
    pub platform: Option<String>,
    pub name: Option<String>,
    pub id: Option<String>,
    pub mac: Option<String>,
}

/// The platform that an announcement names.
pub open spec fn announced_platform(platform: Option<String>) -> Option<DestinationHost> {
    match platform {
        Some(name) => if name@ == "windows"@ {
            Some(DestinationHost::Windows)
        } else if name@ == "mac"@ {
            Some(DestinationHost::Mac)
        } else {
            None
        },
        None => None,
    }
}

/// The addresses of an announcement.
pub open spec fn announced_addresses(announcement: Announcement) -> Seq<HostAddress> {
    announcement.addresses@.map_values(|found: AnnouncedAddress| found.address)
}

/// Whether an announcement names a platform and an address of another computer.
pub open spec fn names_a_peer(announcement: Announcement) -> bool {
    announced_platform(announcement.platform) is Some && exists|i: int| #[trigger]
        is_preferred(announced_addresses(announcement), i)
}

/// Whether `peer` is the host that an announcement names.
pub open spec fn is_announced_peer(announcement: Announcement, peer: DiscoveredPeer) -> bool {
    &&& announced_platform(announcement.platform) == Some(peer.platform)
    &&& exists|i: int|
        #[trigger] is_preferred(announced_addresses(announcement), i) && peer.address
            == announcement.addresses@[i].text
    &&& peer.name@ == match announcement.name {
        Some(name) => name@,
        None => bare_end(announcement.host_name@, '.'),
    }
    &&& peer.id@ == match announcement.id {
        Some(id) => id@,
        None => announcement.fullname@,
    }
    &&& peer.port == announcement.port
    &&& owned_view(peer.mac_address) == match announcement.mac {
        Some(mac) => match mac_of(mac@) {
            Some(octets) => Some(mac_text(octets)),
            None => None,
        },
        None => None,
    }
}

/// The host that an announcement names, if it names one that can be paired
/// with.
pub fn discovered_peer(announcement: &Announcement) -> (result: Option<DiscoveredPeer>)
    ensures
        match result {
            Some(peer) => is_announced_peer(*announcement, peer),
            None => !names_a_peer(*announcement),
        },
{
    let platform = match &announcement.platform {
        Some(name) => if same_text(name, "windows") {
            DestinationHost::Windows
        } else if same_text(name, "mac") {
            DestinationHost::Mac
        } else {
            return None;
        },
        None => return None,
    };
    proof {
        reveal_strlit("windows");
        reveal_strlit("mac");
        assert("windows"@.len() != "mac"@.len());
    }
    let ghost known = announced_addresses(*announcement);
    let mut addresses: Vec<HostAddress> = Vec::new();
    let mut i: usize = 0;
    while i < announcement.addresses.len()
        invariant
            i <= announcement.addresses@.len(),
            known == announced_addresses(*announcement),
            addresses@ == known.take(i as int),
        decreases announcement.addresses@.len() - i,
    {
        addresses.push(announcement.addresses[i].address);
        assert(known.take(i + 1) =~= known.take(i as int).push(known[i as int]));
        i += 1;
    }
    assert(known.take(known.len() as int) =~= known);
    let at = match preferred_address(&addresses) {
        Some(at) => at,
        None => {
            assert forall|k: int| !#[trigger] is_preferred(known, k) by {}
            return None;
        },
    };
    let name = match &announcement.name {
        Some(name) => name.clone(),
        None => without_final_dots(&announcement.host_name),
    };
    let id = match &announcement.id {
        Some(id) => id.clone(),
        None => announcement.fullname.clone(),
    };
    let mac_address = match &announcement.mac {
        Some(mac) => match MacAddress::parse(mac) {
            Ok(address) => Some(address.to_string()),
            Err(_) => None,
        },
        None => None,
    };
    Some(
        DiscoveredPeer {
            id,
            name,
            platform,
            address: announcement.addresses[at].text.clone(),
            port: announcement.port,
            mac_address,
        },
    )
}

} // verus!
