//! Destination resolution: which peer an outbound IP packet is meant for.
//!
//! A peer is addressed by a four-byte key. An IPv4 packet carries the key as its
//! destination address; an IPv6 packet carries it in the last four bytes of its
//! destination address. A packet of neither version names no peer.
use vstd::prelude::*;

verus! {

/// Number of bytes in a destination key.
pub const KEY_LEN: usize = 4;

/// Length of the fixed IPv4 header.
pub const IPV4_HEADER_LEN: usize = 20;

/// Offset of the destination address in an IPv4 header.
pub const IPV4_DESTINATION_OFFSET: usize = 16;

/// Length of the fixed IPv6 header.
pub const IPV6_HEADER_LEN: usize = 40;

/// Offset of the destination address in an IPv6 header.
pub const IPV6_DESTINATION_OFFSET: usize = 24;

/// Length of an IPv6 address.
pub const IPV6_ADDRESS_LEN: usize = 16;

/// The four-byte identity of a peer node.
#[derive(Clone, Copy, Debug, PartialEq, Eq, Hash)]
pub struct DestinationKey {
    /// The bytes of the key, in network order.
    pub octets: [u8; 4],
}

impl View for DestinationKey {
    type V = Seq<u8>;

    open spec fn view(&self) -> Seq<u8> {
        self.octets@
    }
}

impl DestinationKey {
    /// The key made of the four given bytes, in network order.
    pub fn new(a: u8, b: u8, c: u8, d: u8) -> (key: DestinationKey)
        ensures
            key@ == seq![a, b, c, d],
    {
        DestinationKey { octets: [a, b, c, d] }
    }

    /// The four bytes of the key, in network order.
    pub fn octets(&self) -> (octets: [u8; 4])
        ensures
            octets@ == self@,
    {
        self.octets
    }
}

/// The IP version a packet announces: the top four bits of its first byte.
pub open spec fn ip_version(packet: Seq<u8>) -> int
    recommends
        packet.len() > 0,
{
    packet[0] as int / 16
}

/// An IPv4 packet that is long enough to hold the fixed header.
pub open spec fn well_formed_ipv4(packet: Seq<u8>) -> bool {
    packet.len() >= IPV4_HEADER_LEN && ip_version(packet) == 4
}

/// An IPv6 packet that is long enough to hold the fixed header.
pub open spec fn well_formed_ipv6(packet: Seq<u8>) -> bool {
    packet.len() >= IPV6_HEADER_LEN && ip_version(packet) == 6
}

/// The destination address field of an IPv6 header, where the packet holds one.
pub open spec fn ipv6_destination_address(packet: Seq<u8>) -> Option<Seq<u8>> {
    if packet.len() >= IPV6_HEADER_LEN {
        Some(
            packet.subrange(
                IPV6_DESTINATION_OFFSET as int,
                IPV6_DESTINATION_OFFSET + IPV6_ADDRESS_LEN,
            ),
        )
    } else {
        None
    }
}

/// The key that an IPv6 address embeds: its last four bytes.
pub open spec fn embedded_key(address: Seq<u8>) -> Seq<u8>
    recommends
        address.len() == IPV6_ADDRESS_LEN,
{
    address.subrange(IPV6_ADDRESS_LEN - KEY_LEN, IPV6_ADDRESS_LEN as int)
}

/// The key of the peer a packet is for, or `None` where the packet is dropped.
///
/// A packet that announces version 4 is read as IPv4, one that announces
/// version 6 as IPv6. A packet of any other version is dropped, however long it
/// is, and so is one that is too short for the header of its version.
pub open spec fn destination_of(packet: Seq<u8>) -> Option<Seq<u8>> {
    if packet.len() == 0 {
        None
    } else if ip_version(packet) == 4 {
        if packet.len() >= IPV4_HEADER_LEN {
            Some(
                packet.subrange(
                    IPV4_DESTINATION_OFFSET as int,
                    IPV4_DESTINATION_OFFSET + KEY_LEN,
                ),
            )
        } else {
            None
        }
    } else if ip_version(packet) == 6 {
        match ipv6_destination_address(packet) {
            Some(address) => Some(embedded_key(address)),
            None => None,
        }
    } else {
        None
    }
}

/// The key made of the four bytes of `bytes`.
pub open spec fn key_of(bytes: Seq<u8>) -> DestinationKey
    recommends
        bytes.len() == KEY_LEN,
{
    DestinationKey { octets: [bytes[0], bytes[1], bytes[2], bytes[3]] }
}

/// The peer a packet is for: [`destination_of`] as a key.
pub open spec fn resolved_key(packet: Seq<u8>) -> Option<DestinationKey> {
    match destination_of(packet) {
        Some(bytes) => Some(key_of(bytes)),
        None => None,
    }
}

/// Reads the destination address of an IPv6 header.
///
/// The body calls `pnet_packet::ipv6::Ipv6Packet::new`, which accepts a buffer
/// exactly when it holds the 40 bytes of the fixed header, and then
/// `Ipv6Packet::get_destination`, which reads the eight big-endian words at
/// offset 24 into an address; `octets` hands the address back as bytes. The
/// contract restates this: the result is the 16 bytes at offset 24, and there
/// is one exactly when the buffer has 40 bytes or more.
#[verifier::external_body]
fn ipv6_destination(packet: &[u8]) -> (address: Option<[u8; 16]>)
    ensures
        match address {
            Some(a) => ipv6_destination_address(packet@) == Some(a@),
            None => ipv6_destination_address(packet@) is None,
        },
{
    match pnet_packet::ipv6::Ipv6Packet::new(packet) {
        Some(header) => Some(header.get_destination().octets()),
        None => None,
    }
}

/// Resolves the peer that a raw IP packet is for.
///
/// `packet` holds the valid bytes of the packet and nothing else. The result is
/// `None` exactly when the packet announces a version other than 4 and 6, or is
/// too short for the header that its version calls for; such a packet is
/// dropped.
pub fn resolve_destination(packet: &[u8]) -> (key: Option<DestinationKey>)
    ensures
        key == resolved_key(packet@),
        match key {
            Some(k) => destination_of(packet@) == Some(k@),
            None => destination_of(packet@) is None,
        },
{
    if packet.len() == 0 {
        return None;
    }
    let first: u8 = packet[0];
    let version: u8 = first >> 4;
    assert(version == first / 16) by (bit_vector)
        requires
            version == first >> 4,
    ;
    if version == 4 {
        if packet.len() < IPV4_HEADER_LEN {
            return None;
        }
        Some(DestinationKey { octets: [packet[16], packet[17], packet[18], packet[19]] })
    } else if version == 6 {
        match ipv6_destination(packet) {
            Some(address) => Some(
                DestinationKey { octets: [address[12], address[13], address[14], address[15]] },
            ),
            None => None,
        }
    } else {
        None
    }
}

/// A well-formed IPv4 packet resolves to the four bytes of its destination field.
pub proof fn lemma_ipv4_destination(packet: Seq<u8>)
    requires
        well_formed_ipv4(packet),
    ensures
        destination_of(packet) == Some(packet.subrange(16, 20)),
{
}

/// A well-formed IPv6 packet resolves to the last four bytes of its 16-byte
/// destination address, which are the bytes 36 to 39 of the packet.
pub proof fn lemma_ipv6_destination(packet: Seq<u8>)
    requires
        well_formed_ipv6(packet),
    ensures
        destination_of(packet) == Some(packet.subrange(24, 40).subrange(12, 16)),
        destination_of(packet) == Some(packet.subrange(36, 40)),
{
}

/// A packet is dropped exactly when it is malformed: it is empty, announces
/// version 4 and is shorter than an IPv4 header, or announces another version
/// and either that version is not 6 or the packet is shorter than an IPv6
/// header. Put the other way round, a packet resolves exactly when it is a
/// well-formed IPv4 or IPv6 packet.
pub proof fn lemma_malformed_is_dropped(packet: Seq<u8>)
    ensures
        destination_of(packet) is None <==> {
            ||| packet.len() == 0
            ||| ip_version(packet) == 4 && packet.len() < IPV4_HEADER_LEN
            ||| ip_version(packet) != 4 && (ip_version(packet) != 6 || packet.len()
                < IPV6_HEADER_LEN)
        },
        destination_of(packet) is Some <==> well_formed_ipv4(packet) || well_formed_ipv6(packet),
        resolved_key(packet) is Some <==> destination_of(packet) is Some,
        destination_of(packet) matches Some(key) ==> key.len() == KEY_LEN,
{
}

} // verus!
