//! The headers that a captured frame is made of, as plain values.
//!
//! Each function of this module hands a byte buffer to the packet crate and
//! gives back the header fields that the exporter reads. What each of them
//! claims about the bytes is stated in its contract.

use pnet::packet::ethernet::EthernetPacket;
use pnet::packet::ipv4::Ipv4Packet;
use pnet::packet::ipv6::Ipv6Packet;
use pnet::packet::tcp::TcpPacket;
use pnet::packet::udp::UdpPacket;
use pnet::packet::Packet;
use vstd::prelude::*;

verus! {

/// The two bytes at `i`, most significant first.
pub open spec fn word(b: Seq<u8>, i: int) -> nat {
    b[i] as nat * 256 + b[i + 1] as nat
}

/// The length in bytes that an IPv4 header claims for itself: four times the
/// low half of its first byte.
pub open spec fn ipv4_claimed_header(b: Seq<u8>) -> nat {
    (b[0] as nat % 16) * 4
}

/// What an IPv4 packet carries. It starts behind the header, never earlier
/// than behind the twenty fixed bytes; it has the length that the header's
/// total length leaves for it, cut off where the buffer ends.
pub open spec fn ipv4_body(b: Seq<u8>) -> Seq<u8> {
    let header = ipv4_claimed_header(b);
    let start: int = if header <= 20 {
        20
    } else {
        header as int
    };
    let length: int = if word(b, 2) <= header {
        0
    } else {
        word(b, 2) - header
    };
    if b.len() <= start {
        Seq::empty()
    } else if start + length <= b.len() {
        b.subrange(start, start + length)
    } else {
        b.subrange(start, b.len() as int)
    }
}

/// The text of an IPv6 address, given its sixteen octets.
pub uninterp spec fn ipv6_text(octets: Seq<u8>) -> Seq<char>;

/// What the exporter reads of an Ethernet frame.
pub struct EthernetHeader {
    /// The protocol that the frame carries.
    pub ethertype: u16,
    /// The bytes behind the header.
    pub payload: Vec<u8>,
}

/// What the exporter reads of an IPv4 packet.
pub struct Ipv4Header {
    /// The sender's address.
    pub source: [u8; 4],
    /// The receiver's address.
    pub destination: [u8; 4],
    /// The length of the whole packet, as its header states it.
    pub total_length: u16,
    /// The protocol that the packet carries.
    pub protocol: u8,
    /// The bytes that the packet carries.
    pub payload: Vec<u8>,
}

/// What the exporter reads of an IPv6 packet.
pub struct Ipv6Header {
    /// The sender's address.
    pub source: [u8; 16],
    /// The sender's address as text.
    pub source_text: String,
    /// The receiver's address as text.
    pub destination_text: String,
    /// The length of what the packet carries, as its header states it.
    pub payload_length: u16,
}

/// What the exporter reads of a TCP segment.
pub struct TcpHeader {
    /// The sender's port.
    pub source: u16,
    /// The receiver's port.
    pub destination: u16,
    /// The control bits.
    pub flags: u8,
}

/// What the exporter reads of a UDP datagram.
pub struct UdpHeader {
    /// The sender's port.
    pub source: u16,
    /// The receiver's port.
    pub destination: u16,
}

/// Reads an Ethernet header with `EthernetPacket::new`, `get_ethertype` and
/// `payload`. Claimed: a buffer of at least fourteen bytes is accepted and a
/// shorter one is not; the type is the big-endian word at offset twelve; the
/// payload is everything behind the first fourteen bytes.
#[verifier::external_body]
pub(crate) fn ethernet_header(data: &[u8]) -> (r: Option<EthernetHeader>)
    ensures
        r is Some <==> data@.len() >= 14,
        r matches Some(h) ==> h.ethertype == word(data@, 12) && h.payload@ == data@.skip(14),
{
    match EthernetPacket::new(data) {
        Some(p) => Some(
            EthernetHeader { ethertype: p.get_ethertype().0, payload: p.payload().to_vec() },
        ),
        None => None,
    }
}

/// Reads an IPv4 header with `Ipv4Packet::new` and its getters. Claimed: a
/// buffer of at least twenty bytes is accepted and a shorter one is not; the
/// addresses are the four octets at offsets twelve and sixteen, the total
/// length the big-endian word at offset two, the protocol the byte at offset
/// nine; the payload is `ipv4_body`.
#[verifier::external_body]
pub(crate) fn ipv4_header(data: &[u8]) -> (r: Option<Ipv4Header>)
    ensures
        r is Some <==> data@.len() >= 20,
        r matches Some(h) ==> {
            &&& h.source@ == data@.subrange(12, 16)
            &&& h.destination@ == data@.subrange(16, 20)
            &&& h.total_length == word(data@, 2)
            &&& h.protocol == data@[9]
            &&& h.payload@ == ipv4_body(data@)
        },
{
    match Ipv4Packet::new(data) {
        Some(p) => Some(
            Ipv4Header {
                source: p.get_source().octets(),
                destination: p.get_destination().octets(),
                total_length: p.get_total_length(),
                protocol: p.get_next_level_protocol().0,
                payload: p.payload().to_vec(),
            },
        ),
        None => None,
    }
}

/// Reads an IPv6 header with `Ipv6Packet::new` and its getters. Claimed: a
/// buffer of at least forty bytes is accepted and a shorter one is not; the
/// source is the sixteen octets at offset eight and the destination those at
/// offset twenty-four, each given as text by the address type's `to_string`,
/// whose result is named `ipv6_text`; the payload length is the big-endian
/// word at offset four. How the text of an address looks is left unsaid.
#[verifier::external_body]
pub(crate) fn ipv6_header(data: &[u8]) -> (r: Option<Ipv6Header>)
    ensures
        r is Some <==> data@.len() >= 40,
        r matches Some(h) ==> {
            &&& h.source@ == data@.subrange(8, 24)
            &&& h.source_text@ == ipv6_text(data@.subrange(8, 24))
            &&& h.destination_text@ == ipv6_text(data@.subrange(24, 40))
            &&& h.payload_length == word(data@, 4)
        },
{
    match Ipv6Packet::new(data) {
        Some(p) => Some(
            Ipv6Header {
                source: p.get_source().octets(),
                source_text: p.get_source().to_string(),
                destination_text: p.get_destination().to_string(),
                payload_length: p.get_payload_length(),
            },
        ),
        None => None,
    }
}

/// Reads a TCP header with `TcpPacket::new`, `get_source`, `get_destination`
/// and `get_flags`. Claimed: a buffer of at least twenty bytes is accepted and
/// a shorter one is not; the ports are the big-endian words at offsets zero
/// and two, the control bits the byte at offset thirteen.
#[verifier::external_body]
pub(crate) fn tcp_header(data: &[u8]) -> (r: Option<TcpHeader>)
    ensures
        r is Some <==> data@.len() >= 20,
        r matches Some(h) ==> {
            &&& h.source == word(data@, 0)
            &&& h.destination == word(data@, 2)
            &&& h.flags == data@[13]
        },
{
    match TcpPacket::new(data) {
        Some(p) => Some(
            TcpHeader {
                source: p.get_source(),
                destination: p.get_destination(),
                flags: p.get_flags(),
            },
        ),
        None => None,
    }
}

/// Reads a UDP header with `UdpPacket::new`, `get_source` and
/// `get_destination`. Claimed: a buffer of at least eight bytes is accepted
/// and a shorter one is not; the ports are the big-endian words at offsets
/// zero and two.
#[verifier::external_body]
pub(crate) fn udp_header(data: &[u8]) -> (r: Option<UdpHeader>)
    ensures
        r is Some <==> data@.len() >= 8,
        r matches Some(h) ==> h.source == word(data@, 0) && h.destination == word(data@, 2),
{
    match UdpPacket::new(data) {
        Some(p) => Some(
            UdpHeader { source: p.get_source(), destination: p.get_destination() },
        ),
        None => None,
    }
}

} // verus!
