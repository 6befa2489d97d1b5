//! From a captured frame to the facts that are counted.

use vstd::prelude::*;
use vstd::string::*;

use crate::address::{ipv4_to_text, IpAddress};
use crate::text::contains_text;
use crate::wire::{ethernet_header, ipv4_header, ipv6_header, tcp_header, udp_header};

verus! {

/// The Ethernet type of IPv4.
pub const ETHERTYPE_IPV4: u16 = 0x0800;

/// The Ethernet type of IPv6.
pub const ETHERTYPE_IPV6: u16 = 0x86DD;

/// The IP protocol number of TCP.
pub const PROTOCOL_TCP: u8 = 6;

/// The IP protocol number of UDP.
pub const PROTOCOL_UDP: u8 = 17;

/// What is known of one packet.
pub struct PacketInfo {
    /// The sender's address as text.
    pub src_ip: String,
    /// The sender's address.
    pub src_address: IpAddress,
    /// The receiver's address as text.
    pub dst_ip: String,
    /// `TCP`, `UDP` or `IPv6`.
    pub transport: &'static str,
    /// The sender's port, zero where the transport is not looked into.
    pub src_port: u16,
    /// The receiver's port, zero where the transport is not looked into.
    pub dst_port: u16,
    /// The length in bytes that the IP header states.
    pub length: u64,
    /// The TCP flags that are set, such as `SYN|ACK`; empty for others.
    pub flags: String,
}

/// What is known of one packet, as mathematical values.
pub struct PacketFacts {
    /// The sender's address as text.
    pub src_ip: Seq<char>,
    /// The octets of the sender's address.
    pub src_octets: Seq<u8>,
    /// The receiver's address as text.
    pub dst_ip: Seq<char>,
    /// The transport protocol.
    pub transport: Seq<char>,
    /// The sender's port.
    pub src_port: u16,
    /// The receiver's port.
    pub dst_port: u16,
    /// The length in bytes.
    pub length: nat,
    /// The TCP flags that are set.
    pub flags: Seq<char>,
}

impl View for PacketInfo {
    type V = PacketFacts;

    open spec fn view(&self) -> PacketFacts {
        PacketFacts {
            src_ip: self.src_ip@,
            src_octets: self.src_address@,
            dst_ip: self.dst_ip@,
            transport: self.transport@,
            src_port: self.src_port,
            dst_port: self.dst_port,
            length: self.length as nat,
            flags: self.flags@,
        }
    }
}

/// The one-element list of `name` where `set` holds, else the empty list.
pub open spec fn name_if(set: bool, name: Seq<char>) -> Seq<Seq<char>> {
    if set {
        seq![name]
    } else {
        Seq::empty()
    }
}

/// The names of the TCP flags that are set in `bits`.
pub open spec fn flag_names(bits: u8) -> Seq<Seq<char>> {
    name_if(bits & 0x02 != 0, "SYN"@) + name_if(bits & 0x10 != 0, "ACK"@) + name_if(
        bits & 0x01 != 0,
        "FIN"@,
    ) + name_if(bits & 0x04 != 0, "RST"@) + name_if(bits & 0x08 != 0, "PSH"@) + name_if(
        bits & 0x20 != 0,
        "URG"@,
    )
}

/// The TCP flags that are set in `bits`, as text.
pub open spec fn flag_text(bits: u8) -> Seq<char> {
    crate::text::joined(flag_names(bits), "|"@)
}

/// Whether a packet with these flags asks for a connection: `SYN` without
/// `ACK`.
pub open spec fn is_bare_syn(flags: Seq<char>) -> bool {
    crate::text::occurs_in("SYN"@, flags) && !crate::text::occurs_in("ACK"@, flags)
}

/// The facts of an IPv4 packet; only TCP and UDP are looked into.
pub open spec fn ipv4_facts(b: Seq<u8>) -> Option<PacketFacts> {
    let body = crate::wire::ipv4_body(b);
    let base = PacketFacts {
        src_ip: crate::address::ipv4_text(b.subrange(12, 16)),
        src_octets: b.subrange(12, 16),
        dst_ip: crate::address::ipv4_text(b.subrange(16, 20)),
        transport: "UDP"@,
        src_port: crate::wire::word(body, 0) as u16,
        dst_port: crate::wire::word(body, 2) as u16,
        length: crate::wire::word(b, 2),
        flags: Seq::empty(),
    };
    if b.len() < 20 {
        None
    } else if b[9] == PROTOCOL_TCP && body.len() >= 20 {
        Some(PacketFacts { transport: "TCP"@, flags: flag_text(body[13]), ..base })
    } else if b[9] == PROTOCOL_UDP && body.len() >= 8 {
        Some(base)
    } else {
        None
    }
}

/// The facts of an IPv6 packet, which is not looked into further.
pub open spec fn ipv6_facts(b: Seq<u8>) -> Option<PacketFacts> {
    if b.len() < 40 {
        None
    } else {
        Some(
            PacketFacts {
                src_ip: crate::wire::ipv6_text(b.subrange(8, 24)),
                src_octets: b.subrange(8, 24),
                dst_ip: crate::wire::ipv6_text(b.subrange(24, 40)),
                transport: "IPv6"@,
                src_port: 0,
                dst_port: 0,
                length: crate::wire::word(b, 4),
                flags: Seq::empty(),
            },
        )
    }
}

/// The facts of the packet that an Ethernet frame carries, if it is one that
/// is counted.
pub open spec fn frame_facts(data: Seq<u8>) -> Option<PacketFacts> {
    if data.len() < 14 {
        None
    } else if crate::wire::word(data, 12) == ETHERTYPE_IPV4 {
        ipv4_facts(data.skip(14))
    } else if crate::wire::word(data, 12) == ETHERTYPE_IPV6 {
        ipv6_facts(data.skip(14))
    } else {
        None
    }
}

/// The text of an address, given its four or sixteen octets.
pub open spec fn address_text(octets: Seq<u8>) -> Seq<char> {
    if octets.len() == 4 {
        crate::address::ipv4_text(octets)
    } else {
        crate::wire::ipv6_text(octets)
    }
}

/// Joins names with a separator.
fn join(names: &Vec<&'static str>, sep: &str) -> (r: String)
    ensures
        r@ == crate::text::joined(names@.map_values(|n: &'static str| n@), sep@),
{
    let ghost parts = names@.map_values(|n: &'static str| n@);
    let mut out: String = String::new();
    let mut i: usize = 0;
    while i < names.len()
        invariant
            parts == names@.map_values(|n: &'static str| n@),
            i <= names@.len(),
            out@ == crate::text::joined(parts.take(i as int), sep@),
        decreases names@.len() - i,
    {
        if i > 0 {
            out.append(sep);
        }
        out.append(names[i]);
        assert(parts.take(i + 1).drop_last() == parts.take(i as int));
        assert(parts.take(i + 1).last() == names@[i as int]@);
        assert(out@ =~= crate::text::joined(parts.take(i + 1), sep@));
        i = i + 1;
    }
    assert(parts.take(i as int) == parts);
    out
}

/// Decodes TCP flag bits into readable text such as `SYN|ACK`.
pub fn parse_tcp_flags(bits: u8) -> (r: String)
    ensures
        r@ == flag_text(bits),
{
    let mut names: Vec<&'static str> = Vec::new();
    if bits & 0x02 != 0 {
        names.push("SYN");
    }
    if bits & 0x10 != 0 {
        names.push("ACK");
    }
    if bits & 0x01 != 0 {
        names.push("FIN");
    }
    if bits & 0x04 != 0 {
        names.push("RST");
    }
    if bits & 0x08 != 0 {
        names.push("PSH");
    }
    if bits & 0x20 != 0 {
        names.push("URG");
    }
    assert(names@.map_values(|n: &'static str| n@) =~= flag_names(bits));
    join(&names, "|")
}

/// Tells whether a packet with these flags asks for a connection.
pub fn bare_syn(flags: &str) -> (r: bool)
    ensures
        r == is_bare_syn(flags@),
{
    contains_text(flags, "SYN") && !contains_text(flags, "ACK")
}

/// Reads one raw Ethernet frame.
pub fn parse_frame(data: &[u8]) -> (r: Option<PacketInfo>)
    ensures
        match r {
            Some(packet) => frame_facts(data@) == Some(packet@),
            None => frame_facts(data@) is None,
        },
{
    let eth = match ethernet_header(data) {
        Some(h) => h,
        None => return None,
    };
    if eth.ethertype == ETHERTYPE_IPV4 {
        let ip = match ipv4_header(eth.payload.as_slice()) {
            Some(h) => h,
            None => return None,
        };
        let src_ip = ipv4_to_text(ip.source);
        let dst_ip = ipv4_to_text(ip.destination);
        if ip.protocol == PROTOCOL_TCP {
            match tcp_header(ip.payload.as_slice()) {
                Some(tcp) => Some(
                    PacketInfo {
                        src_ip,
                        src_address: IpAddress::V4(ip.source),
                        dst_ip,
                        transport: "TCP",
                        src_port: tcp.source,
                        dst_port: tcp.destination,
                        length: ip.total_length as u64,
                        flags: parse_tcp_flags(tcp.flags),
                    },
                ),
                None => None,
            }
        } else if ip.protocol == PROTOCOL_UDP {
            match udp_header(ip.payload.as_slice()) {
                Some(udp) => Some(
                    PacketInfo {
                        src_ip,
                        src_address: IpAddress::V4(ip.source),
                        dst_ip,
                        transport: "UDP",
                        src_port: udp.source,
                        dst_port: udp.destination,
                        length: ip.total_length as u64,
                        flags: String::new(),
                    },
                ),
                None => None,
            }
        } else {
            None
        }
    } else if eth.ethertype == ETHERTYPE_IPV6 {
        match ipv6_header(eth.payload.as_slice()) {
            Some(ip) => Some(
                PacketInfo {
                    src_ip: ip.source_text,
                    src_address: IpAddress::V6(ip.source),
                    dst_ip: ip.destination_text,
                    transport: "IPv6",
                    src_port: 0,
                    dst_port: 0,
                    length: ip.payload_length as u64,
                    flags: String::new(),
                },
            ),
            None => None,
        }
    } else {
        None
    }
}

/// The text and the octets of a packet's sender are those of one address.
pub proof fn law_sender_text_is_its_address(data: Seq<u8>)
    ensures
        frame_facts(data) matches Some(packet) ==> packet.src_ip == address_text(packet.src_octets),
{
}

/// A joined text holds each of its parts.
pub proof fn lemma_joined_holds_part(parts: Seq<Seq<char>>, sep: Seq<char>, k: int)
    requires
        0 <= k < parts.len(),
    ensures
        crate::text::occurs_in(parts[k], crate::text::joined(parts, sep)),
    decreases parts.len(),
{
    let text = crate::text::joined(parts, sep);
    let part = parts[k];
    if parts.len() == 1 {
        assert(text.subrange(0, 0int + part.len()) == part);
    } else if k == parts.len() - 1 {
        let at = text.len() - part.len();
        assert(text.subrange(at, at + part.len()) == part);
    } else {
        let front = crate::text::joined(parts.drop_last(), sep);
        lemma_joined_holds_part(parts.drop_last(), sep, k);
        assert(parts.drop_last()[k] == part);
        let at = choose|i: int|
            0 <= i && i + part.len() <= front.len() && #[trigger] front.subrange(i, i + part.len())
                == part;
        assert(text.subrange(at, at + part.len()) == front.subrange(at, at + part.len()));
    }
}

/// A character that occurs neither in a part nor in the separator does not
/// occur in the joined text.
pub proof fn lemma_joined_lacks(parts: Seq<Seq<char>>, sep: Seq<char>, c: char)
    requires
        forall|k: int| 0 <= k < parts.len() ==> !(#[trigger] parts[k]).contains(c),
        !sep.contains(c),
    ensures
        !crate::text::joined(parts, sep).contains(c),
    decreases parts.len(),
{
    let text = crate::text::joined(parts, sep);
    if parts.len() >= 2 {
        let init = parts.drop_last();
        assert forall|k: int| 0 <= k < init.len() implies !(#[trigger] init[k]).contains(c) by {
            assert(init[k] == parts[k]);
        }
        lemma_joined_lacks(init, sep, c);
        let front = crate::text::joined(init, sep);
        assert forall|i: int| 0 <= i < text.len() implies text[i] != c by {
            if i < front.len() {
                assert(text[i] == front[i]);
            } else if i < front.len() + sep.len() {
                assert(text[i] == sep[i - front.len()]);
            } else {
                assert(text[i] == parts.last()[i - front.len() - sep.len()]);
            }
        }
    } else if parts.len() == 1 {
        assert(!parts[0].contains(c));
    }
}

/// A packet asks for a connection just where its `SYN` bit is set and its
/// `ACK` bit is not: the text of the flags says no more and no less.
pub proof fn law_flag_text_shows_bare_syn(bits: u8)
    ensures
        is_bare_syn(flag_text(bits)) <==> (bits & 0x02 != 0 && bits & 0x10 == 0),
{
    reveal_strlit("SYN");
    reveal_strlit("ACK");
    reveal_strlit("FIN");
    reveal_strlit("RST");
    reveal_strlit("PSH");
    reveal_strlit("URG");
    reveal_strlit("|");
    let names = flag_names(bits);
    let text = flag_text(bits);
    if bits & 0x02 != 0 {
        assert(names[0] == "SYN"@);
        lemma_joined_holds_part(names, "|"@, 0);
    } else {
        lemma_joined_lacks(names, "|"@, 'Y');
        assert(!crate::text::occurs_in("SYN"@, text)) by {
            if crate::text::occurs_in("SYN"@, text) {
                let i = choose|i: int|
                    0 <= i && i + 3 <= text.len() && #[trigger] text.subrange(i, i + 3) == "SYN"@;
                assert(text.subrange(i, i + 3)[1] == text[i + 1]);
            }
        }
    }
    if bits & 0x10 != 0 {
        let k: int = if bits & 0x02 != 0 {
            1
        } else {
            0
        };
        assert(names[k] == "ACK"@);
        lemma_joined_holds_part(names, "|"@, k);
    } else {
        lemma_joined_lacks(names, "|"@, 'K');
        assert(!crate::text::occurs_in("ACK"@, text)) by {
            if crate::text::occurs_in("ACK"@, text) {
                let i = choose|i: int|
                    0 <= i && i + 3 <= text.len() && #[trigger] text.subrange(i, i + 3) == "ACK"@;
                assert(text.subrange(i, i + 3)[2] == text[i + 2]);
            }
        }
    }
}

} // verus!
