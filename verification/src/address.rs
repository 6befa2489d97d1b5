//! IP addresses: their text and the ranges that are not routed publicly.

use vstd::prelude::*;
use vstd::string::*;

use crate::text::decimal_text;

verus! {

/// An IP address, as the octets that travel on the wire.
#[derive(Clone, Copy, Debug, PartialEq, Eq)]
pub enum IpAddress {
    /// An IPv4 address.
    V4([u8; 4]),
    /// An IPv6 address.
    V6([u8; 16]),
}

impl View for IpAddress {
    type V = Seq<u8>;

    /// The octets of the address: four or sixteen of them.
    open spec fn view(&self) -> Seq<u8> {
        match self {
            IpAddress::V4(octets) => octets@,
            IpAddress::V6(octets) => octets@,
        }
    }
}

/// The text of an IPv4 address: its four octets in decimal, parted by dots.
pub open spec fn ipv4_text(octets: Seq<u8>) -> Seq<char> {
    crate::text::decimal(octets[0] as nat) + seq!['.'] + crate::text::decimal(octets[1] as nat)
        + seq!['.'] + crate::text::decimal(octets[2] as nat) + seq!['.'] + crate::text::decimal(
        octets[3] as nat,
    )
}

/// Whether the address lies in the range that carriers share behind their
/// address translation, 100.64.0.0/10.
pub open spec fn in_cgnat_range(o: Seq<u8>) -> bool {
    o[0] == 100 && 64 <= o[1] <= 127
}

/// Whether an IPv4 address is one that no public host answers at: private
/// (10/8, 172.16/12, 192.168/16), loopback (127/8), link-local (169.254/16),
/// broadcast, unspecified, or shared by a carrier.
pub open spec fn ipv4_is_private(o: Seq<u8>) -> bool {
    ||| o[0] == 10
    ||| o[0] == 172 && 16 <= o[1] <= 31
    ||| o[0] == 192 && o[1] == 168
    ||| o[0] == 127
    ||| o[0] == 169 && o[1] == 254
    ||| o == seq![255u8, 255, 255, 255]
    ||| o == seq![0u8, 0, 0, 0]
    ||| in_cgnat_range(o)
}

/// Whether an IPv6 address is the loopback address `::1` or the unspecified
/// address `::`.
pub open spec fn ipv6_is_private(o: Seq<u8>) -> bool {
    &&& forall|i: int| 0 <= i < 15 ==> #[trigger] o[i] == 0
    &&& o[15] <= 1
}

/// Whether looking an address up in a public registry is pointless, given its
/// four or sixteen octets.
pub open spec fn octets_are_private(o: Seq<u8>) -> bool {
    if o.len() == 4 {
        ipv4_is_private(o)
    } else {
        ipv6_is_private(o)
    }
}

/// Writes an IPv4 address as dotted decimal text.
pub fn ipv4_to_text(octets: [u8; 4]) -> (r: String)
    ensures
        r@ == ipv4_text(octets@),
{
    proof {
        reveal_strlit(".");
        assert("."@ =~= seq!['.']);
    }
    let mut out: String = decimal_text(octets[0] as u64);
    out.append(".");
    out.append(decimal_text(octets[1] as u64).as_str());
    out.append(".");
    out.append(decimal_text(octets[2] as u64).as_str());
    out.append(".");
    out.append(decimal_text(octets[3] as u64).as_str());
    out
}

/// Tells whether an address lies in the carrier-shared range.
pub fn is_cgnat(ip: [u8; 4]) -> (r: bool)
    ensures
        r == in_cgnat_range(ip@),
{
    let second: u8 = ip[1];
    assert(((second & 0xC0) == 64) == (64 <= second && second <= 127)) by (bit_vector);
    ip[0] == 100 && (second & 0xC0) == 64
}

/// Tells whether every octet before the last is zero.
fn leading_octets_zero(octets: &[u8; 16]) -> (r: bool)
    ensures
        r == (forall|i: int| 0 <= i < 15 ==> #[trigger] octets@[i] == 0),
{
    let mut i: usize = 0;
    while i < 15
        invariant
            i <= 15,
            forall|j: int| 0 <= j < i ==> #[trigger] octets@[j] == 0,
        decreases 15 - i,
    {
        if octets[i] != 0 {
            return false;
        }
        i = i + 1;
    }
    true
}

/// Tells whether an address is private, in the wide sense of every range that
/// has no public location.
pub fn is_private_ip(ip: &IpAddress) -> (r: bool)
    ensures
        r == octets_are_private(ip@),
{
    match ip {
        IpAddress::V4(o) => {
            let private = o[0] == 10 || (o[0] == 172 && 16 <= o[1] && o[1] <= 31) || (o[0] == 192
                && o[1] == 168);
            let loopback = o[0] == 127;
            let link_local = o[0] == 169 && o[1] == 254;
            let broadcast = o[0] == 255 && o[1] == 255 && o[2] == 255 && o[3] == 255;
            let unspecified = o[0] == 0 && o[1] == 0 && o[2] == 0 && o[3] == 0;
            assert(broadcast ==> o@ =~= seq![255u8, 255, 255, 255]);
            assert(unspecified ==> o@ =~= seq![0u8, 0, 0, 0]);
            private || loopback || link_local || broadcast || unspecified || is_cgnat(*o)
        },
        IpAddress::V6(o) => leading_octets_zero(o) && o[15] <= 1,
    }
}

} // verus!
