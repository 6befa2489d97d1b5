//! Laws of reading frames, byte by byte.

use vstd::prelude::*;

verus! {

/// Where what an IPv4 frame carries begins: behind the Ethernet header and the
/// IPv4 header, which has at least twenty bytes.
pub open spec fn body_begin(data: Seq<u8>) -> int {
    let header = 4 * (data[14] as int % 16);
    14 + if header < 20 {
        20
    } else {
        header
    }
}

/// How many bytes an IPv4 frame carries: as many as its total length leaves
/// beside the header, and no more than there are.
pub open spec fn body_size(data: Seq<u8>) -> int {
    let header = 4 * (data[14] as int % 16);
    let claimed = 256 * data[16] as int + data[17] as int - header;
    let there = data.len() - body_begin(data);
    if claimed < 0 || there < 0 {
        0
    } else if claimed < there {
        claimed
    } else {
        there
    }
}

/// An IPv4 frame carries a packet that is counted just where it holds a whole
/// TCP or UDP header; and what is known of that packet stands at its place in
/// the frame.
pub proof fn law_ipv4_frame_is_read(data: Seq<u8>)
    requires
        data.len() >= 34,
        data[12] == 0x08,
        data[13] == 0x00,
    ensures
        ({
            let facts = crate::packet::frame_facts(data);
            let tcp = data[23] == 6 && body_size(data) >= 20;
            let udp = data[23] == 17 && body_size(data) >= 8;
            let at = body_begin(data);
            &&& facts is Some <==> tcp || udp
            &&& facts matches Some(p) ==> {
                &&& p.src_octets == seq![data[26], data[27], data[28], data[29]]
                &&& p.src_ip == crate::address::ipv4_text(
                    seq![data[26], data[27], data[28], data[29]],
                )
                &&& p.dst_ip == crate::address::ipv4_text(
                    seq![data[30], data[31], data[32], data[33]],
                )
                &&& p.length == 256 * data[16] as int + data[17] as int
                &&& p.src_port == 256 * data[at] as int + data[at + 1] as int
                &&& p.dst_port == 256 * data[at + 2] as int + data[at + 3] as int
                &&& tcp ==> p.transport == "TCP"@ && p.flags == crate::packet::flag_text(
                    data[at + 13],
                )
                &&& udp ==> p.transport == "UDP"@ && p.flags.len() == 0
            }
        }),
{
    let b = data.skip(14);
    let body = crate::wire::ipv4_body(b);
    assert(b[9] == data[23]);
    assert(b.subrange(12, 16) =~= seq![data[26], data[27], data[28], data[29]]);
    assert(b.subrange(16, 20) =~= seq![data[30], data[31], data[32], data[33]]);
    assert(body.len() == body_size(data));
    assert(forall|k: int|
        0 <= k < body.len() ==> #[trigger] body[k] == data[body_begin(data) + k]);
}

/// An IPv6 frame carries a packet that is counted just where its header is
/// whole; its ports are not looked at, and it has no flags.
pub proof fn law_ipv6_frame_is_read(data: Seq<u8>)
    requires
        data.len() >= 14,
        data[12] == 0x86,
        data[13] == 0xDD,
    ensures
        ({
            let facts = crate::packet::frame_facts(data);
            &&& facts is Some <==> data.len() >= 54
            &&& facts matches Some(p) ==> {
                &&& p.src_octets == Seq::new(16, |i: int| data[22 + i])
                &&& p.src_ip == crate::wire::ipv6_text(Seq::new(16, |i: int| data[22 + i]))
                &&& p.dst_ip == crate::wire::ipv6_text(Seq::new(16, |i: int| data[38 + i]))
                &&& p.transport == "IPv6"@
                &&& p.src_port == 0
                &&& p.dst_port == 0
                &&& p.length == 256 * data[18] as int + data[19] as int
                &&& p.flags.len() == 0
            }
        }),
{
    if data.len() >= 54 {
        let b = data.skip(14);
        assert(b.subrange(8, 24) =~= Seq::new(16, |i: int| data[22 + i]));
        assert(b.subrange(24, 40) =~= Seq::new(16, |i: int| data[38 + i]));
    }
}

/// A frame that is cut short, or of another kind, carries nothing to count.
pub proof fn law_other_frames_carry_nothing(data: Seq<u8>)
    requires
        data.len() < 14 || !((data[12] == 0x08 && data[13] == 0x00 && data.len() >= 34) || (data[12]
            == 0x86 && data[13] == 0xDD && data.len() >= 54)),
    ensures
        crate::packet::frame_facts(data) is None,
{
}

/// What stands behind the packet that a frame carries makes no difference:
/// frames may be padded.
pub proof fn law_padding_makes_no_difference(data: Seq<u8>, padding: Seq<u8>)
    requires
        data.len() >= 34,
        data[12] == 0x08,
        data[13] == 0x00,
        4 * (data[14] as int % 16) >= 20,
        14 + 256 * data[16] as int + data[17] as int <= data.len(),
    ensures
        crate::packet::frame_facts(data + padding) == crate::packet::frame_facts(data),
{
    let longer = data + padding;
    law_ipv4_frame_is_read(data);
    law_ipv4_frame_is_read(longer);
    assert(forall|i: int| 0 <= i < data.len() ==> #[trigger] longer[i] == data[i]);
    assert(body_size(longer) == body_size(data));
    if crate::packet::frame_facts(data) is Some {
        let p = crate::packet::frame_facts(data)->0;
        let q = crate::packet::frame_facts(longer)->0;
        assert(p.flags =~= q.flags);
    }
}

/// The length of three-letter names that are joined by one sign.
proof fn lemma_joined_len(parts: Seq<Seq<char>>, sep: Seq<char>)
    requires
        sep.len() == 1,
        forall|k: int| 0 <= k < parts.len() ==> (#[trigger] parts[k]).len() == 3,
    ensures
        crate::text::joined(parts, sep).len() == if parts.len() == 0 {
            0
        } else {
            4 * parts.len() - 1
        },
    decreases parts.len(),
{
    if parts.len() > 1 {
        let init = parts.drop_last();
        assert forall|k: int| 0 <= k < init.len() implies (#[trigger] init[k]).len() == 3 by {
            assert(init[k] == parts[k]);
        }
        lemma_joined_len(init, sep);
        assert(parts[parts.len() - 1].len() == 3);
    } else if parts.len() == 1 {
        assert(parts[0].len() == 3);
    }
}

/// One for a bit that is set, zero for one that is not.
pub open spec fn one_if(set: bool) -> nat {
    if set {
        1
    } else {
        0
    }
}

/// The text of the flags names each flag that is set, and no other: three
/// letters each, and one sign between each two.
pub proof fn law_flag_text_names_the_set_bits(bits: u8)
    ensures
        ({
            let text = crate::packet::flag_text(bits);
            let count = one_if(bits & 0x01 != 0) + one_if(bits & 0x02 != 0) + one_if(
                bits & 0x04 != 0,
            ) + one_if(bits & 0x08 != 0) + one_if(bits & 0x10 != 0) + one_if(bits & 0x20 != 0);
            &&& text.len() == if count == 0 {
                0
            } else {
                4 * count - 1
            }
            &&& crate::text::occurs_in("FIN"@, text) <==> bits & 0x01 != 0
            &&& crate::text::occurs_in("SYN"@, text) <==> bits & 0x02 != 0
            &&& crate::text::occurs_in("RST"@, text) <==> bits & 0x04 != 0
            &&& crate::text::occurs_in("PSH"@, text) <==> bits & 0x08 != 0
            &&& crate::text::occurs_in("ACK"@, text) <==> bits & 0x10 != 0
            &&& crate::text::occurs_in("URG"@, text) <==> bits & 0x20 != 0
        }),
{
    let names = crate::packet::flag_names(bits);
    lemma_flag_places(bits);
    lemma_flag_letters();
    assert forall|k: int| 0 <= k < names.len() implies (#[trigger] names[k]).len() == 3 by {}
    lemma_joined_len(names, "|"@);
    let syn = one_if(bits & 0x02 != 0);
    let ack = syn + one_if(bits & 0x10 != 0);
    let fin = ack + one_if(bits & 0x01 != 0);
    let rst = fin + one_if(bits & 0x04 != 0);
    let psh = rst + one_if(bits & 0x08 != 0);
    lemma_named_iff(bits, "SYN"@, 'Y', bits & 0x02 != 0, 0);
    lemma_named_iff(bits, "ACK"@, 'K', bits & 0x10 != 0, syn as int);
    lemma_named_iff(bits, "FIN"@, 'I', bits & 0x01 != 0, ack as int);
    lemma_named_iff(bits, "RST"@, 'T', bits & 0x04 != 0, fin as int);
    lemma_named_iff(bits, "PSH"@, 'H', bits & 0x08 != 0, rst as int);
    lemma_named_iff(bits, "URG"@, 'U', bits & 0x20 != 0, psh as int);
}

/// Which flag is named at which place.
#[verifier::rlimit(40)]
proof fn lemma_flag_places(bits: u8)
    ensures
        ({
            let names = crate::packet::flag_names(bits);
            let syn = one_if(bits & 0x02 != 0);
            let ack = syn + one_if(bits & 0x10 != 0);
            let fin = ack + one_if(bits & 0x01 != 0);
            let rst = fin + one_if(bits & 0x04 != 0);
            let psh = rst + one_if(bits & 0x08 != 0);
            let urg = psh + one_if(bits & 0x20 != 0);
            &&& names.len() == urg
            &&& bits & 0x02 != 0 ==> names[0] == "SYN"@
            &&& bits & 0x10 != 0 ==> names[syn as int] == "ACK"@
            &&& bits & 0x01 != 0 ==> names[ack as int] == "FIN"@
            &&& bits & 0x04 != 0 ==> names[fin as int] == "RST"@
            &&& bits & 0x08 != 0 ==> names[rst as int] == "PSH"@
            &&& bits & 0x20 != 0 ==> names[psh as int] == "URG"@
            &&& forall|k: int|
                0 <= k < names.len() ==> {
                    let name = #[trigger] names[k];
                    ||| bits & 0x02 != 0 && name == "SYN"@
                    ||| bits & 0x10 != 0 && name == "ACK"@
                    ||| bits & 0x01 != 0 && name == "FIN"@
                    ||| bits & 0x04 != 0 && name == "RST"@
                    ||| bits & 0x08 != 0 && name == "PSH"@
                    ||| bits & 0x20 != 0 && name == "URG"@
                }
        }),
{
    let n1 = crate::packet::name_if(bits & 0x02 != 0, "SYN"@);
    let n2 = n1 + crate::packet::name_if(bits & 0x10 != 0, "ACK"@);
    let n3 = n2 + crate::packet::name_if(bits & 0x01 != 0, "FIN"@);
    let n4 = n3 + crate::packet::name_if(bits & 0x04 != 0, "RST"@);
    let n5 = n4 + crate::packet::name_if(bits & 0x08 != 0, "PSH"@);
    lemma_name_added(n1, bits & 0x10 != 0, "ACK"@);
    lemma_name_added(n2, bits & 0x01 != 0, "FIN"@);
    lemma_name_added(n3, bits & 0x04 != 0, "RST"@);
    lemma_name_added(n4, bits & 0x08 != 0, "PSH"@);
    lemma_name_added(n5, bits & 0x20 != 0, "URG"@);
    let names = crate::packet::flag_names(bits);
    assert(names == n5 + crate::packet::name_if(bits & 0x20 != 0, "URG"@));
    assert forall|k: int| 0 <= k < names.len() implies ({
        let name = #[trigger] names[k];
        ||| bits & 0x02 != 0 && name == "SYN"@
        ||| bits & 0x10 != 0 && name == "ACK"@
        ||| bits & 0x01 != 0 && name == "FIN"@
        ||| bits & 0x04 != 0 && name == "RST"@
        ||| bits & 0x08 != 0 && name == "PSH"@
        ||| bits & 0x20 != 0 && name == "URG"@
    }) by {
        if k < n5.len() {
            assert(names[k] == n5[k]);
            if k < n4.len() {
                assert(n5[k] == n4[k]);
                if k < n3.len() {
                    assert(n4[k] == n3[k]);
                    if k < n2.len() {
                        assert(n3[k] == n2[k]);
                        if k < n1.len() {
                            assert(n2[k] == n1[k]);
                        }
                    }
                }
            }
        }
    }
}

/// The names once one more is put behind them, if it is set.
#[verifier::spinoff_prover]
proof fn lemma_name_added(front: Seq<Seq<char>>, set: bool, name: Seq<char>)
    ensures
        ({
            let all = front + crate::packet::name_if(set, name);
            &&& all.len() == front.len() + one_if(set)
            &&& set ==> all[front.len() as int] == name
            &&& forall|k: int| 0 <= k < front.len() ==> #[trigger] all[k] == front[k]
        }),
{
}

/// Each flag has three letters, one of which no other flag has.
proof fn lemma_flag_letters()
    ensures
        "SYN"@.len() == 3 && "ACK"@.len() == 3 && "FIN"@.len() == 3,
        "RST"@.len() == 3 && "PSH"@.len() == 3 && "URG"@.len() == 3,
        "|"@.len() == 1,
        forall|c: char| #[trigger]
            "SYN"@.contains(c) <==> c == 'S' || c == 'Y' || c == 'N',
        forall|c: char| #[trigger]
            "ACK"@.contains(c) <==> c == 'A' || c == 'C' || c == 'K',
        forall|c: char| #[trigger]
            "FIN"@.contains(c) <==> c == 'F' || c == 'I' || c == 'N',
        forall|c: char| #[trigger]
            "RST"@.contains(c) <==> c == 'R' || c == 'S' || c == 'T',
        forall|c: char| #[trigger]
            "PSH"@.contains(c) <==> c == 'P' || c == 'S' || c == 'H',
        forall|c: char| #[trigger]
            "URG"@.contains(c) <==> c == 'U' || c == 'R' || c == 'G',
        forall|c: char| #[trigger] "|"@.contains(c) <==> c == '|',
{
    reveal_strlit("SYN");
    reveal_strlit("ACK");
    reveal_strlit("FIN");
    reveal_strlit("RST");
    reveal_strlit("PSH");
    reveal_strlit("URG");
    reveal_strlit("|");
    lemma_three_letters("SYN"@);
    lemma_three_letters("ACK"@);
    lemma_three_letters("FIN"@);
    lemma_three_letters("RST"@);
    lemma_three_letters("PSH"@);
    lemma_three_letters("URG"@);
    assert("|"@[0] == '|');
}

/// The characters of a text of three.
proof fn lemma_three_letters(s: Seq<char>)
    requires
        s.len() == 3,
    ensures
        forall|c: char| #[trigger] s.contains(c) <==> c == s[0] || c == s[1] || c == s[2],
{
}

/// A flag whose name stands at place `at` of the names if it is set, and has a
/// letter of its own, occurs in the text just where it is set.
proof fn lemma_named_iff(bits: u8, name: Seq<char>, letter: char, set: bool, at: int)
    requires
        name.contains(letter),
        !"|"@.contains(letter),
        set ==> 0 <= at < crate::packet::flag_names(bits).len() && crate::packet::flag_names(
            bits,
        )[at] == name,
        !set ==> forall|k: int|
            0 <= k < crate::packet::flag_names(bits).len() ==> !(
            #[trigger] crate::packet::flag_names(bits)[k]).contains(letter),
    ensures
        crate::text::occurs_in(name, crate::packet::flag_text(bits)) <==> set,
{
    let names = crate::packet::flag_names(bits);
    let text = crate::packet::flag_text(bits);
    if set {
        crate::packet::lemma_joined_holds_part(names, "|"@, at);
    } else {
        crate::packet::lemma_joined_lacks(names, "|"@, letter);
        if crate::text::occurs_in(name, text) {
            let i = choose|i: int|
                0 <= i && i + name.len() <= text.len() && #[trigger] text.subrange(
                    i,
                    i + name.len(),
                ) == name;
            let k = choose|k: int| 0 <= k < name.len() && name[k] == letter;
            assert(text.subrange(i, i + name.len())[k] == text[i + k]);
        }
    }
}

} // verus!
