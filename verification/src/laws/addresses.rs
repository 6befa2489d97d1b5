//! Laws of addresses and interfaces.

use vstd::prelude::*;

verus! {

/// An IPv4 address as one number, its first octet counting most.
pub open spec fn ipv4_number(o: Seq<u8>) -> int {
    ((o[0] as int * 256 + o[1] as int) * 256 + o[2] as int) * 256 + o[3] as int
}

/// The IPv4 addresses that are private, as ranges of numbers: unspecified,
/// 10.0.0.0/8, 100.64.0.0/10, 127.0.0.0/8, 169.254.0.0/16, 172.16.0.0/12,
/// 192.168.0.0/16 and the broadcast address.
pub proof fn law_private_ipv4_ranges(o: Seq<u8>)
    requires
        o.len() == 4,
    ensures
        ({
            let n = ipv4_number(o);
            crate::address::octets_are_private(o) <==> {
                ||| n == 0
                ||| 0x0A00_0000 <= n <= 0x0AFF_FFFF
                ||| 0x6440_0000 <= n <= 0x647F_FFFF
                ||| 0x7F00_0000 <= n <= 0x7FFF_FFFF
                ||| 0xA9FE_0000 <= n <= 0xA9FE_FFFF
                ||| 0xAC10_0000 <= n <= 0xAC1F_FFFF
                ||| 0xC0A8_0000 <= n <= 0xC0A8_FFFF
                ||| n == 0xFFFF_FFFF
            }
        }),
{
    let all = seq![255u8, 255, 255, 255];
    let none = seq![0u8, 0, 0, 0];
    assert(o == all <==> o[0] == 255 && o[1] == 255 && o[2] == 255 && o[3] == 255) by {
        if o[0] == 255 && o[1] == 255 && o[2] == 255 && o[3] == 255 {
            assert(o =~= all);
        }
    }
    assert(o == none <==> o[0] == 0 && o[1] == 0 && o[2] == 0 && o[3] == 0) by {
        if o[0] == 0 && o[1] == 0 && o[2] == 0 && o[3] == 0 {
            assert(o =~= none);
        }
    }
}

/// The range that carriers share is the ten-bit prefix 100.64.
pub proof fn law_carrier_range(o: Seq<u8>)
    requires
        o.len() == 4,
    ensures
        crate::address::in_cgnat_range(o) <==> ipv4_number(o) / 0x40_0000 == 0x191,
{
}

/// The IPv6 addresses that are private: the unspecified address and the
/// loopback address.
pub proof fn law_private_ipv6(o: Seq<u8>)
    requires
        o.len() == 16,
    ensures
        crate::address::octets_are_private(o) <==> o == Seq::new(16, |i: int| 0u8) || o == Seq::new(
            16,
            |i: int|
                if i == 15 {
                    1u8
                } else {
                    0u8
                },
        ),
{
    let none = Seq::new(16, |i: int| 0u8);
    let one = Seq::new(
        16,
        |i: int|
            if i == 15 {
                1u8
            } else {
                0u8
            },
    );
    if crate::address::octets_are_private(o) {
        if o[15] == 0 {
            assert(o =~= none);
        } else {
            assert(o =~= one);
        }
    }
}

/// The text of an IPv4 address is its octets in decimal, in their order, with
/// a dot between each two.
pub proof fn law_ipv4_text_is_dotted(o: Seq<u8>)
    requires
        o.len() == 4,
    ensures
        crate::address::ipv4_text(o) == crate::text::joined(
            o.map_values(|octet: u8| crate::text::decimal(octet as nat)),
            seq!['.'],
        ),
{
    let parts = o.map_values(|octet: u8| crate::text::decimal(octet as nat));
    reveal_with_fuel(crate::text::joined, 5);
    let three = parts.drop_last();
    let two = three.drop_last();
    let one = two.drop_last();
    assert(one.len() == 1 && one[0] == parts[0]);
    assert(two.last() == parts[1] && three.last() == parts[2] && parts.last() == parts[3]);
    assert(crate::address::ipv4_text(o) =~= crate::text::joined(parts, seq!['.']));
}

/// Whether `name` begins with `prefix`.
pub open spec fn begins_with(name: Seq<char>, prefix: Seq<char>) -> bool {
    name.len() >= prefix.len() && name.take(prefix.len() as int) == prefix
}

/// Which names are preferred: those that begin as wired, wireless, bonded or
/// bridged interfaces do.
pub proof fn law_preferred_names(name: Seq<char>)
    ensures
        crate::interface::is_preferred_name(name) <==> begins_with(name, "eth"@) || begins_with(
            name,
            "en"@,
        ) || begins_with(name, "wlan"@) || begins_with(name, "wlp"@) || begins_with(name, "bond"@)
            || begins_with(name, "br"@),
{
    reveal_strlit("eth");
    reveal_strlit("en");
    reveal_strlit("ens");
    reveal_strlit("wlan");
    reveal_strlit("wlp");
    reveal_strlit("bond");
    reveal_strlit("br");
    reveal_strlit("lo");
    reveal_strlit("loop");
    lemma_begins(name, "eth"@);
    lemma_begins(name, "en"@);
    lemma_begins(name, "ens"@);
    lemma_begins(name, "wlan"@);
    lemma_begins(name, "wlp"@);
    lemma_begins(name, "bond"@);
    lemma_begins(name, "br"@);
    lemma_begins(name, "loop"@);
    if begins_with(name, "ens"@) {
        assert(name.take(2) =~= name.take(3).take(2));
        assert("ens"@.take(2) =~= "en"@);
    }
    if crate::interface::is_loopback_name(name) {
        assert(name[0] == 'l');
    }
    if begins_with(name, "eth"@) {
        assert(name[0] == 'e');
    }
    if begins_with(name, "en"@) {
        assert(name[0] == 'e');
    }
    if begins_with(name, "wlan"@) {
        assert(name[0] == 'w');
    }
    if begins_with(name, "wlp"@) {
        assert(name[0] == 'w');
    }
    if begins_with(name, "bond"@) {
        assert(name[0] == 'b');
    }
    if begins_with(name, "br"@) {
        assert(name[0] == 'b');
    }
}

/// Beginning with a text, in two ways of saying it.
proof fn lemma_begins(name: Seq<char>, prefix: Seq<char>)
    ensures
        prefix.is_prefix_of(name) <==> begins_with(name, prefix),
        begins_with(name, prefix) && prefix.len() > 0 ==> name[0] == prefix[0],
{
    if prefix.len() <= name.len() {
        assert(name.subrange(0, prefix.len() as int) =~= name.take(prefix.len() as int));
    }
    if begins_with(name, prefix) && prefix.len() > 0 {
        assert(name.take(prefix.len() as int)[0] == name[0]);
    }
}

/// Which names are those of the loopback interface.
pub proof fn law_loopback_names(name: Seq<char>)
    ensures
        crate::interface::is_loopback_name(name) <==> name == "lo"@ || begins_with(name, "loop"@),
{
    lemma_begins(name, "loop"@);
}

/// The first name that is good, by its place.
proof fn lemma_first_good_at(
    names: Seq<Seq<char>>,
    good: spec_fn(Seq<char>) -> bool,
    i: int,
)
    requires
        0 <= i < names.len(),
        good(names[i]),
        forall|j: int| 0 <= j < i ==> !good(#[trigger] names[j]),
    ensures
        crate::interface::first_good(names, good) == Some(names[i]),
    decreases names.len(),
{
    if i > 0 {
        let rest = names.drop_first();
        assert(!good(names[0]));
        assert forall|j: int| 0 <= j < i - 1 implies !good(#[trigger] rest[j]) by {
            assert(rest[j] == names[j + 1]);
        }
        lemma_first_good_at(rest, good, i - 1);
    }
}

/// Where no name is good, there is no first one.
proof fn lemma_none_good(names: Seq<Seq<char>>, good: spec_fn(Seq<char>) -> bool)
    requires
        forall|j: int| 0 <= j < names.len() ==> !good(#[trigger] names[j]),
    ensures
        crate::interface::first_good(names, good) is None,
    decreases names.len(),
{
    if names.len() > 0 {
        let rest = names.drop_first();
        assert(!good(names[0]));
        assert forall|j: int| 0 <= j < rest.len() implies !good(#[trigger] rest[j]) by {
            assert(rest[j] == names[j + 1]);
        }
        lemma_none_good(rest, good);
    }
}

/// The first preferred interface is chosen, whatever stands before it and
/// whatever the default is.
pub proof fn law_first_preferred_is_chosen(
    names: Seq<Seq<char>>,
    looked_up: Option<Seq<char>>,
    i: int,
)
    requires
        0 <= i < names.len(),
        crate::interface::is_preferred_name(names[i]),
        forall|j: int|
            0 <= j < i ==> !crate::interface::is_preferred_name(#[trigger] names[j]),
    ensures
        crate::interface::chosen_interface(Some(names), looked_up) == names[i],
        crate::interface::chosen_if_listed(Some(names)) == Some(names[i]),
{
    let good = |n: Seq<char>| crate::interface::is_preferred_name(n);
    lemma_first_good_at(names, good, i);
}

/// Where no interface is preferred, the first that is not the loopback
/// interface is chosen.
pub proof fn law_fallback_is_chosen(
    names: Seq<Seq<char>>,
    looked_up: Option<Seq<char>>,
    i: int,
)
    requires
        0 <= i < names.len(),
        !crate::interface::is_loopback_name(names[i]),
        forall|j: int|
            0 <= j < names.len() ==> !crate::interface::is_preferred_name(#[trigger] names[j]),
        forall|j: int| 0 <= j < i ==> crate::interface::is_loopback_name(#[trigger] names[j]),
    ensures
        crate::interface::chosen_interface(Some(names), looked_up) == names[i],
        crate::interface::chosen_if_listed(Some(names)) == Some(names[i]),
{
    lemma_none_good(names, |n: Seq<char>| crate::interface::is_preferred_name(n));
    lemma_first_good_at(names, |n: Seq<char>| !crate::interface::is_loopback_name(n), i);
}

/// Where there is none but the loopback interface, or no list, the default is
/// chosen, and `eth0` where there is none.
pub proof fn law_default_is_chosen(
    listed: Option<Seq<Seq<char>>>,
    looked_up: Option<Seq<char>>,
)
    requires
        listed matches Some(names) ==> forall|j: int|
            0 <= j < names.len() ==> crate::interface::is_loopback_name(#[trigger] names[j]),
    ensures
        crate::interface::chosen_if_listed(listed) is None,
        crate::interface::chosen_interface(listed, looked_up) == match looked_up {
            Some(name) => name,
            None => "eth0"@,
        },
{
    if let Some(names) = listed {
        lemma_none_good(names, |n: Seq<char>| crate::interface::is_preferred_name(n));
        lemma_none_good(names, |n: Seq<char>| !crate::interface::is_loopback_name(n));
    }
}

} // verus!
