//! Choosing the interface to capture from, and knowing this host's addresses.

use vstd::prelude::*;
use vstd::string::*;

use crate::text::{has_prefix, same_text};

verus! {

/// Whether a name is that of the loopback interface.
pub open spec fn is_loopback_name(name: Seq<char>) -> bool {
    name == "lo"@ || "loop"@.is_prefix_of(name)
}

/// Whether a name is that of a wired, wireless, bonded or bridged interface.
pub open spec fn is_preferred_name(name: Seq<char>) -> bool {
    &&& !is_loopback_name(name)
    &&& {
        ||| "eth"@.is_prefix_of(name)
        ||| "en"@.is_prefix_of(name)
        ||| "ens"@.is_prefix_of(name)
        ||| "wlan"@.is_prefix_of(name)
        ||| "wlp"@.is_prefix_of(name)
        ||| "bond"@.is_prefix_of(name)
        ||| "br"@.is_prefix_of(name)
    }
}

/// The first of `names` that `good` holds of.
pub open spec fn first_good(
    names: Seq<Seq<char>>,
    good: spec_fn(Seq<char>) -> bool,
) -> Option<Seq<char>>
    decreases names.len(),
{
    if names.len() == 0 {
        None
    } else if good(names[0]) {
        Some(names[0])
    } else {
        first_good(names.drop_first(), good)
    }
}

/// The interface that is chosen from a list: the first preferred one, or else
/// the first that is not the loopback interface.
pub open spec fn chosen_from(names: Seq<Seq<char>>) -> Option<Seq<char>> {
    match first_good(names, |n: Seq<char>| is_preferred_name(n)) {
        Some(name) => Some(name),
        None => first_good(names, |n: Seq<char>| !is_loopback_name(n)),
    }
}

/// The interface that is chosen from a list that may be missing.
pub open spec fn chosen_if_listed(listed: Option<Seq<Seq<char>>>) -> Option<Seq<char>> {
    match listed {
        Some(names) => chosen_from(names),
        None => None,
    }
}

/// The interface that is chosen: one from the list, if there is a list with
/// one to choose; or else the one that was looked up; or else `eth0`.
pub open spec fn chosen_interface(
    listed: Option<Seq<Seq<char>>>,
    looked_up: Option<Seq<char>>,
) -> Seq<char> {
    match chosen_if_listed(listed) {
        Some(name) => name,
        None => match looked_up {
            Some(name) => name,
            None => "eth0"@,
        },
    }
}

/// Whether an address is another one than `127.0.0.1`.
pub open spec fn is_other_address(ip: Seq<char>) -> bool {
    ip != "127.0.0.1"@
}

/// The addresses of this host: all that are listed, in their order, with
/// `127.0.0.1` standing once, at the end, whether it is listed or not.
pub open spec fn host_addresses(listed: Seq<Seq<char>>) -> Seq<Seq<char>> {
    listed.filter(|ip: Seq<char>| is_other_address(ip)).push("127.0.0.1"@)
}

/// The texts of a list that may be missing.
pub open spec fn listed_texts(listed: Option<Vec<String>>) -> Option<Seq<Seq<char>>> {
    match listed {
        Some(names) => Some(crate::text::texts(names@)),
        None => None,
    }
}

/// Tells whether a name is that of the loopback interface.
fn loopback_name(name: &str) -> (r: bool)
    ensures
        r == is_loopback_name(name@),
{
    same_text(name, "lo") || has_prefix(name, "loop")
}

/// Tells whether a name is that of a preferred interface.
fn preferred_name(name: &str) -> (r: bool)
    ensures
        r == is_preferred_name(name@),
{
    !loopback_name(name) && (has_prefix(name, "eth") || has_prefix(name, "en") || has_prefix(
        name,
        "ens",
    ) || has_prefix(name, "wlan") || has_prefix(name, "wlp") || has_prefix(name, "bond")
        || has_prefix(name, "br"))
}

/// The first preferred name.
fn first_preferred(names: &Vec<String>) -> (r: Option<String>)
    ensures
        first_good(crate::text::texts(names@), |n: Seq<char>| is_preferred_name(n))
            == crate::text::text_or_none(r),
{
    let ghost all = crate::text::texts(names@);
    let ghost good = |n: Seq<char>| is_preferred_name(n);
    let mut i: usize = 0;
    assert(all.skip(0) =~= all);
    while i < names.len()
        invariant
            all == crate::text::texts(names@),
            good == (|n: Seq<char>| is_preferred_name(n)),
            i <= names@.len(),
            first_good(all, good) == first_good(all.skip(i as int), good),
        decreases names@.len() - i,
    {
        assert(all.skip(i as int)[0] == names@[i as int]@);
        assert(all.skip(i as int).drop_first() =~= all.skip(i + 1));
        if preferred_name(names[i].as_str()) {
            return Some(names[i].clone());
        }
        i = i + 1;
    }
    None
}

/// The first name that is not that of the loopback interface.
fn first_not_loopback(names: &Vec<String>) -> (r: Option<String>)
    ensures
        first_good(crate::text::texts(names@), |n: Seq<char>| !is_loopback_name(n))
            == crate::text::text_or_none(r),
{
    let ghost all = crate::text::texts(names@);
    let ghost good = |n: Seq<char>| !is_loopback_name(n);
    let mut i: usize = 0;
    assert(all.skip(0) =~= all);
    while i < names.len()
        invariant
            all == crate::text::texts(names@),
            good == (|n: Seq<char>| !is_loopback_name(n)),
            i <= names@.len(),
            first_good(all, good) == first_good(all.skip(i as int), good),
        decreases names@.len() - i,
    {
        assert(all.skip(i as int)[0] == names@[i as int]@);
        assert(all.skip(i as int).drop_first() =~= all.skip(i + 1));
        if !loopback_name(names[i].as_str()) {
            return Some(names[i].clone());
        }
        i = i + 1;
    }
    None
}

/// Selects the best of the listed interfaces, if they could be listed and one
/// of them will do.
pub fn listed_interface(listed: &Option<Vec<String>>) -> (r: Option<String>)
    ensures
        crate::text::text_or_none(r) == chosen_if_listed(listed_texts(*listed)),
{
    match listed {
        Some(names) => match first_preferred(names) {
            Some(name) => Some(name),
            None => first_not_loopback(names),
        },
        None => None,
    }
}

/// Selects the best interface to capture from, given the names of the
/// interfaces, if they could be listed, and the one that the capture library
/// takes by default, if it has one. The latter counts only where no listed
/// interface will do.
pub fn auto_detect_interface(listed: &Option<Vec<String>>, looked_up: &Option<String>) -> (r:
    String)
    ensures
        r@ == chosen_interface(
            listed_texts(*listed),
            crate::text::text_or_none(*looked_up),
        ),
{
    if let Some(name) = listed_interface(listed) {
        return name;
    }
    match looked_up {
        Some(name) => name.clone(),
        None => "eth0".to_owned(),
    }
}

/// Gathers all addresses of this host, given those of its interfaces, if they
/// could be listed.
pub fn auto_detect_local_ips(listed: &Option<Vec<String>>) -> (r: Vec<String>)
    ensures
        crate::text::texts(r@) == host_addresses(
            match listed_texts(*listed) {
                Some(ips) => ips,
                None => Seq::empty(),
            },
        ),
{
    let ghost keep = |ip: Seq<char>| is_other_address(ip);
    let mut out: Vec<String> = Vec::new();
    let ghost mut kept: Seq<Seq<char>> = Seq::empty();
    proof {
        reveal(Seq::filter);
    }
    assert(crate::text::texts(out@) =~= kept.filter(keep));
    if let Some(ips) = listed {
        let ghost all = crate::text::texts(ips@);
        let mut i: usize = 0;
        assert(all.take(0) =~= kept);
        while i < ips.len()
            invariant
                all == crate::text::texts(ips@),
                keep == (|ip: Seq<char>| is_other_address(ip)),
                i <= ips@.len(),
                crate::text::texts(out@) == all.take(i as int).filter(keep),
            decreases ips@.len() - i,
        {
            proof {
                reveal(Seq::filter);
            }
            let ghost before = out@;
            assert(all.take(i + 1).drop_last() =~= all.take(i as int));
            assert(all.take(i + 1).last() == ips@[i as int]@);
            if !same_text(ips[i].as_str(), "127.0.0.1") {
                out.push(ips[i].clone());
                assert(crate::text::texts(out@) =~= crate::text::texts(before).push(
                    ips@[i as int]@,
                ));
            }
            i = i + 1;
        }
        proof {
            kept = all;
        }
        assert(all.take(i as int) =~= all);
    }
    let ghost before = out@;
    out.push("127.0.0.1".to_owned());
    assert(crate::text::texts(out@) =~= crate::text::texts(before).push("127.0.0.1"@));
    out
}

/// All addresses of this host's interfaces are among its addresses, and
/// `127.0.0.1` is, and no others are.
pub proof fn law_host_addresses_are_all(listed: Seq<Seq<char>>, ip: Seq<char>)
    ensures
        host_addresses(listed).contains(ip) <==> listed.contains(ip) || ip == "127.0.0.1"@,
{
    let good = |a: Seq<char>| is_other_address(a);
    let kept = listed.filter(good);
    let all = host_addresses(listed);
    assert(all[all.len() - 1] == "127.0.0.1"@);
    if listed.contains(ip) && ip != "127.0.0.1"@ {
        let i = choose|i: int| 0 <= i < listed.len() && listed[i] == ip;
        listed.lemma_filter_contains(good, i);
        let k = choose|k: int| 0 <= k < kept.len() && kept[k] == ip;
        assert(all[k] == ip);
    }
    if all.contains(ip) && ip != "127.0.0.1"@ {
        let k = choose|k: int| 0 <= k < all.len() && all[k] == ip;
        assert(kept[k] == ip);
        listed.lemma_filter_contains_rev(good, ip);
    }
}

/// `127.0.0.1` stands once among the addresses of this host, at the end.
pub proof fn law_host_knows_itself(listed: Seq<Seq<char>>, k: int)
    requires
        0 <= k < host_addresses(listed).len(),
    ensures
        host_addresses(listed)[k] == "127.0.0.1"@ <==> k == host_addresses(listed).len() - 1,
{
    let good = |a: Seq<char>| is_other_address(a);
    let kept = listed.filter(good);
    if k < kept.len() {
        listed.lemma_filter_pred(good, k);
    }
}

} // verus!
