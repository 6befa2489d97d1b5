//! Laws of the limit on location requests, of who is asked for, and of rate
//! windows and checks.

use vstd::prelude::*;

verus! {

/// A request is granted where a minute has passed since the window began, or
/// fewer than fourteen were made in it; and nowhere else. It is counted where
/// it is granted; a new window begins where the minute has passed.
pub proof fn law_request_is_granted(m: crate::state::TrafficModel, now: nat)
    ensures
        ({
            let renewed = now >= m.geoip_window_start + 60_000_000_000;
            let granted = renewed || m.geoip_calls < 14;
            let after = crate::state::model_after_attempt(m, now);
            let asked = crate::state::geoip_window_at(m, now);
            let calls = if renewed {
                0nat
            } else {
                m.geoip_calls
            };
            &&& crate::state::geoip_allowed(m, now) == granted
            &&& after.geoip_calls == if granted {
                calls + 1
            } else {
                calls
            }
            &&& after.geoip_window_start == if renewed {
                now
            } else {
                m.geoip_window_start
            }
            &&& asked.geoip_calls == calls
            &&& asked.geoip_window_start == after.geoip_window_start
        }),
{
}

/// Attempts and questions whether a request may be made change nothing but the
/// window of requests.
pub proof fn law_attempt_changes_nothing_else(m: crate::state::TrafficModel, now: nat)
    ensures
        ({
            let after = crate::state::model_after_attempt(m, now);
            let asked = crate::state::geoip_window_at(m, now);
            &&& after.ips == m.ips && asked.ips == m.ips
            &&& after.alerts == m.alerts && asked.alerts == m.alerts
            &&& after.total_packets == m.total_packets && asked.total_packets == m.total_packets
            &&& after.total_bytes == m.total_bytes && asked.total_bytes == m.total_bytes
            &&& after.last_window_packets == m.last_window_packets && asked.last_window_packets
                == m.last_window_packets
            &&& after.window_start == m.window_start && asked.window_start == m.window_start
            &&& after.local_ips == m.local_ips && asked.local_ips == m.local_ips
        }),
{
}

/// Within one window as many requests are granted as are attempted, until there
/// were fourteen of them.
pub proof fn law_window_grants_fourteen(m: crate::state::TrafficModel, times: Seq<nat>)
    requires
        m.geoip_calls <= 14,
        forall|i: int|
            0 <= i < times.len() ==> m.geoip_window_start <= (#[trigger] times[i])
                < m.geoip_window_start + 60_000_000_000,
    ensures
        crate::state::grants(m, times) == if m.geoip_calls + times.len() <= 14 {
            times.len() as int
        } else {
            14 - m.geoip_calls
        },
    decreases times.len(),
{
    if times.len() > 0 {
        let after = crate::state::model_after_attempt(m, times[0]);
        let rest = times.drop_first();
        assert forall|i: int| 0 <= i < rest.len() implies after.geoip_window_start <= (
        #[trigger] rest[i]) < after.geoip_window_start + 60_000_000_000 by {
            assert(rest[i] == times[i + 1]);
        }
        law_window_grants_fourteen(after, rest);
    }
}

/// A rate window that has any length ends: the next begins at that moment, with
/// the packets counted so far; one without length goes on. Nothing else
/// changes.
pub proof fn law_rate_window_ends(m: crate::state::TrafficModel, now: nat)
    ensures
        ({
            let after = crate::state::model_after_window(m, now);
            &&& now > m.window_start ==> after.window_start == now && after.last_window_packets
                == m.total_packets
            &&& now <= m.window_start ==> after.window_start == m.window_start
                && after.last_window_packets == m.last_window_packets
            &&& after.ips == m.ips
            &&& after.alerts == m.alerts
            &&& after.total_packets == m.total_packets
            &&& after.total_bytes == m.total_bytes
            &&& after.local_ips == m.local_ips
            &&& after.geoip_calls == m.geoip_calls
            &&& after.geoip_window_start == m.geoip_window_start
        }),
{
}

/// What is told of a rate window: the packets that came in it, and its length,
/// just where it has any.
pub proof fn law_rate_window_is_told(
    m: crate::state::TrafficModel,
    arrivals: Seq<crate::history::Arrival>,
    now: nat,
)
    requires
        m.last_window_packets == m.total_packets,
    ensures
        crate::state::window_ended(crate::history::model_after_arrivals(m, arrivals), now)
            == if now > m.window_start {
            Some((arrivals.len() as int, (now - m.window_start) as nat))
        } else {
            None
        },
{
    crate::history::law_every_packet_counted(m, arrivals, Seq::empty());
    crate::history::lemma_arrivals_keep_window(m, arrivals);
}

/// What a check does: the rate window ends, the alerts that it raised are at
/// the end of the log, and sources silent for more than five minutes are gone.
/// Nothing else changes.
pub proof fn law_check_does_no_more(
    m: crate::state::TrafficModel,
    raised: Seq<crate::alert::AlertRecord>,
    now: nat,
    ip: Seq<char>,
)
    requires
        m.alerts.len() <= 500,
    ensures
        ({
            let after = crate::tick::model_after_check(m, raised, now);
            let all = m.alerts + raised;
            let kept = if all.len() <= 500 {
                all.len() as int
            } else {
                500
            };
            &&& after.window_start == if now > m.window_start {
                now
            } else {
                m.window_start
            }
            &&& after.last_window_packets == if now > m.window_start {
                m.total_packets
            } else {
                m.last_window_packets
            }
            &&& after.alerts == all.subrange(all.len() - kept, all.len() as int)
            &&& after.ips.contains_key(ip) <==> m.ips.contains_key(ip) && now
                <= m.ips[ip].last_seen + 300_000_000_000
            &&& after.ips.contains_key(ip) ==> after.ips[ip] == m.ips[ip]
            &&& after.total_packets == m.total_packets
            &&& after.total_bytes == m.total_bytes
            &&& after.local_ips == m.local_ips
            &&& after.geoip_calls == m.geoip_calls
            &&& after.geoip_window_start == m.geoip_window_start
        }),
{
    let all = m.alerts + raised;
    crate::alert::law_log_keeps_latest(m.alerts, raised);
    if all.len() <= 500 {
        assert(all.subrange(0, all.len() as int) =~= all);
    } else {
        assert(all.skip(all.len() - 500) =~= all.subrange(all.len() - 500, all.len() as int));
    }
}

/// Forgetting keeps exactly the sources that were heard of in the last five
/// minutes, as they are.
pub proof fn law_forgetting(
    ips: Map<Seq<char>, crate::table::IpRecord>,
    now: nat,
    ip: Seq<char>,
)
    ensures
        ({
            let kept = crate::state::recent_ips(ips, now);
            &&& kept.contains_key(ip) <==> ips.contains_key(ip) && now <= ips[ip].last_seen
                + 300_000_000_000
            &&& kept.contains_key(ip) ==> kept[ip] == ips[ip]
        }),
{
}

/// An address is asked for just where it is tracked, its country is unknown and
/// it is not private; and it is asked for once.
pub proof fn law_who_is_asked_for(
    pending: Seq<Seq<char>>,
    ips: Map<Seq<char>, crate::table::IpRecord>,
    ip: Seq<char>,
)
    requires
        crate::geoip::names_pending(pending, ips),
    ensures
        pending.contains(ip) <==> ips.contains_key(ip) && ips[ip].country == "Unknown"@
            && !crate::address::octets_are_private(ips[ip].octets),
        forall|i: int, j: int| 0 <= i < j < pending.len() ==> pending[i] != pending[j],
{
    if pending.contains(ip) {
        let k = choose|k: int| 0 <= k < pending.len() && pending[k] == ip;
        assert(ips.contains_key(pending[k]));
    }
}

/// A batch holds a hundred addresses, or all that are left where there are no
/// more; so the batches are as few as can be.
pub proof fn law_batch_is_full_or_last(next: int, len: int)
    requires
        0 <= next < len,
    ensures
        ({
            let end = crate::geoip::batch_end(next, len);
            &&& next < end <= len
            &&& end == len || end - next == 100
            &&& end - next <= 100
        }),
{
}

/// The body of a request for plain addresses is that text, byte for byte.
pub proof fn law_request_is_its_text(body: Seq<u8>, ips: Seq<Seq<char>>, i: int)
    requires
        crate::geoip::is_request(body, ips),
        crate::json::all_plain(ips),
    ensures
        ({
            let text = crate::json::objects_text("query"@, ips);
            &&& body.len() == text.len()
            &&& 0 <= i < body.len() ==> body[i] == text[i] as u8
        }),
{
}

/// A request names each address, in order, once: the text of a request for
/// several addresses is that for all but the last, and then the last.
pub proof fn law_request_names_each_address(ips: Seq<Seq<char>>, ip: Seq<char>)
    ensures
        ({
            let query = "query"@;
            let object = seq!['{', '"', 'q', 'u', 'e', 'r', 'y', '"', ':', '"'] + ip
                + seq!['"', '}'];
            let before = crate::json::objects_text(query, ips);
            let after = crate::json::objects_text(query, ips.push(ip));
            &&& ips.len() == 0 ==> after == seq!['['] + object + seq![']']
            &&& ips.len() > 0 ==> after == before.drop_last() + seq![','] + object + seq![']']
        }),
{
    reveal_strlit("query");
    let query = "query"@;
    let object = seq!['{', '"', 'q', 'u', 'e', 'r', 'y', '"', ':', '"'] + ip + seq!['"', '}'];
    assert(crate::json::object_text(query, ip) =~= object);
    let f = |value: Seq<char>| crate::json::object_text(query, value);
    let parts = ips.map_values(f);
    let more = ips.push(ip).map_values(f);
    assert(more.drop_last() =~= parts);
    assert(more.last() == object);
    let before = crate::json::objects_text(query, ips);
    let after = crate::json::objects_text(query, ips.push(ip));
    if ips.len() == 0 {
        assert(crate::text::joined(more, seq![',']) == object);
    } else {
        assert(after =~= before.drop_last() + seq![','] + object + seq![']']);
    }
}

} // verus!
