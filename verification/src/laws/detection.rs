//! Laws of telling attacks.

use vstd::prelude::*;

verus! {

/// Whether a source has been known for a second or more.
pub open spec fn judged(record: crate::table::IpRecord, now: nat) -> bool {
    now >= record.first_seen + 1_000_000_000
}

/// Whether a source has asked for so many connections in its first ten seconds.
pub open spec fn floods_with_requests(
    record: crate::table::IpRecord,
    thresholds: crate::attack::Thresholds,
    now: nat,
) -> bool {
    record.syns >= thresholds.syn && now < record.first_seen + 10_000_000_000
}

/// An alert is raised for a source that is tracked and has been known for a
/// second, and that floods with connection requests, sends too many packets or
/// bits per second, or has hit too many ports; and for no other. Only the
/// flood of requests is bound to the first seconds.
pub proof fn law_every_signature_is_told(
    m: crate::state::TrafficModel,
    reading: crate::attack::ReadingFacts,
    thresholds: crate::attack::Thresholds,
    now: nat,
    timestamp: u64,
)
    ensures
        ({
            let r = m.ips[reading.src_ip];
            crate::attack::alert_for(m, reading, thresholds, now, timestamp) is Some
                <==> m.ips.contains_key(reading.src_ip) && judged(r, now) && (floods_with_requests(
                r,
                thresholds,
                now,
            ) || reading.pps_exceeded || r.ports.len() > thresholds.ports
                || reading.bandwidth_exceeded)
        }),
{
}

/// Which attack a source is taken for: a flood of requests before too many
/// packets, that before a port scan, and that before too many bits. A port
/// scan is told by the number of ports alone, however long it takes.
pub proof fn law_kind_of_attack(
    r: crate::table::IpRecord,
    reading: crate::attack::ReadingFacts,
    thresholds: crate::attack::Thresholds,
    now: nat,
)
    requires
        judged(r, now),
    ensures
        ({
            let kind = crate::attack::attack_kind(r, reading, thresholds, now);
            let syn = floods_with_requests(r, thresholds, now);
            let pps = reading.pps_exceeded;
            let scan = r.ports.len() > thresholds.ports;
            &&& kind == Some(crate::attack::AttackKind::SynFlood) <==> syn
            &&& kind == Some(crate::attack::AttackKind::HighPps) <==> !syn && pps
            &&& kind == Some(crate::attack::AttackKind::PortScan) <==> !syn && !pps && scan
            &&& kind == Some(crate::attack::AttackKind::BandwidthFlood) <==> !syn && !pps && !scan
                && reading.bandwidth_exceeded
        }),
{
}

/// A source that has been known for less than a second is taken for nothing.
pub proof fn law_young_source_is_not_judged(
    r: crate::table::IpRecord,
    reading: crate::attack::ReadingFacts,
    thresholds: crate::attack::Thresholds,
    now: nat,
)
    requires
        !judged(r, now),
    ensures
        crate::attack::attack_kind(r, reading, thresholds, now) is None,
{
}

/// From its tenth second on, what a source is taken for does not change with
/// the time: the same figures and rates are the same attack.
pub proof fn law_verdict_does_not_age(
    r: crate::table::IpRecord,
    reading: crate::attack::ReadingFacts,
    thresholds: crate::attack::Thresholds,
    now: nat,
    later: nat,
)
    requires
        r.first_seen + 10_000_000_000 <= now <= later,
    ensures
        crate::attack::attack_kind(r, reading, thresholds, now) == crate::attack::attack_kind(
            r,
            reading,
            thresholds,
            later,
        ),
{
}

/// An alert names its source, the country that is known of it, its packet rate
/// and the time of the check; and it says what was seen.
pub proof fn law_alert_tells_what_was_seen(
    m: crate::state::TrafficModel,
    reading: crate::attack::ReadingFacts,
    thresholds: crate::attack::Thresholds,
    now: nat,
    timestamp: u64,
)
    ensures
        crate::attack::alert_for(m, reading, thresholds, now, timestamp) matches Some(alert) ==> {
            let ip = reading.src_ip;
            let r = m.ips[ip];
            let syn = floods_with_requests(r, thresholds, now);
            &&& alert.src_ip == ip
            &&& alert.country == r.country
            &&& alert.timestamp == timestamp
            &&& alert.pps_bits == reading.pps_bits
            &&& if syn {
                &&& alert.attack_type == "SYN_FLOOD"@
                &&& alert.description == crate::text::decimal(r.syns) + " SYN pkts in "@
                    + reading.seconds_text + "s from "@ + ip
            } else if reading.pps_exceeded {
                &&& alert.attack_type == "HIGH_PPS"@
                &&& alert.description == reading.pps_text + " pkt/s from "@ + ip
            } else if r.ports.len() > thresholds.ports {
                &&& alert.attack_type == "PORT_SCAN"@
                &&& alert.description == crate::text::decimal(r.ports.len())
                    + " unique ports from "@ + ip
            } else {
                &&& alert.attack_type == "BANDWIDTH_FLOOD"@
                &&& alert.description == reading.mbps_text + " Mbps from "@ + ip
            }
        },
{
}

/// The alerts of two lists of readings, one after the other, are those of the
/// first and then those of the second.
pub proof fn law_alerts_follow_the_readings(
    m: crate::state::TrafficModel,
    a: Seq<crate::attack::RateReading>,
    b: Seq<crate::attack::RateReading>,
    thresholds: crate::attack::Thresholds,
    now: nat,
    timestamp: u64,
)
    ensures
        crate::attack::alerts_for(m, a + b, thresholds, now, timestamp)
            == crate::attack::alerts_for(m, a, thresholds, now, timestamp)
            + crate::attack::alerts_for(m, b, thresholds, now, timestamp),
    decreases b.len(),
{
    let first = crate::attack::alerts_for(m, a, thresholds, now, timestamp);
    if b.len() == 0 {
        assert(a + b =~= a);
        assert(first + crate::attack::alerts_for(m, b, thresholds, now, timestamp) =~= first);
    } else {
        law_alerts_follow_the_readings(m, a, b.drop_last(), thresholds, now, timestamp);
        assert((a + b).drop_last() =~= a + b.drop_last());
        assert((a + b).last() == b.last());
        let front = crate::attack::alerts_for(m, b.drop_last(), thresholds, now, timestamp);
        match crate::attack::alert_for(m, b.last()@, thresholds, now, timestamp) {
            Some(alert) => {
                assert((first + front).push(alert) =~= first + front.push(alert));
            },
            None => {},
        }
    }
}

/// One reading gives its own alert, or none.
pub proof fn law_alerts_of_one_reading(
    m: crate::state::TrafficModel,
    reading: crate::attack::RateReading,
    thresholds: crate::attack::Thresholds,
    now: nat,
    timestamp: u64,
)
    ensures
        crate::attack::alerts_for(m, seq![reading], thresholds, now, timestamp) == match (
        crate::attack::alert_for(m, reading@, thresholds, now, timestamp)) {
            Some(alert) => seq![alert],
            None => Seq::empty(),
        },
{
    let one = seq![reading];
    assert(one.drop_last() =~= Seq::empty());
    assert(one.last() == reading);
    reveal_with_fuel(crate::attack::alerts_for, 2);
}

/// A list without readings gives no alert.
pub proof fn law_no_reading_no_alert(
    m: crate::state::TrafficModel,
    thresholds: crate::attack::Thresholds,
    now: nat,
    timestamp: u64,
)
    ensures
        crate::attack::alerts_for(m, Seq::empty(), thresholds, now, timestamp).len() == 0,
{
}

/// A sample holds the packets of its source, eight bits for each of its bytes,
/// and the time since its first packet.
pub proof fn law_sample_measures_the_source(
    ip: Seq<char>,
    r: crate::table::IpRecord,
    now: nat,
)
    requires
        r.first_seen <= now,
    ensures
        ({
            let s = crate::attack::sample_of(ip, r, now);
            &&& s.src_ip == ip
            &&& s.packets == r.packets
            &&& s.bits == r.bytes + r.bytes + r.bytes + r.bytes + r.bytes + r.bytes + r.bytes
                + r.bytes
            &&& s.elapsed + r.first_seen == now
        }),
{
}

/// A list of samples names exactly the tracked sources that have been known for
/// a second, each once, with its own sample.
pub proof fn law_samples_are_of_the_judged(
    samples: Seq<crate::attack::RateSample>,
    ips: Map<Seq<char>, crate::table::IpRecord>,
    now: nat,
    ip: Seq<char>,
)
    requires
        crate::attack::samples_judged_sources(samples, ips, now),
    ensures
        (exists|k: int| 0 <= k < samples.len() && (#[trigger] samples[k])@.src_ip == ip)
            <==> ips.contains_key(ip) && judged(ips[ip], now),
        forall|k: int|
            0 <= k < samples.len() && (#[trigger] samples[k])@.src_ip == ip ==> {
                &&& samples[k]@.packets == ips[ip].packets
                &&& samples[k]@.bits == 8 * ips[ip].bytes
                &&& samples[k]@.elapsed + ips[ip].first_seen == now
            },
        forall|k: int, l: int|
            0 <= k < l < samples.len() ==> (#[trigger] samples[k])@.src_ip != (
            #[trigger] samples[l])@.src_ip,
{
}

} // verus!
