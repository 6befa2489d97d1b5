//! Attack detection: four signatures, held against the statistics of a source.
//!
//! How fast a source sends is measured in floating-point numbers, outside of
//! this library. What the measurement starts from comes from here
//! (`rate_samples`), and what came out of it is handed back (`RateReading`).

use vstd::prelude::*;
use vstd::string::*;

use crate::alert::{copy_alert, DDoSAlert};
use crate::clock::elapsed;
use crate::state::AppState;
use crate::table::IpStats;
use crate::text::decimal_text;

verus! {

/// How long a source must have been known before it is judged: one second.
pub const JUDGED_AFTER: u64 = 1_000_000_000;

/// How long after its first packet a source can be taken for a SYN flood: ten
/// seconds.
pub const SYN_FLOOD_WITHIN: u64 = 10_000_000_000;

/// The thresholds that are whole numbers.
pub struct Thresholds {
    /// Connection requests from which on a source counts as a SYN flood.
    pub syn: u64,
    /// Different ports above which a source counts as a port scan.
    pub ports: u64,
}

/// What the rate of one source is computed from.
pub struct RateSample {
    /// The source address.
    pub src_ip: String,
    /// Packets received.
    pub packets: u64,
    /// Bits received.
    pub bits: u128,
    /// The time since the first packet, in nanoseconds.
    pub elapsed: u64,
}

/// What the rate of one source is computed from, as mathematical values.
pub struct SampleFacts {
    /// The source address.
    pub src_ip: Seq<char>,
    /// Packets received.
    pub packets: nat,
    /// Bits received.
    pub bits: nat,
    /// The time since the first packet, in nanoseconds.
    pub elapsed: nat,
}

/// What measuring the rate of one source gave.
pub struct RateReading {
    /// The source address.
    pub src_ip: String,
    /// The packets per second, as the bits of a 64-bit floating-point number.
    pub pps_bits: u64,
    /// Whether the packets per second are above their threshold.
    pub pps_exceeded: bool,
    /// Whether the bits per second are above their threshold.
    pub bandwidth_exceeded: bool,
    /// The seconds since the first packet, with one decimal place.
    pub seconds_text: String,
    /// The packets per second, without decimal places.
    pub pps_text: String,
    /// The megabits per second, with one decimal place.
    pub mbps_text: String,
}

/// What measuring the rate of one source gave, as mathematical values.
pub struct ReadingFacts {
    /// The source address.
    pub src_ip: Seq<char>,
    /// The bits of the packets per second.
    pub pps_bits: u64,
    /// Whether the packets per second are above their threshold.
    pub pps_exceeded: bool,
    /// Whether the bits per second are above their threshold.
    pub bandwidth_exceeded: bool,
    /// The seconds since the first packet.
    pub seconds_text: Seq<char>,
    /// The packets per second.
    pub pps_text: Seq<char>,
    /// The megabits per second.
    pub mbps_text: Seq<char>,
}

/// The kinds of attack.
#[derive(Clone, Copy, Debug, PartialEq, Eq, Structural)]
pub enum AttackKind {
    /// Many connection requests within the first seconds.
    SynFlood,
    /// Too many packets per second.
    HighPps,
    /// Too many different ports.
    PortScan,
    /// Too many bits per second.
    BandwidthFlood,
}

impl View for RateSample {
    type V = SampleFacts;

    open spec fn view(&self) -> SampleFacts {
        SampleFacts {
            src_ip: self.src_ip@,
            packets: self.packets as nat,
            bits: self.bits as nat,
            elapsed: self.elapsed as nat,
        }
    }
}

impl View for RateReading {
    type V = ReadingFacts;

    open spec fn view(&self) -> ReadingFacts {
        ReadingFacts {
            src_ip: self.src_ip@,
            pps_bits: self.pps_bits,
            pps_exceeded: self.pps_exceeded,
            bandwidth_exceeded: self.bandwidth_exceeded,
            seconds_text: self.seconds_text@,
            pps_text: self.pps_text@,
            mbps_text: self.mbps_text@,
        }
    }
}

/// The name of a kind of attack.
pub open spec fn kind_name(kind: AttackKind) -> Seq<char> {
    match kind {
        AttackKind::SynFlood => "SYN_FLOOD"@,
        AttackKind::HighPps => "HIGH_PPS"@,
        AttackKind::PortScan => "PORT_SCAN"@,
        AttackKind::BandwidthFlood => "BANDWIDTH_FLOOD"@,
    }
}

/// The attack that a source is taken for: the first signature that it meets.
/// A source that has been known for less than a second meets none.
pub open spec fn attack_kind(
    record: crate::table::IpRecord,
    reading: ReadingFacts,
    thresholds: Thresholds,
    now: nat,
) -> Option<AttackKind> {
    let known = crate::clock::since(now, record.first_seen);
    if known < JUDGED_AFTER {
        None
    } else if record.syns >= thresholds.syn && known < SYN_FLOOD_WITHIN {
        Some(AttackKind::SynFlood)
    } else if reading.pps_exceeded {
        Some(AttackKind::HighPps)
    } else if record.ports.len() > thresholds.ports {
        Some(AttackKind::PortScan)
    } else if reading.bandwidth_exceeded {
        Some(AttackKind::BandwidthFlood)
    } else {
        None
    }
}

/// What an alert says of what was seen.
pub open spec fn description(
    kind: AttackKind,
    record: crate::table::IpRecord,
    reading: ReadingFacts,
) -> Seq<char> {
    match kind {
        AttackKind::SynFlood => crate::text::decimal(record.syns) + " SYN pkts in "@
            + reading.seconds_text + "s from "@ + reading.src_ip,
        AttackKind::HighPps => reading.pps_text + " pkt/s from "@ + reading.src_ip,
        AttackKind::PortScan => crate::text::decimal(record.ports.len()) + " unique ports from "@
            + reading.src_ip,
        AttackKind::BandwidthFlood => reading.mbps_text + " Mbps from "@ + reading.src_ip,
    }
}

/// The alert that a reading gives rise to, if there is one: the source must be
/// tracked and meet a signature.
pub open spec fn alert_for(
    m: crate::state::TrafficModel,
    reading: ReadingFacts,
    thresholds: Thresholds,
    now: nat,
    timestamp: u64,
) -> Option<crate::alert::AlertRecord> {
    if m.ips.contains_key(reading.src_ip) {
        let record = m.ips[reading.src_ip];
        match attack_kind(record, reading, thresholds, now) {
            Some(kind) => Some(
                crate::alert::AlertRecord {
                    timestamp,
                    src_ip: reading.src_ip,
                    attack_type: kind_name(kind),
                    pps_bits: reading.pps_bits,
                    country: record.country,
                    description: description(kind, record, reading),
                },
            ),
            None => None,
        }
    } else {
        None
    }
}

/// The alerts that the readings give rise to, in their order.
pub open spec fn alerts_for(
    m: crate::state::TrafficModel,
    readings: Seq<RateReading>,
    thresholds: Thresholds,
    now: nat,
    timestamp: u64,
) -> Seq<crate::alert::AlertRecord>
    decreases readings.len(),
{
    if readings.len() == 0 {
        Seq::empty()
    } else {
        let front = alerts_for(m, readings.drop_last(), thresholds, now, timestamp);
        match alert_for(m, readings.last()@, thresholds, now, timestamp) {
            Some(alert) => front.push(alert),
            None => front,
        }
    }
}

/// The sample of a source.
pub open spec fn sample_of(
    ip: Seq<char>,
    record: crate::table::IpRecord,
    now: nat,
) -> SampleFacts {
    SampleFacts {
        src_ip: ip,
        packets: record.packets,
        bits: record.bytes * 8,
        elapsed: crate::clock::since(now, record.first_seen),
    }
}

/// Whether `samples` holds the sample of each source that has been known for
/// a second or more, once, and no others.
pub open spec fn samples_judged_sources(
    samples: Seq<RateSample>,
    ips: Map<Seq<char>, crate::table::IpRecord>,
    now: nat,
) -> bool {
    &&& forall|k: int|
        0 <= k < samples.len() ==> {
            let s = (#[trigger] samples[k])@;
            &&& ips.contains_key(s.src_ip)
            &&& s == sample_of(s.src_ip, ips[s.src_ip], now)
            &&& s.elapsed >= JUDGED_AFTER
        }
    &&& forall|k: int, l: int|
        0 <= k < l < samples.len() ==> (#[trigger] samples[k])@.src_ip != (
        #[trigger] samples[l])@.src_ip
    &&& forall|ip: Seq<char>| #[trigger]
        ips.contains_key(ip) && crate::clock::since(now, ips[ip].first_seen) >= JUDGED_AFTER
            ==> exists|k: int| 0 <= k < samples.len() && (#[trigger] samples[k])@.src_ip == ip
}

/// The name of a kind of attack.
pub fn attack_name(kind: AttackKind) -> (r: &'static str)
    ensures
        r@ == kind_name(kind),
{
    match kind {
        AttackKind::SynFlood => "SYN_FLOOD",
        AttackKind::HighPps => "HIGH_PPS",
        AttackKind::PortScan => "PORT_SCAN",
        AttackKind::BandwidthFlood => "BANDWIDTH_FLOOD",
    }
}

/// Finds the attack that a source is taken for.
pub fn classify(
    stats: &IpStats,
    reading: &RateReading,
    thresholds: &Thresholds,
    now: u64,
) -> (r: Option<AttackKind>)
    ensures
        r == attack_kind(stats@, reading@, *thresholds, now as nat),
{
    let known: u64 = elapsed(now, stats.first_seen);
    if known < JUDGED_AFTER {
        None
    } else if stats.syn_count >= thresholds.syn && known < SYN_FLOOD_WITHIN {
        Some(AttackKind::SynFlood)
    } else if reading.pps_exceeded {
        Some(AttackKind::HighPps)
    } else if stats.ports_hit.len() as u64 > thresholds.ports {
        Some(AttackKind::PortScan)
    } else if reading.bandwidth_exceeded {
        Some(AttackKind::BandwidthFlood)
    } else {
        None
    }
}

/// Says what was seen.
fn describe(kind: AttackKind, stats: &IpStats, reading: &RateReading) -> (r: String)
    ensures
        r@ == description(kind, stats@, reading@),
{
    let mut out: String = match kind {
        AttackKind::SynFlood => {
            let mut s: String = decimal_text(stats.syn_count);
            s.append(" SYN pkts in ");
            s.append(reading.seconds_text.as_str());
            s.append("s from ");
            s
        },
        AttackKind::HighPps => {
            let mut s: String = reading.pps_text.clone();
            s.append(" pkt/s from ");
            s
        },
        AttackKind::PortScan => {
            let mut s: String = decimal_text(stats.ports_hit.len() as u64);
            s.append(" unique ports from ");
            s
        },
        AttackKind::BandwidthFlood => {
            let mut s: String = reading.mbps_text.clone();
            s.append(" Mbps from ");
            s
        },
    };
    out.append(reading.src_ip.as_str());
    out
}

/// Evaluates one source against the four attack signatures.
pub fn check_attack(
    state: &AppState,
    reading: &RateReading,
    thresholds: &Thresholds,
    now: u64,
    timestamp: u64,
) -> (r: Option<DDoSAlert>)
    requires
        state.wf(),
    ensures
        match r {
            Some(alert) => alert_for(state@, reading@, *thresholds, now as nat, timestamp) == Some(
                alert@,
            ),
            None => alert_for(state@, reading@, *thresholds, now as nat, timestamp) is None,
        },
{
    match state.table().get(reading.src_ip.as_str()) {
        Some(stats) => match classify(stats, reading, thresholds, now) {
            Some(kind) => Some(
                DDoSAlert {
                    timestamp,
                    src_ip: reading.src_ip.clone(),
                    attack_type: attack_name(kind).to_owned(),
                    pps_bits: reading.pps_bits,
                    country: stats.country.clone(),
                    description: describe(kind, stats, reading),
                },
            ),
            None => None,
        },
        None => None,
    }
}

/// Takes the sample of each source that has been known for a second or more.
pub fn rate_samples(state: &AppState, now: u64) -> (r: Vec<RateSample>)
    requires
        state.wf(),
    ensures
        samples_judged_sources(r@, state@.ips, now as nat),
{
    let table = state.table();
    let ghost list = table.list();
    proof {
        table.lemma_list();
    }
    let mut out: Vec<RateSample> = Vec::new();
    let mut i: usize = 0;
    let count: usize = table.len();
    while i < count
        invariant
            count == list.len(),
            list == table.list(),
            crate::table::enumerates(list, state@.ips),
            i <= count,
            forall|k: int|
                0 <= k < out@.len() ==> {
                    let s = (#[trigger] out@[k])@;
                    &&& exists|j: int|
                        0 <= j < i && s == sample_of(
                            (#[trigger] list[j]).0,
                            list[j].1,
                            now as nat,
                        )
                    &&& s.elapsed >= JUDGED_AFTER
                },
            forall|k: int, l: int|
                0 <= k < l < out@.len() ==> (#[trigger] out@[k])@.src_ip != (
                #[trigger] out@[l])@.src_ip,
            forall|j: int|
                #![trigger list[j]]
                0 <= j < i && crate::clock::since(now as nat, list[j].1.first_seen) >= JUDGED_AFTER
                    ==> exists|k: int|
                    0 <= k < out@.len() && (#[trigger] out@[k])@.src_ip == list[j].0,
        decreases count - i,
    {
        let stats = table.stats_at(i);
        let known: u64 = elapsed(now, stats.first_seen);
        let ghost before = out@;
        if known >= JUDGED_AFTER {
            out.push(
                RateSample {
                    src_ip: table.ip_at(i).clone(),
                    packets: stats.packet_count,
                    bits: stats.byte_count as u128 * 8,
                    elapsed: known,
                },
            );
            proof {
                let fresh = out@.last()@;
                assert(fresh == sample_of(list[i as int].0, list[i as int].1, now as nat));
                assert forall|k: int| 0 <= k < before.len() implies (#[trigger] out@[k])@.src_ip
                    != fresh.src_ip by {
                    assert(out@[k] == before[k]);
                    let j = choose|j: int|
                        0 <= j < i && before[k]@ == sample_of(
                            (#[trigger] list[j]).0,
                            list[j].1,
                            now as nat,
                        );
                    assert(list[j].0 != list[i as int].0);
                }
                assert forall|j: int|
                    #![trigger list[j]]
                    0 <= j < i + 1 && crate::clock::since(now as nat, list[j].1.first_seen)
                        >= JUDGED_AFTER implies exists|k: int|
                    0 <= k < out@.len() && (#[trigger] out@[k])@.src_ip == list[j].0 by {
                    if j < i {
                        let k = choose|k: int|
                            0 <= k < before.len() && (#[trigger] before[k])@.src_ip == list[j].0;
                        assert(out@[k] == before[k]);
                    } else {
                        assert(out@[out@.len() - 1]@.src_ip == list[j].0);
                    }
                }
            }
        }
        i = i + 1;
    }
    proof {
        assert forall|ip: Seq<char>| #[trigger]
            state@.ips.contains_key(ip) && crate::clock::since(
                now as nat,
                state@.ips[ip].first_seen,
            ) >= JUDGED_AFTER implies exists|k: int|
            0 <= k < out@.len() && (#[trigger] out@[k])@.src_ip == ip by {
            let j = choose|j: int| 0 <= j < list.len() && (#[trigger] list[j]).0 == ip;
            assert(state@.ips[list[j].0] == list[j].1);
        }
    }
    out
}

/// Evaluates the readings one by one, and logs and gives back the alerts.
pub fn raise_alerts(
    state: &mut AppState,
    readings: &Vec<RateReading>,
    thresholds: &Thresholds,
    now: u64,
    timestamp: u64,
) -> (r: Vec<DDoSAlert>)
    requires
        old(state).wf(),
    ensures
        final(state).wf(),
        crate::alert::alert_records(r@) == alerts_for(
            old(state)@,
            readings@,
            *thresholds,
            now as nat,
            timestamp,
        ),
        final(state)@ == (crate::state::TrafficModel {
            alerts: crate::alert::logged_all(
                old(state)@.alerts,
                crate::alert::alert_records(r@),
            ),
            ..old(state)@
        }),
{
    let ghost before = state@;
    let mut raised: Vec<DDoSAlert> = Vec::new();
    let mut i: usize = 0;
    assert(crate::alert::alert_records(raised@) =~= Seq::empty());
    assert(readings@.take(0) =~= Seq::empty());
    while i < readings.len()
        invariant
            i <= readings@.len(),
            state.wf(),
            crate::alert::alert_records(raised@) == alerts_for(
                before,
                readings@.take(i as int),
                *thresholds,
                now as nat,
                timestamp,
            ),
            state@ == (crate::state::TrafficModel {
                alerts: crate::alert::logged_all(
                    before.alerts,
                    crate::alert::alert_records(raised@),
                ),
                ..before
            }),
        decreases readings@.len() - i,
    {
        let ghost done = raised@;
        let reading = &readings[i];
        assert(readings@.take(i + 1).drop_last() =~= readings@.take(i as int));
        assert(readings@.take(i + 1).last() == readings@[i as int]);
        assert(alert_for(state@, reading@, *thresholds, now as nat, timestamp) == alert_for(
            before,
            reading@,
            *thresholds,
            now as nat,
            timestamp,
        ));
        match check_attack(state, reading, thresholds, now, timestamp) {
            Some(alert) => {
                raised.push(copy_alert(&alert));
                state.push_alert(alert);
                assert(crate::alert::alert_records(raised@) =~= crate::alert::alert_records(
                    done,
                ).push(alert@));
                assert(crate::alert::alert_records(raised@).drop_last()
                    =~= crate::alert::alert_records(done));
            },
            None => {},
        }
        i = i + 1;
    }
    assert(readings@.take(i as int) =~= readings@);
    raised
}

} // verus!
