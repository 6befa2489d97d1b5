//! What the exporter tells of its state: the busiest sources, the latest
//! alerts and the overall figures.

use vstd::prelude::*;
use vstd::string::*;

use crate::alert::{copy_alert, DDoSAlert};
use crate::clock::{elapsed, SECOND};
use crate::state::AppState;
use crate::table::StatsTable;

verus! {

/// How many alerts are told at once.
pub const ALERTS_SHOWN: usize = 100;

/// How many sources the overall figures name.
pub const SOURCES_SHOWN: usize = 20;

/// How many sources have a metric of their own.
pub const SOURCES_GAUGED: usize = 50;

/// The figures of one source.
pub struct IpReport {
    /// The source address.
    pub ip: String,
    /// Packets received.
    pub packets: u64,
    /// Bytes received.
    pub bytes: u64,
    /// The country of the address.
    pub country: String,
    /// The city of the address.
    pub city: String,
    /// Packets that asked for a connection.
    pub syn_count: u64,
    /// How many different ports were hit.
    pub unique_ports: usize,
    /// Whole seconds since the first packet.
    pub duration_secs: u64,
}

/// The figures of one source, as mathematical values.
pub struct ReportFacts {
    /// The source address.
    pub ip: Seq<char>,
    /// Packets received.
    pub packets: nat,
    /// Bytes received.
    pub bytes: nat,
    /// The country of the address.
    pub country: Seq<char>,
    /// The city of the address.
    pub city: Seq<char>,
    /// Packets that asked for a connection.
    pub syn_count: nat,
    /// How many different ports were hit.
    pub unique_ports: nat,
    /// Whole seconds since the first packet.
    pub duration_secs: nat,
}

/// The overall figures.
pub struct StatsReport {
    /// Packets counted so far.
    pub total_packets: u64,
    /// Bytes counted so far.
    pub total_bytes: u64,
    /// Sources that are tracked.
    pub active_ips: usize,
    /// Alerts in the log.
    pub total_alerts: usize,
    /// The addresses of this host.
    pub local_ips: Vec<String>,
    /// The busiest sources, busiest first.
    pub top_ips: Vec<IpReport>,
}

impl View for IpReport {
    type V = ReportFacts;

    open spec fn view(&self) -> ReportFacts {
        ReportFacts {
            ip: self.ip@,
            packets: self.packets as nat,
            bytes: self.bytes as nat,
            country: self.country@,
            city: self.city@,
            syn_count: self.syn_count as nat,
            unique_ports: self.unique_ports as nat,
            duration_secs: self.duration_secs as nat,
        }
    }
}

/// The figures of a source.
pub open spec fn report_of(
    ip: Seq<char>,
    record: crate::table::IpRecord,
    now: nat,
) -> ReportFacts {
    ReportFacts {
        ip,
        packets: record.packets,
        bytes: record.bytes,
        country: record.country,
        city: record.city,
        syn_count: record.syns,
        unique_ports: record.ports.len(),
        duration_secs: crate::clock::since(now, record.first_seen) / (SECOND as nat),
    }
}

/// Whether `reports` names the busiest sources of `ips`: as many as there are,
/// up to `limit`; each once and with its figures; the busiest first; and none
/// left out that is busier than one that is named.
pub open spec fn names_busiest(
    reports: Seq<IpReport>,
    ips: Map<Seq<char>, crate::table::IpRecord>,
    limit: nat,
    now: nat,
) -> bool {
    &&& reports.len() == if ips.len() <= limit {
        ips.len()
    } else {
        limit
    }
    &&& forall|k: int|
        0 <= k < reports.len() ==> {
            let f = (#[trigger] reports[k])@;
            ips.contains_key(f.ip) && f == report_of(f.ip, ips[f.ip], now)
        }
    &&& forall|k: int, l: int|
        0 <= k < l < reports.len() ==> (#[trigger] reports[k])@.ip != (#[trigger] reports[l])@.ip
            && reports[k]@.packets >= reports[l]@.packets
    &&& forall|ip: Seq<char>, k: int|
        #![trigger ips.contains_key(ip), reports[k]]
        ips.contains_key(ip) && 0 <= k < reports.len() ==> {
            ||| exists|l: int| 0 <= l < reports.len() && (#[trigger] reports[l])@.ip == ip
            ||| ips[ip].packets <= reports[k]@.packets
        }
}

/// The alerts that are told: the latest, latest first.
pub open spec fn alerts_told(m: crate::state::TrafficModel) -> Seq<crate::alert::AlertRecord> {
    crate::alert::last_of(m.alerts, ALERTS_SHOWN as nat).reverse()
}

/// Whether a report tells the overall figures of a state.
pub open spec fn tells_figures(
    report: StatsReport,
    m: crate::state::TrafficModel,
    now: nat,
) -> bool {
    &&& report.total_packets == m.total_packets
    &&& report.total_bytes == m.total_bytes
    &&& report.active_ips == m.ips.len()
    &&& report.total_alerts == m.alerts.len()
    &&& crate::text::texts(report.local_ips@) == m.local_ips
    &&& names_busiest(report.top_ips@, m.ips, SOURCES_SHOWN as nat, now)
}

/// The packets of each source of a list.
spec fn weights(list: Seq<(Seq<char>, crate::table::IpRecord)>) -> Seq<nat> {
    list.map_values(|e: (Seq<char>, crate::table::IpRecord)| e.1.packets)
}

/// Whether place `j` is among the best.
spec fn placed(best: Seq<usize>, j: int) -> bool {
    exists|k: int| 0 <= k < best.len() && #[trigger] best[k] == j
}

/// Whether `best` holds different places below `n`, the heaviest first.
spec fn in_order(w: Seq<nat>, best: Seq<usize>, n: int) -> bool {
    &&& forall|k: int| 0 <= k < best.len() ==> (#[trigger] best[k]) < n
    &&& forall|k: int, l: int|
        0 <= k < l < best.len() ==> (#[trigger] best[k]) != (#[trigger] best[l]) && w[best[k] as int]
            >= w[best[l] as int]
}

/// Whether `best` holds the places of the heaviest among the first `n` weights:
/// all of them, as long as there are no more than `limit`, and else so many
/// that none that is left out is heavier than the last of them.
spec fn best_of(w: Seq<nat>, best: Seq<usize>, n: int, limit: int) -> bool {
    &&& best.len() == if n <= limit {
        n
    } else {
        limit
    }
    &&& in_order(w, best, n)
    &&& forall|j: int|
        0 <= j < n && best.len() > 0 ==> #[trigger] placed(best, j) || (n > limit && w[j]
            <= w[best.last() as int])
}

/// The best stay the best when the next place takes its rank among them and
/// the last is dropped where there are too many.
proof fn lemma_best_grows(
    w: Seq<nat>,
    before: Seq<usize>,
    after: Seq<usize>,
    n: usize,
    r: int,
    limit: int,
)
    requires
        best_of(w, before, n as int, limit),
        0 <= r <= before.len(),
        r < limit,
        forall|k: int| 0 <= k < r ==> w[#[trigger] before[k] as int] >= w[n as int],
        r < before.len() ==> w[before[r] as int] < w[n as int],
        after == if before.len() < limit {
            before.insert(r, n)
        } else {
            before.insert(r, n).drop_last()
        },
    ensures
        best_of(w, after, n + 1, limit),
{
    assert forall|k: int| 0 <= k < after.len() implies #[trigger] after[k] == (if k < r {
        before[k]
    } else if k == r {
        n
    } else {
        before[k - 1]
    }) by {}
    assert(in_order(w, after, n + 1)) by {
        assert forall|k: int, l: int| 0 <= k < l < after.len() implies (#[trigger] after[k]) != (
        #[trigger] after[l]) && w[after[k] as int] >= w[after[l] as int] by {
            if k == r && r < before.len() {
                assert(w[before[r] as int] >= w[before[l - 1] as int]);
            }
        }
    }
    assert forall|j: int| 0 <= j < n + 1 && after.len() > 0 implies #[trigger] placed(after, j) || (n
        + 1 > limit && w[j] <= w[after.last() as int]) by {
        if j == n {
            assert(after[r] == j);
        } else if before.len() > 0 {
            let last = before.len() - 1;
            if placed(before, j) {
                let p = choose|p: int| 0 <= p < before.len() && #[trigger] before[p] == j;
                let q: int = if p < r {
                    p
                } else {
                    p + 1
                };
                if q < after.len() {
                    assert(after[q] == j);
                } else {
                    assert(p == last);
                    if r < last {
                        assert(after.last() == before[last - 1]);
                    }
                }
            } else {
                assert(w[j] <= w[before[last] as int]);
                if r < last {
                    assert(after.last() == before[last - 1]);
                }
            }
        }
    }
}

/// Where a source with so many packets belongs among the best so far: behind
/// all that have as many or more.
fn rank(table: &StatsTable, best: &Vec<usize>, packets: u64) -> (r: usize)
    requires
        forall|k: int| 0 <= k < best@.len() ==> (#[trigger] best@[k]) < table.list().len(),
    ensures
        r <= best@.len(),
        forall|k: int|
            0 <= k < r ==> weights(table.list())[#[trigger] best@[k] as int] >= packets,
        r < best@.len() ==> weights(table.list())[best@[r as int] as int] < packets,
{
    let mut r: usize = 0;
    while r < best.len()
        invariant
            r <= best@.len(),
            forall|k: int| 0 <= k < best@.len() ==> (#[trigger] best@[k]) < table.list().len(),
            forall|k: int|
                0 <= k < r ==> weights(table.list())[#[trigger] best@[k] as int] >= packets,
        decreases best@.len() - r,
    {
        if table.stats_at(best[r]).packet_count < packets {
            return r;
        }
        r = r + 1;
    }
    r
}

/// Finds the places of the busiest sources, the busiest first.
fn busiest_places(table: &StatsTable, limit: usize) -> (r: Vec<usize>)
    requires
        table.wf(),
    ensures
        best_of(weights(table.list()), r@, table.list().len() as int, limit as int),
{
    let ghost w = weights(table.list());
    let mut best: Vec<usize> = Vec::new();
    let mut i: usize = 0;
    let count: usize = table.len();
    while i < count
        invariant
            w == weights(table.list()),
            count == table.list().len(),
            i <= count,
            best_of(w, best@, i as int, limit as int),
        decreases count - i,
    {
        let ghost before = best@;
        let r: usize = rank(table, &best, table.stats_at(i).packet_count);
        if r < limit {
            best.insert(r, i);
            if best.len() > limit {
                best.pop();
            }
            proof {
                lemma_best_grows(w, before, best@, i, r as int, limit as int);
            }
        } else if best.len() > 0 {
            assert(w[i as int] <= w[best@.last() as int]);
            assert forall|j: int| 0 <= j < i + 1 implies #[trigger] placed(best@, j) || (i + 1
                > limit && w[j] <= w[best@.last() as int]) by {}
        }
        i = i + 1;
    }
    best
}

/// The figures of the source at a place of the table.
fn report_at(table: &StatsTable, i: usize, now: u64) -> (r: IpReport)
    requires
        i < table.list().len(),
    ensures
        r@ == report_of(table.list()[i as int].0, table.list()[i as int].1, now as nat),
{
    let stats = table.stats_at(i);
    IpReport {
        ip: table.ip_at(i).clone(),
        packets: stats.packet_count,
        bytes: stats.byte_count,
        country: stats.country.clone(),
        city: stats.city.clone(),
        syn_count: stats.syn_count,
        unique_ports: stats.ports_hit.len(),
        duration_secs: elapsed(now, stats.first_seen) / SECOND,
    }
}

/// Names the busiest sources, up to `limit` of them, the busiest first.
pub fn top_sources(state: &AppState, limit: usize, now: u64) -> (r: Vec<IpReport>)
    requires
        state.wf(),
    ensures
        names_busiest(r@, state@.ips, limit as nat, now as nat),
{
    let table = state.table();
    let ghost list = table.list();
    let ghost ips = state@.ips;
    let best: Vec<usize> = busiest_places(table, limit);
    let mut out: Vec<IpReport> = Vec::new();
    let mut i: usize = 0;
    while i < best.len()
        invariant
            list == table.list(),
            i <= best@.len(),
            out@.len() == i,
            forall|k: int| 0 <= k < best@.len() ==> (#[trigger] best@[k]) < list.len(),
            forall|k: int|
                0 <= k < i ==> (#[trigger] out@[k])@ == report_of(
                    list[best@[k] as int].0,
                    list[best@[k] as int].1,
                    now as nat,
                ),
        decreases best@.len() - i,
    {
        out.push(report_at(table, best[i], now));
        i = i + 1;
    }
    proof {
        table.lemma_list();
        crate::table::lemma_enumerates_len(list, ips);
        assert forall|k: int| 0 <= k < out@.len() implies ({
            let f = (#[trigger] out@[k])@;
            ips.contains_key(f.ip) && f == report_of(f.ip, ips[f.ip], now as nat)
        }) by {
            let place = best@[k] as int;
            assert(ips[list[place].0] == list[place].1);
        }
        assert forall|k: int, l: int| 0 <= k < l < out@.len() implies (#[trigger] out@[k])@.ip != (
        #[trigger] out@[l])@.ip && out@[k]@.packets >= out@[l]@.packets by {
            let p = best@[k] as int;
            let q = best@[l] as int;
            assert(p != q);
            assert(list[p].0 != list[q].0);
            assert(weights(list)[p] >= weights(list)[q]);
        }
        assert forall|ip: Seq<char>, k: int|
            #![trigger ips.contains_key(ip), out@[k]]
            ips.contains_key(ip) && 0 <= k < out@.len() implies ({
            ||| exists|l: int| 0 <= l < out@.len() && (#[trigger] out@[l])@.ip == ip
            ||| ips[ip].packets <= out@[k]@.packets
        }) by {
            let j = choose|j: int| 0 <= j < list.len() && (#[trigger] list[j]).0 == ip;
            if placed(best@, j) {
                let l = choose|l: int| 0 <= l < best@.len() && #[trigger] best@[l] == j;
                assert(out@[l]@.ip == ip);
            } else {
                let last = best@.len() - 1;
                assert(weights(list)[j] <= weights(list)[best@[last] as int]);
                if k < last {
                    assert(weights(list)[best@[k] as int] >= weights(list)[best@[last] as int]);
                }
            }
        }
    }
    out
}

/// The latest alerts, up to a hundred of them, the latest first.
pub fn recent_alerts(state: &AppState) -> (r: Vec<DDoSAlert>)
    ensures
        crate::alert::alert_records(r@) == alerts_told(state@),
{
    let alerts = state.alerts();
    let ghost records = crate::alert::alert_records(alerts@);
    let mut out: Vec<DDoSAlert> = Vec::new();
    let mut i: usize = alerts.len();
    while i > 0 && out.len() < ALERTS_SHOWN
        invariant
            records == crate::alert::alert_records(alerts@),
            i <= alerts@.len(),
            out@.len() == alerts@.len() - i,
            out@.len() <= ALERTS_SHOWN,
            forall|k: int|
                0 <= k < out@.len() ==> (#[trigger] out@[k])@ == records[records.len() - 1 - k],
        decreases i,
    {
        i = i - 1;
        out.push(copy_alert(&alerts[i]));
    }
    assert(crate::alert::alert_records(out@) =~= crate::alert::last_of(
        records,
        ALERTS_SHOWN as nat,
    ).reverse());
    out
}

/// A copy of a list of texts.
fn copy_texts(list: &Vec<String>) -> (r: Vec<String>)
    ensures
        crate::text::texts(r@) == crate::text::texts(list@),
{
    let mut out: Vec<String> = Vec::new();
    let mut i: usize = 0;
    while i < list.len()
        invariant
            i <= list@.len(),
            out@.len() == i,
            forall|k: int| 0 <= k < i ==> (#[trigger] out@[k])@ == list@[k]@,
        decreases list@.len() - i,
    {
        out.push(list[i].clone());
        i = i + 1;
    }
    assert(crate::text::texts(out@) =~= crate::text::texts(list@));
    out
}

/// The overall figures and the busiest sources.
pub fn stats_report(state: &AppState, now: u64) -> (r: StatsReport)
    requires
        state.wf(),
    ensures
        tells_figures(r, state@, now as nat),
{
    StatsReport {
        total_packets: state.total_packets(),
        total_bytes: state.total_bytes(),
        active_ips: state.table().len(),
        total_alerts: state.alerts().len(),
        local_ips: copy_texts(state.local_ips()),
        top_ips: top_sources(state, SOURCES_SHOWN, now),
    }
}

} // verus!
