//! Laws of reports, of the alert log and of metrics.

use vstd::prelude::*;

verus! {

/// What the log holds after alerts came one by one: the latest five hundred, in
/// the order in which they came.
pub proof fn law_log_holds_the_latest(
    log: Seq<crate::alert::AlertRecord>,
    alerts: Seq<crate::alert::AlertRecord>,
    i: int,
)
    requires
        log.len() <= 500,
    ensures
        ({
            let after = crate::alert::logged_all(log, alerts);
            let all = log + alerts;
            let size = if all.len() <= 500 {
                all.len() as int
            } else {
                500
            };
            &&& after.len() == size
            &&& 0 <= i < size ==> after[i] == all[all.len() - size + i]
        }),
{
    crate::alert::law_log_keeps_latest(log, alerts);
}

/// One more alert stands at the end of the log; the others stay in their order,
/// but for the oldest where the log was full.
pub proof fn law_alert_is_logged(
    log: Seq<crate::alert::AlertRecord>,
    alert: crate::alert::AlertRecord,
)
    requires
        log.len() <= 500,
    ensures
        ({
            let after = crate::alert::logged(log, alert);
            &&& after.last() == alert
            &&& log.len() < 500 ==> after.drop_last() == log
            &&& log.len() == 500 ==> after.drop_last() == log.drop_first()
        }),
{
    let after = crate::alert::logged(log, alert);
    if log.len() < 500 {
        assert(after.drop_last() =~= log);
    } else {
        assert(after.drop_last() =~= log.drop_first());
    }
}

/// The alerts that are told are the latest hundred, latest first: the one at
/// place `k` came `k` alerts before the last.
pub proof fn law_latest_alerts_are_told(m: crate::state::TrafficModel, k: int)
    ensures
        ({
            let told = crate::report::alerts_told(m);
            &&& told.len() == if m.alerts.len() <= 100 {
                m.alerts.len()
            } else {
                100
            }
            &&& 0 <= k < told.len() ==> told[k] == m.alerts[m.alerts.len() - 1 - k]
        }),
{
}

/// The overall figures are those of the state, and the twenty busiest sources
/// are named, or all where there are no more.
pub proof fn law_figures_are_told(
    report: crate::report::StatsReport,
    m: crate::state::TrafficModel,
    now: nat,
)
    requires
        crate::report::tells_figures(report, m, now),
    ensures
        report.total_packets == m.total_packets,
        report.total_bytes == m.total_bytes,
        report.active_ips == m.ips.len(),
        report.total_alerts == m.alerts.len(),
        crate::text::texts(report.local_ips@) == m.local_ips,
        crate::report::names_busiest(report.top_ips@, m.ips, 20, now),
        report.top_ips@.len() == if m.ips.len() <= 20 {
            m.ips.len()
        } else {
            20
        },
{
}

/// The figures that are reported of a source are its own.
pub proof fn law_report_tells_the_record(
    ip: Seq<char>,
    r: crate::table::IpRecord,
    now: nat,
)
    requires
        r.first_seen <= now,
    ensures
        ({
            let report = crate::report::report_of(ip, r, now);
            &&& report.ip == ip
            &&& report.packets == r.packets
            &&& report.bytes == r.bytes
            &&& report.country == r.country
            &&& report.city == r.city
            &&& report.syn_count == r.syns
            &&& report.unique_ports == r.ports.len()
            &&& report.duration_secs * 1_000_000_000 <= now - r.first_seen
            &&& now - r.first_seen < (report.duration_secs + 1) * 1_000_000_000
        }),
{
}

/// A list of the busiest sources: all of them where they are no more than the
/// limit, else so many; each once, with its own figures, busiest first; and a
/// source that is not named has sent no more packets than any that is.
pub proof fn law_busiest_are_named(
    reports: Seq<crate::report::IpReport>,
    ips: Map<Seq<char>, crate::table::IpRecord>,
    limit: nat,
    now: nat,
    ip: Seq<char>,
    k: int,
)
    requires
        crate::report::names_busiest(reports, ips, limit, now),
        0 <= k < reports.len(),
    ensures
        reports.len() <= limit,
        reports.len() <= ips.len(),
        reports.len() == limit || reports.len() == ips.len(),
        ({
            let f = reports[k]@;
            &&& ips.contains_key(f.ip)
            &&& f.packets == ips[f.ip].packets
            &&& f.bytes == ips[f.ip].bytes
            &&& f.country == ips[f.ip].country
            &&& f.city == ips[f.ip].city
            &&& f.syn_count == ips[f.ip].syns
            &&& f.unique_ports == ips[f.ip].ports.len()
            &&& ips[f.ip].first_seen <= now ==> f.duration_secs == (now - ips[f.ip].first_seen)
                / 1_000_000_000
        }),
        forall|l: int|
            0 <= l < reports.len() && l != k ==> (#[trigger] reports[l])@.ip != reports[k]@.ip,
        forall|l: int|
            k <= l < reports.len() ==> (#[trigger] reports[l])@.packets <= reports[k]@.packets,
        ips.contains_key(ip) && (forall|l: int|
            0 <= l < reports.len() ==> (#[trigger] reports[l])@.ip != ip) ==> ips[ip].packets
            <= reports[k]@.packets,
{
}

/// Nothing is named only where there is nothing to name.
pub proof fn law_some_are_named(
    reports: Seq<crate::report::IpReport>,
    ips: Map<Seq<char>, crate::table::IpRecord>,
    limit: nat,
    now: nat,
)
    requires
        crate::report::names_busiest(reports, ips, limit, now),
    ensures
        reports.len() == 0 <==> limit == 0 || ips.len() == 0,
{
}

/// The value that an update gives to a label: the one at the label's place in
/// its family.
pub open spec fn value_of_label(
    update: crate::metrics::UpdateFacts,
    label: Seq<char>,
) -> Option<Seq<char>> {
    let names = crate::metrics::metric_labels(update.metric);
    if names.contains(label) && names.len() == update.labels.len() {
        Some(update.labels[names.index_of(label)])
    } else {
        None
    }
}

/// Whether an update of the given metric has the given value.
pub open spec fn is_update(
    update: crate::metrics::UpdateFacts,
    metric: crate::metrics::Metric,
    value: nat,
) -> bool {
    update.metric == metric && update.value == value && update.over is None
}

/// The names of the labels differ from one another.
proof fn lemma_labels_differ()
    ensures
        "direction"@ != "protocol"@,
        "direction"@ != "country"@,
        "protocol"@ != "country"@,
        "attack_type"@ != "country"@,
        "src_ip"@ != "country"@,
        "src_ip"@ != "city"@,
        "country"@ != "city"@,
        "protocol"@ != "port"@,
{
    reveal_strlit("direction");
    reveal_strlit("protocol");
    reveal_strlit("country");
    reveal_strlit("attack_type");
    reveal_strlit("src_ip");
    reveal_strlit("city");
    reveal_strlit("port");
    assert("direction"@.len() == 9);
    assert("protocol"@.len() == 8);
    assert("country"@.len() == 7);
    assert("attack_type"@.len() == 11);
    assert("src_ip"@.len() == 6);
    assert("city"@.len() == 4 && "city"@[0] == 'c');
    assert("port"@.len() == 4 && "port"@[0] == 'p');
}

/// The value of a label whose place is known.
proof fn lemma_value_at(update: crate::metrics::UpdateFacts, label: Seq<char>, k: int)
    requires
        0 <= k < crate::metrics::metric_labels(update.metric).len(),
        crate::metrics::metric_labels(update.metric)[k] == label,
        crate::metrics::metric_labels(update.metric).no_duplicates(),
        update.labels.len() == crate::metrics::metric_labels(update.metric).len(),
    ensures
        value_of_label(update, label) == Some(update.labels[k]),
{
    let names = crate::metrics::metric_labels(update.metric);
    assert(names.contains(label));
    let at = names.index_of(label);
    assert(names[at] == label);
}

/// What a packet adds to the metrics, each value under its own label: one
/// packet and its bytes by direction, protocol and country; its size by
/// protocol; one packet by protocol and port, and one by country and direction;
/// and, where it is SSH, one attempt by source and country.
pub proof fn law_packet_metrics(note: crate::state::PacketNote)
    ensures
        ({
            let u = crate::metrics::packet_facts(note);
            let ssh = note.protocol == "SSH"@;
            &&& u.len() == if ssh {
                6int
            } else {
                5
            }
            &&& is_update(u[0], crate::metrics::Metric::PacketsTotal, 1)
            &&& value_of_label(u[0], "direction"@) == Some(note.direction)
            &&& value_of_label(u[0], "protocol"@) == Some(note.protocol)
            &&& value_of_label(u[0], "country"@) == Some(note.country)
            &&& u[0].labels.len() == 3
            &&& is_update(u[1], crate::metrics::Metric::BytesTotal, note.length)
            &&& value_of_label(u[1], "direction"@) == Some(note.direction)
            &&& value_of_label(u[1], "protocol"@) == Some(note.protocol)
            &&& value_of_label(u[1], "country"@) == Some(note.country)
            &&& u[1].labels.len() == 3
            &&& is_update(u[2], crate::metrics::Metric::PacketSize, note.length)
            &&& value_of_label(u[2], "protocol"@) == Some(note.protocol)
            &&& u[2].labels.len() == 1
            &&& is_update(u[3], crate::metrics::Metric::ProtocolPackets, 1)
            &&& value_of_label(u[3], "protocol"@) == Some(note.protocol)
            &&& value_of_label(u[3], "port"@) == Some(crate::text::decimal(note.dst_port as nat))
            &&& u[3].labels.len() == 2
            &&& is_update(u[4], crate::metrics::Metric::CountryTraffic, 1)
            &&& value_of_label(u[4], "country"@) == Some(note.country)
            &&& value_of_label(u[4], "direction"@) == Some(note.direction)
            &&& u[4].labels.len() == 2
            &&& ssh ==> {
                &&& is_update(u[5], crate::metrics::Metric::SshAttempts, 1)
                &&& value_of_label(u[5], "src_ip"@) == Some(note.src_ip)
                &&& value_of_label(u[5], "country"@) == Some(note.country)
                &&& u[5].labels.len() == 2
            }
        }),
{
    lemma_labels_differ();
    let u = crate::metrics::packet_facts(note);
    lemma_value_at(u[0], "direction"@, 0);
    lemma_value_at(u[0], "protocol"@, 1);
    lemma_value_at(u[0], "country"@, 2);
    lemma_value_at(u[1], "direction"@, 0);
    lemma_value_at(u[1], "protocol"@, 1);
    lemma_value_at(u[1], "country"@, 2);
    lemma_value_at(u[2], "protocol"@, 0);
    lemma_value_at(u[3], "protocol"@, 0);
    lemma_value_at(u[3], "port"@, 1);
    lemma_value_at(u[4], "country"@, 0);
    lemma_value_at(u[4], "direction"@, 1);
    if note.protocol == "SSH"@ {
        lemma_value_at(u[5], "src_ip"@, 0);
        lemma_value_at(u[5], "country"@, 1);
    }
}

/// What an alert adds to the metrics: one alert, by its kind and country.
pub proof fn law_alert_metrics(alert: crate::alert::AlertRecord)
    ensures
        ({
            let u = crate::metrics::alert_facts(alert);
            &&& is_update(u, crate::metrics::Metric::DdosAlerts, 1)
            &&& value_of_label(u, "attack_type"@) == Some(alert.attack_type)
            &&& value_of_label(u, "country"@) == Some(alert.country)
            &&& u.labels.len() == 2
        }),
{
    lemma_labels_differ();
    let u = crate::metrics::alert_facts(alert);
    lemma_value_at(u, "attack_type"@, 0);
    lemma_value_at(u, "country"@, 1);
}

/// What shows a busy source: its packets, by its address, country and city.
pub proof fn law_source_metrics(report: crate::report::ReportFacts)
    ensures
        ({
            let u = crate::metrics::source_facts(report);
            &&& is_update(u, crate::metrics::Metric::TopSrcIps, report.packets)
            &&& value_of_label(u, "src_ip"@) == Some(report.ip)
            &&& value_of_label(u, "country"@) == Some(report.country)
            &&& value_of_label(u, "city"@) == Some(report.city)
            &&& u.labels.len() == 3
        }),
{
    lemma_labels_differ();
    let u = crate::metrics::source_facts(report);
    lemma_value_at(u, "src_ip"@, 0);
    lemma_value_at(u, "country"@, 1);
    lemma_value_at(u, "city"@, 2);
}

/// What shows the packet rate: the packets of a window over its length, of both
/// directions together.
pub proof fn law_window_metrics(window: crate::state::RateWindow)
    ensures
        ({
            let u = crate::metrics::window_facts(window);
            &&& u.metric == crate::metrics::Metric::PpsGauge
            &&& u.value == window.packets
            &&& u.over == Some(window.elapsed)
            &&& value_of_label(u, "direction"@) == Some("total"@)
            &&& u.labels.len() == 1
        }),
{
    lemma_value_at(crate::metrics::window_facts(window), "direction"@, 0);
}

/// A value that is counted up goes to a counter, one that is shown goes to a
/// gauge, and one whose distribution is shown to a histogram, which alone has
/// buckets; these rise.
pub proof fn law_kinds_of_metrics(metric: crate::metrics::Metric)
    ensures
        crate::metrics::metric_kind(metric) == crate::metrics::MetricKind::Gauge <==> metric
            == crate::metrics::Metric::TopSrcIps || metric == crate::metrics::Metric::PpsGauge,
        crate::metrics::metric_kind(metric) == crate::metrics::MetricKind::Histogram <==> metric
            == crate::metrics::Metric::PacketSize,
        crate::metrics::metric_buckets(metric).len() == 0 <==> crate::metrics::metric_kind(metric)
            != crate::metrics::MetricKind::Histogram,
        forall|i: int, j: int|
            0 <= i < j < crate::metrics::metric_buckets(metric).len()
                ==> crate::metrics::metric_buckets(metric)[i]
                < crate::metrics::metric_buckets(metric)[j],
        crate::metrics::metric_labels(metric).len() > 0,
        crate::metrics::metric_labels(metric).no_duplicates(),
{
    lemma_labels_differ();
}

/// What each family is called, and what it says that it shows.
pub proof fn law_families_say_what_they_show(metric: crate::metrics::Metric)
    ensures
        (crate::metrics::metric_name(metric), crate::metrics::metric_help(metric)) == match metric {
            crate::metrics::Metric::PacketsTotal => (
                "network_packets_total"@,
                "Total packets captured, by direction/protocol/country"@,
            ),
            crate::metrics::Metric::BytesTotal => (
                "network_bytes_total"@,
                "Total bytes captured, by direction/protocol/country"@,
            ),
            crate::metrics::Metric::PacketSize => (
                "network_packet_size_bytes"@,
                "Packet size distribution"@,
            ),
            crate::metrics::Metric::DdosAlerts => (
                "ddos_alerts_total"@,
                "Attack alerts fired, by type and country"@,
            ),
            crate::metrics::Metric::TopSrcIps => (
                "network_top_src_ip_packets"@,
                "Live packet count per source IP"@,
            ),
            crate::metrics::Metric::CountryTraffic => (
                "network_country_packets_total"@,
                "Packets by country and direction"@,
            ),
            crate::metrics::Metric::ProtocolPackets => (
                "network_protocol_packets_total"@,
                "Packets by application protocol"@,
            ),
            crate::metrics::Metric::SshAttempts => (
                "ssh_connection_attempts_total"@,
                "SSH connection attempts by source IP"@,
            ),
            crate::metrics::Metric::PpsGauge => (
                "network_packets_per_second"@,
                "Current packets per second"@,
            ),
        },
{
}

/// What a check adds to the metrics: one update for each alert, in order; then
/// one for each of the busiest sources, in order; then one for the rate window,
/// if it had any length.
pub proof fn law_check_metrics(report: crate::tick::TickReport, i: int)
    ensures
        ({
            let u = crate::tick::check_facts(report);
            let alerts = report.alerts@.len();
            let top = report.top@.len();
            &&& u.len() == alerts + top + if report.window is Some {
                1int
            } else {
                0
            }
            &&& 0 <= i < alerts ==> u[i] == crate::metrics::alert_facts(report.alerts@[i]@)
            &&& alerts <= i < alerts + top ==> u[i] == crate::metrics::source_facts(
                report.top@[i - alerts]@,
            )
            &&& report.window matches Some(window) ==> u.last() == crate::metrics::window_facts(
                window,
            )
        }),
{
}

} // verus!
