//! The metrics that the exporter offers, and what each event adds to them.

use vstd::prelude::*;
use vstd::string::*;

use crate::alert::DDoSAlert;
use crate::report::IpReport;
use crate::state::{PacketReport, RateWindow};
use crate::text::{decimal_text, same_text};

verus! {

/// The families of metrics.
#[derive(Clone, Copy, Debug, PartialEq, Eq, Structural)]
pub enum Metric {
    /// Counts packets, by direction, protocol and country.
    PacketsTotal,
    /// Counts bytes, by direction, protocol and country.
    BytesTotal,
    /// Counts packet sizes, by protocol.
    PacketSize,
    /// Counts alerts, by kind of attack and country.
    DdosAlerts,
    /// Shows the packets of the busiest sources.
    TopSrcIps,
    /// Counts packets, by country and direction.
    CountryTraffic,
    /// Counts packets, by protocol and port.
    ProtocolPackets,
    /// Counts SSH packets, by source and country.
    SshAttempts,
    /// Shows the packets per second.
    PpsGauge,
}

/// How a metric takes a value.
#[derive(Clone, Copy, Debug, PartialEq, Eq, Structural)]
pub enum MetricKind {
    /// The value is added.
    Counter,
    /// The value replaces the one before.
    Gauge,
    /// The value is put into its bucket.
    Histogram,
}

/// What a family of metrics is registered with.
pub struct MetricFamily {
    /// How the family takes a value.
    pub kind: MetricKind,
    /// The name of the family.
    pub name: &'static str,
    /// What the family shows.
    pub help: &'static str,
    /// The names of the labels, in order.
    pub labels: Vec<&'static str>,
    /// The upper bounds of the buckets; only a histogram has any.
    pub buckets: Vec<u64>,
}

/// One value for one metric.
pub struct MetricUpdate {
    /// The family.
    pub metric: Metric,
    /// The values of the labels, in order.
    pub labels: Vec<String>,
    /// The value.
    pub value: u64,
    /// The time in nanoseconds over which the value was counted, where the
    /// metric is to show it per second.
    pub over: Option<u64>,
}

/// One value for one metric, as mathematical values.
pub struct UpdateFacts {
    /// The family.
    pub metric: Metric,
    /// The values of the labels, in order.
    pub labels: Seq<Seq<char>>,
    /// The value.
    pub value: nat,
    /// The time in nanoseconds over which the value was counted, where the
    /// metric is to show it per second.
    pub over: Option<u64>,
}

impl View for MetricUpdate {
    type V = UpdateFacts;

    open spec fn view(&self) -> UpdateFacts {
        UpdateFacts {
            metric: self.metric,
            labels: crate::text::texts(self.labels@),
            value: self.value as nat,
            over: self.over,
        }
    }
}

/// The updates of a list, as mathematical values.
pub open spec fn update_facts(updates: Seq<MetricUpdate>) -> Seq<UpdateFacts> {
    updates.map_values(|u: MetricUpdate| u@)
}

/// How a family takes a value.
pub open spec fn metric_kind(metric: Metric) -> MetricKind {
    match metric {
        Metric::PacketsTotal => MetricKind::Counter,
        Metric::BytesTotal => MetricKind::Counter,
        Metric::PacketSize => MetricKind::Histogram,
        Metric::DdosAlerts => MetricKind::Counter,
        Metric::TopSrcIps => MetricKind::Gauge,
        Metric::CountryTraffic => MetricKind::Counter,
        Metric::ProtocolPackets => MetricKind::Counter,
        Metric::SshAttempts => MetricKind::Counter,
        Metric::PpsGauge => MetricKind::Gauge,
    }
}

/// The name of a family.
pub open spec fn metric_name(metric: Metric) -> Seq<char> {
    match metric {
        Metric::PacketsTotal => "network_packets_total"@,
        Metric::BytesTotal => "network_bytes_total"@,
        Metric::PacketSize => "network_packet_size_bytes"@,
        Metric::DdosAlerts => "ddos_alerts_total"@,
        Metric::TopSrcIps => "network_top_src_ip_packets"@,
        Metric::CountryTraffic => "network_country_packets_total"@,
        Metric::ProtocolPackets => "network_protocol_packets_total"@,
        Metric::SshAttempts => "ssh_connection_attempts_total"@,
        Metric::PpsGauge => "network_packets_per_second"@,
    }
}

/// What a family shows.
pub open spec fn metric_help(metric: Metric) -> Seq<char> {
    match metric {
        Metric::PacketsTotal => "Total packets captured, by direction/protocol/country"@,
        Metric::BytesTotal => "Total bytes captured, by direction/protocol/country"@,
        Metric::PacketSize => "Packet size distribution"@,
        Metric::DdosAlerts => "Attack alerts fired, by type and country"@,
        Metric::TopSrcIps => "Live packet count per source IP"@,
        Metric::CountryTraffic => "Packets by country and direction"@,
        Metric::ProtocolPackets => "Packets by application protocol"@,
        Metric::SshAttempts => "SSH connection attempts by source IP"@,
        Metric::PpsGauge => "Current packets per second"@,
    }
}

/// The names of the labels of a family.
pub open spec fn metric_labels(metric: Metric) -> Seq<Seq<char>> {
    match metric {
        Metric::PacketsTotal => seq!["direction"@, "protocol"@, "country"@],
        Metric::BytesTotal => seq!["direction"@, "protocol"@, "country"@],
        Metric::PacketSize => seq!["protocol"@],
        Metric::DdosAlerts => seq!["attack_type"@, "country"@],
        Metric::TopSrcIps => seq!["src_ip"@, "country"@, "city"@],
        Metric::CountryTraffic => seq!["country"@, "direction"@],
        Metric::ProtocolPackets => seq!["protocol"@, "port"@],
        Metric::SshAttempts => seq!["src_ip"@, "country"@],
        Metric::PpsGauge => seq!["direction"@],
    }
}

/// The upper bounds of the buckets of a family.
pub open spec fn metric_buckets(metric: Metric) -> Seq<u64> {
    if metric == Metric::PacketSize {
        seq![64u64, 128, 256, 512, 1024, 1500]
    } else {
        Seq::empty()
    }
}

/// What a family is registered with.
pub fn family(metric: Metric) -> (r: MetricFamily)
    ensures
        r.kind == metric_kind(metric),
        r.name@ == metric_name(metric),
        r.help@ == metric_help(metric),
        r.labels@.map_values(|l: &'static str| l@) == metric_labels(metric),
        r.buckets@ == metric_buckets(metric),
{
    let r = match metric {
        Metric::PacketsTotal => MetricFamily {
            kind: MetricKind::Counter,
            name: "network_packets_total",
            help: "Total packets captured, by direction/protocol/country",
            labels: vec!["direction", "protocol", "country"],
            buckets: Vec::new(),
        },
        Metric::BytesTotal => MetricFamily {
            kind: MetricKind::Counter,
            name: "network_bytes_total",
            help: "Total bytes captured, by direction/protocol/country",
            labels: vec!["direction", "protocol", "country"],
            buckets: Vec::new(),
        },
        Metric::PacketSize => MetricFamily {
            kind: MetricKind::Histogram,
            name: "network_packet_size_bytes",
            help: "Packet size distribution",
            labels: vec!["protocol"],
            buckets: vec![64u64, 128, 256, 512, 1024, 1500],
        },
        Metric::DdosAlerts => MetricFamily {
            kind: MetricKind::Counter,
            name: "ddos_alerts_total",
            help: "Attack alerts fired, by type and country",
            labels: vec!["attack_type", "country"],
            buckets: Vec::new(),
        },
        Metric::TopSrcIps => MetricFamily {
            kind: MetricKind::Gauge,
            name: "network_top_src_ip_packets",
            help: "Live packet count per source IP",
            labels: vec!["src_ip", "country", "city"],
            buckets: Vec::new(),
        },
        Metric::CountryTraffic => MetricFamily {
            kind: MetricKind::Counter,
            name: "network_country_packets_total",
            help: "Packets by country and direction",
            labels: vec!["country", "direction"],
            buckets: Vec::new(),
        },
        Metric::ProtocolPackets => MetricFamily {
            kind: MetricKind::Counter,
            name: "network_protocol_packets_total",
            help: "Packets by application protocol",
            labels: vec!["protocol", "port"],
            buckets: Vec::new(),
        },
        Metric::SshAttempts => MetricFamily {
            kind: MetricKind::Counter,
            name: "ssh_connection_attempts_total",
            help: "SSH connection attempts by source IP",
            labels: vec!["src_ip", "country"],
            buckets: Vec::new(),
        },
        Metric::PpsGauge => MetricFamily {
            kind: MetricKind::Gauge,
            name: "network_packets_per_second",
            help: "Current packets per second",
            labels: vec!["direction"],
            buckets: Vec::new(),
        },
    };
    assert(r.labels@.map_values(|l: &'static str| l@) =~= metric_labels(metric));
    assert(r.buckets@ =~= metric_buckets(metric));
    r
}

/// What a packet adds: it is counted by direction, protocol and country, and
/// its length with it; its size, its protocol and port, and its country are
/// counted; and an SSH packet is counted by its source.
pub open spec fn packet_facts(note: crate::state::PacketNote) -> Seq<UpdateFacts> {
    let always = seq![
        UpdateFacts {
            metric: Metric::PacketsTotal,
            labels: seq![note.direction, note.protocol, note.country],
            value: 1,
            over: None,
        },
        UpdateFacts {
            metric: Metric::BytesTotal,
            labels: seq![note.direction, note.protocol, note.country],
            value: note.length,
            over: None,
        },
        UpdateFacts {
            metric: Metric::PacketSize,
            labels: seq![note.protocol],
            value: note.length,
            over: None,
        },
        UpdateFacts {
            metric: Metric::ProtocolPackets,
            labels: seq![note.protocol, crate::text::decimal(note.dst_port as nat)],
            value: 1,
            over: None,
        },
        UpdateFacts {
            metric: Metric::CountryTraffic,
            labels: seq![note.country, note.direction],
            value: 1,
            over: None,
        },
    ];
    if note.protocol == "SSH"@ {
        always.push(
            UpdateFacts {
                metric: Metric::SshAttempts,
                labels: seq![note.src_ip, note.country],
                value: 1,
                over: None,
            },
        )
    } else {
        always
    }
}

/// What an alert adds.
pub open spec fn alert_facts(alert: crate::alert::AlertRecord) -> UpdateFacts {
    UpdateFacts {
        metric: Metric::DdosAlerts,
        labels: seq![alert.attack_type, alert.country],
        value: 1,
        over: None,
    }
}

/// What shows one of the busiest sources.
pub open spec fn source_facts(report: crate::report::ReportFacts) -> UpdateFacts {
    UpdateFacts {
        metric: Metric::TopSrcIps,
        labels: seq![report.ip, report.country, report.city],
        value: report.packets,
        over: None,
    }
}

/// What shows the packet rate: the packets of a window, over its length.
pub open spec fn window_facts(window: RateWindow) -> UpdateFacts {
    UpdateFacts {
        metric: Metric::PpsGauge,
        labels: seq!["total"@],
        value: window.packets as nat,
        over: Some(window.elapsed),
    }
}

/// An update with one label.
fn update1(metric: Metric, a: &str, value: u64) -> (r: MetricUpdate)
    ensures
        r@ == (UpdateFacts { metric, labels: seq![a@], value: value as nat, over: None }),
{
    let r = MetricUpdate { metric, labels: vec![a.to_owned()], value, over: None };
    assert(r@.labels =~= seq![a@]);
    r
}

/// An update with two labels.
fn update2(metric: Metric, a: &str, b: &str, value: u64) -> (r: MetricUpdate)
    ensures
        r@ == (UpdateFacts { metric, labels: seq![a@, b@], value: value as nat, over: None }),
{
    let r = MetricUpdate { metric, labels: vec![a.to_owned(), b.to_owned()], value, over: None };
    assert(r@.labels =~= seq![a@, b@]);
    r
}

/// An update with three labels.
fn update3(metric: Metric, a: &str, b: &str, c: &str, value: u64) -> (r: MetricUpdate)
    ensures
        r@ == (UpdateFacts { metric, labels: seq![a@, b@, c@], value: value as nat, over: None }),
{
    let r = MetricUpdate {
        metric,
        labels: vec![a.to_owned(), b.to_owned(), c.to_owned()],
        value,
        over: None,
    };
    assert(r@.labels =~= seq![a@, b@, c@]);
    r
}

/// What a packet adds to the metrics.
pub fn packet_updates(report: &PacketReport) -> (r: Vec<MetricUpdate>)
    ensures
        update_facts(r@) == packet_facts(report@),
{
    let direction = report.direction;
    let protocol = report.protocol;
    let country = report.country.as_str();
    let port: String = decimal_text(report.dst_port as u64);
    let mut out: Vec<MetricUpdate> = Vec::new();
    out.push(update3(Metric::PacketsTotal, direction, protocol, country, 1));
    out.push(update3(Metric::BytesTotal, direction, protocol, country, report.length));
    out.push(update1(Metric::PacketSize, protocol, report.length));
    out.push(update2(Metric::ProtocolPackets, protocol, port.as_str(), 1));
    out.push(update2(Metric::CountryTraffic, country, direction, 1));
    if same_text(protocol, "SSH") {
        out.push(update2(Metric::SshAttempts, report.src_ip.as_str(), country, 1));
    }
    assert(update_facts(out@) =~= packet_facts(report@));
    out
}

/// What an alert adds to the metrics.
pub fn alert_update(alert: &DDoSAlert) -> (r: MetricUpdate)
    ensures
        r@ == alert_facts(alert@),
{
    update2(Metric::DdosAlerts, alert.attack_type.as_str(), alert.country.as_str(), 1)
}

/// What shows one of the busiest sources.
pub fn source_update(report: &IpReport) -> (r: MetricUpdate)
    ensures
        r@ == source_facts(report@),
{
    update3(
        Metric::TopSrcIps,
        report.ip.as_str(),
        report.country.as_str(),
        report.city.as_str(),
        report.packets,
    )
}

/// What shows the packet rate.
pub fn window_update(window: &RateWindow) -> (r: MetricUpdate)
    ensures
        r@ == window_facts(*window),
{
    let mut r: MetricUpdate = update1(Metric::PpsGauge, "total", window.packets);
    r.over = Some(window.elapsed);
    r
}

/// Whether an update gives a value to each label of its family.
pub open spec fn labels_complete(update: UpdateFacts) -> bool {
    update.labels.len() == metric_labels(update.metric).len()
}

/// Each update has as many label values as its family has labels.
pub proof fn law_updates_fit_their_family(
    note: crate::state::PacketNote,
    alert: crate::alert::AlertRecord,
    report: crate::report::ReportFacts,
    window: RateWindow,
)
    ensures
        forall|i: int|
            0 <= i < packet_facts(note).len() ==> labels_complete(#[trigger] packet_facts(note)[i]),
        labels_complete(alert_facts(alert)),
        labels_complete(source_facts(report)),
        labels_complete(window_facts(window)),
{
}

/// No two families have the same name.
pub proof fn law_family_names_differ(a: Metric, b: Metric)
    requires
        metric_name(a) == metric_name(b),
    ensures
        a == b,
{
    reveal_strlit("network_packets_total");
    reveal_strlit("network_bytes_total");
    reveal_strlit("network_packet_size_bytes");
    reveal_strlit("ddos_alerts_total");
    reveal_strlit("network_top_src_ip_packets");
    reveal_strlit("network_country_packets_total");
    reveal_strlit("network_protocol_packets_total");
    reveal_strlit("ssh_connection_attempts_total");
    reveal_strlit("network_packets_per_second");
    assert("network_packets_total"@.len() == 21);
    assert("network_bytes_total"@.len() == 19);
    assert("network_packet_size_bytes"@.len() == 25);
    assert("ddos_alerts_total"@.len() == 17);
    assert("network_top_src_ip_packets"@.len() == 26);
    assert("network_country_packets_total"@.len() == 29);
    assert("network_protocol_packets_total"@.len() == 30);
    assert("ssh_connection_attempts_total"@.len() == 29);
    assert("network_packets_per_second"@.len() == 26);
    assert("network_top_src_ip_packets"@[8] == 't');
    assert("network_country_packets_total"@[0] == 'n');
    assert("ssh_connection_attempts_total"@[0] == 's');
    assert("network_packets_per_second"@[8] == 'p');
    // The length tells most of them apart, and these two characters the rest.
    assert(metric_name(a)[0] == metric_name(b)[0]);
    assert(metric_name(a)[8] == metric_name(b)[8]);
}

} // verus!
