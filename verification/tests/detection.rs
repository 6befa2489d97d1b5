//! Attack detection, the periodic check, and the metrics.

use traffic_exporter::address::IpAddress;
use traffic_exporter::alert::DDoSAlert;
use traffic_exporter::attack::{
    attack_name, check_attack, classify, raise_alerts, rate_samples, AttackKind, RateReading,
    Thresholds,
};
use traffic_exporter::clock::SECOND;
use traffic_exporter::metrics::{
    alert_update, family, packet_updates, source_update, window_update, Metric, MetricKind,
};
use traffic_exporter::packet::PacketInfo;
use traffic_exporter::report::top_sources;
use traffic_exporter::state::{AppState, PacketReport, RateWindow};
use traffic_exporter::tick::{check_updates, ddos_check};

fn packet(src_ip: &str, dst_port: u16, length: u64, flags: &str) -> PacketInfo {
    PacketInfo {
        src_ip: src_ip.to_string(),
        src_address: IpAddress::V4([203, 0, 113, 9]),
        dst_ip: "192.0.2.1".to_string(),
        transport: "TCP",
        src_port: 50000,
        dst_port,
        length,
        flags: flags.to_string(),
    }
}

fn reading(src_ip: &str, pps_exceeded: bool, bandwidth_exceeded: bool) -> RateReading {
    RateReading {
        src_ip: src_ip.to_string(),
        pps_bits: 1234.5f64.to_bits(),
        pps_exceeded,
        bandwidth_exceeded,
        seconds_text: "2.0".to_string(),
        pps_text: "1234".to_string(),
        mbps_text: "150.5".to_string(),
    }
}

fn limits(syn: u64, ports: u64) -> Thresholds {
    Thresholds { syn, ports }
}

fn state_of(packets: u64, ports: u16, syns: u64) -> AppState {
    let mut state = AppState::new(vec![], 0);
    for i in 0..packets {
        let flags = if i < syns { "SYN" } else { "ACK" };
        state.record_packet(&packet("a", (i % ports as u64) as u16, 60, flags), 0);
    }
    state
}

#[test]
fn syn_flood_within_ten_seconds() {
    let state = state_of(5, 1, 5);
    let r = reading("a", true, true);
    let alert = check_attack(&state, &r, &limits(5, 100), 10 * SECOND - 1, 99).unwrap();
    assert_eq!(alert.attack_type, "SYN_FLOOD");
    assert_eq!(alert.description, "5 SYN pkts in 2.0s from a");
    assert_eq!(alert.timestamp, 99);
    assert_eq!(alert.src_ip, "a");
    assert_eq!(alert.country, "Unknown");
    assert_eq!(f64::from_bits(alert.pps_bits), 1234.5);
    let later = check_attack(&state, &r, &limits(5, 100), 10 * SECOND, 99).unwrap();
    assert_eq!(later.attack_type, "HIGH_PPS");
    let fewer = check_attack(&state, &r, &limits(6, 100), SECOND, 99).unwrap();
    assert_eq!(fewer.attack_type, "HIGH_PPS");
}

#[test]
fn high_pps() {
    let state = state_of(5, 5, 0);
    let alert =
        check_attack(&state, &reading("a", true, true), &limits(1, 0), 2 * SECOND, 0).unwrap();
    assert_eq!(alert.attack_type, "HIGH_PPS");
    assert_eq!(alert.description, "1234 pkt/s from a");
}

#[test]
fn port_scan_above_the_threshold() {
    let state = state_of(5, 5, 0);
    let r = reading("a", false, true);
    let alert = check_attack(&state, &r, &limits(1, 4), 2 * SECOND, 0).unwrap();
    assert_eq!(alert.attack_type, "PORT_SCAN");
    assert_eq!(alert.description, "5 unique ports from a");
    let at = check_attack(&state, &r, &limits(1, 5), 2 * SECOND, 0).unwrap();
    assert_eq!(at.attack_type, "BANDWIDTH_FLOOD");
}

#[test]
fn bandwidth_flood() {
    let state = state_of(5, 1, 0);
    let alert =
        check_attack(&state, &reading("a", false, true), &limits(1, 100), 2 * SECOND, 0).unwrap();
    assert_eq!(alert.attack_type, "BANDWIDTH_FLOOD");
    assert_eq!(alert.description, "150.5 Mbps from a");
}

#[test]
fn no_attack() {
    let state = state_of(5, 1, 0);
    let quiet = reading("a", false, false);
    assert!(check_attack(&state, &quiet, &limits(1, 100), 2 * SECOND, 0).is_none());
    // A source that is not tracked.
    let other = reading("b", true, true);
    assert!(check_attack(&state, &other, &limits(0, 0), 2 * SECOND, 0).is_none());
}

#[test]
fn no_source_is_judged_before_a_second() {
    let state = state_of(5, 5, 5);
    let r = reading("a", true, true);
    assert!(check_attack(&state, &r, &limits(0, 0), SECOND - 1, 0).is_none());
    assert!(check_attack(&state, &r, &limits(0, 0), SECOND, 0).is_some());
}

#[test]
fn kinds_and_their_names() {
    assert_eq!(attack_name(AttackKind::SynFlood), "SYN_FLOOD");
    assert_eq!(attack_name(AttackKind::HighPps), "HIGH_PPS");
    assert_eq!(attack_name(AttackKind::PortScan), "PORT_SCAN");
    assert_eq!(attack_name(AttackKind::BandwidthFlood), "BANDWIDTH_FLOOD");
    let state = state_of(5, 5, 5);
    let stats = state.table().get("a").unwrap();
    let kind = classify(stats, &reading("a", false, false), &limits(6, 4), SECOND);
    assert_eq!(kind, Some(AttackKind::PortScan));
}

#[test]
fn port_threshold_has_a_ceiling() {
    let state = state_of(1500, 1500, 0);
    let r = reading("a", false, false);
    assert!(check_attack(&state, &r, &limits(1, 999), SECOND, 0).is_some());
    assert!(check_attack(&state, &r, &limits(1, 1000), SECOND, 0).is_none());
}

#[test]
fn samples_count_bits() {
    let mut state = AppState::new(vec![], 0);
    state.record_packet(&packet("a", 80, 1500, ""), 0);
    state.record_packet(&packet("a", 80, 500, ""), SECOND);
    state.record_packet(&packet("b", 80, 500, ""), SECOND + 1);
    let samples = rate_samples(&state, 2 * SECOND);
    assert_eq!(samples.len(), 1);
    assert_eq!(samples[0].src_ip, "a");
    assert_eq!(samples[0].packets, 2);
    assert_eq!(samples[0].bits, 16000);
    assert_eq!(samples[0].elapsed, 2 * SECOND);
    assert_eq!(rate_samples(&state, 2 * SECOND + 1).len(), 2);
}

#[test]
fn every_source_is_judged() {
    let mut state = AppState::new(vec![], 0);
    for name in ["a", "b", "c"] {
        state.record_packet(&packet(name, 80, 60, ""), 0);
    }
    state.record_packet(&packet("young", 80, 60, ""), 1);
    let readings: Vec<RateReading> =
        rate_samples(&state, SECOND).iter().map(|s| reading(&s.src_ip, true, false)).collect();
    let raised = raise_alerts(&mut state, &readings, &limits(500, 100), SECOND, 7);
    let mut sources: Vec<&str> = raised.iter().map(|a| a.src_ip.as_str()).collect();
    sources.sort();
    assert_eq!(sources, vec!["a", "b", "c"]);
    let early = reading("young", true, true);
    assert!(check_attack(&state, &early, &limits(0, 0), SECOND, 7).is_none());
}

#[test]
fn alerts_are_logged_in_order() {
    let mut state = AppState::new(vec![], 0);
    for name in ["a", "b", "c"] {
        state.record_packet(&packet(name, 80, 60, ""), 0);
    }
    let readings =
        vec![reading("c", true, false), reading("b", false, false), reading("a", false, true)];
    let raised = raise_alerts(&mut state, &readings, &limits(500, 100), SECOND, 7);
    assert_eq!(raised.len(), 2);
    assert_eq!(raised[0].src_ip, "c");
    assert_eq!(raised[1].src_ip, "a");
    assert_eq!(state.alerts().len(), 2);
    assert_eq!(state.alerts()[0].attack_type, "HIGH_PPS");
    assert_eq!(state.alerts()[1].attack_type, "BANDWIDTH_FLOOD");
}

#[test]
fn periodic_check_does_it_all() {
    let mut state = AppState::new(vec![], 0);
    state.record_packet(&packet("silent", 80, 60, ""), 0);
    state.record_packet(&packet("edge", 80, 60, ""), 1);
    for source in 0..60 {
        state.record_packet(&packet(&format!("s{}", source), 80, 60, ""), 200 * SECOND);
    }
    let readings = vec![reading("silent", true, false)];
    let report = ddos_check(&mut state, &readings, &limits(500, 100), 300 * SECOND + 1, 7);
    assert_eq!(report.alerts.len(), 1);
    assert_eq!(report.alerts[0].src_ip, "silent");
    assert_eq!(report.top.len(), 50);
    let updates = check_updates(&report);
    assert_eq!(updates.len(), 52);
    assert_eq!(updates[0].metric, Metric::DdosAlerts);
    assert_eq!(updates[0].labels, vec!["HIGH_PPS", "Unknown"]);
    assert_eq!(updates[1].metric, Metric::TopSrcIps);
    assert_eq!(updates[1].labels[0], report.top[0].ip);
    assert_eq!(updates[50].labels[0], report.top[49].ip);
    assert_eq!(updates[51].metric, Metric::PpsGauge);
    assert_eq!(updates[51].value, 62);
    assert_eq!(updates[51].over, Some(300 * SECOND + 1));
    let window = report.window.unwrap();
    assert_eq!(window.packets, 62);
    assert_eq!(window.elapsed, 300 * SECOND + 1);
    // The silent source was judged before it was forgotten.
    assert!(state.table().get("silent").is_none());
    assert!(state.table().get("edge").is_some());
    assert_eq!(state.table().len(), 61);
    assert_eq!(state.alerts().len(), 1);
    assert!(state.close_rate_window(300 * SECOND + 1).is_none());
}

#[test]
fn check_without_findings_adds_nothing() {
    let mut state = AppState::new(vec![], 5);
    let report = ddos_check(&mut state, &vec![], &limits(500, 100), 5, 7);
    assert!(report.window.is_none());
    assert_eq!(check_updates(&report).len(), 0);
}

#[test]
fn more_traffic_never_silences_an_alert() {
    let r = reading("a", false, false);
    let few = state_of(5, 5, 0);
    let many = state_of(50, 50, 50);
    for ports in 0..8 {
        for syn in 1..8 {
            let alarmed = check_attack(&few, &r, &limits(syn, ports), SECOND, 0).is_some();
            let more = check_attack(&many, &r, &limits(syn, ports), SECOND, 0).is_some();
            let higher = check_attack(&few, &r, &limits(syn + 1, ports + 1), SECOND, 0).is_some();
            assert!(!alarmed || more);
            assert!(!higher || alarmed);
        }
    }
}

#[test]
fn packet_metrics() {
    let report = PacketReport {
        direction: "inbound",
        protocol: "HTTPS",
        country: "Norway".to_string(),
        src_ip: "203.0.113.9".to_string(),
        dst_port: 443,
        length: 1500,
    };
    let updates = packet_updates(&report);
    assert_eq!(updates.len(), 5);
    assert_eq!(updates[0].metric, Metric::PacketsTotal);
    assert_eq!(updates[0].labels, vec!["inbound", "HTTPS", "Norway"]);
    assert_eq!(updates[0].value, 1);
    assert_eq!(updates[1].metric, Metric::BytesTotal);
    assert_eq!(updates[1].labels, vec!["inbound", "HTTPS", "Norway"]);
    assert_eq!(updates[1].value, 1500);
    assert_eq!(updates[2].metric, Metric::PacketSize);
    assert_eq!(updates[2].labels, vec!["HTTPS"]);
    assert_eq!(updates[2].value, 1500);
    assert_eq!(updates[3].metric, Metric::ProtocolPackets);
    assert_eq!(updates[3].labels, vec!["HTTPS", "443"]);
    assert_eq!(updates[3].value, 1);
    assert_eq!(updates[4].metric, Metric::CountryTraffic);
    assert_eq!(updates[4].labels, vec!["Norway", "inbound"]);
    assert_eq!(updates[4].value, 1);
}

#[test]
fn ssh_metrics() {
    let report = PacketReport {
        direction: "outbound",
        protocol: "SSH",
        country: "Chile".to_string(),
        src_ip: "203.0.113.9".to_string(),
        dst_port: 22,
        length: 60,
    };
    let updates = packet_updates(&report);
    assert_eq!(updates.len(), 6);
    assert_eq!(updates[5].metric, Metric::SshAttempts);
    assert_eq!(updates[5].labels, vec!["203.0.113.9", "Chile"]);
    assert_eq!(updates[5].value, 1);
}

#[test]
fn other_metrics() {
    let alert = DDoSAlert {
        timestamp: 0,
        src_ip: "a".to_string(),
        attack_type: "PORT_SCAN".to_string(),
        pps_bits: 0,
        country: "Chile".to_string(),
        description: String::new(),
    };
    let fired = alert_update(&alert);
    assert_eq!(fired.metric, Metric::DdosAlerts);
    assert_eq!(fired.labels, vec!["PORT_SCAN", "Chile"]);
    assert_eq!(fired.value, 1);

    let mut state = AppState::new(vec![], 0);
    state.record_packet(&packet("a", 80, 60, ""), 0);
    state.record_packet(&packet("a", 80, 60, ""), 0);
    state.set_location("a", "Norway", "Oslo");
    let shown = source_update(&top_sources(&state, 50, 0)[0]);
    assert_eq!(shown.metric, Metric::TopSrcIps);
    assert_eq!(shown.labels, vec!["a", "Norway", "Oslo"]);
    assert_eq!(shown.value, 2);

    let rate = window_update(&RateWindow { packets: 12, elapsed: SECOND });
    assert_eq!(rate.metric, Metric::PpsGauge);
    assert_eq!(rate.labels, vec!["total"]);
    assert_eq!(rate.value, 12);
    assert_eq!(rate.over, Some(SECOND));
    assert_eq!(shown.over, None);
}

#[test]
fn metric_families() {
    let all = [
        (Metric::PacketsTotal, MetricKind::Counter, "network_packets_total", 3),
        (Metric::BytesTotal, MetricKind::Counter, "network_bytes_total", 3),
        (Metric::PacketSize, MetricKind::Histogram, "network_packet_size_bytes", 1),
        (Metric::DdosAlerts, MetricKind::Counter, "ddos_alerts_total", 2),
        (Metric::TopSrcIps, MetricKind::Gauge, "network_top_src_ip_packets", 3),
        (Metric::CountryTraffic, MetricKind::Counter, "network_country_packets_total", 2),
        (Metric::ProtocolPackets, MetricKind::Counter, "network_protocol_packets_total", 2),
        (Metric::SshAttempts, MetricKind::Counter, "ssh_connection_attempts_total", 2),
        (Metric::PpsGauge, MetricKind::Gauge, "network_packets_per_second", 1),
    ];
    for (metric, kind, name, labels) in all {
        let f = family(metric);
        assert_eq!(f.kind, kind);
        assert_eq!(f.name, name);
        assert_eq!(f.labels.len(), labels);
        assert!(!f.help.is_empty());
    }
    assert_eq!(family(Metric::PacketSize).buckets, vec![64, 128, 256, 512, 1024, 1500]);
    assert_eq!(family(Metric::TopSrcIps).labels, vec!["src_ip", "country", "city"]);
    assert_eq!(family(Metric::ProtocolPackets).labels, vec!["protocol", "port"]);
    assert_eq!(family(Metric::PpsGauge).help, "Current packets per second");
    assert!(family(Metric::PpsGauge).buckets.is_empty());
}
