//! Counting packets, limits, and forgetting.

use traffic_exporter::address::IpAddress;
use traffic_exporter::alert::DDoSAlert;
use traffic_exporter::clock::SECOND;
use traffic_exporter::packet::PacketInfo;
use traffic_exporter::report::{recent_alerts, stats_report, top_sources};
use traffic_exporter::state::{process_packet, AppState};

fn packet(src_ip: &str, dst_ip: &str, dst_port: u16, length: u64, flags: &str) -> PacketInfo {
    PacketInfo {
        src_ip: src_ip.to_string(),
        src_address: IpAddress::V4([203, 0, 113, 9]),
        dst_ip: dst_ip.to_string(),
        transport: "TCP",
        src_port: 50000,
        dst_port,
        length,
        flags: flags.to_string(),
    }
}

fn alert(timestamp: u64) -> DDoSAlert {
    DDoSAlert {
        timestamp,
        src_ip: "203.0.113.9".to_string(),
        attack_type: "HIGH_PPS".to_string(),
        pps_bits: 2000.0f64.to_bits(),
        country: "Unknown".to_string(),
        description: "2000 pkt/s from 203.0.113.9".to_string(),
    }
}

fn udp_frame() -> Vec<u8> {
    let mut frame = vec![0u8; 14 + 20 + 8];
    frame[12] = 0x08;
    frame[14] = 0x45;
    frame[17] = 28;
    frame[23] = 17;
    frame[26..30].copy_from_slice(&[198, 51, 100, 4]);
    frame[30..34].copy_from_slice(&[192, 0, 2, 1]);
    frame[34..36].copy_from_slice(&40000u16.to_be_bytes());
    frame[36..38].copy_from_slice(&53u16.to_be_bytes());
    frame
}

#[test]
fn fresh_state_knows_nothing() {
    let state = AppState::new(vec!["192.0.2.1".to_string()], 5);
    assert_eq!(state.total_packets(), 0);
    assert_eq!(state.total_bytes(), 0);
    assert_eq!(state.table().len(), 0);
    assert_eq!(state.alerts().len(), 0);
    assert_eq!(state.local_ips().len(), 1);
    assert!(state.table().get("192.0.2.1").is_none());
}

#[test]
fn frame_is_counted() {
    let mut state = AppState::new(vec!["192.0.2.1".to_string()], 0);
    let report = process_packet(&udp_frame(), &mut state, 7).unwrap();
    assert_eq!(report.direction, "inbound");
    assert_eq!(report.protocol, "DNS");
    assert_eq!(report.country, "Unknown");
    assert_eq!(report.src_ip, "198.51.100.4");
    assert_eq!(report.dst_port, 53);
    assert_eq!(report.length, 28);
    assert_eq!(state.total_packets(), 1);
    assert_eq!(state.total_bytes(), 28);
    let stats = state.table().get("198.51.100.4").unwrap();
    assert_eq!(stats.packet_count, 1);
    assert_eq!(stats.byte_count, 28);
    assert_eq!(stats.first_seen, 7);
    assert_eq!(stats.last_seen, 7);
    assert_eq!(stats.ports_hit, vec![53]);
    assert_eq!(stats.syn_count, 0);
    assert_eq!(stats.country, "Unknown");
    assert_eq!(stats.city, "Unknown");
    assert_eq!(stats.address, IpAddress::V4([198, 51, 100, 4]));
}

#[test]
fn other_frames_change_nothing() {
    let mut state = AppState::new(vec![], 0);
    let mut frame = udp_frame();
    frame[13] = 0x06;
    assert!(process_packet(&frame, &mut state, 7).is_none());
    assert_eq!(state.total_packets(), 0);
    assert_eq!(state.table().len(), 0);
}

#[test]
fn direction_follows_the_receiver() {
    let mut state = AppState::new(vec!["10.0.0.1".to_string(), "10.0.0.2".to_string()], 0);
    let inbound = state.record_packet(&packet("a", "10.0.0.2", 80, 60, ""), 1);
    assert_eq!(inbound.direction, "inbound");
    let outbound = state.record_packet(&packet("10.0.0.2", "a", 80, 60, ""), 2);
    assert_eq!(outbound.direction, "outbound");
}

#[test]
fn every_packet_is_counted_for_its_source() {
    let mut state = AppState::new(vec![], 0);
    state.record_packet(&packet("a", "x", 1, 100, "SYN"), 1);
    state.record_packet(&packet("b", "x", 2, 1000, "SYN"), 2);
    state.record_packet(&packet("a", "x", 1, 50, "SYN|ACK"), 3);
    state.record_packet(&packet("a", "x", 3, 7, "SYN|PSH"), 4);
    assert_eq!(state.total_packets(), 4);
    assert_eq!(state.total_bytes(), 1157);
    let a = state.table().get("a").unwrap();
    assert_eq!(a.packet_count, 3);
    assert_eq!(a.byte_count, 157);
    assert_eq!(a.syn_count, 2);
    assert_eq!(a.first_seen, 1);
    assert_eq!(a.last_seen, 4);
    assert_eq!(a.ports_hit, vec![1, 3]);
    let b = state.table().get("b").unwrap();
    assert_eq!(b.packet_count, 1);
    assert_eq!(b.byte_count, 1000);
    assert_eq!(b.syn_count, 1);
}

#[test]
fn a_thousand_ports_are_remembered() {
    let mut state = AppState::new(vec![], 0);
    for port in 0..1200u16 {
        state.record_packet(&packet("a", "x", port, 1, ""), 1);
    }
    let stats = state.table().get("a").unwrap();
    assert_eq!(stats.packet_count, 1200);
    assert_eq!(stats.ports_hit.len(), 1000);
    assert_eq!(stats.ports_hit[999], 999);
}

#[test]
fn fourteen_requests_a_minute() {
    let mut state = AppState::new(vec![], 0);
    for _ in 0..14 {
        assert!(state.take_geoip_call(SECOND));
    }
    assert!(!state.take_geoip_call(SECOND));
    assert!(!state.take_geoip_call(60 * SECOND - 1));
    assert!(state.take_geoip_call(60 * SECOND));
    // The new minute began at that moment.
    assert!(state.can_geoip(119 * SECOND));
    for _ in 0..13 {
        assert!(state.take_geoip_call(119 * SECOND));
    }
    assert!(!state.can_geoip(119 * SECOND));
    assert!(state.can_geoip(120 * SECOND));
}

#[test]
fn two_hundred_attempts_in_ten_minutes() {
    let mut state = AppState::new(vec![], 0);
    let mut granted = 0;
    for second in 0..600u64 {
        if state.take_geoip_call(second * SECOND) {
            granted += 1;
        }
    }
    assert_eq!(granted, 140);
}

#[test]
fn asking_does_not_use_up_the_right() {
    let mut state = AppState::new(vec![], 0);
    for _ in 0..100 {
        assert!(state.can_geoip(1));
    }
    for _ in 0..14 {
        state.record_geoip_call();
    }
    assert!(!state.can_geoip(1));
}

#[test]
fn location_is_noted_and_counted_with() {
    let mut state = AppState::new(vec![], 0);
    state.record_packet(&packet("a", "x", 80, 60, ""), 1);
    state.set_location("a", "Norway", "Oslo");
    state.set_location("b", "Chile", "Arica");
    let stats = state.table().get("a").unwrap();
    assert_eq!(stats.country, "Norway");
    assert_eq!(stats.city, "Oslo");
    assert_eq!(stats.packet_count, 1);
    assert!(state.table().get("b").is_none());
    let report = state.record_packet(&packet("a", "x", 80, 60, ""), 2);
    assert_eq!(report.country, "Norway");
}

#[test]
fn log_keeps_the_latest_alerts() {
    let mut state = AppState::new(vec![], 0);
    for t in 0..500 {
        state.push_alert(alert(t));
    }
    assert_eq!(state.alerts().len(), 500);
    assert_eq!(state.alerts()[0].timestamp, 0);
    state.push_alert(alert(500));
    state.push_alert(alert(501));
    assert_eq!(state.alerts().len(), 500);
    assert_eq!(state.alerts()[0].timestamp, 2);
    assert_eq!(state.alerts()[499].timestamp, 501);
}

#[test]
fn latest_alerts_come_first() {
    let mut state = AppState::new(vec![], 0);
    assert_eq!(recent_alerts(&state).len(), 0);
    for t in 0..3 {
        state.push_alert(alert(t));
    }
    let few = recent_alerts(&state);
    assert_eq!(few.len(), 3);
    assert_eq!(few[0].timestamp, 2);
    assert_eq!(few[2].timestamp, 0);
    assert_eq!(few[0].description, "2000 pkt/s from 203.0.113.9");
    assert_eq!(f64::from_bits(few[0].pps_bits), 2000.0);
    for t in 3..150 {
        state.push_alert(alert(t));
    }
    let many = recent_alerts(&state);
    assert_eq!(many.len(), 100);
    assert_eq!(many[0].timestamp, 149);
    assert_eq!(many[99].timestamp, 50);
}

#[test]
fn rate_windows_follow_one_another() {
    let mut state = AppState::new(vec![], 10);
    assert!(state.close_rate_window(10).is_none());
    state.record_packet(&packet("a", "x", 80, 60, ""), 11);
    state.record_packet(&packet("a", "x", 80, 60, ""), 12);
    let first = state.close_rate_window(30).unwrap();
    assert_eq!(first.packets, 2);
    assert_eq!(first.elapsed, 20);
    state.record_packet(&packet("b", "x", 80, 60, ""), 31);
    let second = state.close_rate_window(35).unwrap();
    assert_eq!(second.packets, 1);
    assert_eq!(second.elapsed, 5);
    let third = state.close_rate_window(36).unwrap();
    assert_eq!(third.packets, 0);
}

#[test]
fn silent_sources_are_forgotten() {
    let mut state = AppState::new(vec![], 0);
    state.record_packet(&packet("old", "x", 80, 60, ""), 0);
    state.record_packet(&packet("edge", "x", 80, 60, ""), 1);
    state.record_packet(&packet("new", "x", 80, 60, ""), 2);
    state.evict_stale(300 * SECOND);
    assert_eq!(state.table().len(), 3);
    state.evict_stale(300 * SECOND + 1);
    assert_eq!(state.table().len(), 2);
    assert!(state.table().get("old").is_none());
    // Silent for exactly five minutes.
    assert!(state.table().get("edge").is_some());
    assert!(state.table().get("new").is_some());
    state.evict_stale(300 * SECOND + 2);
    assert!(state.table().get("edge").is_none());
    assert_eq!(state.total_packets(), 3);
}

#[test]
fn shares_add_up_until_a_source_is_forgotten() {
    let mut state = AppState::new(vec![], 0);
    state.record_packet(&packet("a", "x", 80, 60, ""), 0);
    state.record_packet(&packet("b", "x", 80, 40, ""), 250 * SECOND);
    state.record_packet(&packet("b", "x", 80, 40, ""), 251 * SECOND);
    let sums = |s: &AppState| {
        let top = top_sources(s, 10, 0);
        (top.iter().map(|r| r.packets).sum::<u64>(), top.iter().map(|r| r.bytes).sum::<u64>())
    };
    assert_eq!(sums(&state), (state.total_packets(), state.total_bytes()));
    state.evict_stale(400 * SECOND);
    assert_eq!(sums(&state), (2, 80));
    assert_eq!((state.total_packets(), state.total_bytes()), (3, 140));
}

#[test]
fn packets_can_change_places() {
    let f = packet("a", "x", 80, 60, "SYN");
    let g = packet("a", "x", 443, 40, "");
    let mut one = AppState::new(vec![], 0);
    one.record_packet(&f, 1);
    one.record_packet(&g, 2);
    let mut other = AppState::new(vec![], 0);
    other.record_packet(&g, 1);
    other.record_packet(&f, 2);
    let a = one.table().get("a").unwrap();
    let b = other.table().get("a").unwrap();
    assert_eq!((a.packet_count, a.byte_count, a.syn_count), (2, 100, 1));
    assert_eq!((b.packet_count, b.byte_count, b.syn_count), (2, 100, 1));
    assert_eq!(a.ports_hit, vec![80, 443]);
    assert_eq!(b.ports_hit, vec![443, 80]);
    // The same packet once more hits no new port.
    one.record_packet(&f, 3);
    let again = one.table().get("a").unwrap();
    assert_eq!((again.packet_count, again.byte_count, again.syn_count), (3, 160, 2));
    assert_eq!(again.ports_hit, vec![80, 443]);
}

#[test]
fn forgotten_source_begins_anew() {
    let mut state = AppState::new(vec![], 0);
    state.record_packet(&packet("a", "x", 80, 60, ""), 0);
    state.set_location("a", "Norway", "Oslo");
    state.evict_stale(400 * SECOND);
    let report = state.record_packet(&packet("a", "x", 81, 40, ""), 401 * SECOND);
    assert_eq!(report.country, "Unknown");
    let stats = state.table().get("a").unwrap();
    assert_eq!(stats.packet_count, 1);
    assert_eq!(stats.byte_count, 40);
    assert_eq!(stats.first_seen, 401 * SECOND);
    assert_eq!(stats.ports_hit, vec![81]);
}

#[test]
fn busiest_sources_first() {
    let mut state = AppState::new(vec![], 0);
    for (name, count) in [("a", 2), ("b", 5), ("c", 1), ("d", 4)] {
        for port in 0..count {
            state.record_packet(&packet(name, "x", port, 10, "SYN"), 3 * SECOND);
        }
    }
    let top = top_sources(&state, 3, 10 * SECOND + 1);
    let names: Vec<&str> = top.iter().map(|r| r.ip.as_str()).collect();
    assert_eq!(names, vec!["b", "d", "a"]);
    assert_eq!(top[0].packets, 5);
    assert_eq!(top[0].bytes, 50);
    assert_eq!(top[0].syn_count, 5);
    assert_eq!(top[0].unique_ports, 5);
    assert_eq!(top[0].duration_secs, 7);
    assert_eq!(top[0].country, "Unknown");
    assert_eq!(top_sources(&state, 0, 0).len(), 0);
    assert_eq!(top_sources(&state, 9, 0).len(), 4);
}

#[test]
fn overall_figures() {
    let mut state = AppState::new(vec!["127.0.0.1".to_string()], 0);
    for source in 0..30u16 {
        for _ in 0..=source {
            state.record_packet(&packet(&format!("s{}", source), "x", 80, 2, ""), 0);
        }
    }
    state.push_alert(alert(1));
    let report = stats_report(&state, 5 * SECOND);
    assert_eq!(report.total_packets, 465);
    assert_eq!(report.total_bytes, 930);
    assert_eq!(report.active_ips, 30);
    assert_eq!(report.total_alerts, 1);
    assert_eq!(report.local_ips, vec!["127.0.0.1".to_string()]);
    assert_eq!(report.top_ips.len(), 20);
    assert_eq!(report.top_ips[0].ip, "s29");
    assert_eq!(report.top_ips[0].packets, 30);
    assert_eq!(report.top_ips[19].ip, "s10");
    assert_eq!(report.top_ips[19].duration_secs, 5);
}
