//! Locating sources, and what the exporter is set up with.

use traffic_exporter::address::{ipv4_to_text, IpAddress};
use traffic_exporter::clock::SECOND;
use traffic_exporter::config::{exporter_port, thresholds};
use traffic_exporter::geoip::{
    apply_places, collect_places, geoip_request, geoip_response, pending_sources, GeoRun, GeoStep,
};
use traffic_exporter::interface::{auto_detect_interface, auto_detect_local_ips, listed_interface};
use traffic_exporter::packet::PacketInfo;
use traffic_exporter::state::AppState;

fn heard_of(state: &mut AppState, octets: [u8; 4]) {
    let packet = PacketInfo {
        src_ip: ipv4_to_text(octets),
        src_address: IpAddress::V4(octets),
        dst_ip: "192.0.2.1".to_string(),
        transport: "UDP",
        src_port: 50000,
        dst_port: 53,
        length: 60,
        flags: String::new(),
    };
    state.record_packet(&packet, 0);
}

fn names(list: &[&str]) -> Option<Vec<String>> {
    Some(list.iter().map(|n| n.to_string()).collect())
}

fn text(s: &str) -> Option<String> {
    Some(s.to_string())
}

#[test]
fn request_is_a_json_array() {
    let ips = vec!["1.2.3.4".to_string(), "2001:db8::7".to_string()];
    let body = geoip_request(&ips).unwrap();
    assert_eq!(
        String::from_utf8(body).unwrap(),
        "[{\"query\":\"1.2.3.4\"},{\"query\":\"2001:db8::7\"}]"
    );
    assert!(geoip_request(&vec![]).is_none());
}

#[test]
fn request_escapes_what_must_be_escaped() {
    let body = geoip_request(&vec!["a\"b\\c".to_string()]).unwrap();
    assert_eq!(String::from_utf8(body).unwrap(), "[{\"query\":\"a\\\"b\\\\c\"}]");
}

#[test]
fn answer_is_read() {
    let body = b"[
        {\"status\":\"success\",\"country\":\"Norway\",\"city\":\"Oslo\",\"query\":\"1.2.3.4\"},
        {\"status\":\"fail\",\"query\":\"5.6.7.8\"},
        {\"status\":\"success\",\"country\":\"Chile\",\"query\":\"9.9.9.9\"},
        {\"status\":\"success\",\"city\":7,\"query\":\"8.8.8.8\"},
        {\"status\":\"success\",\"country\":\"Nowhere\"},
        {\"status\":\"success\",\"country\":\"Nowhere\",\"query\":\"\"},
        17
    ]";
    let places = geoip_response(body).unwrap();
    assert_eq!(places.len(), 3);
    let oslo = places.get("1.2.3.4").unwrap();
    assert_eq!(oslo.country, "Norway");
    assert_eq!(oslo.city, "Oslo");
    let chile = places.get("9.9.9.9").unwrap();
    assert_eq!(chile.country, "Chile");
    assert_eq!(chile.city, "Unknown");
    let unknown = places.get("8.8.8.8").unwrap();
    assert_eq!(unknown.country, "Unknown");
    assert_eq!(unknown.city, "Unknown");
    assert!(places.get("5.6.7.8").is_none());
    assert!(places.get("").is_none());
}

#[test]
fn answer_that_is_no_array_tells_nothing() {
    assert!(geoip_response(b"").is_none());
    assert!(geoip_response(b"{\"status\":\"success\"}").is_none());
    assert!(geoip_response(b"[1").is_none());
    assert_eq!(geoip_response(b"[]").unwrap().len(), 0);
}

#[test]
fn last_row_of_an_address_counts() {
    let rows = vec![
        vec![text("success"), text("1.2.3.4"), text("Norway"), text("Oslo")],
        vec![text("success"), text("1.2.3.4"), text("Chile"), None],
        vec![text("Success"), text("1.2.3.4"), text("Peru"), text("Lima")],
    ];
    let places = collect_places(&rows);
    assert_eq!(places.len(), 1);
    let place = places.get("1.2.3.4").unwrap();
    assert_eq!(place.country, "Chile");
    assert_eq!(place.city, "Unknown");
}

#[test]
fn pending_are_the_unknown_public_sources() {
    let mut state = AppState::new(vec![], 0);
    heard_of(&mut state, [8, 8, 8, 8]);
    heard_of(&mut state, [10, 0, 0, 1]);
    heard_of(&mut state, [9, 9, 9, 9]);
    heard_of(&mut state, [1, 1, 1, 1]);
    state.set_location("9.9.9.9", "Norway", "Oslo");
    state.set_location("1.1.1.1", "Unknown", "Oslo");
    let mut pending = pending_sources(&state);
    pending.sort();
    assert_eq!(pending, vec!["1.1.1.1".to_string(), "8.8.8.8".to_string()]);
}

#[test]
fn located_sources_are_not_asked_for_again() {
    let mut state = AppState::new(vec![], 0);
    heard_of(&mut state, [8, 8, 8, 8]);
    heard_of(&mut state, [9, 9, 9, 9]);
    let body = b"[{\"status\":\"success\",\"country\":\"Norway\",\"city\":\"Oslo\",\"query\":\"8.8.8.8\"},
        {\"status\":\"success\",\"country\":\"Chile\",\"city\":\"Arica\",\"query\":\"9.9.9.9\"}]";
    let places = geoip_response(body).unwrap();
    apply_places(&mut state, &vec!["8.8.8.8".to_string(), "7.7.7.7".to_string()], &places);
    let stats = state.table().get("8.8.8.8").unwrap();
    assert_eq!(stats.country, "Norway");
    assert_eq!(stats.city, "Oslo");
    assert_eq!(stats.packet_count, 1);
    // What was not asked for is not noted.
    assert_eq!(state.table().get("9.9.9.9").unwrap().country, "Unknown");
    assert!(state.table().get("7.7.7.7").is_none());
    assert_eq!(pending_sources(&state), vec!["9.9.9.9".to_string()]);
}

#[test]
fn run_goes_through_the_batches() {
    let mut state = AppState::new(vec![], 0);
    for i in 0..250u8 {
        heard_of(&mut state, [8, 8, 8, i]);
    }
    let mut run = GeoRun::start(&state);
    let mut sizes = Vec::new();
    let mut asked = Vec::new();
    loop {
        match run.step(&mut state, SECOND) {
            GeoStep::Fetch(batch) => {
                assert_eq!(geoip_request(&batch.chunk).unwrap(), batch.body);
                sizes.push(batch.chunk.len());
                asked.extend(batch.chunk);
            }
            GeoStep::LimitReached => panic!("three requests are allowed"),
            GeoStep::Finished => break,
        }
    }
    assert_eq!(sizes, vec![100, 100, 50]);
    asked.sort();
    asked.dedup();
    assert_eq!(asked.len(), 250);
    assert!(matches!(run.step(&mut state, SECOND), GeoStep::Finished));
}

#[test]
fn run_ends_at_the_limit() {
    let mut state = AppState::new(vec![], 0);
    heard_of(&mut state, [8, 8, 8, 8]);
    for _ in 0..14 {
        state.record_geoip_call();
    }
    let mut run = GeoRun::start(&state);
    assert!(matches!(run.step(&mut state, SECOND), GeoStep::LimitReached));
    assert!(matches!(run.step(&mut state, 61 * SECOND), GeoStep::Finished));
    // The address is still pending in the next run.
    let mut next = GeoRun::start(&state);
    assert!(matches!(next.step(&mut state, 61 * SECOND), GeoStep::Fetch(_)));
}

#[test]
fn run_with_nothing_pending_asks_nothing() {
    let mut state = AppState::new(vec![], 0);
    heard_of(&mut state, [192, 168, 0, 1]);
    let mut run = GeoRun::start(&state);
    assert!(matches!(run.step(&mut state, SECOND), GeoStep::Finished));
    for _ in 0..14 {
        assert!(state.take_geoip_call(SECOND));
    }
}

#[test]
fn preferred_interface_comes_first() {
    let listed = names(&["lo", "docker0", "wlan0", "eth0"]);
    assert_eq!(auto_detect_interface(&listed, &None), "wlan0");
    for name in ["eth1", "enp3s0", "ens33", "wlan1", "wlp2s0", "bond0", "br-lan"] {
        assert_eq!(auto_detect_interface(&names(&["tun0", name]), &text("x")), name);
    }
}

#[test]
fn fallback_interface_is_no_loopback() {
    assert_eq!(auto_detect_interface(&names(&["lo", "loop0", "tun0"]), &None), "tun0");
    assert_eq!(auto_detect_interface(&names(&["lo", "loop0"]), &text("any")), "any");
    assert_eq!(auto_detect_interface(&names(&["lo"]), &None), "eth0");
    assert_eq!(auto_detect_interface(&names(&[]), &text("tap3")), "tap3");
    assert_eq!(auto_detect_interface(&None, &text("tap3")), "tap3");
    assert_eq!(auto_detect_interface(&None, &None), "eth0");
}

#[test]
fn default_interface_counts_only_where_no_listed_one_will_do() {
    assert_eq!(listed_interface(&names(&["lo", "tun0", "eth0"])), text("eth0"));
    assert_eq!(listed_interface(&names(&["lo", "tun0"])), text("tun0"));
    assert_eq!(listed_interface(&names(&["lo", "loop0"])), None);
    assert_eq!(listed_interface(&None), None);
    assert_eq!(auto_detect_interface(&names(&["tun0"]), &text("eth7")), "tun0");
}

#[test]
fn host_addresses_are_all_that_are_listed() {
    let listed = names(&["127.0.0.1", "::1", "192.168.1.5"]);
    assert_eq!(auto_detect_local_ips(&listed), vec!["::1", "192.168.1.5", "127.0.0.1"]);
    let more = names(&["10.0.0.5", "127.8.0.1", "fe80::1", "127.0.0.1", "127.0.0.1", "1270.0.0.1"]);
    assert_eq!(
        auto_detect_local_ips(&more),
        vec!["10.0.0.5", "127.8.0.1", "fe80::1", "1270.0.0.1", "127.0.0.1"]
    );
    assert_eq!(auto_detect_local_ips(&names(&[])), vec!["127.0.0.1"]);
    assert_eq!(auto_detect_local_ips(&None), vec!["127.0.0.1"]);
}

#[test]
fn port_setting() {
    assert_eq!(exporter_port(&None), 9100);
    assert_eq!(exporter_port(&text("8000")), 8000);
    assert_eq!(exporter_port(&text("65535")), 65535);
    assert_eq!(exporter_port(&text("65536")), 9100);
    assert_eq!(exporter_port(&text("http")), 9100);
    assert_eq!(exporter_port(&text("")), 9100);
}

#[test]
fn threshold_settings() {
    let unset = thresholds(&None, &None);
    assert_eq!(unset.syn, 500);
    assert_eq!(unset.ports, 100);
    let set = thresholds(&text("7"), &text("0"));
    assert_eq!(set.syn, 7);
    assert_eq!(set.ports, 0);
    let wrong = thresholds(&text("-7"), &text("many"));
    assert_eq!(wrong.syn, 500);
    assert_eq!(wrong.ports, 100);
}
