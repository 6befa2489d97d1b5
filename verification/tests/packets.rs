//! Reading frames.

use traffic_exporter::address::{ipv4_to_text, is_cgnat, is_private_ip, IpAddress};
use traffic_exporter::packet::{bare_syn, parse_frame, parse_tcp_flags};
use traffic_exporter::protocol::detect_protocol;
use traffic_exporter::text::{contains_text, decimal_text, has_prefix, parse_unsigned, same_text};

fn ethernet(ethertype: u16, payload: &[u8]) -> Vec<u8> {
    let mut frame = vec![0xAAu8; 12];
    frame.extend_from_slice(&ethertype.to_be_bytes());
    frame.extend_from_slice(payload);
    frame
}

fn ipv4(protocol: u8, header_words: u8, total_length: u16, body: &[u8]) -> Vec<u8> {
    let mut packet = vec![0u8; header_words as usize * 4];
    packet[0] = 0x40 | header_words;
    packet[2..4].copy_from_slice(&total_length.to_be_bytes());
    packet[9] = protocol;
    packet[12..16].copy_from_slice(&[203, 0, 113, 9]);
    packet[16..20].copy_from_slice(&[10, 1, 2, 3]);
    packet.extend_from_slice(body);
    packet
}

fn tcp(src_port: u16, dst_port: u16, flags: u8) -> Vec<u8> {
    let mut segment = vec![0u8; 20];
    segment[0..2].copy_from_slice(&src_port.to_be_bytes());
    segment[2..4].copy_from_slice(&dst_port.to_be_bytes());
    segment[12] = 0x50;
    segment[13] = flags;
    segment
}

fn udp(src_port: u16, dst_port: u16) -> Vec<u8> {
    let mut datagram = vec![0u8; 8];
    datagram[0..2].copy_from_slice(&src_port.to_be_bytes());
    datagram[2..4].copy_from_slice(&dst_port.to_be_bytes());
    datagram
}

fn ipv6(payload_length: u16) -> Vec<u8> {
    let mut packet = vec![0u8; 40];
    packet[0] = 0x60;
    packet[4..6].copy_from_slice(&payload_length.to_be_bytes());
    packet[8..12].copy_from_slice(&[0x20, 0x01, 0x0d, 0xb8]);
    packet[23] = 7;
    packet[39] = 1;
    packet
}

#[test]
fn tcp_frame_is_read() {
    let frame = ethernet(0x0800, &ipv4(6, 5, 1500, &tcp(0x1234, 443, 0x12)));
    let packet = parse_frame(&frame).unwrap();
    assert_eq!(packet.src_ip, "203.0.113.9");
    assert_eq!(packet.src_address, IpAddress::V4([203, 0, 113, 9]));
    assert_eq!(packet.dst_ip, "10.1.2.3");
    assert_eq!(packet.transport, "TCP");
    assert_eq!(packet.src_port, 0x1234);
    assert_eq!(packet.dst_port, 443);
    assert_eq!(packet.length, 1500);
    assert_eq!(packet.flags, "SYN|ACK");
}

#[test]
fn options_of_the_header_are_skipped() {
    let frame = ethernet(0x0800, &ipv4(6, 7, 48, &tcp(1, 22, 0x02)));
    let packet = parse_frame(&frame).unwrap();
    assert_eq!(packet.src_port, 1);
    assert_eq!(packet.dst_port, 22);
    assert_eq!(packet.flags, "SYN");
}

#[test]
fn udp_frame_is_read() {
    let frame = ethernet(0x0800, &ipv4(17, 5, 28, &udp(40000, 53)));
    let packet = parse_frame(&frame).unwrap();
    assert_eq!(packet.transport, "UDP");
    assert_eq!(packet.src_port, 40000);
    assert_eq!(packet.dst_port, 53);
    assert_eq!(packet.length, 28);
    assert_eq!(packet.flags, "");
}

#[test]
fn ipv6_frame_is_read() {
    let frame = ethernet(0x86DD, &ipv6(640));
    let packet = parse_frame(&frame).unwrap();
    let mut octets = [0u8; 16];
    octets[0..4].copy_from_slice(&[0x20, 0x01, 0x0d, 0xb8]);
    octets[15] = 7;
    assert_eq!(packet.src_ip, "2001:db8::7");
    assert_eq!(packet.src_address, IpAddress::V6(octets));
    assert_eq!(packet.dst_ip, "::1");
    assert_eq!(packet.transport, "IPv6");
    assert_eq!(packet.src_port, 0);
    assert_eq!(packet.dst_port, 0);
    assert_eq!(packet.length, 640);
    assert_eq!(packet.flags, "");
}

#[test]
fn frames_that_carry_nothing_to_count() {
    assert!(parse_frame(&[]).is_none());
    assert!(parse_frame(&[0u8; 13]).is_none());
    // An ARP frame.
    assert!(parse_frame(&ethernet(0x0806, &[0u8; 46])).is_none());
    // An IPv4 header that is cut short.
    assert!(parse_frame(&ethernet(0x0800, &[0x45u8; 19])).is_none());
    // An ICMP packet.
    assert!(parse_frame(&ethernet(0x0800, &ipv4(1, 5, 40, &[0u8; 20]))).is_none());
    // Segments that are cut short.
    assert!(parse_frame(&ethernet(0x0800, &ipv4(6, 5, 39, &[0u8; 19]))).is_none());
    assert!(parse_frame(&ethernet(0x0800, &ipv4(17, 5, 27, &[0u8; 7]))).is_none());
    // An IPv6 header that is cut short.
    assert!(parse_frame(&ethernet(0x86DD, &ipv6(0)[0..39])).is_none());
}

#[test]
fn body_ends_where_the_header_says() {
    // The buffer would hold a whole segment, but the packet claims less.
    let body = tcp(1, 2, 0);
    assert!(parse_frame(&ethernet(0x0800, &ipv4(6, 5, 39, &body))).is_none());
    assert!(parse_frame(&ethernet(0x0800, &ipv4(6, 5, 40, &body))).is_some());
    assert!(parse_frame(&ethernet(0x0800, &ipv4(6, 5, 0, &body))).is_none());
}

#[test]
fn flags_are_named_in_order() {
    assert_eq!(parse_tcp_flags(0x00), "");
    assert_eq!(parse_tcp_flags(0x02), "SYN");
    assert_eq!(parse_tcp_flags(0x12), "SYN|ACK");
    assert_eq!(parse_tcp_flags(0x11), "ACK|FIN");
    assert_eq!(parse_tcp_flags(0x3F), "SYN|ACK|FIN|RST|PSH|URG");
    assert_eq!(parse_tcp_flags(0xC0), "");
}

#[test]
fn flag_text_shows_a_bare_syn() {
    let mut bits: u8 = 0;
    loop {
        let text = parse_tcp_flags(bits);
        assert_eq!(bare_syn(&text), bits & 0x02 != 0 && bits & 0x10 == 0);
        if bits == u8::MAX {
            break;
        }
        bits += 1;
    }
}

#[test]
fn protocols_by_port() {
    let expected = [
        (22, "SSH"),
        (3389, "RDP"),
        (80, "HTTP"),
        (443, "HTTPS"),
        (8080, "HTTP-Alt"),
        (8443, "HTTPS-Alt"),
        (53, "DNS"),
        (25, "SMTP"),
        (587, "SMTP-TLS"),
        (993, "IMAPS"),
        (995, "POP3S"),
        (21, "FTP"),
        (3306, "MySQL"),
        (5432, "PostgreSQL"),
        (6379, "Redis"),
        (27017, "MongoDB"),
        (1433, "MSSQL"),
        (5984, "CouchDB"),
        (9090, "Prometheus"),
        (9100, "NodeExporter"),
        (3000, "Grafana"),
        (2181, "Zookeeper"),
        (9092, "Kafka"),
        (1194, "OpenVPN"),
        (51820, "WireGuard"),
    ];
    for (port, name) in expected {
        assert_eq!(detect_protocol(port, 50000, "TCP"), name);
        assert_eq!(detect_protocol(50000, port, "UDP"), name);
    }
}

#[test]
fn protocol_of_two_known_ports_is_the_first_in_the_list() {
    assert_eq!(detect_protocol(80, 22, "TCP"), "SSH");
    assert_eq!(detect_protocol(22, 80, "TCP"), "SSH");
    assert_eq!(detect_protocol(51820, 1194, "UDP"), "OpenVPN");
}

#[test]
fn protocol_without_a_known_port_is_the_transport() {
    assert_eq!(detect_protocol(50000, 50001, "TCP"), "TCP");
    assert_eq!(detect_protocol(50000, 50001, "UDP"), "UDP");
    assert_eq!(detect_protocol(0, 0, "IPv6"), "IPv6");
    assert_eq!(detect_protocol(0, 0, "SCTP"), "OTHER");
    assert_eq!(detect_protocol(0, 0, ""), "OTHER");
}

#[test]
fn addresses_as_text() {
    assert_eq!(ipv4_to_text([0, 0, 0, 0]), "0.0.0.0");
    assert_eq!(ipv4_to_text([192, 168, 100, 7]), "192.168.100.7");
    assert_eq!(ipv4_to_text([255, 255, 255, 255]), "255.255.255.255");
}

#[test]
fn private_ranges() {
    let private = [
        [10, 0, 0, 1],
        [172, 16, 0, 1],
        [172, 31, 255, 255],
        [192, 168, 0, 1],
        [127, 0, 0, 1],
        [127, 255, 0, 1],
        [169, 254, 1, 1],
        [255, 255, 255, 255],
        [0, 0, 0, 0],
        [100, 64, 0, 0],
        [100, 127, 255, 255],
    ];
    for octets in private {
        assert!(is_private_ip(&IpAddress::V4(octets)), "{:?}", octets);
    }
    let public = [
        [8, 8, 8, 8],
        [9, 255, 255, 255],
        [11, 0, 0, 0],
        [172, 15, 0, 1],
        [172, 32, 0, 1],
        [192, 167, 0, 1],
        [169, 253, 1, 1],
        [255, 255, 255, 254],
        [0, 0, 0, 1],
        [100, 63, 255, 255],
        [100, 128, 0, 0],
    ];
    for octets in public {
        assert!(!is_private_ip(&IpAddress::V4(octets)), "{:?}", octets);
    }
}

#[test]
fn carrier_range() {
    assert!(is_cgnat([100, 64, 0, 0]));
    assert!(is_cgnat([100, 127, 0, 0]));
    assert!(!is_cgnat([100, 63, 0, 0]));
    assert!(!is_cgnat([100, 128, 0, 0]));
    assert!(!is_cgnat([101, 64, 0, 0]));
}

#[test]
fn private_ipv6() {
    let mut octets = [0u8; 16];
    assert!(is_private_ip(&IpAddress::V6(octets)));
    octets[15] = 1;
    assert!(is_private_ip(&IpAddress::V6(octets)));
    octets[15] = 2;
    assert!(!is_private_ip(&IpAddress::V6(octets)));
    octets[15] = 1;
    octets[0] = 0xFE;
    octets[1] = 0x80;
    assert!(!is_private_ip(&IpAddress::V6(octets)));
}

#[test]
fn decimal_notation() {
    assert_eq!(decimal_text(0), "0");
    assert_eq!(decimal_text(10), "10");
    assert_eq!(decimal_text(u64::MAX), "18446744073709551615");
}

#[test]
fn decimal_notation_reads_back() {
    for n in [0u64, 9, 10, 65535, u64::MAX] {
        assert_eq!(parse_unsigned(&decimal_text(n), u64::MAX), Some(n));
    }
}

#[test]
fn unsigned_numbers() {
    assert_eq!(parse_unsigned("007", 10), Some(7));
    assert_eq!(parse_unsigned("+7", 10), Some(7));
    assert_eq!(parse_unsigned("10", 10), Some(10));
    assert_eq!(parse_unsigned("11", 10), None);
    assert_eq!(parse_unsigned("18446744073709551616", u64::MAX), None);
    assert_eq!(parse_unsigned("", 10), None);
    assert_eq!(parse_unsigned("+", 10), None);
    assert_eq!(parse_unsigned("-1", 10), None);
    assert_eq!(parse_unsigned(" 1", 10), None);
    assert_eq!(parse_unsigned("1.0", 10), None);
}

#[test]
fn comparing_texts() {
    assert!(same_text("", ""));
    assert!(same_text("abc", "abc"));
    assert!(!same_text("abc", "abd"));
    assert!(!same_text("abc", "ab"));
    assert!(has_prefix("ens33", "en"));
    assert!(has_prefix("ens33", ""));
    assert!(!has_prefix("en", "ens"));
    assert!(contains_text("SYN|ACK", "ACK"));
    assert!(contains_text("SYN", ""));
    assert!(!contains_text("SYN", "SYNC"));
    assert!(!contains_text("SYN|FIN", "ACK"));
}
