//! Application protocols, told by port number.

use vstd::prelude::*;

use crate::text::same_text;

verus! {

/// The number of services that are told by their port.
pub const SERVICE_COUNT: usize = 25;

/// The services that are told by their port, in the order in which they are
/// tried.
pub open spec fn services() -> Seq<(u16, Seq<char>)> {
    seq![
        (22u16, "SSH"@),
        (3389, "RDP"@),
        (80, "HTTP"@),
        (443, "HTTPS"@),
        (8080, "HTTP-Alt"@),
        (8443, "HTTPS-Alt"@),
        (53, "DNS"@),
        (25, "SMTP"@),
        (587, "SMTP-TLS"@),
        (993, "IMAPS"@),
        (995, "POP3S"@),
        (21, "FTP"@),
        (3306, "MySQL"@),
        (5432, "PostgreSQL"@),
        (6379, "Redis"@),
        (27017, "MongoDB"@),
        (1433, "MSSQL"@),
        (5984, "CouchDB"@),
        (9090, "Prometheus"@),
        (9100, "NodeExporter"@),
        (3000, "Grafana"@),
        (2181, "Zookeeper"@),
        (9092, "Kafka"@),
        (1194, "OpenVPN"@),
        (51820, "WireGuard"@),
    ]
}

/// The first service of `list` whose port is one of the two.
pub open spec fn first_service(
    list: Seq<(u16, Seq<char>)>,
    src_port: u16,
    dst_port: u16,
) -> Option<Seq<char>>
    decreases list.len(),
{
    if list.len() == 0 {
        None
    } else if list[0].0 == src_port || list[0].0 == dst_port {
        Some(list[0].1)
    } else {
        first_service(list.drop_first(), src_port, dst_port)
    }
}

/// The name of a transport protocol for which no service was found.
pub open spec fn transport_name(transport: Seq<char>) -> Seq<char> {
    if transport == "TCP"@ {
        "TCP"@
    } else if transport == "UDP"@ {
        "UDP"@
    } else if transport == "IPv6"@ {
        "IPv6"@
    } else {
        "OTHER"@
    }
}

/// The protocol of a packet: the first service that either of its ports
/// belongs to, or else its transport.
pub open spec fn protocol_name(src_port: u16, dst_port: u16, transport: Seq<char>) -> Seq<char> {
    match first_service(services(), src_port, dst_port) {
        Some(name) => name,
        None => transport_name(transport),
    }
}

/// The port and the name of the service at place `i`.
fn service_at(i: usize) -> (r: (u16, &'static str))
    requires
        i < SERVICE_COUNT,
    ensures
        r.0 == services()[i as int].0,
        r.1@ == services()[i as int].1,
{
    match i {
        0 => (22, "SSH"),
        1 => (3389, "RDP"),
        2 => (80, "HTTP"),
        3 => (443, "HTTPS"),
        4 => (8080, "HTTP-Alt"),
        5 => (8443, "HTTPS-Alt"),
        6 => (53, "DNS"),
        7 => (25, "SMTP"),
        8 => (587, "SMTP-TLS"),
        9 => (993, "IMAPS"),
        10 => (995, "POP3S"),
        11 => (21, "FTP"),
        12 => (3306, "MySQL"),
        13 => (5432, "PostgreSQL"),
        14 => (6379, "Redis"),
        15 => (27017, "MongoDB"),
        16 => (1433, "MSSQL"),
        17 => (5984, "CouchDB"),
        18 => (9090, "Prometheus"),
        19 => (9100, "NodeExporter"),
        20 => (3000, "Grafana"),
        21 => (2181, "Zookeeper"),
        22 => (9092, "Kafka"),
        23 => (1194, "OpenVPN"),
        _ => (51820, "WireGuard"),
    }
}

/// Maps port numbers to the name of an application protocol.
pub fn detect_protocol(src_port: u16, dst_port: u16, transport: &str) -> (r: &'static str)
    ensures
        r@ == protocol_name(src_port, dst_port, transport@),
{
    let ghost list = services();
    let mut i: usize = 0;
    assert(list.skip(0) == list);
    while i < SERVICE_COUNT
        invariant
            i <= SERVICE_COUNT,
            list == services(),
            first_service(list, src_port, dst_port) == first_service(
                list.skip(i as int),
                src_port,
                dst_port,
            ),
        decreases SERVICE_COUNT - i,
    {
        let (port, name) = service_at(i);
        assert(list.skip(i as int)[0] == list[i as int]);
        assert(list.skip(i as int).drop_first() == list.skip(i + 1));
        if src_port == port || dst_port == port {
            return name;
        }
        i = i + 1;
    }
    if same_text(transport, "TCP") {
        "TCP"
    } else if same_text(transport, "UDP") {
        "UDP"
    } else if same_text(transport, "IPv6") {
        "IPv6"
    } else {
        "OTHER"
    }
}

/// Each port stands for one service only.
pub proof fn law_each_port_once(i: int, j: int)
    requires
        0 <= i < services().len(),
        0 <= j < services().len(),
        services()[i].0 == services()[j].0,
    ensures
        i == j,
{
}

proof fn lemma_first_service_symmetric(list: Seq<(u16, Seq<char>)>, a: u16, b: u16)
    ensures
        first_service(list, a, b) == first_service(list, b, a),
    decreases list.len(),
{
    if list.len() > 0 {
        lemma_first_service_symmetric(list.drop_first(), a, b);
    }
}

/// A request and its reply are of one protocol: which end a port stands at
/// makes no difference.
pub proof fn law_protocol_ignores_direction(a: u16, b: u16, transport: Seq<char>)
    ensures
        protocol_name(a, b, transport) == protocol_name(b, a, transport),
{
    lemma_first_service_symmetric(services(), a, b);
}

} // verus!
