//! Laws of telling protocols by their ports.

use vstd::prelude::*;

verus! {

/// The first service of a list that a packet belongs to, by its place.
proof fn lemma_first_service_at(list: Seq<(u16, Seq<char>)>, a: u16, b: u16, j: int)
    requires
        0 <= j < list.len(),
        list[j].0 == a || list[j].0 == b,
        forall|i: int| 0 <= i < j ==> (#[trigger] list[i]).0 != a && list[i].0 != b,
    ensures
        crate::protocol::first_service(list, a, b) == Some(list[j].1),
    decreases list.len(),
{
    if j > 0 {
        let rest = list.drop_first();
        assert(list[0].0 != a && list[0].0 != b);
        assert forall|i: int| 0 <= i < j - 1 implies (#[trigger] rest[i]).0 != a && rest[i].0
            != b by {
            assert(rest[i] == list[i + 1]);
        }
        lemma_first_service_at(rest, a, b, j - 1);
    }
}

/// A packet that belongs to no service of a list finds none.
proof fn lemma_no_service(list: Seq<(u16, Seq<char>)>, a: u16, b: u16)
    requires
        forall|i: int| 0 <= i < list.len() ==> (#[trigger] list[i]).0 != a && list[i].0 != b,
    ensures
        crate::protocol::first_service(list, a, b) is None,
    decreases list.len(),
{
    if list.len() > 0 {
        let rest = list.drop_first();
        assert(list[0].0 != a && list[0].0 != b);
        assert forall|i: int| 0 <= i < rest.len() implies (#[trigger] rest[i]).0 != a && rest[i].0
            != b by {
            assert(rest[i] == list[i + 1]);
        }
        lemma_no_service(rest, a, b);
    }
}

/// A packet is of the protocol of the first service that either of its ports,
/// or both, belong to.
pub proof fn law_protocol_is_first_service(a: u16, b: u16, transport: Seq<char>, j: int)
    requires
        0 <= j < crate::protocol::services().len(),
        crate::protocol::services()[j].0 == a || crate::protocol::services()[j].0 == b,
        forall|i: int|
            0 <= i < j ==> (#[trigger] crate::protocol::services()[i]).0 != a
                && crate::protocol::services()[i].0 != b,
    ensures
        crate::protocol::protocol_name(a, b, transport) == crate::protocol::services()[j].1,
{
    lemma_first_service_at(crate::protocol::services(), a, b, j);
}

/// Between two ends on the port of one service, the protocol is that service.
pub proof fn law_protocol_between_peers(transport: Seq<char>, j: int)
    requires
        0 <= j < crate::protocol::services().len(),
    ensures
        ({
            let port = crate::protocol::services()[j].0;
            crate::protocol::protocol_name(port, port, transport)
                == crate::protocol::services()[j].1
        }),
{
    let list = crate::protocol::services();
    let port = list[j].0;
    assert forall|i: int| 0 <= i < j implies (#[trigger] list[i]).0 != port by {
        if list[i].0 == port {
            crate::protocol::law_each_port_once(i, j);
        }
    }
    lemma_first_service_at(list, port, port, j);
}

/// A packet with one port of a service and one that is of none is of that
/// service's protocol, whichever end the port stands at.
pub proof fn law_protocol_of_one_known_port(other: u16, transport: Seq<char>, j: int)
    requires
        0 <= j < crate::protocol::services().len(),
        forall|i: int|
            0 <= i < crate::protocol::services().len() ==> (
            #[trigger] crate::protocol::services()[i]).0 != other,
    ensures
        ({
            let port = crate::protocol::services()[j].0;
            let name = crate::protocol::services()[j].1;
            &&& crate::protocol::protocol_name(port, other, transport) == name
            &&& crate::protocol::protocol_name(other, port, transport) == name
        }),
{
    let list = crate::protocol::services();
    let port = list[j].0;
    assert forall|i: int| 0 <= i < j implies (#[trigger] list[i]).0 != port && list[i].0
        != other by {
        if list[i].0 == port {
            crate::protocol::law_each_port_once(i, j);
        }
    }
    lemma_first_service_at(list, port, other, j);
    lemma_first_service_at(list, other, port, j);
}

/// A packet whose ports belong to no service is told by its transport, if that
/// is one of the three that are known.
pub proof fn law_protocol_without_service(a: u16, b: u16, transport: Seq<char>)
    requires
        forall|i: int|
            0 <= i < crate::protocol::services().len() ==> (
            #[trigger] crate::protocol::services()[i]).0 != a && crate::protocol::services()[i].0
                != b,
    ensures
        ({
            let known = transport == "TCP"@ || transport == "UDP"@ || transport == "IPv6"@;
            crate::protocol::protocol_name(a, b, transport) == if known {
                transport
            } else {
                "OTHER"@
            }
        }),
{
    lemma_no_service(crate::protocol::services(), a, b);
}

/// The ports that tell a service, and the services that they tell.
pub proof fn law_services_and_their_ports(transport: Seq<char>, other: u16)
    requires
        forall|i: int|
            0 <= i < crate::protocol::services().len() ==> (
            #[trigger] crate::protocol::services()[i]).0 != other,
    ensures
        crate::protocol::services().len() == 25,
        crate::protocol::protocol_name(22, other, transport) == "SSH"@,
        crate::protocol::protocol_name(3389, other, transport) == "RDP"@,
        crate::protocol::protocol_name(80, other, transport) == "HTTP"@,
        crate::protocol::protocol_name(443, other, transport) == "HTTPS"@,
        crate::protocol::protocol_name(8080, other, transport) == "HTTP-Alt"@,
        crate::protocol::protocol_name(8443, other, transport) == "HTTPS-Alt"@,
        crate::protocol::protocol_name(53, other, transport) == "DNS"@,
        crate::protocol::protocol_name(25, other, transport) == "SMTP"@,
        crate::protocol::protocol_name(587, other, transport) == "SMTP-TLS"@,
        crate::protocol::protocol_name(993, other, transport) == "IMAPS"@,
        crate::protocol::protocol_name(995, other, transport) == "POP3S"@,
        crate::protocol::protocol_name(21, other, transport) == "FTP"@,
        crate::protocol::protocol_name(3306, other, transport) == "MySQL"@,
        crate::protocol::protocol_name(5432, other, transport) == "PostgreSQL"@,
        crate::protocol::protocol_name(6379, other, transport) == "Redis"@,
        crate::protocol::protocol_name(27017, other, transport) == "MongoDB"@,
        crate::protocol::protocol_name(1433, other, transport) == "MSSQL"@,
        crate::protocol::protocol_name(5984, other, transport) == "CouchDB"@,
        crate::protocol::protocol_name(9090, other, transport) == "Prometheus"@,
        crate::protocol::protocol_name(9100, other, transport) == "NodeExporter"@,
        crate::protocol::protocol_name(3000, other, transport) == "Grafana"@,
        crate::protocol::protocol_name(2181, other, transport) == "Zookeeper"@,
        crate::protocol::protocol_name(9092, other, transport) == "Kafka"@,
        crate::protocol::protocol_name(1194, other, transport) == "OpenVPN"@,
        crate::protocol::protocol_name(51820, other, transport) == "WireGuard"@,
{
    assert forall|j: int| 0 <= j < 25 implies crate::protocol::protocol_name(
        (#[trigger] crate::protocol::services()[j]).0,
        other,
        transport,
    ) == crate::protocol::services()[j].1 by {
        law_protocol_of_one_known_port(other, transport, j);
    }
    let list = crate::protocol::services();
    assert(list[0].0 == 22 && list[1].0 == 3389 && list[2].0 == 80 && list[3].0 == 443);
    assert(list[4].0 == 8080 && list[5].0 == 8443 && list[6].0 == 53 && list[7].0 == 25);
    assert(list[8].0 == 587 && list[9].0 == 993 && list[10].0 == 995 && list[11].0 == 21);
    assert(list[12].0 == 3306 && list[13].0 == 5432 && list[14].0 == 6379 && list[15].0 == 27017);
    assert(list[16].0 == 1433 && list[17].0 == 5984 && list[18].0 == 9090 && list[19].0 == 9100);
    assert(list[20].0 == 3000 && list[21].0 == 2181 && list[22].0 == 9092 && list[23].0 == 1194);
    assert(list[24].0 == 51820);
}

/// Of two services that a packet belongs to, the one that stands earlier in
/// the list tells its protocol.
pub proof fn law_earlier_service_wins(transport: Seq<char>, i: int, j: int)
    requires
        0 <= i <= j < crate::protocol::services().len(),
    ensures
        crate::protocol::protocol_name(
            crate::protocol::services()[i].0,
            crate::protocol::services()[j].0,
            transport,
        ) == crate::protocol::services()[i].1,
{
    let list = crate::protocol::services();
    assert forall|k: int| 0 <= k < i implies (#[trigger] list[k]).0 != list[i].0 && list[k].0
        != list[j].0 by {
        if list[k].0 == list[i].0 {
            crate::protocol::law_each_port_once(k, i);
        }
        if list[k].0 == list[j].0 {
            crate::protocol::law_each_port_once(k, j);
        }
    }
    lemma_first_service_at(list, list[i].0, list[j].0, i);
}

} // verus!
