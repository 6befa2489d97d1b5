//! Laws of counting packets for their sources.

use vstd::prelude::*;

verus! {

/// What a packet adds to its sender: one packet, its bytes, a connection
/// request if it is one, and the time at which it came. A sender that was known
/// keeps when it was first seen, where it is, and its address; one that was not
/// begins now, at an unknown place.
pub proof fn law_packet_adds_to_its_sender(
    m: crate::state::TrafficModel,
    packet: crate::packet::PacketFacts,
    now: nat,
)
    ensures
        ({
            let after = crate::state::model_after_packet(m, packet, now);
            let known = m.ips.contains_key(packet.src_ip);
            let b = m.ips[packet.src_ip];
            let a = after.ips[packet.src_ip];
            let syn: nat = if crate::packet::is_bare_syn(packet.flags) {
                1
            } else {
                0
            };
            &&& after.ips.contains_key(packet.src_ip)
            &&& a.last_seen == now
            &&& a.ports.len() < 1_000 ==> a.ports.contains(packet.dst_port)
            &&& known ==> {
                &&& a.packets == b.packets + 1
                &&& a.bytes == b.bytes + packet.length
                &&& a.syns == b.syns + syn
                &&& a.first_seen == b.first_seen
                &&& a.country == b.country
                &&& a.city == b.city
                &&& a.octets == b.octets
            }
            &&& !known ==> {
                &&& a.packets == 1
                &&& a.bytes == packet.length
                &&& a.syns == syn
                &&& a.first_seen == now
                &&& a.country == "Unknown"@
                &&& a.city == "Unknown"@
                &&& a.octets == packet.src_octets
                &&& a.ports == seq![packet.dst_port]
            }
        }),
{
    let before = crate::state::sender_record(m, packet, now).ports;
    let ports = crate::state::model_after_packet(m, packet, now).ips[packet.src_ip].ports;
    assert(Seq::<u16>::empty().push(packet.dst_port) =~= seq![packet.dst_port]);
    if ports.len() < 1_000 && !before.contains(packet.dst_port) {
        assert(ports[ports.len() - 1] == packet.dst_port);
    }
}

/// How a packet changes the ports of its sender: a port that is new is put at
/// the end, while fewer than a thousand are remembered; else nothing changes.
pub proof fn law_packet_adds_its_port(
    m: crate::state::TrafficModel,
    packet: crate::packet::PacketFacts,
    now: nat,
)
    requires
        m.ips.contains_key(packet.src_ip),
    ensures
        ({
            let before = m.ips[packet.src_ip].ports;
            let ports = crate::state::model_after_packet(m, packet, now).ips[packet.src_ip].ports;
            let new = before.len() < 1_000 && forall|i: int|
                0 <= i < before.len() ==> #[trigger] before[i] != packet.dst_port;
            &&& new ==> ports.len() == before.len() + 1 && ports.last() == packet.dst_port
                && ports.drop_last() == before
            &&& !new ==> ports == before
        }),
{
    let before = m.ips[packet.src_ip].ports;
    assert(before.push(packet.dst_port).drop_last() =~= before);
    if before.contains(packet.dst_port) {
        let i = choose|i: int| 0 <= i < before.len() && before[i] == packet.dst_port;
        assert(before[i] == packet.dst_port);
    }
}

/// What a packet changes beside its sender: the totals, and nothing else.
pub proof fn law_packet_changes_nothing_else(
    m: crate::state::TrafficModel,
    packet: crate::packet::PacketFacts,
    now: nat,
    other: Seq<char>,
)
    ensures
        ({
            let after = crate::state::model_after_packet(m, packet, now);
            &&& after.total_packets == m.total_packets + 1
            &&& after.total_bytes == m.total_bytes + packet.length
            &&& after.alerts == m.alerts
            &&& after.local_ips == m.local_ips
            &&& after.last_window_packets == m.last_window_packets
            &&& after.window_start == m.window_start
            &&& after.geoip_calls == m.geoip_calls
            &&& after.geoip_window_start == m.geoip_window_start
            &&& other != packet.src_ip ==> {
                &&& after.ips.contains_key(other) == m.ips.contains_key(other)
                &&& m.ips.contains_key(other) ==> after.ips[other] == m.ips[other]
            }
        }),
{
}

/// What is reported of a packet: it is inbound just where it goes to one of
/// this host's addresses; its country is the one that is known of its sender;
/// the rest is as the packet says.
pub proof fn law_packet_is_reported(
    m: crate::state::TrafficModel,
    packet: crate::packet::PacketFacts,
    now: nat,
)
    ensures
        ({
            let note = crate::state::packet_note(m, packet, now);
            let local = exists|i: int|
                0 <= i < m.local_ips.len() && #[trigger] m.local_ips[i] == packet.dst_ip;
            &&& local ==> note.direction == "inbound"@
            &&& !local ==> note.direction == "outbound"@
            &&& m.ips.contains_key(packet.src_ip) ==> note.country == m.ips[packet.src_ip].country
            &&& !m.ips.contains_key(packet.src_ip) ==> note.country == "Unknown"@
            &&& note.country == crate::state::model_after_packet(
                m,
                packet,
                now,
            ).ips[packet.src_ip].country
            &&& note.protocol == crate::protocol::protocol_name(
                packet.src_port,
                packet.dst_port,
                packet.transport,
            )
            &&& note.src_ip == packet.src_ip
            &&& note.dst_port == packet.dst_port
            &&& note.length == packet.length
        }),
{
    let local = exists|i: int|
        0 <= i < m.local_ips.len() && #[trigger] m.local_ips[i] == packet.dst_ip;
    assert(m.local_ips.contains(packet.dst_ip) == local);
}

/// Whether arrival `i` is the last one from `ip`.
pub open spec fn is_last_from(
    arrivals: Seq<crate::history::Arrival>,
    ip: Seq<char>,
    i: int,
) -> bool {
    &&& 0 <= i < arrivals.len()
    &&& arrivals[i].packet.src_ip == ip
    &&& forall|j: int| i < j < arrivals.len() ==> (#[trigger] arrivals[j]).packet.src_ip != ip
}

/// Whether arrival `i` is the first one from `ip`.
pub open spec fn is_first_from(
    arrivals: Seq<crate::history::Arrival>,
    ip: Seq<char>,
    i: int,
) -> bool {
    &&& 0 <= i < arrivals.len()
    &&& arrivals[i].packet.src_ip == ip
    &&& forall|j: int| 0 <= j < i ==> (#[trigger] arrivals[j]).packet.src_ip != ip
}

/// A source was last seen when its last packet came, whatever that packet was.
pub proof fn law_last_seen_at_last_arrival(
    m: crate::state::TrafficModel,
    arrivals: Seq<crate::history::Arrival>,
    ip: Seq<char>,
    i: int,
)
    requires
        is_last_from(arrivals, ip, i),
    ensures
        ({
            let after = crate::history::model_after_arrivals(m, arrivals);
            after.ips.contains_key(ip) && after.ips[ip].last_seen == arrivals[i].now
        }),
    decreases arrivals.len(),
{
    let last = arrivals.len() - 1;
    if i < last {
        let front = arrivals.drop_last();
        assert(arrivals[last].packet.src_ip != ip);
        assert forall|j: int| i < j < front.len() implies (#[trigger] front[j]).packet.src_ip
            != ip by {
            assert(front[j] == arrivals[j]);
        }
        law_last_seen_at_last_arrival(m, front, ip, i);
    }
}

/// A source that was not known was first seen when its first packet came, and
/// has the address of that packet.
pub proof fn law_first_seen_at_first_arrival(
    m: crate::state::TrafficModel,
    arrivals: Seq<crate::history::Arrival>,
    ip: Seq<char>,
    i: int,
)
    requires
        !m.ips.contains_key(ip),
        is_first_from(arrivals, ip, i),
    ensures
        ({
            let r = crate::history::model_after_arrivals(m, arrivals).ips[ip];
            &&& r.first_seen == arrivals[i].now
            &&& r.octets == arrivals[i].packet.src_octets
            &&& r.country == "Unknown"@
            &&& r.city == "Unknown"@
        }),
    decreases arrivals.len(),
{
    let front = arrivals.drop_last();
    let last = arrivals.len() - 1;
    if i < last {
        assert forall|j: int| 0 <= j < i implies (#[trigger] front[j]).packet.src_ip != ip by {
            assert(front[j] == arrivals[j]);
        }
        law_first_seen_at_first_arrival(m, front, ip, i);
        lemma_from_is_known(m, front, ip, i);
    } else {
        lemma_unheard_is_unknown(m, front, ip);
    }
}

/// A source of which a packet came is known.
proof fn lemma_from_is_known(
    m: crate::state::TrafficModel,
    arrivals: Seq<crate::history::Arrival>,
    ip: Seq<char>,
    i: int,
)
    requires
        0 <= i < arrivals.len(),
        arrivals[i].packet.src_ip == ip,
    ensures
        crate::history::model_after_arrivals(m, arrivals).ips.contains_key(ip),
    decreases arrivals.len(),
{
    if i < arrivals.len() - 1 {
        assert(arrivals.drop_last()[i] == arrivals[i]);
        lemma_from_is_known(m, arrivals.drop_last(), ip, i);
    }
}

/// A source of which no packet came stays unknown.
proof fn lemma_unheard_is_unknown(
    m: crate::state::TrafficModel,
    arrivals: Seq<crate::history::Arrival>,
    ip: Seq<char>,
)
    requires
        !m.ips.contains_key(ip),
        forall|j: int| 0 <= j < arrivals.len() ==> (#[trigger] arrivals[j]).packet.src_ip != ip,
    ensures
        !crate::history::model_after_arrivals(m, arrivals).ips.contains_key(ip),
    decreases arrivals.len(),
{
    if arrivals.len() > 0 {
        let front = arrivals.drop_last();
        assert(arrivals[arrivals.len() - 1].packet.src_ip != ip);
        assert forall|j: int| 0 <= j < front.len() implies (#[trigger] front[j]).packet.src_ip
            != ip by {
            assert(front[j] == arrivals[j]);
        }
        lemma_unheard_is_unknown(m, front, ip);
    }
}

/// A check forgets no source that sent a packet in the five minutes before it,
/// and changes nothing of it; it forgets every source whose last packet is
/// longer ago.
pub proof fn law_check_keeps_who_sent_lately(
    m: crate::state::TrafficModel,
    arrivals: Seq<crate::history::Arrival>,
    ip: Seq<char>,
    i: int,
    raised: Seq<crate::alert::AlertRecord>,
    now: nat,
)
    requires
        is_last_from(arrivals, ip, i),
    ensures
        ({
            let before = crate::history::model_after_arrivals(m, arrivals);
            let after = crate::tick::model_after_check(before, raised, now);
            &&& now <= arrivals[i].now + 300_000_000_000 ==> after.ips.contains_key(ip)
                && after.ips[ip] == before.ips[ip]
            &&& now > arrivals[i].now + 300_000_000_000 ==> !after.ips.contains_key(ip)
        }),
{
    law_last_seen_at_last_arrival(m, arrivals, ip, i);
}

/// The different ports that a source hit.
pub open spec fn ports_hit_by(arrivals: Seq<crate::history::Arrival>, ip: Seq<char>) -> Set<u16>
    decreases arrivals.len(),
{
    if arrivals.len() == 0 {
        Set::empty()
    } else {
        let before = ports_hit_by(arrivals.drop_last(), ip);
        if arrivals.last().packet.src_ip == ip {
            before.insert(arrivals.last().packet.dst_port)
        } else {
            before
        }
    }
}

/// The ports that a source hit are finitely many, and those of its packets.
proof fn lemma_ports_hit_by(arrivals: Seq<crate::history::Arrival>, ip: Seq<char>)
    ensures
        ports_hit_by(arrivals, ip).finite(),
        forall|port: u16| #[trigger]
            ports_hit_by(arrivals, ip).contains(port) <==> crate::history::hit(arrivals, ip, port),
    decreases arrivals.len(),
{
    if arrivals.len() > 0 {
        let front = arrivals.drop_last();
        let last = arrivals.len() - 1;
        lemma_ports_hit_by(front, ip);
        assert forall|port: u16| #[trigger]
            ports_hit_by(arrivals, ip).contains(port) <==> crate::history::hit(
                arrivals,
                ip,
                port,
            ) by {
            if crate::history::hit(front, ip, port) {
                let i = choose|i: int|
                    0 <= i < front.len() && (#[trigger] front[i]).packet.src_ip == ip
                        && front[i].packet.dst_port == port;
                assert(arrivals[i] == front[i]);
            }
            if arrivals[last].packet.src_ip == ip && arrivals[last].packet.dst_port == port {
                assert(crate::history::hit(arrivals, ip, port));
            }
            if crate::history::hit(arrivals, ip, port) {
                let i = choose|i: int|
                    0 <= i < arrivals.len() && (#[trigger] arrivals[i]).packet.src_ip == ip
                        && arrivals[i].packet.dst_port == port;
                if i < last {
                    assert(front[i] == arrivals[i]);
                    assert(crate::history::hit(front, ip, port));
                }
            }
        }
    }
}

/// The ports of a source stay unique and within their limit over arrivals.
proof fn lemma_ports_stay_unique(
    m: crate::state::TrafficModel,
    arrivals: Seq<crate::history::Arrival>,
    ip: Seq<char>,
)
    requires
        !m.ips.contains_key(ip),
    ensures
        ({
            let after = crate::history::model_after_arrivals(m, arrivals);
            after.ips.contains_key(ip) ==> after.ips[ip].ports.no_duplicates()
                && after.ips[ip].ports.len() <= 1_000
        }),
    decreases arrivals.len(),
{
    if arrivals.len() > 0 {
        let front = arrivals.drop_last();
        lemma_ports_stay_unique(m, front, ip);
        let before = crate::history::model_after_arrivals(m, front);
        let after = crate::history::model_after_arrivals(m, arrivals);
        if after.ips.contains_key(ip) {
            crate::history::law_ports_only_grow(
                before,
                arrivals.last().packet,
                arrivals.last().now,
                ip,
            );
        }
    }
}

/// As many ports are remembered of a source as it hit different ones, up to a
/// thousand.
pub proof fn law_ports_are_counted(
    m: crate::state::TrafficModel,
    arrivals: Seq<crate::history::Arrival>,
    ip: Seq<char>,
)
    requires
        !m.ips.contains_key(ip),
        crate::history::model_after_arrivals(m, arrivals).ips.contains_key(ip),
    ensures
        ({
            let ports = crate::history::model_after_arrivals(m, arrivals).ips[ip].ports;
            let count = ports_hit_by(arrivals, ip).len();
            ports.len() == if count <= 1_000 {
                count
            } else {
                1_000
            }
        }),
{
    let ports = crate::history::model_after_arrivals(m, arrivals).ips[ip].ports;
    let all = ports_hit_by(arrivals, ip);
    lemma_ports_hit_by(arrivals, ip);
    lemma_ports_stay_unique(m, arrivals, ip);
    ports.unique_seq_to_set();
    assert forall|port: u16| ports.to_set().contains(port) implies all.contains(port) by {
        crate::history::law_ports_are_those_hit(m, arrivals, ip, port);
    }
    vstd::set_lib::lemma_len_subset(ports.to_set(), all);
    if ports.len() < 1_000 {
        assert forall|port: u16| all.contains(port) implies ports.to_set().contains(port) by {
            crate::history::law_ports_are_those_hit(m, arrivals, ip, port);
        }
        assert(ports.to_set() =~= all);
    }
}

/// What is reported of a source is what it sent: its packets, its bytes, its
/// connection requests, how many different ports it hit (up to a thousand), and
/// the whole seconds since its first packet.
pub proof fn law_report_tells_what_was_sent(
    m: crate::state::TrafficModel,
    arrivals: Seq<crate::history::Arrival>,
    ip: Seq<char>,
    i: int,
    now: nat,
)
    requires
        !m.ips.contains_key(ip),
        is_first_from(arrivals, ip, i),
        arrivals[i].now <= now,
    ensures
        ({
            let after = crate::history::model_after_arrivals(m, arrivals);
            let report = crate::report::report_of(ip, after.ips[ip], now);
            let ports = ports_hit_by(arrivals, ip).len();
            &&& report.ip == ip
            &&& report.packets == crate::history::packets_from(arrivals, ip)
            &&& report.bytes == crate::history::bytes_from(arrivals, ip)
            &&& report.syn_count == crate::history::syns_from(arrivals, ip)
            &&& report.unique_ports == if ports <= 1_000 {
                ports
            } else {
                1_000
            }
            &&& report.duration_secs == (now - arrivals[i].now) / 1_000_000_000
            &&& report.country == "Unknown"@
            &&& report.city == "Unknown"@
        }),
{
    lemma_from_is_known(m, arrivals, ip, i);
    law_first_seen_at_first_arrival(m, arrivals, ip, i);
    law_ports_are_counted(m, arrivals, ip);
    crate::history::law_every_packet_counted(m, arrivals, ip);
}

/// The rate of a source is measured from what it sent: its packets, the bits of
/// its bytes, and the time since its first packet.
pub proof fn law_sample_tells_what_was_sent(
    m: crate::state::TrafficModel,
    arrivals: Seq<crate::history::Arrival>,
    ip: Seq<char>,
    i: int,
    now: nat,
)
    requires
        !m.ips.contains_key(ip),
        is_first_from(arrivals, ip, i),
        arrivals[i].now <= now,
    ensures
        ({
            let after = crate::history::model_after_arrivals(m, arrivals);
            let sample = crate::attack::sample_of(ip, after.ips[ip], now);
            &&& sample.src_ip == ip
            &&& sample.packets == crate::history::packets_from(arrivals, ip)
            &&& sample.bits == 8 * crate::history::bytes_from(arrivals, ip)
            &&& sample.elapsed == now - arrivals[i].now
        }),
{
    lemma_from_is_known(m, arrivals, ip, i);
    law_first_seen_at_first_arrival(m, arrivals, ip, i);
    crate::history::law_every_packet_counted(m, arrivals, ip);
}

/// Requests and packets are told apart: a source that sent no connection
/// request is reported with none, however many packets it sent.
pub proof fn law_no_requests_none_reported(
    m: crate::state::TrafficModel,
    arrivals: Seq<crate::history::Arrival>,
    ip: Seq<char>,
    i: int,
    now: nat,
)
    requires
        !m.ips.contains_key(ip),
        is_first_from(arrivals, ip, i),
        arrivals[i].now <= now,
        forall|j: int|
            0 <= j < arrivals.len() && (#[trigger] arrivals[j]).packet.src_ip == ip
                ==> !crate::packet::is_bare_syn(arrivals[j].packet.flags),
    ensures
        crate::report::report_of(
            ip,
            crate::history::model_after_arrivals(m, arrivals).ips[ip],
            now,
        ).syn_count == 0,
{
    law_report_tells_what_was_sent(m, arrivals, ip, i, now);
    lemma_no_requests(arrivals, ip);
}

/// Where no packet of a source is a connection request, none are counted.
proof fn lemma_no_requests(arrivals: Seq<crate::history::Arrival>, ip: Seq<char>)
    requires
        forall|j: int|
            0 <= j < arrivals.len() && (#[trigger] arrivals[j]).packet.src_ip == ip
                ==> !crate::packet::is_bare_syn(arrivals[j].packet.flags),
    ensures
        crate::history::syns_from(arrivals, ip) == 0,
    decreases arrivals.len(),
{
    if arrivals.len() > 0 {
        let front = arrivals.drop_last();
        assert(arrivals[arrivals.len() - 1] == arrivals.last());
        assert forall|j: int|
            0 <= j < front.len() && (#[trigger] front[j]).packet.src_ip
                == ip implies !crate::packet::is_bare_syn(front[j].packet.flags) by {
            assert(front[j] == arrivals[j]);
        }
        lemma_no_requests(front, ip);
    }
}

} // verus!
