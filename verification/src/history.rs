//! What holds over many events: laws of whole runs of packets, checks and
//! answers.

use vstd::prelude::*;

verus! {

/// One packet and the time at which it was counted.
pub struct Arrival {
    /// The packet.
    pub packet: crate::packet::PacketFacts,
    /// When it was counted.
    pub now: nat,
}

/// What can happen to the state.
pub enum Event {
    /// A packet is counted.
    Packet(crate::packet::PacketFacts),
    /// A periodic check raises these alerts.
    Check(Seq<crate::alert::AlertRecord>),
    /// A location request is attempted.
    Attempt,
    /// An answer on these addresses tells these places.
    Located(Seq<Seq<char>>, Map<Seq<char>, (Seq<char>, Seq<char>)>),
}

/// One event and the time at which it happens.
pub struct Moment {
    /// The event.
    pub event: Event,
    /// When it happens.
    pub now: nat,
}

/// The state after one event.
pub open spec fn model_after_event(
    m: crate::state::TrafficModel,
    moment: Moment,
) -> crate::state::TrafficModel {
    match moment.event {
        Event::Packet(packet) => crate::state::model_after_packet(m, packet, moment.now),
        Event::Check(raised) => crate::tick::model_after_check(m, raised, moment.now),
        Event::Attempt => crate::state::model_after_attempt(m, moment.now),
        Event::Located(chunk, places) => crate::state::TrafficModel {
            ips: crate::geoip::ips_located(m.ips, chunk, places),
            ..m
        },
    }
}

/// The state after a run of events, one by one.
pub open spec fn model_after_run(
    m: crate::state::TrafficModel,
    run: Seq<Moment>,
) -> crate::state::TrafficModel
    decreases run.len(),
{
    if run.len() == 0 {
        m
    } else {
        model_after_event(model_after_run(m, run.drop_last()), run.last())
    }
}

/// The state after the arrivals, one by one.
pub open spec fn model_after_arrivals(
    m: crate::state::TrafficModel,
    arrivals: Seq<Arrival>,
) -> crate::state::TrafficModel
    decreases arrivals.len(),
{
    if arrivals.len() == 0 {
        m
    } else {
        let last = arrivals.last();
        crate::state::model_after_packet(
            model_after_arrivals(m, arrivals.drop_last()),
            last.packet,
            last.now,
        )
    }
}

/// How many of the arrivals came from `ip`.
pub open spec fn packets_from(arrivals: Seq<Arrival>, ip: Seq<char>) -> nat
    decreases arrivals.len(),
{
    if arrivals.len() == 0 {
        0
    } else {
        packets_from(arrivals.drop_last(), ip) + if arrivals.last().packet.src_ip == ip {
            1nat
        } else {
            0
        }
    }
}

/// How many bytes came from `ip`.
pub open spec fn bytes_from(arrivals: Seq<Arrival>, ip: Seq<char>) -> nat
    decreases arrivals.len(),
{
    if arrivals.len() == 0 {
        0
    } else {
        bytes_from(arrivals.drop_last(), ip) + if arrivals.last().packet.src_ip == ip {
            arrivals.last().packet.length
        } else {
            0
        }
    }
}

/// How many connection requests came from `ip`.
pub open spec fn syns_from(arrivals: Seq<Arrival>, ip: Seq<char>) -> nat
    decreases arrivals.len(),
{
    if arrivals.len() == 0 {
        0
    } else {
        syns_from(arrivals.drop_last(), ip) + if arrivals.last().packet.src_ip == ip
            && crate::packet::is_bare_syn(arrivals.last().packet.flags) {
            1nat
        } else {
            0
        }
    }
}

/// How many bytes came in all.
pub open spec fn bytes_of(arrivals: Seq<Arrival>) -> nat
    decreases arrivals.len(),
{
    if arrivals.len() == 0 {
        0
    } else {
        bytes_of(arrivals.drop_last()) + arrivals.last().packet.length
    }
}

/// Whether one of the arrivals came from `ip` and went to `port`.
pub open spec fn hit(arrivals: Seq<Arrival>, ip: Seq<char>, port: u16) -> bool {
    exists|i: int|
        0 <= i < arrivals.len() && (#[trigger] arrivals[i]).packet.src_ip == ip
            && arrivals[i].packet.dst_port == port
}

/// Whether each source is tracked under the text of its own address.
pub open spec fn go_by_their_address(ips: Map<Seq<char>, crate::table::IpRecord>) -> bool {
    forall|ip: Seq<char>| #[trigger]
        ips.contains_key(ip) ==> ip == crate::packet::address_text(ips[ip].octets)
}

/// Every packet is counted once in the totals and once for its source: however
/// many packets come, the figures grow by exactly what came. The figures of a
/// source that was not known begin at zero.
pub proof fn law_every_packet_counted(
    m: crate::state::TrafficModel,
    arrivals: Seq<Arrival>,
    ip: Seq<char>,
)
    ensures
        ({
            let after = model_after_arrivals(m, arrivals);
            let known = m.ips.contains_key(ip);
            let r = after.ips[ip];
            &&& after.total_packets == m.total_packets + arrivals.len()
            &&& after.total_bytes == m.total_bytes + bytes_of(arrivals)
            &&& after.ips.contains_key(ip) <==> known || packets_from(arrivals, ip) > 0
            &&& after.ips.contains_key(ip) ==> {
                &&& r.packets == packets_from(arrivals, ip) + if known {
                    m.ips[ip].packets
                } else {
                    0
                }
                &&& r.bytes == bytes_from(arrivals, ip) + if known {
                    m.ips[ip].bytes
                } else {
                    0
                }
                &&& r.syns == syns_from(arrivals, ip) + if known {
                    m.ips[ip].syns
                } else {
                    0
                }
            }
        }),
    decreases arrivals.len(),
{
    if arrivals.len() > 0 {
        law_every_packet_counted(m, arrivals.drop_last(), ip);
        if packets_from(arrivals.drop_last(), ip) == 0 {
            lemma_none_from(arrivals.drop_last(), ip);
        }
    }
}

/// Where no packet came from a source, no byte and no request did.
proof fn lemma_none_from(arrivals: Seq<Arrival>, ip: Seq<char>)
    requires
        packets_from(arrivals, ip) == 0,
    ensures
        bytes_from(arrivals, ip) == 0,
        syns_from(arrivals, ip) == 0,
    decreases arrivals.len(),
{
    if arrivals.len() > 0 {
        lemma_none_from(arrivals.drop_last(), ip);
    }
}

/// The ports that are remembered of a source are ports that it hit; and as
/// long as fewer are remembered than can be, they are all that it hit.
pub proof fn law_ports_are_those_hit(
    m: crate::state::TrafficModel,
    arrivals: Seq<Arrival>,
    ip: Seq<char>,
    port: u16,
)
    requires
        model_after_arrivals(m, arrivals).ips.contains_key(ip),
        !m.ips.contains_key(ip),
    ensures
        ({
            let ports = model_after_arrivals(m, arrivals).ips[ip].ports;
            &&& ports.contains(port) ==> hit(arrivals, ip, port)
            &&& ports.len() < crate::state::PORT_LIMIT && hit(arrivals, ip, port)
                ==> ports.contains(port)
        }),
    decreases arrivals.len(),
{
    if arrivals.len() > 0 {
        let front = arrivals.drop_last();
        let last = arrivals.last();
        let before = model_after_arrivals(m, front);
        let ports = model_after_arrivals(m, arrivals).ips[ip].ports;
        assert(hit(arrivals, ip, port) <==> hit(front, ip, port) || (last.packet.src_ip == ip
            && last.packet.dst_port == port)) by {
            if hit(front, ip, port) {
                let i = choose|i: int|
                    0 <= i < front.len() && (#[trigger] front[i]).packet.src_ip == ip
                        && front[i].packet.dst_port == port;
                assert(arrivals[i] == front[i]);
            }
            if last.packet.src_ip == ip && last.packet.dst_port == port {
                assert(arrivals[arrivals.len() - 1] == last);
            }
            if hit(arrivals, ip, port) {
                let i = choose|i: int|
                    0 <= i < arrivals.len() && (#[trigger] arrivals[i]).packet.src_ip == ip
                        && arrivals[i].packet.dst_port == port;
                if i < front.len() {
                    assert(front[i] == arrivals[i]);
                }
            }
        }
        if before.ips.contains_key(ip) {
            law_ports_are_those_hit(m, front, ip, port);
        } else {
            law_every_packet_counted(m, front, ip);
            lemma_none_hit(front, ip, port);
        }
        if last.packet.src_ip == ip {
            let old_ports = crate::state::sender_record(before, last.packet, last.now).ports;
            assert(ports == crate::state::ports_after(old_ports, last.packet.dst_port));
            if !old_ports.contains(last.packet.dst_port) && old_ports.len()
                < crate::state::PORT_LIMIT {
                assert(ports[ports.len() - 1] == last.packet.dst_port);
                assert forall|p: u16| old_ports.contains(p) implies ports.contains(p) by {
                    let i = choose|i: int| 0 <= i < old_ports.len() && old_ports[i] == p;
                    assert(ports[i] == p);
                }
            }
        }
    }
}

/// Where no packet came from a source, it hit no port.
proof fn lemma_none_hit(arrivals: Seq<Arrival>, ip: Seq<char>, port: u16)
    requires
        packets_from(arrivals, ip) == 0,
    ensures
        !hit(arrivals, ip, port),
    decreases arrivals.len(),
{
    if arrivals.len() > 0 {
        let front = arrivals.drop_last();
        lemma_none_hit(front, ip, port);
        if hit(arrivals, ip, port) {
            let i = choose|i: int|
                0 <= i < arrivals.len() && (#[trigger] arrivals[i]).packet.src_ip == ip
                    && arrivals[i].packet.dst_port == port;
            if i < front.len() {
                assert(front[i] == arrivals[i]);
            }
        }
    }
}

/// A packet from one source leaves what is known of every other as it is.
pub proof fn law_sources_are_independent(
    m: crate::state::TrafficModel,
    packet: crate::packet::PacketFacts,
    now: nat,
    other: Seq<char>,
)
    requires
        other != packet.src_ip,
    ensures
        ({
            let after = crate::state::model_after_packet(m, packet, now);
            &&& after.ips.contains_key(other) <==> m.ips.contains_key(other)
            &&& m.ips.contains_key(other) ==> after.ips[other] == m.ips[other]
        }),
{
}

/// Whether each packet of a run tells its sender's address and its text alike.
pub open spec fn packets_tell_addresses(run: Seq<Moment>) -> bool {
    forall|i: int|
        0 <= i < run.len() ==> ((#[trigger] run[i]).event matches Event::Packet(packet)
            ==> packet.src_ip == crate::packet::address_text(packet.src_octets))
}

/// Each source is tracked under the text of its own address: where that holds
/// of the sources at the start and of each packet, it holds after any run of
/// packets, checks, location requests and answers.
pub proof fn law_sources_go_by_their_address(m: crate::state::TrafficModel, run: Seq<Moment>)
    ensures
        go_by_their_address(m.ips) && packets_tell_addresses(run) ==> go_by_their_address(
            model_after_run(m, run).ips,
        ),
    decreases run.len(),
{
    if run.len() > 0 && go_by_their_address(m.ips) && packets_tell_addresses(run) {
        let front = run.drop_last();
        assert forall|i: int| 0 <= i < front.len() implies ((#[trigger] front[i]).event matches
        Event::Packet(packet) ==> packet.src_ip == crate::packet::address_text(
            packet.src_octets,
        )) by {
            assert(front[i] == run[i]);
        }
        law_sources_go_by_their_address(m, front);
        let before = model_after_run(m, front);
        let after = model_after_run(m, run);
        assert(run[run.len() - 1] == run.last());
        assert forall|ip: Seq<char>| #[trigger] after.ips.contains_key(ip) implies ip
            == crate::packet::address_text(after.ips[ip].octets) by {
            if before.ips.contains_key(ip) {
                assert(after.ips[ip].octets == before.ips[ip].octets);
            }
        }
    }
}

/// What always holds of the state holds after any run of events. So no source
/// has more connection requests than packets, or fewer than one packet; its
/// ports are different from one another and no more than are remembered; and
/// what the sources have sent adds up to no more than the totals.
pub proof fn law_every_run_is_sound(m: crate::state::TrafficModel, run: Seq<Moment>)
    requires
        crate::state::sound(m),
    ensures
        crate::state::sound(model_after_run(m, run)),
    decreases run.len(),
{
    if run.len() > 0 {
        law_every_run_is_sound(m, run.drop_last());
        let before = model_after_run(m, run.drop_last());
        let after = model_after_run(m, run);
        match run.last().event {
            Event::Packet(packet) => {
                crate::state::lemma_packet_keeps_sound(before, packet, run.last().now);
            },
            Event::Check(raised) => {
                crate::alert::law_log_keeps_latest(before.alerts, raised);
                crate::state::lemma_same_figures_keep_sound(before, after);
            },
            _ => {
                crate::state::lemma_same_figures_keep_sound(before, after);
            },
        }
    }
}

/// No run of events takes the location requests of a window above the limit.
pub proof fn law_calls_stay_within_limit(m: crate::state::TrafficModel, run: Seq<Moment>)
    requires
        m.geoip_calls <= crate::state::GEOIP_LIMIT,
    ensures
        model_after_run(m, run).geoip_calls <= crate::state::GEOIP_LIMIT,
    decreases run.len(),
{
    if run.len() > 0 {
        law_calls_stay_within_limit(m, run.drop_last());
    }
}

/// Whether what the sources have sent adds up to the totals.
pub open spec fn shares_add_up(m: crate::state::TrafficModel) -> bool {
    &&& m.ips.dom().finite()
    &&& m.total_packets == crate::table::sum_over(m.ips, crate::table::packet_weight())
    &&& m.total_bytes == crate::table::sum_over(m.ips, crate::table::byte_weight())
}

/// As long as no source is forgotten, what the sources have sent adds up to
/// the totals: it does so at the start, and no event but a check changes it.
pub proof fn law_shares_add_up(m: crate::state::TrafficModel, run: Seq<Moment>)
    requires
        m.ips == Map::<Seq<char>, crate::table::IpRecord>::empty() && m.total_packets == 0
            && m.total_bytes == 0 || shares_add_up(m),
        forall|i: int| 0 <= i < run.len() ==> !((#[trigger] run[i]).event is Check),
    ensures
        shares_add_up(model_after_run(m, run)),
    decreases run.len(),
{
    if run.len() > 0 {
        let front = run.drop_last();
        assert forall|i: int| 0 <= i < front.len() implies !((#[trigger] front[i]).event is
            Check) by {
            assert(front[i] == run[i]);
        }
        law_shares_add_up(m, front);
        let before = model_after_run(m, front);
        let after = model_after_run(m, run);
        assert(run[run.len() - 1] == run.last());
        match run.last().event {
            Event::Packet(packet) => {
                crate::state::lemma_packet_adds_up(before, packet, run.last().now);
            },
            _ => {
                assert(after.ips.dom() =~= before.ips.dom());
                crate::table::lemma_sum_fewer(
                    after.ips,
                    before.ips,
                    crate::table::packet_weight(),
                );
                crate::table::lemma_sum_fewer(after.ips, before.ips, crate::table::byte_weight());
            },
        }
    }
}

/// Whether each source was heard of for the last time no earlier than for the
/// first, and not later than `now`.
pub open spec fn seen_in_order(ips: Map<Seq<char>, crate::table::IpRecord>, now: nat) -> bool {
    forall|ip: Seq<char>| #[trigger]
        ips.contains_key(ip) ==> ips[ip].first_seen <= ips[ip].last_seen <= now
}

/// Where the times do not run backwards, no source was ever heard of for the
/// last time before it was for the first.
pub proof fn law_seen_in_order(m: crate::state::TrafficModel, run: Seq<Moment>, start: nat)
    requires
        seen_in_order(m.ips, start),
        forall|i: int| 0 <= i < run.len() ==> start <= (#[trigger] run[i]).now,
        forall|i: int, j: int|
            0 <= i <= j < run.len() ==> (#[trigger] run[i]).now <= (#[trigger] run[j]).now,
    ensures
        seen_in_order(
            model_after_run(m, run).ips,
            if run.len() == 0 {
                start
            } else {
                run.last().now
            },
        ),
    decreases run.len(),
{
    if run.len() > 0 {
        let front = run.drop_last();
        assert forall|i: int| 0 <= i < front.len() implies start <= (#[trigger] front[i]).now by {
            assert(front[i] == run[i]);
        }
        assert forall|i: int, j: int| 0 <= i <= j < front.len() implies (#[trigger] front[i]).now
            <= (#[trigger] front[j]).now by {
            assert(front[i] == run[i] && front[j] == run[j]);
        }
        law_seen_in_order(m, front, start);
        assert(run[run.len() - 1] == run.last());
        if front.len() > 0 {
            assert(run[front.len() - 1] == front.last());
        }
        let before = model_after_run(m, front);
        let after = model_after_run(m, run);
        assert forall|ip: Seq<char>| #[trigger] after.ips.contains_key(ip) implies
            after.ips[ip].first_seen <= after.ips[ip].last_seen <= run.last().now by {
            if before.ips.contains_key(ip) {
                assert(before.ips[ip].first_seen <= before.ips[ip].last_seen);
            }
        }
    }
}

/// The ports of a source stay different from one another, and no more than are
/// remembered, whatever packet comes; those that were there stay in front.
pub proof fn law_ports_only_grow(
    m: crate::state::TrafficModel,
    packet: crate::packet::PacketFacts,
    now: nat,
    ip: Seq<char>,
)
    requires
        m.ips.contains_key(ip) ==> m.ips[ip].ports.no_duplicates() && m.ips[ip].ports.len()
            <= crate::state::PORT_LIMIT,
        crate::state::model_after_packet(m, packet, now).ips.contains_key(ip),
    ensures
        ({
            let ports = crate::state::model_after_packet(m, packet, now).ips[ip].ports;
            &&& ports.no_duplicates()
            &&& ports.len() <= crate::state::PORT_LIMIT
            &&& m.ips.contains_key(ip) ==> m.ips[ip].ports.is_prefix_of(ports)
        }),
{
    let ports = crate::state::model_after_packet(m, packet, now).ips[ip].ports;
    if m.ips.contains_key(ip) {
        let before = m.ips[ip].ports;
        assert(ports.subrange(0, before.len() as int) =~= before);
    }
}

/// Whether two states agree in their totals and sources, and in the packets,
/// bytes, connection requests and ports of each source; the ports may stand in
/// another order.
pub open spec fn same_figures(
    a: crate::state::TrafficModel,
    b: crate::state::TrafficModel,
) -> bool {
    &&& a.total_packets == b.total_packets
    &&& a.total_bytes == b.total_bytes
    &&& a.ips.dom() == b.ips.dom()
    &&& forall|ip: Seq<char>| #[trigger]
        a.ips.contains_key(ip) ==> {
            &&& a.ips[ip].packets == b.ips[ip].packets
            &&& a.ips[ip].bytes == b.ips[ip].bytes
            &&& a.ips[ip].syns == b.ips[ip].syns
            &&& a.ips[ip].ports.len() == b.ips[ip].ports.len()
            &&& a.ips[ip].ports.to_set() == b.ips[ip].ports.to_set()
        }
}

/// Two packets to `p` and `q` leave the same ports in either order, where both
/// still find room.
proof fn lemma_ports_in_either_order(ports: Seq<u16>, p: u16, q: u16)
    requires
        ports.len() + 2 <= crate::state::PORT_LIMIT,
    ensures
        ({
            let a = crate::state::ports_after(crate::state::ports_after(ports, p), q);
            let b = crate::state::ports_after(crate::state::ports_after(ports, q), p);
            a.len() == b.len() && a.to_set() == b.to_set()
        }),
{
    let first = crate::state::ports_after(ports, p);
    let other = crate::state::ports_after(ports, q);
    let a = crate::state::ports_after(first, q);
    let b = crate::state::ports_after(other, p);
    lemma_port_is_added(ports, p);
    lemma_port_is_added(ports, q);
    lemma_port_is_added(first, q);
    lemma_port_is_added(other, p);
    assert(a.to_set() =~= b.to_set());
}

/// A port that finds room is remembered, beside those that were.
proof fn lemma_port_is_added(ports: Seq<u16>, port: u16)
    requires
        ports.len() < crate::state::PORT_LIMIT,
    ensures
        forall|p: u16| #[trigger]
            crate::state::ports_after(ports, port).contains(p) <==> ports.contains(p) || p == port,
{
    let after = crate::state::ports_after(ports, port);
    assert forall|p: u16| #[trigger] after.contains(p) <==> ports.contains(p) || p == port by {
        if !ports.contains(port) {
            assert(after[after.len() - 1] == port);
            if ports.contains(p) {
                let i = choose|i: int| 0 <= i < ports.len() && ports[i] == p;
                assert(after[i] == p);
            }
        }
    }
}

/// Two packets can change places: counted in either order, they leave the same
/// figures, where each source has room for two more ports.
pub proof fn law_packets_can_change_places(
    m: crate::state::TrafficModel,
    f: crate::packet::PacketFacts,
    g: crate::packet::PacketFacts,
    first: nat,
    second: nat,
)
    requires
        forall|ip: Seq<char>| #[trigger]
            m.ips.contains_key(ip) ==> m.ips[ip].ports.len() + 2 <= crate::state::PORT_LIMIT,
    ensures
        same_figures(
            crate::state::model_after_packet(
                crate::state::model_after_packet(m, f, first),
                g,
                second,
            ),
            crate::state::model_after_packet(
                crate::state::model_after_packet(m, g, first),
                f,
                second,
            ),
        ),
{
    let a = crate::state::model_after_packet(
        crate::state::model_after_packet(m, f, first),
        g,
        second,
    );
    let b = crate::state::model_after_packet(
        crate::state::model_after_packet(m, g, first),
        f,
        second,
    );
    assert(a.ips.dom() =~= b.ips.dom());
    if f.src_ip == g.src_ip {
        let ports = crate::state::sender_record(m, f, first).ports;
        lemma_ports_in_either_order(ports, f.dst_port, g.dst_port);
    }
}

/// The same packet once more adds to the counters as much as before, and
/// nothing to the ports.
pub proof fn law_packet_once_more(
    m: crate::state::TrafficModel,
    packet: crate::packet::PacketFacts,
    first: nat,
    second: nat,
)
    ensures
        ({
            let once = crate::state::model_after_packet(m, packet, first);
            let twice = crate::state::model_after_packet(once, packet, second);
            let none = crate::state::sender_record(m, packet, first);
            let a = once.ips[packet.src_ip];
            let b = twice.ips[packet.src_ip];
            &&& twice.total_packets - once.total_packets == once.total_packets - m.total_packets
            &&& twice.total_bytes - once.total_bytes == once.total_bytes - m.total_bytes
            &&& b.packets - a.packets == a.packets - none.packets
            &&& b.bytes - a.bytes == a.bytes - none.bytes
            &&& b.syns - a.syns == a.syns - none.syns
            &&& b.ports == a.ports
        }),
{
    let ports = crate::state::sender_record(m, packet, first).ports;
    if ports.len() < crate::state::PORT_LIMIT {
        lemma_port_is_added(ports, packet.dst_port);
    }
}

/// The rate windows account for every packet: what two consecutive windows
/// count is what came between the start of the first and the end of the
/// second.
pub proof fn law_windows_account_for_all(
    m: crate::state::TrafficModel,
    first_end: nat,
    arrivals: Seq<Arrival>,
    second_end: nat,
)
    requires
        m.window_start < first_end < second_end,
        m.last_window_packets <= m.total_packets,
    ensures
        ({
            let middle = model_after_arrivals(
                crate::state::model_after_window(m, first_end),
                arrivals,
            );
            let first = m.total_packets - m.last_window_packets;
            let second = middle.total_packets - middle.last_window_packets;
            &&& second == arrivals.len()
            &&& first + second == middle.total_packets - m.last_window_packets
            &&& crate::state::model_after_window(middle, second_end).last_window_packets
                == middle.total_packets
        }),
{
    let opened = crate::state::model_after_window(m, first_end);
    law_every_packet_counted(opened, arrivals, Seq::empty());
    lemma_arrivals_keep_window(opened, arrivals);
}

/// Packets do not move the rate window.
pub proof fn lemma_arrivals_keep_window(m: crate::state::TrafficModel, arrivals: Seq<Arrival>)
    ensures
        model_after_arrivals(m, arrivals).last_window_packets == m.last_window_packets,
        model_after_arrivals(m, arrivals).window_start == m.window_start,
    decreases arrivals.len(),
{
    if arrivals.len() > 0 {
        lemma_arrivals_keep_window(m, arrivals.drop_last());
    }
}

/// A source that has been forgotten begins anew when it is heard of again.
pub proof fn law_forgotten_source_begins_anew(
    m: crate::state::TrafficModel,
    packet: crate::packet::PacketFacts,
    check: nat,
    now: nat,
)
    requires
        m.ips.contains_key(packet.src_ip),
        !crate::state::is_recent(m.ips[packet.src_ip], check),
    ensures
        ({
            let kept = crate::state::TrafficModel {
                ips: crate::state::recent_ips(m.ips, check),
                ..m
            };
            let r = crate::state::model_after_packet(kept, packet, now).ips[packet.src_ip];
            &&& r.packets == 1
            &&& r.bytes == packet.length
            &&& r.first_seen == now
            &&& r.ports == seq![packet.dst_port]
            &&& r.country == "Unknown"@
        }),
{
    assert(Seq::<u16>::empty().push(packet.dst_port) =~= seq![packet.dst_port]);
}

/// A source is judged only when it has been known for a second, and it is
/// taken for a SYN flood only within its first ten seconds and only if it
/// asked for as many connections as the threshold says.
pub proof fn law_judged_after_a_second(
    record: crate::table::IpRecord,
    reading: crate::attack::ReadingFacts,
    thresholds: crate::attack::Thresholds,
    now: nat,
)
    requires
        crate::attack::attack_kind(record, reading, thresholds, now) is Some,
    ensures
        now >= record.first_seen + crate::attack::JUDGED_AFTER,
        crate::attack::attack_kind(record, reading, thresholds, now) == Some(
            crate::attack::AttackKind::SynFlood,
        ) <==> record.syns >= thresholds.syn && now < record.first_seen
            + crate::attack::SYN_FLOOD_WITHIN,
{
}

/// No more ports are remembered than a port scan can be told by: with a
/// threshold at that limit no source is taken for a port scan.
pub proof fn law_port_threshold_has_a_ceiling(
    m: crate::state::TrafficModel,
    reading: crate::attack::ReadingFacts,
    thresholds: crate::attack::Thresholds,
    now: nat,
)
    requires
        crate::state::sound(m),
        m.ips.contains_key(reading.src_ip),
        thresholds.ports >= crate::state::PORT_LIMIT,
    ensures
        crate::attack::attack_kind(m.ips[reading.src_ip], reading, thresholds, now) != Some(
            crate::attack::AttackKind::PortScan,
        ),
{
    assert(crate::state::record_sound(m.ips[reading.src_ip], m));
}

/// Whether a rate that is above its threshold stays there when more is sent in
/// the same time.
pub open spec fn grows_with_traffic(
    exceeded: spec_fn(crate::attack::SampleFacts) -> bool,
) -> bool {
    forall|s: crate::attack::SampleFacts, t: crate::attack::SampleFacts|
        #![trigger exceeded(s), exceeded(t)]
        s.elapsed == t.elapsed && s.packets <= t.packets && s.bits <= t.bits && exceeded(s)
            ==> exceeded(t)
}

/// Whether a reading is what the two comparisons give for a source's sample.
pub open spec fn reads(
    reading: crate::attack::ReadingFacts,
    record: crate::table::IpRecord,
    now: nat,
    pps: spec_fn(crate::attack::SampleFacts) -> bool,
    bandwidth: spec_fn(crate::attack::SampleFacts) -> bool,
) -> bool {
    let sample = crate::attack::sample_of(reading.src_ip, record, now);
    reading.pps_exceeded == pps(sample) && reading.bandwidth_exceeded == bandwidth(sample)
}

/// More traffic in the same time never silences an alert: a source that meets
/// a signature still meets one when its packets, bytes, connection requests
/// and ports are each as many or more. The comparisons of the rates with their
/// thresholds may be any that grow with the traffic.
pub proof fn law_more_traffic_never_silences(
    less: crate::state::TrafficModel,
    more: crate::state::TrafficModel,
    a: crate::attack::ReadingFacts,
    b: crate::attack::ReadingFacts,
    pps: spec_fn(crate::attack::SampleFacts) -> bool,
    bandwidth: spec_fn(crate::attack::SampleFacts) -> bool,
    thresholds: crate::attack::Thresholds,
    now: nat,
    timestamp: u64,
)
    requires
        grows_with_traffic(pps),
        grows_with_traffic(bandwidth),
        b.src_ip == a.src_ip,
        more.ips.contains_key(a.src_ip),
        reads(a, less.ips[a.src_ip], now, pps, bandwidth),
        reads(b, more.ips[a.src_ip], now, pps, bandwidth),
        more.ips[a.src_ip].first_seen == less.ips[a.src_ip].first_seen,
        more.ips[a.src_ip].packets >= less.ips[a.src_ip].packets,
        more.ips[a.src_ip].bytes >= less.ips[a.src_ip].bytes,
        more.ips[a.src_ip].syns >= less.ips[a.src_ip].syns,
        more.ips[a.src_ip].ports.len() >= less.ips[a.src_ip].ports.len(),
        crate::attack::alert_for(less, a, thresholds, now, timestamp) is Some,
    ensures
        crate::attack::alert_for(more, b, thresholds, now, timestamp) is Some,
{
    let s = crate::attack::sample_of(a.src_ip, less.ips[a.src_ip], now);
    let t = crate::attack::sample_of(a.src_ip, more.ips[a.src_ip], now);
    assert(pps(s) ==> pps(t));
    assert(bandwidth(s) ==> bandwidth(t));
}

/// A higher threshold never raises an alert: where a source gives rise to none,
/// it gives rise to none with higher thresholds either. A comparison with a
/// higher rate threshold is any that holds in no more cases.
pub proof fn law_higher_thresholds_never_raise(
    m: crate::state::TrafficModel,
    a: crate::attack::ReadingFacts,
    b: crate::attack::ReadingFacts,
    pps: (spec_fn(crate::attack::SampleFacts) -> bool, spec_fn(crate::attack::SampleFacts) -> bool),
    bandwidth: (
        spec_fn(crate::attack::SampleFacts) -> bool,
        spec_fn(crate::attack::SampleFacts) -> bool,
    ),
    lower: crate::attack::Thresholds,
    higher: crate::attack::Thresholds,
    now: nat,
    timestamp: u64,
)
    requires
        b.src_ip == a.src_ip,
        reads(a, m.ips[a.src_ip], now, pps.0, bandwidth.0),
        reads(b, m.ips[a.src_ip], now, pps.1, bandwidth.1),
        forall|s: crate::attack::SampleFacts| #[trigger] (pps.1)(s) ==> (pps.0)(s),
        forall|s: crate::attack::SampleFacts| #[trigger] (bandwidth.1)(s) ==> (bandwidth.0)(s),
        lower.syn <= higher.syn,
        lower.ports <= higher.ports,
        crate::attack::alert_for(m, a, lower, now, timestamp) is None,
    ensures
        crate::attack::alert_for(m, b, higher, now, timestamp) is None,
{
}

/// Each alert is that of one of the readings, no more alerts come than there
/// are readings, and readings of different sources give rise to alerts of
/// different sources.
pub proof fn law_one_alert_per_reading(
    m: crate::state::TrafficModel,
    readings: Seq<crate::attack::RateReading>,
    thresholds: crate::attack::Thresholds,
    now: nat,
    timestamp: u64,
)
    ensures
        ({
            let alerts = crate::attack::alerts_for(m, readings, thresholds, now, timestamp);
            &&& alerts.len() <= readings.len()
            &&& forall|k: int|
                0 <= k < alerts.len() ==> exists|i: int|
                    0 <= i < readings.len() && crate::attack::alert_for(
                        m,
                        (#[trigger] readings[i])@,
                        thresholds,
                        now,
                        timestamp,
                    ) == Some(#[trigger] alerts[k])
            &&& different_sources(readings) ==> forall|k: int, l: int|
                0 <= k < l < alerts.len() ==> (#[trigger] alerts[k]).src_ip != (
                #[trigger] alerts[l]).src_ip
        }),
    decreases readings.len(),
{
    if readings.len() > 0 {
        let front = readings.drop_last();
        law_one_alert_per_reading(m, front, thresholds, now, timestamp);
        let before = crate::attack::alerts_for(m, front, thresholds, now, timestamp);
        let alerts = crate::attack::alerts_for(m, readings, thresholds, now, timestamp);
        assert(readings[readings.len() - 1] == readings.last());
        assert forall|k: int| 0 <= k < alerts.len() implies exists|i: int|
            0 <= i < readings.len() && crate::attack::alert_for(
                m,
                (#[trigger] readings[i])@,
                thresholds,
                now,
                timestamp,
            ) == Some(#[trigger] alerts[k]) by {
            if k < before.len() {
                assert(alerts[k] == before[k]);
                let i = choose|i: int|
                    0 <= i < front.len() && crate::attack::alert_for(
                        m,
                        (#[trigger] front[i])@,
                        thresholds,
                        now,
                        timestamp,
                    ) == Some(before[k]);
                assert(readings[i] == front[i]);
            } else {
                let last = readings.len() - 1;
                assert(crate::attack::alert_for(
                    m,
                    readings[last]@,
                    thresholds,
                    now,
                    timestamp,
                ) == Some(alerts[k]));
            }
        }
        if different_sources(readings) {
            assert forall|i: int, j: int| 0 <= i < j < front.len() implies (
            #[trigger] front[i])@.src_ip != (#[trigger] front[j])@.src_ip by {
                assert(front[i] == readings[i] && front[j] == readings[j]);
            }
            assert forall|k: int, l: int| 0 <= k < l < alerts.len() implies (
            #[trigger] alerts[k]).src_ip != (#[trigger] alerts[l]).src_ip by {
                assert(alerts[k] == before[k]);
                if l < before.len() {
                    assert(alerts[l] == before[l]);
                } else {
                    let i = choose|i: int|
                        0 <= i < front.len() && crate::attack::alert_for(
                            m,
                            (#[trigger] front[i])@,
                            thresholds,
                            now,
                            timestamp,
                        ) == Some(before[k]);
                    assert(front[i] == readings[i]);
                    assert(readings[i]@.src_ip != readings[readings.len() - 1]@.src_ip);
                }
            }
        }
    }
}

/// Whether each reading is of another source.
pub open spec fn different_sources(readings: Seq<crate::attack::RateReading>) -> bool {
    forall|i: int, j: int|
        0 <= i < j < readings.len() ==> (#[trigger] readings[i])@.src_ip != (
        #[trigger] readings[j])@.src_ip
}

/// No attack is missed: each reading whose source meets a signature gives rise
/// to its alert.
pub proof fn law_no_attack_is_missed(
    m: crate::state::TrafficModel,
    readings: Seq<crate::attack::RateReading>,
    thresholds: crate::attack::Thresholds,
    now: nat,
    timestamp: u64,
    i: int,
)
    requires
        0 <= i < readings.len(),
        crate::attack::alert_for(m, readings[i]@, thresholds, now, timestamp) is Some,
    ensures
        crate::attack::alerts_for(m, readings, thresholds, now, timestamp).contains(
            crate::attack::alert_for(m, readings[i]@, thresholds, now, timestamp)->0,
        ),
    decreases readings.len(),
{
    let front = readings.drop_last();
    let before = crate::attack::alerts_for(m, front, thresholds, now, timestamp);
    let alerts = crate::attack::alerts_for(m, readings, thresholds, now, timestamp);
    let alert = crate::attack::alert_for(m, readings[i]@, thresholds, now, timestamp)->0;
    if i < front.len() {
        assert(front[i] == readings[i]);
        law_no_attack_is_missed(m, front, thresholds, now, timestamp, i);
        let k = choose|k: int| 0 <= k < before.len() && before[k] == alert;
        assert(alerts[k] == alert);
    } else {
        assert(alerts[alerts.len() - 1] == alert);
    }
}

/// Every tracked source is judged: where each sample has its reading, a source
/// that has been known for a second has one reading and no other, and its
/// alert is raised if it meets a signature by it; any other source meets none,
/// whatever its reading would be.
pub proof fn law_every_source_is_judged(
    m: crate::state::TrafficModel,
    samples: Seq<crate::attack::RateSample>,
    readings: Seq<crate::attack::RateReading>,
    thresholds: crate::attack::Thresholds,
    now: nat,
    timestamp: u64,
    ip: Seq<char>,
)
    requires
        crate::attack::samples_judged_sources(samples, m.ips, now),
        readings.len() == samples.len(),
        forall|k: int|
            0 <= k < samples.len() ==> (#[trigger] readings[k])@.src_ip == samples[k]@.src_ip,
        m.ips.contains_key(ip),
    ensures
        different_sources(readings),
        forall|k: int|
            #![trigger readings[k]]
            0 <= k < readings.len() && readings[k]@.src_ip == ip ==> (crate::attack::alert_for(
                m,
                readings[k]@,
                thresholds,
                now,
                timestamp,
            ) matches Some(alert) ==> crate::attack::alerts_for(
                m,
                readings,
                thresholds,
                now,
                timestamp,
            ).contains(alert)),
        (forall|k: int| 0 <= k < readings.len() ==> (#[trigger] readings[k])@.src_ip != ip)
            ==> forall|reading: crate::attack::ReadingFacts|
            reading.src_ip == ip ==> #[trigger] crate::attack::alert_for(
                m,
                reading,
                thresholds,
                now,
                timestamp,
            ) is None,
        (exists|k: int| 0 <= k < readings.len() && (#[trigger] readings[k])@.src_ip == ip)
            <==> crate::clock::since(now, m.ips[ip].first_seen) >= crate::attack::JUDGED_AFTER,
{
    assert forall|i: int, j: int| 0 <= i < j < readings.len() implies (
    #[trigger] readings[i])@.src_ip != (#[trigger] readings[j])@.src_ip by {
        assert(samples[i]@.src_ip != samples[j]@.src_ip);
    }
    assert forall|k: int|
        #![trigger readings[k]]
        0 <= k < readings.len() && readings[k]@.src_ip == ip && crate::attack::alert_for(
            m,
            readings[k]@,
            thresholds,
            now,
            timestamp,
        ) is Some implies crate::attack::alerts_for(
        m,
        readings,
        thresholds,
        now,
        timestamp,
    ).contains(
        crate::attack::alert_for(m, readings[k]@, thresholds, now, timestamp)->0,
    ) by {
        law_no_attack_is_missed(m, readings, thresholds, now, timestamp, k);
    }
    if crate::clock::since(now, m.ips[ip].first_seen) >= crate::attack::JUDGED_AFTER {
        let k = choose|k: int| 0 <= k < samples.len() && (#[trigger] samples[k])@.src_ip == ip;
        assert(readings[k]@.src_ip == ip);
    } else {
        assert forall|k: int| 0 <= k < readings.len() implies (#[trigger] readings[k])@.src_ip
            != ip by {
            assert(samples[k]@.elapsed >= crate::attack::JUDGED_AFTER);
        }
    }
}

/// After a check exactly those sources are tracked that have been silent for no
/// more than five minutes, with the figures that they had.
pub proof fn law_check_keeps_the_recent(
    m: crate::state::TrafficModel,
    raised: Seq<crate::alert::AlertRecord>,
    now: nat,
    ip: Seq<char>,
)
    ensures
        ({
            let after = crate::tick::model_after_check(m, raised, now);
            &&& after.ips.contains_key(ip) <==> m.ips.contains_key(ip) && now
                <= m.ips[ip].last_seen + crate::state::SILENCE_LIMIT
            &&& after.ips.contains_key(ip) ==> after.ips[ip] == m.ips[ip]
        }),
{
}

/// A source that an answer has located in a known country is not asked for
/// again.
pub proof fn law_located_is_not_asked_again(
    ips: Map<Seq<char>, crate::table::IpRecord>,
    chunk: Seq<Seq<char>>,
    places: Map<Seq<char>, (Seq<char>, Seq<char>)>,
    ip: Seq<char>,
)
    requires
        ips.contains_key(ip),
        chunk.contains(ip),
        places.contains_key(ip),
        places[ip].0 != "Unknown"@,
    ensures
        !crate::geoip::is_pending(crate::geoip::ips_located(ips, chunk, places)[ip]),
{
}

/// An answer changes no figure: it touches the place of a source only.
pub proof fn law_answers_change_no_figures(
    ips: Map<Seq<char>, crate::table::IpRecord>,
    chunk: Seq<Seq<char>>,
    places: Map<Seq<char>, (Seq<char>, Seq<char>)>,
    ip: Seq<char>,
)
    requires
        ips.contains_key(ip),
    ensures
        ({
            let after = crate::geoip::ips_located(ips, chunk, places);
            &&& after.contains_key(ip)
            &&& crate::table::IpRecord {
                country: ips[ip].country,
                city: ips[ip].city,
                ..after[ip]
            } == ips[ip]
        }),
{
}

/// A private address is never asked for.
pub proof fn law_private_is_never_asked_for(
    pending: Seq<Seq<char>>,
    ips: Map<Seq<char>, crate::table::IpRecord>,
    ip: Seq<char>,
)
    requires
        crate::geoip::names_pending(pending, ips),
        ips.contains_key(ip),
        crate::address::octets_are_private(ips[ip].octets),
    ensures
        !pending.contains(ip),
{
    if pending.contains(ip) {
        let k = choose|k: int| 0 <= k < pending.len() && pending[k] == ip;
        assert(crate::geoip::is_pending(ips[pending[k]]));
    }
}

} // verus!
