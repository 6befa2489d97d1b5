//! The state that the exporter keeps, and how each event changes it.

use vstd::prelude::*;
use vstd::string::*;

use crate::address::IpAddress;
use crate::alert::{log_alert, DDoSAlert};
use crate::clock::{elapsed, MINUTE};
use crate::packet::{bare_syn, parse_frame, PacketInfo};
use crate::protocol::detect_protocol;
use crate::table::{IpStats, StatsTable};
use crate::text::same_text;

verus! {

/// How many different destination ports are remembered of one source.
pub const PORT_LIMIT: usize = 1_000;

/// How many location requests may be made in one window of a minute: the
/// service allows fifteen, and the exporter stays under that.
pub const GEOIP_LIMIT: u8 = 14;

/// How long a source may be silent and still be kept: five minutes.
pub const SILENCE_LIMIT: u64 = 300_000_000_000;

/// The largest length that an IP header can state.
pub const MAX_PACKET_LENGTH: u64 = 65_535;

/// Everything that the exporter knows.
pub struct AppState {
    table: StatsTable,
    alerts: Vec<DDoSAlert>,
    total_packets: u64,
    total_bytes: u64,
    last_window_packets: u64,
    window_start: u64,
    local_ips: Vec<String>,
    geoip_calls_this_minute: u8,
    geoip_window_start: u64,
}

/// Everything that the exporter knows, as mathematical values.
pub struct TrafficModel {
    /// The statistics of each source address.
    pub ips: Map<Seq<char>, crate::table::IpRecord>,
    /// The alerts in the log, oldest first.
    pub alerts: Seq<crate::alert::AlertRecord>,
    /// Packets counted so far.
    pub total_packets: nat,
    /// Bytes counted so far.
    pub total_bytes: nat,
    /// The packets that had been counted when the rate window began.
    pub last_window_packets: nat,
    /// When the rate window began.
    pub window_start: nat,
    /// The addresses of this host.
    pub local_ips: Seq<Seq<char>>,
    /// Location requests made in the current minute window.
    pub geoip_calls: nat,
    /// When the current minute window began.
    pub geoip_window_start: nat,
}

/// What one packet adds to the metrics.
pub struct PacketReport {
    /// `inbound` or `outbound`.
    pub direction: &'static str,
    /// The application protocol.
    pub protocol: &'static str,
    /// The country of the sender.
    pub country: String,
    /// The sender's address.
    pub src_ip: String,
    /// The receiver's port.
    pub dst_port: u16,
    /// The length in bytes.
    pub length: u64,
}

/// What one packet adds to the metrics, as mathematical values.
pub struct PacketNote {
    /// `inbound` or `outbound`.
    pub direction: Seq<char>,
    /// The application protocol.
    pub protocol: Seq<char>,
    /// The country of the sender.
    pub country: Seq<char>,
    /// The sender's address.
    pub src_ip: Seq<char>,
    /// The receiver's port.
    pub dst_port: u16,
    /// The length in bytes.
    pub length: nat,
}

/// The packets of a rate window that has come to its end.
pub struct RateWindow {
    /// The packets that were counted in the window.
    pub packets: u64,
    /// How long the window was, in nanoseconds.
    pub elapsed: u64,
}

impl View for PacketReport {
    type V = PacketNote;

    open spec fn view(&self) -> PacketNote {
        PacketNote {
            direction: self.direction@,
            protocol: self.protocol@,
            country: self.country@,
            src_ip: self.src_ip@,
            dst_port: self.dst_port,
            length: self.length as nat,
        }
    }
}

impl View for AppState {
    type V = TrafficModel;

    closed spec fn view(&self) -> TrafficModel {
        TrafficModel {
            ips: self.table@,
            alerts: crate::alert::alert_records(self.alerts@),
            total_packets: self.total_packets as nat,
            total_bytes: self.total_bytes as nat,
            last_window_packets: self.last_window_packets as nat,
            window_start: self.window_start as nat,
            local_ips: crate::text::texts(self.local_ips@),
            geoip_calls: self.geoip_calls_this_minute as nat,
            geoip_window_start: self.geoip_window_start as nat,
        }
    }
}

/// What always holds of the record of a source: it has sent a packet, no more
/// than there were in all, no fewer than asked for a connection; its ports are
/// different from one another and no more than are remembered.
pub open spec fn record_sound(r: crate::table::IpRecord, m: TrafficModel) -> bool {
    &&& 1 <= r.packets <= m.total_packets
    &&& r.bytes <= m.total_bytes
    &&& r.syns <= r.packets
    &&& r.ports.no_duplicates()
    &&& 1 <= r.ports.len() <= PORT_LIMIT
}

/// What always holds of the state. What the sources have sent adds up to no
/// more than was counted in all; a source that is forgotten stays counted.
pub open spec fn sound(m: TrafficModel) -> bool {
    &&& m.last_window_packets <= m.total_packets
    &&& m.alerts.len() <= crate::alert::ALERT_LOG_SIZE
    &&& m.ips.dom().finite()
    &&& m.ips.len() <= m.total_packets
    &&& crate::table::sum_over(m.ips, crate::table::packet_weight()) <= m.total_packets
    &&& crate::table::sum_over(m.ips, crate::table::byte_weight()) <= m.total_bytes
    &&& forall|ip: Seq<char>| #[trigger]
        m.ips.contains_key(ip) ==> record_sound(m.ips[ip], m)
}

/// The record of a source of which nothing has been counted yet.
pub open spec fn fresh_record(octets: Seq<u8>, now: nat) -> crate::table::IpRecord {
    crate::table::IpRecord {
        packets: 0,
        bytes: 0,
        first_seen: now,
        last_seen: now,
        ports: Seq::empty(),
        syns: 0,
        country: "Unknown"@,
        city: "Unknown"@,
        octets,
    }
}

/// The ports `ports` after a packet to `port`.
pub open spec fn ports_after(ports: Seq<u16>, port: u16) -> Seq<u16> {
    if !ports.contains(port) && ports.len() < PORT_LIMIT {
        ports.push(port)
    } else {
        ports
    }
}

/// The record `r` after one packet.
pub open spec fn record_after(
    r: crate::table::IpRecord,
    packet: crate::packet::PacketFacts,
    now: nat,
) -> crate::table::IpRecord {
    crate::table::IpRecord {
        packets: r.packets + 1,
        bytes: r.bytes + packet.length,
        last_seen: now,
        ports: ports_after(r.ports, packet.dst_port),
        syns: if crate::packet::is_bare_syn(packet.flags) {
            r.syns + 1
        } else {
            r.syns
        },
        ..r
    }
}

/// The record of the sender before the packet is counted.
pub open spec fn sender_record(
    m: TrafficModel,
    packet: crate::packet::PacketFacts,
    now: nat,
) -> crate::table::IpRecord {
    if m.ips.contains_key(packet.src_ip) {
        m.ips[packet.src_ip]
    } else {
        fresh_record(packet.src_octets, now)
    }
}

/// The state after one packet.
pub open spec fn model_after_packet(
    m: TrafficModel,
    packet: crate::packet::PacketFacts,
    now: nat,
) -> TrafficModel {
    TrafficModel {
        ips: m.ips.insert(
            packet.src_ip,
            record_after(sender_record(m, packet, now), packet, now),
        ),
        total_packets: m.total_packets + 1,
        total_bytes: m.total_bytes + packet.length,
        ..m
    }
}

/// What a packet adds to the metrics.
pub open spec fn packet_note(
    m: TrafficModel,
    packet: crate::packet::PacketFacts,
    now: nat,
) -> PacketNote {
    PacketNote {
        direction: if m.local_ips.contains(packet.dst_ip) {
            "inbound"@
        } else {
            "outbound"@
        },
        protocol: crate::protocol::protocol_name(
            packet.src_port,
            packet.dst_port,
            packet.transport,
        ),
        country: sender_record(m, packet, now).country,
        src_ip: packet.src_ip,
        dst_port: packet.dst_port,
        length: packet.length,
    }
}

/// The state once the minute window of location requests has been renewed, if
/// it was due.
pub open spec fn geoip_window_at(m: TrafficModel, now: nat) -> TrafficModel {
    if crate::clock::since(now, m.geoip_window_start) >= MINUTE {
        TrafficModel { geoip_calls: 0, geoip_window_start: now, ..m }
    } else {
        m
    }
}

/// Whether another location request may be made at `now`.
pub open spec fn geoip_allowed(m: TrafficModel, now: nat) -> bool {
    geoip_window_at(m, now).geoip_calls < GEOIP_LIMIT
}

/// The state after an attempt at `now` to make a location request.
pub open spec fn model_after_attempt(m: TrafficModel, now: nat) -> TrafficModel {
    let w = geoip_window_at(m, now);
    if geoip_allowed(m, now) {
        TrafficModel { geoip_calls: w.geoip_calls + 1, ..w }
    } else {
        w
    }
}

/// How many of the attempts at the given times are granted, one after another.
pub open spec fn grants(m: TrafficModel, times: Seq<nat>) -> nat
    decreases times.len(),
{
    if times.len() == 0 {
        0
    } else {
        let first: nat = if geoip_allowed(m, times[0]) {
            1
        } else {
            0
        };
        first + grants(model_after_attempt(m, times[0]), times.drop_first())
    }
}

/// Whether the source has been heard of lately enough to be kept: it has been
/// silent for no more than five minutes.
pub open spec fn is_recent(r: crate::table::IpRecord, now: nat) -> bool {
    crate::clock::since(now, r.last_seen) <= SILENCE_LIMIT
}

/// The sources that are kept.
pub open spec fn recent_ips(
    ips: Map<Seq<char>, crate::table::IpRecord>,
    now: nat,
) -> Map<Seq<char>, crate::table::IpRecord> {
    Map::new(
        |ip: Seq<char>| ips.contains_key(ip) && is_recent(ips[ip], now),
        |ip: Seq<char>| ips[ip],
    )
}

/// The state after the rate window is closed at `now`: a window without length
/// is left open.
pub open spec fn model_after_window(m: TrafficModel, now: nat) -> TrafficModel {
    if crate::clock::since(now, m.window_start) > 0 {
        TrafficModel { last_window_packets: m.total_packets, window_start: now, ..m }
    } else {
        m
    }
}

/// The packets and the length of the rate window that ends at `now`, if it has
/// any length.
pub open spec fn window_ended(m: TrafficModel, now: nat) -> Option<(int, nat)> {
    if crate::clock::since(now, m.window_start) > 0 {
        Some(
            (
                m.total_packets - m.last_window_packets,
                crate::clock::since(now, m.window_start),
            ),
        )
    } else {
        None
    }
}

/// The packets and the length of a rate window that may be missing.
pub open spec fn window_figures(window: Option<RateWindow>) -> Option<(int, nat)> {
    match window {
        Some(w) => Some((w.packets as int, w.elapsed as nat)),
        None => None,
    }
}

/// The state once the location of `ip` is known; a source that is not tracked
/// has none.
pub open spec fn model_after_location(
    m: TrafficModel,
    ip: Seq<char>,
    country: Seq<char>,
    city: Seq<char>,
) -> TrafficModel {
    if m.ips.contains_key(ip) {
        TrafficModel {
            ips: m.ips.insert(ip, crate::table::IpRecord { country, city, ..m.ips[ip] }),
            ..m
        }
    } else {
        m
    }
}

impl IpStats {
    /// Statistics of a source of which nothing has been counted yet.
    fn fresh(address: IpAddress, now: u64) -> (r: IpStats)
        ensures
            r@ == fresh_record(address@, now as nat),
    {
        let r = IpStats {
            packet_count: 0,
            byte_count: 0,
            first_seen: now,
            last_seen: now,
            ports_hit: Vec::new(),
            syn_count: 0,
            country: "Unknown".to_owned(),
            city: "Unknown".to_owned(),
            address,
        };
        assert(r@.ports =~= Seq::<u16>::empty());
        r
    }

    /// Whether the port has been hit before.
    fn has_port(&self, port: u16) -> (r: bool)
        ensures
            r == self@.ports.contains(port),
    {
        let mut i: usize = 0;
        while i < self.ports_hit.len()
            invariant
                i <= self.ports_hit@.len(),
                forall|j: int| 0 <= j < i ==> #[trigger] self.ports_hit@[j] != port,
            decreases self.ports_hit@.len() - i,
        {
            if self.ports_hit[i] == port {
                assert(self.ports_hit@[i as int] == port);
                return true;
            }
            i = i + 1;
        }
        false
    }

    /// Counts one packet.
    fn count(&mut self, packet: &PacketInfo, now: u64)
        requires
            old(self)@.packets < u64::MAX,
            old(self)@.bytes + packet@.length <= u64::MAX,
            old(self)@.syns < u64::MAX,
        ensures
            final(self)@ == record_after(old(self)@, packet@, now as nat),
    {
        self.packet_count = self.packet_count + 1;
        self.byte_count = self.byte_count + packet.length;
        self.last_seen = now;
        if !self.has_port(packet.dst_port) && self.ports_hit.len() < PORT_LIMIT {
            self.ports_hit.push(packet.dst_port);
        }
        if bare_syn(packet.flags.as_str()) {
            self.syn_count = self.syn_count + 1;
        }
    }
}

/// What the sources have sent grows by the packet that is counted.
pub proof fn lemma_packet_adds_up(
    m: TrafficModel,
    packet: crate::packet::PacketFacts,
    now: nat,
)
    requires
        m.ips.dom().finite(),
    ensures
        ({
            let after = model_after_packet(m, packet, now).ips;
            let packets = crate::table::packet_weight();
            let bytes = crate::table::byte_weight();
            &&& after.dom().finite()
            &&& crate::table::sum_over(after, packets) == crate::table::sum_over(m.ips, packets) + 1
            &&& crate::table::sum_over(after, bytes) == crate::table::sum_over(m.ips, bytes)
                + packet.length
        }),
{
    let counted = record_after(sender_record(m, packet, now), packet, now);
    crate::table::lemma_sum_insert(
        m.ips,
        crate::table::packet_weight(),
        packet.src_ip,
        counted,
    );
    crate::table::lemma_sum_insert(m.ips, crate::table::byte_weight(), packet.src_ip, counted);
}

/// A state stays sound when a packet is counted.
pub proof fn lemma_packet_keeps_sound(
    m: TrafficModel,
    packet: crate::packet::PacketFacts,
    now: nat,
)
    requires
        sound(m),
    ensures
        sound(model_after_packet(m, packet, now)),
{
    lemma_packet_adds_up(m, packet, now);
    let after = model_after_packet(m, packet, now);
    let before = sender_record(m, packet, now);
    let grown = ports_after(before.ports, packet.dst_port);
    assert(grown.no_duplicates());
    assert(after.ips.dom() =~= m.ips.dom().insert(packet.src_ip));
    assert forall|ip: Seq<char>| #[trigger] after.ips.contains_key(ip) implies record_sound(
        after.ips[ip],
        after,
    ) by {
        if ip != packet.src_ip {
            assert(m.ips.contains_key(ip));
        }
    }
}

/// A state stays sound when its totals stay and no source is new or has other
/// figures than before.
pub proof fn lemma_same_figures_keep_sound(m: TrafficModel, after: TrafficModel)
    requires
        sound(m),
        after.total_packets == m.total_packets,
        after.total_bytes == m.total_bytes,
        after.last_window_packets <= m.total_packets,
        after.alerts.len() <= crate::alert::ALERT_LOG_SIZE,
        forall|ip: Seq<char>| #[trigger]
            after.ips.contains_key(ip) ==> {
                &&& m.ips.contains_key(ip)
                &&& after.ips[ip].packets == m.ips[ip].packets
                &&& after.ips[ip].bytes == m.ips[ip].bytes
                &&& after.ips[ip].syns == m.ips[ip].syns
                &&& after.ips[ip].ports == m.ips[ip].ports
            },
    ensures
        sound(after),
{
    crate::table::lemma_sum_fewer(after.ips, m.ips, crate::table::packet_weight());
    crate::table::lemma_sum_fewer(after.ips, m.ips, crate::table::byte_weight());
    assert forall|ip: Seq<char>| after.ips.dom().contains(ip) implies m.ips.dom().contains(ip) by {
        assert(after.ips.contains_key(ip));
    }
    vstd::set_lib::lemma_len_subset(after.ips.dom(), m.ips.dom());
}

impl AppState {
    /// Whether the state is in order.
    pub closed spec fn wf(&self) -> bool {
        &&& self.table.wf()
        &&& sound(self@)
    }

    /// What always holds of the state does hold of it.
    pub proof fn law_state_is_sound(&self)
        requires
            self.wf(),
        ensures
            sound(self@),
    {
    }

    /// The state at the start, of a host with the given addresses.
    pub fn new(local_ips: Vec<String>, now: u64) -> (r: AppState)
        ensures
            r.wf(),
            r@ == (TrafficModel {
                ips: Map::empty(),
                alerts: Seq::empty(),
                total_packets: 0,
                total_bytes: 0,
                last_window_packets: 0,
                window_start: now as nat,
                local_ips: crate::text::texts(local_ips@),
                geoip_calls: 0,
                geoip_window_start: now as nat,
            }),
    {
        let r = AppState {
            table: StatsTable::new(),
            alerts: Vec::new(),
            total_packets: 0,
            total_bytes: 0,
            last_window_packets: 0,
            window_start: now,
            local_ips,
            geoip_calls_this_minute: 0,
            geoip_window_start: now,
        };
        assert(r@.alerts =~= Seq::empty());
        r
    }

    /// The statistics of every source.
    pub fn table(&self) -> (r: &StatsTable)
        requires
            self.wf(),
        ensures
            r.wf(),
            r@ == self@.ips,
    {
        &self.table
    }

    /// The alerts in the log, oldest first.
    pub fn alerts(&self) -> (r: &Vec<DDoSAlert>)
        ensures
            crate::alert::alert_records(r@) == self@.alerts,
    {
        &self.alerts
    }

    /// The addresses of this host.
    pub fn local_ips(&self) -> (r: &Vec<String>)
        ensures
            crate::text::texts(r@) == self@.local_ips,
    {
        &self.local_ips
    }

    /// Packets counted so far.
    pub fn total_packets(&self) -> (r: u64)
        ensures
            r == self@.total_packets,
    {
        self.total_packets
    }

    /// Bytes counted so far.
    pub fn total_bytes(&self) -> (r: u64)
        ensures
            r == self@.total_bytes,
    {
        self.total_bytes
    }

    /// Whether the address is one of this host's.
    fn is_local(&self, ip: &str) -> (r: bool)
        ensures
            r == self@.local_ips.contains(ip@),
    {
        let mut i: usize = 0;
        while i < self.local_ips.len()
            invariant
                i <= self.local_ips@.len(),
                self@.local_ips == crate::text::texts(self.local_ips@),
                forall|j: int| 0 <= j < i ==> #[trigger] self@.local_ips[j] != ip@,
            decreases self.local_ips@.len() - i,
        {
            if same_text(self.local_ips[i].as_str(), ip) {
                assert(self@.local_ips[i as int] == ip@);
                return true;
            }
            i = i + 1;
        }
        false
    }

    /// Counts one packet.
    pub fn record_packet(&mut self, packet: &PacketInfo, now: u64) -> (r: PacketReport)
        requires
            old(self).wf(),
            old(self)@.total_packets < u64::MAX,
            old(self)@.total_bytes + packet@.length <= u64::MAX,
        ensures
            final(self).wf(),
            final(self)@ == model_after_packet(old(self)@, packet@, now as nat),
            r@ == packet_note(old(self)@, packet@, now as nat),
    {
        proof {
            lemma_packet_keeps_sound(self@, packet@, now as nat);
        }
        let ghost model = self@;
        let direction: &'static str = if self.is_local(packet.dst_ip.as_str()) {
            "inbound"
        } else {
            "outbound"
        };
        let protocol = detect_protocol(packet.src_port, packet.dst_port, packet.transport);
        self.total_packets = self.total_packets + 1;
        self.total_bytes = self.total_bytes + packet.length;
        let place: usize = match self.table.position(packet.src_ip.as_str()) {
            Some(i) => i,
            None => self.table.add(packet.src_ip.clone(), IpStats::fresh(packet.src_address, now)),
        };
        let stats = self.table.stats_mut(place);
        stats.count(packet, now);
        let country = stats.country.clone();
        assert(self@.ips =~= model_after_packet(model, packet@, now as nat).ips);
        PacketReport {
            direction,
            protocol,
            country,
            src_ip: packet.src_ip.clone(),
            dst_port: packet.dst_port,
            length: packet.length,
        }
    }

    /// Tells whether another location request may be made now. Where the
    /// minute is over, a new one begins.
    pub fn can_geoip(&mut self, now: u64) -> (r: bool)
        requires
            old(self).wf(),
        ensures
            final(self).wf(),
            final(self)@ == geoip_window_at(old(self)@, now as nat),
            r == geoip_allowed(old(self)@, now as nat),
    {
        if elapsed(now, self.geoip_window_start) >= MINUTE {
            self.geoip_calls_this_minute = 0;
            self.geoip_window_start = now;
        }
        self.geoip_calls_this_minute < GEOIP_LIMIT
    }

    /// Records that one location request is made.
    pub fn record_geoip_call(&mut self)
        requires
            old(self).wf(),
            old(self)@.geoip_calls < u8::MAX,
        ensures
            final(self).wf(),
            final(self)@ == (TrafficModel {
                geoip_calls: old(self)@.geoip_calls + 1,
                ..old(self)@
            }),
    {
        self.geoip_calls_this_minute = self.geoip_calls_this_minute + 1;
    }

    /// Takes the right to make one location request, if there is one.
    pub fn take_geoip_call(&mut self, now: u64) -> (r: bool)
        requires
            old(self).wf(),
        ensures
            final(self).wf(),
            final(self)@ == model_after_attempt(old(self)@, now as nat),
            r == geoip_allowed(old(self)@, now as nat),
    {
        if self.can_geoip(now) {
            self.record_geoip_call();
            true
        } else {
            false
        }
    }

    /// Notes the location of a source, if it is still tracked.
    pub fn set_location(&mut self, ip: &str, country: &str, city: &str)
        requires
            old(self).wf(),
        ensures
            final(self).wf(),
            final(self)@ == model_after_location(old(self)@, ip@, country@, city@),
    {
        let ghost before = self@;
        match self.table.position(ip) {
            Some(i) => {
                let stats = self.table.stats_mut(i);
                stats.country = country.to_owned();
                stats.city = city.to_owned();
                proof {
                    let after = model_after_location(before, ip@, country@, city@);
                    assert(self@.ips =~= after.ips);
                    lemma_same_figures_keep_sound(before, after);
                }
            },
            None => {},
        }
    }

    /// Adds an alert to the log.
    pub fn push_alert(&mut self, alert: DDoSAlert)
        requires
            old(self).wf(),
        ensures
            final(self).wf(),
            final(self)@ == (TrafficModel {
                alerts: crate::alert::logged(old(self)@.alerts, alert@),
                ..old(self)@
            }),
    {
        log_alert(&mut self.alerts, alert);
        proof {
            lemma_same_figures_keep_sound(old(self)@, self@);
        }
    }

    /// Ends the rate window, unless it has no length yet, and tells what was
    /// counted in it.
    pub fn close_rate_window(&mut self, now: u64) -> (r: Option<RateWindow>)
        requires
            old(self).wf(),
        ensures
            final(self).wf(),
            final(self)@ == model_after_window(old(self)@, now as nat),
            window_figures(r) == window_ended(old(self)@, now as nat),
    {
        let length: u64 = elapsed(now, self.window_start);
        if length > 0 {
            let packets: u64 = self.total_packets - self.last_window_packets;
            self.last_window_packets = self.total_packets;
            self.window_start = now;
            proof {
                lemma_same_figures_keep_sound(old(self)@, self@);
            }
            Some(RateWindow { packets, elapsed: length })
        } else {
            None
        }
    }

    /// Forgets the sources that have been silent for more than five minutes.
    pub fn evict_stale(&mut self, now: u64)
        requires
            old(self).wf(),
        ensures
            final(self).wf(),
            final(self)@ == (TrafficModel {
                ips: recent_ips(old(self)@.ips, now as nat),
                ..old(self)@
            }),
    {
        let ghost before = self@;
        let mut i: usize = 0;
        while i < self.table.len()
            invariant
                self.table.wf(),
                self@ == (TrafficModel { ips: self@.ips, ..before }),
                sound(before),
                i <= self.table.list().len(),
                forall|ip: Seq<char>| #[trigger]
                    self@.ips.contains_key(ip) ==> before.ips.contains_key(ip) && self@.ips[ip]
                        == before.ips[ip],
                forall|ip: Seq<char>| #[trigger]
                    before.ips.contains_key(ip) && !self@.ips.contains_key(ip) ==> !is_recent(
                        before.ips[ip],
                        now as nat,
                    ),
                forall|j: int|
                    0 <= j < i ==> is_recent((#[trigger] self.table.list()[j]).1, now as nat),
            decreases self.table.list().len() - i,
        {
            proof {
                self.table.lemma_list();
            }
            let last_seen: u64 = self.table.stats_at(i).last_seen;
            if elapsed(now, last_seen) <= SILENCE_LIMIT {
                i = i + 1;
            } else {
                self.table.remove_at(i);
            }
        }
        proof {
            self.table.lemma_list();
            let after = recent_ips(before.ips, now as nat);
            assert forall|ip: Seq<char>| #[trigger] self@.ips.contains_key(ip) implies is_recent(
                before.ips[ip],
                now as nat,
            ) by {
                let j = choose|j: int|
                    0 <= j < self.table.list().len() && (#[trigger] self.table.list()[j]).0 == ip;
                assert(is_recent(self.table.list()[j].1, now as nat));
            }
            assert(self@.ips =~= after);
            lemma_same_figures_keep_sound(before, self@);
        }
    }
}

/// Reads one raw Ethernet frame and counts the packet that it carries. A frame
/// that carries no packet to be counted changes nothing.
pub fn process_packet(data: &[u8], state: &mut AppState, now: u64) -> (r: Option<PacketReport>)
    requires
        old(state).wf(),
        old(state)@.total_packets < u64::MAX,
        old(state)@.total_bytes + MAX_PACKET_LENGTH <= u64::MAX,
    ensures
        final(state).wf(),
        match crate::packet::frame_facts(data@) {
            Some(packet) => {
                &&& final(state)@ == model_after_packet(old(state)@, packet, now as nat)
                &&& r matches Some(report) && report@ == packet_note(
                    old(state)@,
                    packet,
                    now as nat,
                )
            },
            None => r is None && *final(state) == *old(state),
        },
{
    match parse_frame(data) {
        Some(packet) => Some(state.record_packet(&packet, now)),
        None => None,
    }
}

/// Within one minute window no more requests are granted than are allowed in
/// it.
pub proof fn law_limit_within_window(m: TrafficModel, times: Seq<nat>)
    requires
        m.geoip_calls <= GEOIP_LIMIT,
        forall|i: int|
            0 <= i < times.len() ==> crate::clock::since(
                #[trigger] times[i],
                m.geoip_window_start,
            ) < MINUTE,
    ensures
        m.geoip_calls + grants(m, times) <= GEOIP_LIMIT,
    decreases times.len(),
{
    if times.len() > 0 {
        let after = model_after_attempt(m, times[0]);
        assert(after.geoip_window_start == m.geoip_window_start);
        let rest = times.drop_first();
        assert forall|i: int| 0 <= i < rest.len() implies crate::clock::since(
            #[trigger] rest[i],
            after.geoip_window_start,
        ) < MINUTE by {
            assert(rest[i] == times[i + 1]);
        }
        law_limit_within_window(after, rest);
    }
}

/// In the long run no more requests are granted than are allowed in one
/// window, for each minute that has begun.
pub proof fn law_limit_in_the_long_run(m: TrafficModel, times: Seq<nat>)
    requires
        m.geoip_calls <= GEOIP_LIMIT,
        times.len() > 0,
        m.geoip_window_start <= times[0],
        forall|i: int, j: int| 0 <= i <= j < times.len() ==> times[i] <= times[j],
    ensures
        m.geoip_calls + grants(m, times) <= GEOIP_LIMIT * (1 + (times.last()
            - m.geoip_window_start) / (MINUTE as int)),
    decreases times.len(),
{
    let after = model_after_attempt(m, times[0]);
    let rest = times.drop_first();
    if rest.len() == 0 {
        assert(grants(after, rest) == 0);
        assert(times.last() == times[0]);
    } else {
        assert(rest[0] == times[1]);
        assert(rest.last() == times.last());
        assert forall|i: int, j: int| 0 <= i <= j < rest.len() implies rest[i] <= rest[j] by {
            assert(rest[i] == times[i + 1]);
            assert(rest[j] == times[j + 1]);
        }
        law_limit_in_the_long_run(after, rest);
    }
}

} // verus!
