//! The statistics kept per source address, and the table that holds them.

use vstd::hash_map::StringHashMap;
use vstd::prelude::*;
use vstd::string::*;

use crate::address::IpAddress;

verus! {

/// Rolling statistics of one source address. Times are nanoseconds of a clock
/// that never runs backwards.
pub struct IpStats {
    /// Packets received.
    pub packet_count: u64,
    /// Bytes received.
    pub byte_count: u64,
    /// When the first packet came.
    pub first_seen: u64,
    /// When the latest packet came.
    pub last_seen: u64,
    /// The different destination ports, in the order in which they were hit.
    pub ports_hit: Vec<u16>,
    /// Packets that asked for a connection.
    pub syn_count: u64,
    /// The country of the address, `Unknown` until it is resolved.
    pub country: String,
    /// The city of the address, `Unknown` until it is resolved.
    pub city: String,
    /// The address itself.
    pub address: IpAddress,
}

/// Statistics of one source address, as mathematical values.
pub struct IpRecord {
    /// Packets received.
    pub packets: nat,
    /// Bytes received.
    pub bytes: nat,
    /// When the first packet came.
    pub first_seen: nat,
    /// When the latest packet came.
    pub last_seen: nat,
    /// The different destination ports, in the order in which they were hit.
    pub ports: Seq<u16>,
    /// Packets that asked for a connection.
    pub syns: nat,
    /// The country of the address.
    pub country: Seq<char>,
    /// The city of the address.
    pub city: Seq<char>,
    /// The octets of the address.
    pub octets: Seq<u8>,
}

impl View for IpStats {
    type V = IpRecord;

    open spec fn view(&self) -> IpRecord {
        IpRecord {
            packets: self.packet_count as nat,
            bytes: self.byte_count as nat,
            first_seen: self.first_seen as nat,
            last_seen: self.last_seen as nat,
            ports: self.ports_hit@,
            syns: self.syn_count as nat,
            country: self.country@,
            city: self.city@,
            octets: self.address@,
        }
    }
}

/// One line of the table.
struct Entry {
    ip: String,
    stats: IpStats,
}

/// Statistics by the text of the source address. The entries stand in a row;
/// an index finds the place of an address in it.
pub struct StatsTable {
    entries: Vec<Entry>,
    index: StringHashMap<usize>,
}

/// Whether `list` names each address of `map` once, with its record, and no
/// others.
pub open spec fn enumerates(
    list: Seq<(Seq<char>, IpRecord)>,
    map: Map<Seq<char>, IpRecord>,
) -> bool {
    &&& forall|i: int|
        0 <= i < list.len() ==> map.contains_key((#[trigger] list[i]).0) && map[list[i].0]
            == list[i].1
    &&& forall|i: int, j: int|
        0 <= i < j < list.len() ==> (#[trigger] list[i]).0 != (#[trigger] list[j]).0
    &&& forall|ip: Seq<char>| #[trigger]
        map.contains_key(ip) ==> exists|i: int|
            0 <= i < list.len() && (#[trigger] list[i]).0 == ip
}

/// A list that enumerates a map is as long as the map is large.
pub proof fn lemma_enumerates_len(
    list: Seq<(Seq<char>, IpRecord)>,
    map: Map<Seq<char>, IpRecord>,
)
    requires
        enumerates(list, map),
    ensures
        map.dom().finite(),
        map.len() == list.len(),
    decreases list.len(),
{
    if list.len() == 0 {
        assert(map.dom() =~= Set::empty());
    } else {
        let last = list.last().0;
        let front = list.drop_last();
        let rest = map.remove(last);
        assert forall|i: int| 0 <= i < front.len() implies rest.contains_key((#[trigger] front[i]).0)
            && rest[front[i].0] == front[i].1 by {
            assert(front[i] == list[i]);
            assert(list[list.len() - 1].0 == last);
        }
        assert forall|i: int, j: int| 0 <= i < j < front.len() implies (#[trigger] front[i]).0 != (
        #[trigger] front[j]).0 by {
            assert(front[i] == list[i] && front[j] == list[j]);
        }
        assert forall|ip: Seq<char>| #[trigger] rest.contains_key(ip) implies exists|i: int|
            0 <= i < front.len() && (#[trigger] front[i]).0 == ip by {
            assert(map.contains_key(ip));
            let i = choose|i: int| 0 <= i < list.len() && (#[trigger] list[i]).0 == ip;
            assert(front[i] == list[i]);
        }
        lemma_enumerates_len(front, rest);
        assert(map.contains_key(list[list.len() - 1].0));
        assert(map.dom() =~= rest.dom().insert(last));
    }
}

/// What `weight` gives for the records of `map`, added up.
pub open spec fn sum_over(map: Map<Seq<char>, IpRecord>, weight: spec_fn(IpRecord) -> nat) -> nat
    decreases map.dom().len(),
    when map.dom().finite()
{
    if map.dom().len() == 0 {
        0
    } else {
        let ip = map.dom().choose();
        weight(map[ip]) + sum_over(map.remove(ip), weight)
    }
}

/// The packets of a record.
pub open spec fn packet_weight() -> spec_fn(IpRecord) -> nat {
    |r: IpRecord| r.packets
}

/// The bytes of a record.
pub open spec fn byte_weight() -> spec_fn(IpRecord) -> nat {
    |r: IpRecord| r.bytes
}

/// Any record can be taken out of a sum.
pub proof fn lemma_sum_split(
    map: Map<Seq<char>, IpRecord>,
    weight: spec_fn(IpRecord) -> nat,
    ip: Seq<char>,
)
    requires
        map.dom().finite(),
        map.contains_key(ip),
    ensures
        sum_over(map, weight) == weight(map[ip]) + sum_over(map.remove(ip), weight),
    decreases map.dom().len(),
{
    let first = map.dom().choose();
    assert(map.dom().contains(first));
    if first != ip {
        lemma_sum_split(map.remove(first), weight, ip);
        lemma_sum_split(map.remove(ip), weight, first);
        assert(map.remove(first).remove(ip) =~= map.remove(ip).remove(first));
    }
}

/// A sum after one record is put in or replaced.
pub proof fn lemma_sum_insert(
    map: Map<Seq<char>, IpRecord>,
    weight: spec_fn(IpRecord) -> nat,
    ip: Seq<char>,
    record: IpRecord,
)
    requires
        map.dom().finite(),
    ensures
        sum_over(map.insert(ip, record), weight) == weight(record) + sum_over(map, weight)
            - if map.contains_key(ip) {
            weight(map[ip])
        } else {
            0
        },
{
    lemma_sum_split(map.insert(ip, record), weight, ip);
    if map.contains_key(ip) {
        lemma_sum_split(map, weight, ip);
        assert(map.insert(ip, record).remove(ip) =~= map.remove(ip));
    } else {
        assert(map.insert(ip, record).remove(ip) =~= map);
    }
}

/// A sum over fewer records of the same weights is no larger, and it is the
/// same where there are no fewer.
pub proof fn lemma_sum_fewer(
    fewer: Map<Seq<char>, IpRecord>,
    map: Map<Seq<char>, IpRecord>,
    weight: spec_fn(IpRecord) -> nat,
)
    requires
        map.dom().finite(),
        forall|ip: Seq<char>| #[trigger]
            fewer.contains_key(ip) ==> map.contains_key(ip) && weight(fewer[ip]) == weight(map[ip]),
    ensures
        fewer.dom().finite(),
        sum_over(fewer, weight) <= sum_over(map, weight),
        fewer.dom() == map.dom() ==> sum_over(fewer, weight) == sum_over(map, weight),
    decreases map.dom().len(),
{
    assert(fewer.dom().subset_of(map.dom())) by {
        assert forall|ip: Seq<char>| fewer.dom().contains(ip) implies map.dom().contains(ip) by {
            assert(fewer.contains_key(ip));
        }
    }
    vstd::set_lib::lemma_set_subset_finite(map.dom(), fewer.dom());
    if map.dom().len() == 0 {
        assert(fewer.dom() =~= Set::empty());
    } else {
        let ip = map.dom().choose();
        assert(map.dom().contains(ip));
        lemma_sum_fewer(fewer.remove(ip), map.remove(ip), weight);
        if fewer.contains_key(ip) {
            lemma_sum_split(fewer, weight, ip);
        } else {
            assert(fewer.remove(ip) =~= fewer);
        }
        if fewer.dom() == map.dom() {
            assert(fewer.contains_key(ip));
            assert(fewer.remove(ip).dom() =~= map.remove(ip).dom());
        }
    }
}

impl View for StatsTable {
    type V = Map<Seq<char>, IpRecord>;

    closed spec fn view(&self) -> Map<Seq<char>, IpRecord> {
        Map::new(
            |ip: Seq<char>| self.index@.contains_key(ip),
            |ip: Seq<char>| self.entries@[self.index@[ip] as int].stats@,
        )
    }
}

impl StatsTable {
    /// Whether the index is in step with the entries.
    pub closed spec fn wf(&self) -> bool {
        &&& forall|ip: Seq<char>| #[trigger]
            self.index@.contains_key(ip) ==> {
                &&& self.index@[ip] < self.entries@.len()
                &&& self.entries@[self.index@[ip] as int].ip@ == ip
            }
        &&& forall|i: int|
            0 <= i < self.entries@.len() ==> {
                &&& self.index@.contains_key((#[trigger] self.entries@[i]).ip@)
                &&& self.index@[self.entries@[i].ip@] == i
            }
    }

    /// The addresses and their records, in the order in which they stand.
    pub closed spec fn list(&self) -> Seq<(Seq<char>, IpRecord)> {
        self.entries@.map_values(|e: Entry| (e.ip@, e.stats@))
    }

    /// The list enumerates the table.
    pub proof fn lemma_list(&self)
        requires
            self.wf(),
        ensures
            enumerates(self.list(), self@),
    {
        assert forall|ip: Seq<char>| #[trigger] self@.contains_key(ip) implies exists|i: int|
            0 <= i < self.list().len() && (#[trigger] self.list()[i]).0 == ip by {
            let i = self.index@[ip] as int;
            assert(self.list()[i].0 == ip);
        }
    }

    /// An empty table.
    pub fn new() -> (r: StatsTable)
        ensures
            r.wf(),
            r@ == Map::<Seq<char>, IpRecord>::empty(),
    {
        let r = StatsTable { entries: Vec::new(), index: StringHashMap::new() };
        assert(r@ =~= Map::<Seq<char>, IpRecord>::empty());
        r
    }

    /// The number of addresses.
    pub fn len(&self) -> (r: usize)
        requires
            self.wf(),
        ensures
            r == self.list().len(),
            r == self@.len(),
    {
        proof {
            self.lemma_list();
            lemma_enumerates_len(self.list(), self@);
        }
        self.entries.len()
    }

    /// The address at place `i`.
    pub fn ip_at(&self, i: usize) -> (r: &String)
        requires
            i < self.list().len(),
        ensures
            r@ == self.list()[i as int].0,
    {
        &self.entries[i].ip
    }

    /// The statistics at place `i`.
    pub fn stats_at(&self, i: usize) -> (r: &IpStats)
        requires
            i < self.list().len(),
        ensures
            r@ == self.list()[i as int].1,
    {
        &self.entries[i].stats
    }

    /// The place of an address, if it is in the table.
    pub fn position(&self, ip: &str) -> (r: Option<usize>)
        requires
            self.wf(),
        ensures
            match r {
                Some(i) => {
                    &&& self@.contains_key(ip@)
                    &&& i < self.list().len()
                    &&& self.list()[i as int] == (ip@, self@[ip@])
                },
                None => !self@.contains_key(ip@),
            },
    {
        match self.index.get(ip) {
            Some(i) => Some(*i),
            None => None,
        }
    }

    /// The statistics of an address, if it is in the table.
    pub fn get(&self, ip: &str) -> (r: Option<&IpStats>)
        requires
            self.wf(),
        ensures
            match r {
                Some(stats) => self@.contains_key(ip@) && stats@ == self@[ip@],
                None => !self@.contains_key(ip@),
            },
    {
        match self.position(ip) {
            Some(i) => Some(self.stats_at(i)),
            None => None,
        }
    }

    /// Adds an address that is not in the table yet, and tells its place.
    pub fn add(&mut self, ip: String, stats: IpStats) -> (r: usize)
        requires
            old(self).wf(),
            !old(self)@.contains_key(ip@),
        ensures
            final(self).wf(),
            final(self)@ == old(self)@.insert(ip@, stats@),
            r < final(self).list().len(),
            final(self).list()[r as int] == (ip@, stats@),
    {
        let place: usize = self.entries.len();
        self.index.insert(ip.clone(), place);
        self.entries.push(Entry { ip, stats });
        assert(self@ =~= old(self)@.insert(ip@, stats@));
        place
    }

    /// The statistics at place `i`, to be changed.
    pub fn stats_mut(&mut self, i: usize) -> (r: &mut IpStats)
        requires
            old(self).wf(),
            i < old(self).list().len(),
        ensures
            r@ == old(self).list()[i as int].1,
            final(self).wf(),
            final(self)@ == old(self)@.insert(old(self).list()[i as int].0, final(r)@),
    {
        &mut self.entries[i].stats
    }

    /// Removes the address at place `i`; the last one takes its place.
    pub fn remove_at(&mut self, i: usize)
        requires
            old(self).wf(),
            i < old(self).list().len(),
        ensures
            final(self).wf(),
            final(self)@ == old(self)@.remove(old(self).list()[i as int].0),
            final(self).list() == old(self).list().update(
                i as int,
                old(self).list().last(),
            ).drop_last(),
    {
        let gone: Entry = self.entries.swap_remove(i);
        self.index.remove(gone.ip.as_str());
        if i < self.entries.len() {
            let moved: String = self.entries[i].ip.clone();
            self.index.insert(moved, i);
        }
        assert(self.list() =~= old(self).list().update(i as int, old(self).list().last()).drop_last());
        assert(self@ =~= old(self)@.remove(old(self).list()[i as int].0));
    }
}

} // verus!
