//! Locating the sources: which ones to ask for, what to ask, and what the
//! answer says.

use vstd::hash_map::StringHashMap;
use vstd::prelude::*;
use vstd::string::*;

use crate::address::is_private_ip;
use crate::json::{read_rows, write_objects};
use crate::state::AppState;
use crate::text::same_text;

verus! {

/// How many addresses one request may hold.
pub const BATCH_SIZE: usize = 100;

/// A place on earth.
pub struct Place {
    /// The country.
    pub country: String,
    /// The city.
    pub city: String,
}

impl View for Place {
    type V = (Seq<char>, Seq<char>);

    /// The country and the city.
    open spec fn view(&self) -> (Seq<char>, Seq<char>) {
        (self.country@, self.city@)
    }
}

/// One request that is to be made.
pub struct GeoBatch {
    /// The addresses that are asked for.
    pub chunk: Vec<String>,
    /// The body of the request.
    pub body: Vec<u8>,
}

/// What is to be done next.
pub enum GeoStep {
    /// Make this request and apply its answer.
    Fetch(GeoBatch),
    /// Stop: no more requests may be made now.
    LimitReached,
    /// Stop: every address has been asked for.
    Finished,
}

/// The addresses that are asked for in one run, and how far the run has come.
pub struct GeoRun {
    pending: Vec<String>,
    next: usize,
}

/// The places of a map, as mathematical values.
pub open spec fn place_texts(
    places: Map<Seq<char>, Place>,
) -> Map<Seq<char>, (Seq<char>, Seq<char>)> {
    places.map_values(|p: Place| p@)
}

/// The rows of an answer: of each item of the JSON array its status, the
/// address that was asked for, the country and the city; none if the answer is
/// no JSON array.
pub open spec fn answer_rows(body: Seq<u8>) -> Option<Seq<Seq<Option<Seq<char>>>>> {
    match (
        crate::json::json_column(body, "status"@),
        crate::json::json_column(body, "query"@),
        crate::json::json_column(body, "country"@),
        crate::json::json_column(body, "city"@),
    ) {
        (Some(status), Some(query), Some(country), Some(city)) => Some(
            Seq::new(status.len(), |i: int| seq![status[i], query[i], country[i], city[i]]),
        ),
        _ => None,
    }
}

/// A text, or another one in its place where it is missing.
pub open spec fn or_else_text(text: Option<Seq<char>>, other: Seq<char>) -> Seq<char> {
    match text {
        Some(s) => s,
        None => other,
    }
}

/// The address that a row locates: one that was asked for with success.
pub open spec fn located_ip(row: Seq<Option<Seq<char>>>) -> Option<Seq<char>> {
    let ip = or_else_text(row[1], Seq::empty());
    if row[0] == Some("success"@) && ip.len() > 0 {
        Some(ip)
    } else {
        None
    }
}

/// The place that a row tells; what is missing is unknown.
pub open spec fn row_place(row: Seq<Option<Seq<char>>>) -> (Seq<char>, Seq<char>) {
    (or_else_text(row[2], "Unknown"@), or_else_text(row[3], "Unknown"@))
}

/// The places that the rows tell. Of several rows for one address the last
/// counts.
pub open spec fn places_told(
    rows: Seq<Seq<Option<Seq<char>>>>,
) -> Map<Seq<char>, (Seq<char>, Seq<char>)>
    decreases rows.len(),
{
    if rows.len() == 0 {
        Map::empty()
    } else {
        let front = places_told(rows.drop_last());
        match located_ip(rows.last()) {
            Some(ip) => front.insert(ip, row_place(rows.last())),
            None => front,
        }
    }
}

/// The sources once the places of the addresses in `chunk` are noted.
pub open spec fn ips_located(
    ips: Map<Seq<char>, crate::table::IpRecord>,
    chunk: Seq<Seq<char>>,
    places: Map<Seq<char>, (Seq<char>, Seq<char>)>,
) -> Map<Seq<char>, crate::table::IpRecord> {
    Map::new(
        |ip: Seq<char>| ips.contains_key(ip),
        |ip: Seq<char>|
            if chunk.contains(ip) && places.contains_key(ip) {
                crate::table::IpRecord { country: places[ip].0, city: places[ip].1, ..ips[ip] }
            } else {
                ips[ip]
            },
    )
}

/// Whether the place of a source is still to be found: it is unknown, and the
/// address is one that can have a place.
pub open spec fn is_pending(record: crate::table::IpRecord) -> bool {
    record.country == "Unknown"@ && !crate::address::octets_are_private(record.octets)
}

/// Whether `pending` names each source whose place is still to be found, once,
/// and no others.
pub open spec fn names_pending(
    pending: Seq<Seq<char>>,
    ips: Map<Seq<char>, crate::table::IpRecord>,
) -> bool {
    &&& forall|k: int|
        0 <= k < pending.len() ==> ips.contains_key(#[trigger] pending[k]) && is_pending(
            ips[pending[k]],
        )
    &&& pending.no_duplicates()
    &&& forall|ip: Seq<char>| #[trigger]
        ips.contains_key(ip) && is_pending(ips[ip]) ==> pending.contains(ip)
}

/// Whether `body` asks for the places of `ips`: it is a JSON array with an
/// object for each address that holds it under `query`, written out as it
/// stands where no address needs escaping.
pub open spec fn is_request(body: Seq<u8>, ips: Seq<Seq<char>>) -> bool {
    &&& body == crate::json::json_objects("query"@, ips)
    &&& crate::json::all_plain(ips) ==> body == crate::json::ascii_bytes(
        crate::json::objects_text("query"@, ips),
    )
}

/// Where the batch that begins at `next` ends.
pub open spec fn batch_end(next: int, len: int) -> int {
    if next + BATCH_SIZE <= len {
        next + BATCH_SIZE
    } else {
        len
    }
}

/// The batches from `next` on, as long as each is granted.
pub open spec fn batches_from(pending: Seq<Seq<char>>, next: int) -> Seq<Seq<Seq<char>>>
    decreases pending.len() - next,
{
    if 0 <= next < pending.len() {
        let end = batch_end(next, pending.len() as int);
        seq![pending.subrange(next, end)] + batches_from(pending, end)
    } else {
        Seq::empty()
    }
}

/// The body of the request for the places of `ips`; nothing is asked where
/// there are none.
pub fn geoip_request(ips: &Vec<String>) -> (r: Option<Vec<u8>>)
    ensures
        match r {
            Some(body) => ips@.len() > 0 && is_request(body@, crate::text::texts(ips@)),
            None => ips@.len() == 0,
        },
{
    proof {
        reveal_strlit("query");
    }
    if ips.len() == 0 {
        None
    } else {
        Some(write_objects("query", ips))
    }
}

/// A text, or another one where it is missing.
fn text_or(text: &Option<String>, other: &'static str) -> (r: String)
    ensures
        r@ == or_else_text(crate::text::text_or_none(*text), other@),
{
    match text {
        Some(s) => s.clone(),
        None => other.to_owned(),
    }
}

/// Whether a text is there and is the given one.
fn text_is(text: &Option<String>, other: &str) -> (r: bool)
    ensures
        r == (crate::text::text_or_none(*text) == Some(other@)),
{
    match text {
        Some(s) => same_text(s.as_str(), other),
        None => false,
    }
}

/// Collects the places that the rows of an answer tell.
pub fn collect_places(rows: &Vec<Vec<Option<String>>>) -> (r: StringHashMap<Place>)
    requires
        forall|i: int| 0 <= i < rows@.len() ==> (#[trigger] rows@[i])@.len() == 4,
    ensures
        place_texts(r@) == places_told(crate::json::rows_texts(rows@)),
{
    let ghost all = crate::json::rows_texts(rows@);
    let mut places: StringHashMap<Place> = StringHashMap::new();
    assert(all.take(0) =~= Seq::empty());
    assert(place_texts(places@) =~= places_told(all.take(0)));
    let mut i: usize = 0;
    while i < rows.len()
        invariant
            all == crate::json::rows_texts(rows@),
            i <= rows@.len(),
            forall|j: int| 0 <= j < rows@.len() ==> (#[trigger] rows@[j])@.len() == 4,
            place_texts(places@) == places_told(all.take(i as int)),
        decreases rows@.len() - i,
    {
        let row = &rows[i];
        let ghost texts = all[i as int];
        assert(all.take(i + 1).drop_last() =~= all.take(i as int));
        assert(all.take(i + 1).last() == texts);
        assert(texts == crate::json::row_texts(row@));
        proof {
            reveal_strlit("");
            assert(""@ =~= Seq::<char>::empty());
        }
        if text_is(&row[0], "success") {
            let ip: String = text_or(&row[1], "");
            if !ip.as_str().is_empty() {
                let place = Place {
                    country: text_or(&row[2], "Unknown"),
                    city: text_or(&row[3], "Unknown"),
                };
                let ghost before = places@;
                places.insert(ip, place);
                assert(place_texts(places@) =~= place_texts(before).insert(ip@, place@));
            }
        }
        i = i + 1;
    }
    assert(all.take(i as int) =~= all);
    places
}

/// Reads an answer. An answer that is no JSON array tells nothing.
pub fn geoip_response(body: &[u8]) -> (r: Option<StringHashMap<Place>>)
    ensures
        match answer_rows(body@) {
            Some(rows) => r matches Some(places) && place_texts(places@) == places_told(rows),
            None => r is None,
        },
{
    let keys: Vec<&'static str> = vec!["status", "query", "country", "city"];
    match read_rows(body, &keys) {
        Some(rows) => {
            proof {
                assert(keys@[0]@ == "status"@);
                assert(keys@[1]@ == "query"@);
                assert(keys@[2]@ == "country"@);
                assert(keys@[3]@ == "city"@);
                let told = answer_rows(body@)->0;
                let texts = crate::json::rows_texts(rows@);
                assert forall|i: int| 0 <= i < rows@.len() implies told[i] == texts[i] by {
                    assert(rows@[i]@.len() == 4);
                    assert(told[i] =~= texts[i]);
                }
                assert(told =~= texts);
            }
            Some(collect_places(&rows))
        },
        None => {
            assert(keys@[0]@ == "status"@);
            None
        },
    }
}

/// Notes the places of the addresses that were asked for.
pub fn apply_places(state: &mut AppState, chunk: &Vec<String>, places: &StringHashMap<Place>)
    requires
        old(state).wf(),
    ensures
        final(state).wf(),
        final(state)@ == (crate::state::TrafficModel {
            ips: ips_located(
                old(state)@.ips,
                crate::text::texts(chunk@),
                place_texts(places@),
            ),
            ..old(state)@
        }),
{
    let ghost before = state@;
    let ghost told = place_texts(places@);
    let ghost asked = crate::text::texts(chunk@);
    assert(before.ips =~= ips_located(before.ips, asked.take(0), told));
    let mut i: usize = 0;
    while i < chunk.len()
        invariant
            asked == crate::text::texts(chunk@),
            told == place_texts(places@),
            i <= chunk@.len(),
            state.wf(),
            state@ == (crate::state::TrafficModel {
                ips: ips_located(before.ips, asked.take(i as int), told),
                ..before
            }),
        decreases chunk@.len() - i,
    {
        let ip: &str = chunk[i].as_str();
        let ghost mid = state@;
        if let Some(place) = places.get(ip) {
            state.set_location(ip, place.country.as_str(), place.city.as_str());
        }
        proof {
            let shorter = asked.take(i as int);
            let longer = asked.take(i + 1);
            assert(longer =~= shorter.push(ip@));
            assert forall|k: Seq<char>| #[trigger] longer.contains(k) <==> shorter.contains(k) || k
                == ip@ by {
                if shorter.contains(k) {
                    let p = choose|p: int| 0 <= p < shorter.len() && shorter[p] == k;
                    assert(longer[p] == k);
                }
                assert(longer[i as int] == ip@);
                if longer.contains(k) {
                    let p = choose|p: int| 0 <= p < longer.len() && longer[p] == k;
                    if p < i {
                        assert(shorter[p] == k);
                    }
                }
            }
            assert(state@.ips =~= ips_located(before.ips, longer, told));
        }
        i = i + 1;
    }
    assert(asked.take(i as int) =~= asked);
}

/// Names the sources whose place is still to be found.
pub fn pending_sources(state: &AppState) -> (r: Vec<String>)
    requires
        state.wf(),
    ensures
        names_pending(crate::text::texts(r@), state@.ips),
{
    let table = state.table();
    let ghost list = table.list();
    proof {
        table.lemma_list();
    }
    let mut out: Vec<String> = Vec::new();
    let mut i: usize = 0;
    let count: usize = table.len();
    while i < count
        invariant
            count == list.len(),
            list == table.list(),
            crate::table::enumerates(list, state@.ips),
            i <= count,
            forall|k: int|
                0 <= k < out@.len() ==> exists|j: int|
                    0 <= j < i && (#[trigger] out@[k])@ == (#[trigger] list[j]).0 && is_pending(
                        list[j].1,
                    ),
            crate::text::texts(out@).no_duplicates(),
            forall|j: int|
                0 <= j < i && is_pending((#[trigger] list[j]).1) ==> crate::text::texts(
                    out@,
                ).contains(list[j].0),
        decreases count - i,
    {
        let stats = table.stats_at(i);
        let ghost before = out@;
        if same_text(stats.country.as_str(), "Unknown") && !is_private_ip(&stats.address) {
            out.push(table.ip_at(i).clone());
            proof {
                let names = crate::text::texts(out@);
                let shorter = crate::text::texts(before);
                assert(names =~= shorter.push(list[i as int].0));
                assert(!shorter.contains(list[i as int].0)) by {
                    if shorter.contains(list[i as int].0) {
                        let k = choose|k: int|
                            0 <= k < shorter.len() && shorter[k] == list[i as int].0;
                        assert(before[k]@ == shorter[k]);
                        let j = choose|j: int|
                            0 <= j < i && before[k]@ == (#[trigger] list[j]).0 && is_pending(
                                list[j].1,
                            );
                        assert(list[j].0 != list[i as int].0);
                    }
                }
                assert forall|k: int| 0 <= k < out@.len() implies exists|j: int|
                    0 <= j < i + 1 && (#[trigger] out@[k])@ == (#[trigger] list[j]).0 && is_pending(
                        list[j].1,
                    ) by {
                    if k < before.len() {
                        assert(out@[k] == before[k]);
                        let j = choose|j: int|
                            0 <= j < i && before[k]@ == (#[trigger] list[j]).0 && is_pending(
                                list[j].1,
                            );
                        assert(out@[k]@ == list[j].0);
                    } else {
                        assert(out@[k]@ == list[i as int].0);
                    }
                }
                assert forall|j: int|
                    0 <= j < i + 1 && is_pending((#[trigger] list[j]).1) implies names.contains(
                    list[j].0,
                ) by {
                    if j < i {
                        let k = choose|k: int| 0 <= k < shorter.len() && shorter[k] == list[j].0;
                        assert(names[k] == list[j].0);
                    } else {
                        assert(names[names.len() - 1] == list[j].0);
                    }
                }
            }
        }
        i = i + 1;
    }
    proof {
        let names = crate::text::texts(out@);
        assert forall|k: int| 0 <= k < names.len() implies state@.ips.contains_key(
            #[trigger] names[k],
        ) && is_pending(state@.ips[names[k]]) by {
            let j = choose|j: int|
                0 <= j < list.len() && out@[k]@ == (#[trigger] list[j]).0 && is_pending(list[j].1);
            assert(state@.ips[list[j].0] == list[j].1);
        }
        assert forall|ip: Seq<char>| #[trigger]
            state@.ips.contains_key(ip) && is_pending(state@.ips[ip]) implies names.contains(
            ip,
        ) by {
            let j = choose|j: int| 0 <= j < list.len() && (#[trigger] list[j]).0 == ip;
            assert(state@.ips[list[j].0] == list[j].1);
        }
    }
    out
}

impl GeoRun {
    /// The addresses of the run.
    pub closed spec fn pending(&self) -> Seq<Seq<char>> {
        crate::text::texts(self.pending@)
    }

    /// How many of them have been dealt with.
    pub closed spec fn next(&self) -> int {
        self.next as int
    }

    /// Whether the run has come no further than it can.
    pub closed spec fn wf(&self) -> bool {
        self.next <= self.pending@.len()
    }

    /// Begins a run for the sources whose place is still to be found.
    pub fn start(state: &AppState) -> (r: GeoRun)
        requires
            state.wf(),
        ensures
            r.wf(),
            r.next() == 0,
            names_pending(r.pending(), state@.ips),
    {
        GeoRun { pending: pending_sources(state), next: 0 }
    }

    /// Decides what is to be done next: the next batch is asked for, if a
    /// request may be made; if not, the run is over.
    pub fn step(&mut self, state: &mut AppState, now: u64) -> (r: GeoStep)
        requires
            old(self).wf(),
            old(state).wf(),
        ensures
            final(self).wf(),
            final(state).wf(),
            final(self).pending() == old(self).pending(),
            0 <= old(self).next() <= old(self).pending().len(),
            match r {
                GeoStep::Fetch(batch) => {
                    &&& old(self).next() < old(self).pending().len()
                    &&& crate::state::geoip_allowed(old(state)@, now as nat)
                    &&& final(self).next() == batch_end(
                        old(self).next(),
                        old(self).pending().len() as int,
                    )
                    &&& crate::text::texts(batch.chunk@) == old(self).pending().subrange(
                        old(self).next(),
                        final(self).next(),
                    )
                    &&& is_request(batch.body@, crate::text::texts(batch.chunk@))
                },
                GeoStep::LimitReached => {
                    &&& old(self).next() < old(self).pending().len()
                    &&& !crate::state::geoip_allowed(old(state)@, now as nat)
                    &&& final(self).next() == old(self).pending().len()
                },
                GeoStep::Finished => {
                    &&& old(self).next() == old(self).pending().len()
                    &&& final(self).next() == old(self).next()
                },
            },
            final(state)@ == if old(self).next() < old(self).pending().len() {
                crate::state::model_after_attempt(old(state)@, now as nat)
            } else {
                old(state)@
            },
    {
        let len: usize = self.pending.len();
        if self.next == len {
            return GeoStep::Finished;
        }
        if !state.take_geoip_call(now) {
            self.next = len;
            return GeoStep::LimitReached;
        }
        let end: usize = if len - self.next >= BATCH_SIZE {
            self.next + BATCH_SIZE
        } else {
            len
        };
        let mut chunk: Vec<String> = Vec::new();
        let mut i: usize = self.next;
        let ghost from = self.next as int;
        let ghost names = crate::text::texts(self.pending@);
        while i < end
            invariant
                0 <= from <= i <= end <= self.pending@.len(),
                names == crate::text::texts(self.pending@),
                crate::text::texts(chunk@) == names.subrange(from, i as int),
            decreases end - i,
        {
            let ghost before = chunk@;
            chunk.push(self.pending[i].clone());
            assert(crate::text::texts(chunk@) =~= crate::text::texts(before).push(
                names[i as int],
            ));
            assert(names.subrange(from, i + 1) =~= names.subrange(from, i as int).push(
                names[i as int],
            ));
            i = i + 1;
        }
        self.next = end;
        assert(crate::text::texts(chunk@).len() == chunk@.len());
        match geoip_request(&chunk) {
            Some(body) => GeoStep::Fetch(GeoBatch { chunk, body }),
            None => GeoStep::Finished,
        }
    }
}

/// No address of the four-octet kind needs escaping in a request.
pub proof fn law_ipv4_needs_no_escaping(octets: Seq<u8>)
    requires
        octets.len() == 4,
    ensures
        crate::json::is_plain(crate::address::ipv4_text(octets)),
{
    crate::text::lemma_decimal_denotes(octets[0] as nat);
    crate::text::lemma_decimal_denotes(octets[1] as nat);
    crate::text::lemma_decimal_denotes(octets[2] as nat);
    crate::text::lemma_decimal_denotes(octets[3] as nat);
    let text = crate::address::ipv4_text(octets);
    assert forall|i: int| 0 <= i < text.len() implies crate::text::is_digit(#[trigger] text[i])
        || text[i] == '.' by {}
}

/// One batch after another asks for every pending address, once and in order,
/// and no batch holds more than one request may.
pub proof fn law_batches_cover_pending(pending: Seq<Seq<char>>, next: int)
    requires
        0 <= next <= pending.len(),
    ensures
        batches_from(pending, next).flatten() == pending.skip(next),
        forall|k: int|
            0 <= k < batches_from(pending, next).len() ==> 1 <= (#[trigger] batches_from(
                pending,
                next,
            )[k]).len() <= BATCH_SIZE,
    decreases pending.len() - next,
{
    let batches = batches_from(pending, next);
    if next < pending.len() {
        let end = batch_end(next, pending.len() as int);
        let first = pending.subrange(next, end);
        law_batches_cover_pending(pending, end);
        let rest = batches_from(pending, end);
        assert(batches.drop_first() =~= rest);
        assert(batches.flatten() == first + rest.flatten());
        assert(first + pending.skip(end) =~= pending.skip(next));
        assert forall|k: int| 0 <= k < batches.len() implies 1 <= (#[trigger] batches[k]).len()
            <= BATCH_SIZE by {
            if k > 0 {
                assert(batches[k] == rest[k - 1]);
            }
        }
    } else {
        assert(pending.skip(next) =~= Seq::empty());
    }
}

} // verus!
