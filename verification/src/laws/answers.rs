//! Laws of what an answer tells of places.

use vstd::prelude::*;

verus! {

/// Whether a row tells, with success, the place of `ip`.
pub open spec fn tells_of(row: Seq<Option<Seq<char>>>, ip: Seq<char>) -> bool {
    row[0] == Some("success"@) && row[1] == Some(ip) && ip.len() > 0
}

/// A text of a row, or `Unknown` where it is missing.
pub open spec fn known_or(text: Option<Seq<char>>) -> Seq<char> {
    if text is Some {
        text->0
    } else {
        "Unknown"@
    }
}

/// The place of an address is what the last row tells that tells of it.
pub proof fn law_last_row_tells_the_place(
    rows: Seq<Seq<Option<Seq<char>>>>,
    ip: Seq<char>,
    i: int,
)
    requires
        0 <= i < rows.len(),
        tells_of(rows[i], ip),
        forall|j: int| i < j < rows.len() ==> !tells_of(#[trigger] rows[j], ip),
    ensures
        crate::geoip::places_told(rows).contains_key(ip),
        crate::geoip::places_told(rows)[ip] == (known_or(rows[i][2]), known_or(rows[i][3])),
    decreases rows.len(),
{
    let last = rows.len() - 1;
    if i < last {
        let front = rows.drop_last();
        assert(!tells_of(rows[last], ip));
        assert forall|j: int| i < j < front.len() implies !tells_of(#[trigger] front[j], ip) by {
            assert(front[j] == rows[j]);
        }
        law_last_row_tells_the_place(front, ip, i);
    }
}

/// An address of which no row tells has no place.
pub proof fn law_no_row_no_place(rows: Seq<Seq<Option<Seq<char>>>>, ip: Seq<char>)
    requires
        forall|j: int| 0 <= j < rows.len() ==> !tells_of(#[trigger] rows[j], ip),
    ensures
        !crate::geoip::places_told(rows).contains_key(ip),
    decreases rows.len(),
{
    if rows.len() > 0 {
        let front = rows.drop_last();
        assert(!tells_of(rows[rows.len() - 1], ip));
        assert forall|j: int| 0 <= j < front.len() implies !tells_of(#[trigger] front[j], ip) by {
            assert(front[j] == rows[j]);
        }
        law_no_row_no_place(front, ip);
    }
}

/// The rows of an answer: each holds the status, the address, the country and
/// the city of one item, each read under its own key.
pub proof fn law_rows_of_an_answer(body: Seq<u8>, i: int)
    ensures
        crate::geoip::answer_rows(body) matches Some(rows) ==> {
            &&& rows.len() == crate::json::json_column(body, "status"@)->0.len()
            &&& 0 <= i < rows.len() ==> {
                &&& rows[i].len() == 4
                &&& rows[i][0] == crate::json::json_column(body, "status"@)->0[i]
                &&& rows[i][1] == crate::json::json_column(body, "query"@)->0[i]
                &&& rows[i][2] == crate::json::json_column(body, "country"@)->0[i]
                &&& rows[i][3] == crate::json::json_column(body, "city"@)->0[i]
            }
        },
        crate::geoip::answer_rows(body) is None <==> crate::json::json_column(
            body,
            "status"@,
        ) is None || crate::json::json_column(body, "query"@) is None || crate::json::json_column(
            body,
            "country"@,
        ) is None || crate::json::json_column(body, "city"@) is None,
{
}

/// Noting places: a tracked source that was asked for and has a place gets its
/// country and its city; every other source stays as it is, and none comes or
/// goes.
pub proof fn law_places_are_noted(
    ips: Map<Seq<char>, crate::table::IpRecord>,
    chunk: Seq<Seq<char>>,
    places: Map<Seq<char>, (Seq<char>, Seq<char>)>,
    ip: Seq<char>,
)
    ensures
        ({
            let after = crate::geoip::ips_located(ips, chunk, places);
            let asked = exists|i: int| 0 <= i < chunk.len() && #[trigger] chunk[i] == ip;
            &&& after.contains_key(ip) == ips.contains_key(ip)
            &&& ips.contains_key(ip) && asked && places.contains_key(ip) ==> after[ip].country
                == places[ip].0 && after[ip].city == places[ip].1
            &&& ips.contains_key(ip) && !(asked && places.contains_key(ip)) ==> after[ip]
                == ips[ip]
        }),
{
    let asked = exists|i: int| 0 <= i < chunk.len() && #[trigger] chunk[i] == ip;
    assert(chunk.contains(ip) == asked);
}

/// An answer that tells of a source that was asked for gives it the country and
/// the city of the last row that tells of it; its figures stay.
pub proof fn law_answer_locates_the_source(
    ips: Map<Seq<char>, crate::table::IpRecord>,
    chunk: Seq<Seq<char>>,
    rows: Seq<Seq<Option<Seq<char>>>>,
    ip: Seq<char>,
    i: int,
)
    requires
        ips.contains_key(ip),
        chunk.contains(ip),
        0 <= i < rows.len(),
        tells_of(rows[i], ip),
        forall|j: int| i < j < rows.len() ==> !tells_of(#[trigger] rows[j], ip),
    ensures
        ({
            let a = crate::geoip::ips_located(
                ips,
                chunk,
                crate::geoip::places_told(rows),
            )[ip];
            let b = ips[ip];
            &&& a.country == known_or(rows[i][2])
            &&& a.city == known_or(rows[i][3])
            &&& a.packets == b.packets
            &&& a.bytes == b.bytes
            &&& a.syns == b.syns
            &&& a.ports == b.ports
            &&& a.first_seen == b.first_seen
            &&& a.last_seen == b.last_seen
            &&& a.octets == b.octets
        }),
{
    law_last_row_tells_the_place(rows, ip, i);
}

/// Noting one place changes the country and the city of that source, if it is
/// tracked, and nothing else.
pub proof fn law_one_place_is_noted(
    m: crate::state::TrafficModel,
    ip: Seq<char>,
    country: Seq<char>,
    city: Seq<char>,
    other: Seq<char>,
)
    ensures
        ({
            let after = crate::state::model_after_location(m, ip, country, city);
            let a = after.ips[ip];
            let b = m.ips[ip];
            &&& after.ips.contains_key(other) == m.ips.contains_key(other)
            &&& m.ips.contains_key(ip) ==> {
                &&& a.country == country
                &&& a.city == city
                &&& a.packets == b.packets
                &&& a.bytes == b.bytes
                &&& a.syns == b.syns
                &&& a.ports == b.ports
                &&& a.first_seen == b.first_seen
                &&& a.last_seen == b.last_seen
                &&& a.octets == b.octets
            }
            &&& other != ip && m.ips.contains_key(other) ==> after.ips[other] == m.ips[other]
            &&& after.total_packets == m.total_packets
            &&& after.total_bytes == m.total_bytes
            &&& after.alerts == m.alerts
            &&& after.local_ips == m.local_ips
            &&& after.window_start == m.window_start
            &&& after.last_window_packets == m.last_window_packets
            &&& after.geoip_calls == m.geoip_calls
            &&& after.geoip_window_start == m.geoip_window_start
        }),
{
}

} // verus!
