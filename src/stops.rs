//! Waypoints (bus stops) and their configuration format: records separated
//! by `;`, each `name,lat,lng`, with whitespace around each field ignored.

use vstd::prelude::*;
use crate::number::{is_float_literal, is_float_text};
use crate::text::{split, split_on, trim, trimmed, views_of};

verus! {

/// A named point of interest. The coordinates are kept as the decimal text
/// they were configured with, which is always a float literal.
pub struct BusStop {
    pub name: String,
    pub lat: String,
    pub lng: String,
}

impl View for BusStop {
    type V = (Seq<char>, Seq<char>, Seq<char>);

    open spec fn view(&self) -> (Seq<char>, Seq<char>, Seq<char>) {
        (self.name@, self.lat@, self.lng@)
    }
}

impl BusStop {
    pub open spec fn wf(&self) -> bool {
        is_float_literal(self.lat@) && is_float_literal(self.lng@)
    }
}

pub open spec fn stop_views(v: Seq<BusStop>) -> Seq<(Seq<char>, Seq<char>, Seq<char>)> {
    v.map_values(|b: BusStop| b@)
}

/// The stop that one record describes: exactly three fields, the last two
/// float literals once trimmed; `None` for a malformed record.
pub open spec fn stop_of_record(r: Seq<char>) -> Option<(Seq<char>, Seq<char>, Seq<char>)> {
    let f = split_on(r, ',');
    if f.len() == 3 && is_float_literal(trimmed(f[1])) && is_float_literal(trimmed(f[2])) {
        Some((trimmed(f[0]), trimmed(f[1]), trimmed(f[2])))
    } else {
        None
    }
}

/// The stops of the well-formed records, in order.
pub open spec fn stops_of_records(rs: Seq<Seq<char>>) -> Seq<(Seq<char>, Seq<char>, Seq<char>)>
    decreases rs.len(),
{
    if rs.len() == 0 {
        Seq::empty()
    } else {
        let prev = stops_of_records(rs.drop_last());
        match stop_of_record(rs.last()) {
            Some(w) => prev.push(w),
            None => prev,
        }
    }
}

/// The stops that a configuration string describes.
pub open spec fn parse_stops(s: Seq<char>) -> Seq<(Seq<char>, Seq<char>, Seq<char>)> {
    stops_of_records(split_on(s, ';'))
}

/// Reads one record; `None` when it is malformed.
pub fn parse_stop(record: &str) -> (r: Option<BusStop>)
    ensures
        match r {
            Some(b) => stop_of_record(record@) == Some(b@) && b.wf(),
            None => stop_of_record(record@) is None,
        },
{
    let fields = split(record, ',');
    proof {
        assert(views_of(fields@).len() == fields@.len());
    }
    if fields.len() != 3 {
        return None;
    }
    let name = trim(fields[0]);
    let lat = trim(fields[1]);
    let lng = trim(fields[2]);
    assert(views_of(fields@)[1] == fields@[1]@);
    assert(views_of(fields@)[2] == fields@[2]@);
    assert(views_of(fields@)[0] == fields@[0]@);
    if is_float_text(lat) && is_float_text(lng) {
        Some(BusStop { name: name.to_owned(), lat: lat.to_owned(), lng: lng.to_owned() })
    } else {
        None
    }
}

/// Reads every record of `text`, skipping the malformed ones. Never fails: a
/// text without a well-formed record gives no stops.
pub fn load_bus_stops(text: &str) -> (r: Vec<BusStop>)
    ensures
        stop_views(r@) == parse_stops(text@),
        forall|i: int| 0 <= i < r@.len() ==> (#[trigger] r@[i]).wf(),
{
    let records = split(text, ';');
    let ghost rs = views_of(records@);
    let mut stops: Vec<BusStop> = Vec::new();
    let mut i: usize = 0;
    assert(rs.take(0) =~= Seq::<Seq<char>>::empty());
    assert(stop_views(stops@) =~= Seq::empty());
    while i < records.len()
        invariant
            i <= records@.len(),
            rs == views_of(records@),
            rs == split_on(text@, ';'),
            stop_views(stops@) == stops_of_records(rs.take(i as int)),
            forall|j: int| 0 <= j < stops@.len() ==> (#[trigger] stops@[j]).wf(),
        decreases records@.len() - i,
    {
        assert(rs.take(i + 1).drop_last() =~= rs.take(i as int));
        assert(rs.take(i + 1).last() == records@[i as int]@);
        match parse_stop(records[i]) {
            Some(b) => {
                stops.push(b);
                assert(stop_views(stops@) =~= stop_views(stops@).drop_last().push(b@));
            },
            None => {},
        }
        i = i + 1;
    }
    assert(rs.take(records@.len() as int) =~= rs);
    stops
}

} // verus!
