//! Matching vehicles against stops, and the notifications that one poll
//! gives. Whether a vehicle is within range of a stop is decided by the
//! caller (a great-circle distance of at most 200 meters) and handed in as
//! one flag per stop, in the order of the stops.

use vstd::prelude::*;
use crate::stops::BusStop;
use crate::vehicles::{report_views, reports_of_response, ReportView, ServiceEntry, VehicleReport};

verus! {

/// The position of the first set flag, if any.
pub open spec fn first_true(flags: Seq<bool>) -> Option<int>
    decreases flags.len(),
{
    if flags.len() == 0 {
        None
    } else if flags[0] {
        Some(0)
    } else {
        match first_true(flags.drop_first()) {
            Some(k) => Some(k + 1),
            None => None,
        }
    }
}

/// The match is the first stop in list order that is in range, not the
/// nearest one; there is no match exactly when no stop is in range.
pub proof fn lemma_first_true(flags: Seq<bool>)
    ensures
        match first_true(flags) {
            Some(k) => 0 <= k < flags.len() && flags[k] && forall|j: int|
                0 <= j < k ==> !#[trigger] flags[j],
            None => forall|j: int| 0 <= j < flags.len() ==> !#[trigger] flags[j],
        },
    decreases flags.len(),
{
    if flags.len() > 0 {
        lemma_first_true(flags.drop_first());
        if !flags[0] {
            match first_true(flags.drop_first()) {
                Some(k) => {
                    assert forall|j: int| 0 <= j < k + 1 implies !#[trigger] flags[j] by {
                        if j > 0 {
                            assert(flags[j] == flags.drop_first()[j - 1]);
                        }
                    }
                },
                None => {
                    assert forall|j: int| 0 <= j < flags.len() implies !#[trigger] flags[j] by {
                        if j > 0 {
                            assert(flags[j] == flags.drop_first()[j - 1]);
                        }
                    }
                },
            }
        }
    }
}

/// The name of the matched stop for one vehicle, if any.
pub open spec fn match_of(stops: Seq<BusStop>, flags: Seq<bool>) -> Option<Seq<char>> {
    match first_true(flags) {
        Some(k) => Some(stops[k].name@),
        None => None,
    }
}

/// The name of the first stop, in list order, that is in range of the
/// vehicle; `None` when no stop is.
pub fn find_nearest_stop(stops: &Vec<BusStop>, in_range: &Vec<bool>) -> (r: Option<String>)
    requires
        in_range@.len() == stops@.len(),
    ensures
        match r {
            Some(name) => match_of(stops@, in_range@) == Some(name@),
            None => match_of(stops@, in_range@) is None,
        },
{
    proof {
        lemma_first_true(in_range@);
    }
    let mut i: usize = 0;
    while i < stops.len()
        invariant
            i <= stops@.len() == in_range@.len(),
            forall|j: int| 0 <= j < i ==> !#[trigger] in_range@[j],
            match first_true(in_range@) {
                Some(k) => 0 <= k < in_range@.len() && in_range@[k] && forall|j: int|
                    0 <= j < k ==> !#[trigger] in_range@[j],
                None => forall|j: int| 0 <= j < in_range@.len() ==> !#[trigger] in_range@[j],
            },
        decreases stops@.len() - i,
    {
        if in_range[i] {
            let name = stops[i].name.clone();
            proof {
                match first_true(in_range@) {
                    Some(k) => {
                        if k < i {
                            assert(!in_range@[k]);
                        } else if k > i {
                            assert(!in_range@[i as int]);
                        }
                    },
                    None => {
                        assert(!in_range@[i as int]);
                    },
                }
            }
            return Some(name);
        }
        i = i + 1;
    }
    proof {
        match first_true(in_range@) {
            Some(k) => {
                assert(!in_range@[k]);
            },
            None => {},
        }
    }
    None
}

/// The text of the notification that a vehicle is near a stop:
/// `Bus (<number>) <description> is near **<stop>**!`.
pub open spec fn message_of(number: Seq<char>, description: Seq<char>, stop: Seq<char>) -> Seq<
    char,
> {
    "Bus ("@ + number + ") "@ + description + " is near **"@ + stop + "**!"@
}

/// The notification text for `report` near the stop named `stop`.
pub fn notification_text(report: &VehicleReport, stop: &str) -> (r: String)
    ensures
        r@ == message_of(report.service_number@, report.service_description@, stop@),
{
    let mut m = "Bus (".to_owned();
    m.append(report.service_number.as_str());
    m.append(") ");
    m.append(report.service_description.as_str());
    m.append(" is near **");
    m.append(stop);
    m.append("**!");
    m
}

/// The notifications of one poll: one for each report that matches a stop,
/// in the order of the reports.
pub open spec fn messages_of(reports: Seq<ReportView>, stops: Seq<BusStop>, rows: Seq<Seq<bool>>) -> Seq<
    Seq<char>,
>
    decreases reports.len(),
{
    if reports.len() == 0 {
        Seq::empty()
    } else {
        let n = (reports.len() - 1) as int;
        let prev = messages_of(reports.drop_last(), stops, rows.take(n));
        match match_of(stops, rows[n]) {
            Some(stop) => prev.push(message_of(reports[n].0, reports[n].1, stop)),
            None => prev,
        }
    }
}

/// A response without a service list, or with an empty one, gives no
/// notification.
pub proof fn lemma_no_services_no_notifications(
    services: Option<Vec<ServiceEntry>>,
    stops: Seq<BusStop>,
    rows: Seq<Seq<bool>>,
)
    requires
        services matches Some(es) ==> es@.len() == 0,
    ensures
        messages_of(reports_of_response(services), stops, rows).len() == 0,
{
    assert(reports_of_response(services).len() == 0);
}

pub open spec fn string_views(v: Seq<String>) -> Seq<Seq<char>> {
    v.map_values(|s: String| s@)
}

/// The notifications of one poll. `in_range[i][j]` tells whether the vehicle
/// of `reports[i]` is in range of `stops[j]`.
pub fn notifications(reports: &Vec<VehicleReport>, stops: &Vec<BusStop>, in_range: &Vec<Vec<bool>>) -> (r:
    Vec<String>)
    requires
        in_range@.len() == reports@.len(),
        forall|i: int| 0 <= i < in_range@.len() ==> (#[trigger] in_range@[i])@.len() == stops@.len(),
    ensures
        string_views(r@) == messages_of(
            report_views(reports@),
            stops@,
            in_range@.map_values(|row: Vec<bool>| row@),
        ),
{
    let ghost rows = in_range@.map_values(|row: Vec<bool>| row@);
    let ghost rs = report_views(reports@);
    let mut out: Vec<String> = Vec::new();
    let mut i: usize = 0;
    assert(string_views(out@) =~= Seq::empty());
    while i < reports.len()
        invariant
            i <= reports@.len() == in_range@.len(),
            rows == in_range@.map_values(|row: Vec<bool>| row@),
            rs == report_views(reports@),
            forall|i: int| 0 <= i < in_range@.len() ==> (#[trigger] in_range@[i])@.len() == stops@.len(),
            string_views(out@) == messages_of(rs.take(i as int), stops@, rows.take(i as int)),
        decreases reports@.len() - i,
    {
        assert(rs.take(i + 1).drop_last() =~= rs.take(i as int));
        assert(rows.take(i + 1).take(i as int) =~= rows.take(i as int));
        assert(rs.take(i + 1)[i as int] == reports@[i as int]@);
        assert(rows.take(i + 1)[i as int] == in_range@[i as int]@);
        match find_nearest_stop(stops, &in_range[i]) {
            Some(name) => {
                let m = notification_text(&reports[i], name.as_str());
                out.push(m);
                assert(string_views(out@) =~= string_views(out@).drop_last().push(m@));
            },
            None => {},
        }
        i = i + 1;
    }
    assert(rs.take(reports@.len() as int) =~= rs);
    assert(rows.take(reports@.len() as int) =~= rows);
    out
}

} // verus!
