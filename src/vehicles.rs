//! Vehicle reports of one poll, the first-in-range matcher, and the
//! notifications that one poll gives.

use vstd::prelude::*;
use crate::number::{is_float_literal, is_float_text};
use crate::stops::BusStop;

verus! {

/// One entry of a tracking response, as found: each field is `Some` only
/// where the entry holds it as a string.
pub struct ServiceEntry {
    pub service_number: Option<String>,
    pub service_description: Option<String>,
    pub latitude: Option<String>,
    pub longitude: Option<String>,
}

/// A vehicle whose coordinates are float literals.
pub struct VehicleReport {
    pub service_number: String,
    pub service_description: String,
    pub lat: String,
    pub lng: String,
}

pub type ReportView = (Seq<char>, Seq<char>, Seq<char>, Seq<char>);

impl View for VehicleReport {
    type V = ReportView;

    open spec fn view(&self) -> ReportView {
        (self.service_number@, self.service_description@, self.lat@, self.lng@)
    }
}

pub open spec fn report_views(v: Seq<VehicleReport>) -> Seq<ReportView> {
    v.map_values(|r: VehicleReport| r@)
}

pub open spec fn text_or(o: Option<String>, default: Seq<char>) -> Seq<char> {
    match o {
        Some(s) => s@,
        None => default,
    }
}

pub open spec fn unknown_number() -> Seq<char> {
    seq!['U', 'n', 'k', 'n', 'o', 'w', 'n']
}

pub open spec fn no_description() -> Seq<char> {
    seq!['N', 'o', ' ', 'd', 'e', 's', 'c', 'r', 'i', 'p', 't', 'i', 'o', 'n']
}

/// The report of one entry: `None` unless both coordinates are present and
/// float literals; a missing number or description gets a default text.
pub open spec fn report_of(e: ServiceEntry) -> Option<ReportView> {
    match (e.latitude, e.longitude) {
        (Some(lat), Some(lng)) => if is_float_literal(lat@) && is_float_literal(lng@) {
            Some(
                (
                    text_or(e.service_number, unknown_number()),
                    text_or(e.service_description, no_description()),
                    lat@,
                    lng@,
                ),
            )
        } else {
            None
        },
        _ => None,
    }
}

/// The reports of the usable entries, in order.
pub open spec fn reports_of(es: Seq<ServiceEntry>) -> Seq<ReportView>
    decreases es.len(),
{
    if es.len() == 0 {
        Seq::empty()
    } else {
        let prev = reports_of(es.drop_last());
        match report_of(es.last()) {
            Some(r) => prev.push(r),
            None => prev,
        }
    }
}

/// The reports of a response; a response without a service list has none.
pub open spec fn reports_of_response(services: Option<Vec<ServiceEntry>>) -> Seq<ReportView> {
    match services {
        Some(es) => reports_of(es@),
        None => Seq::empty(),
    }
}

/// The reports of two runs of entries, one after the other, are the reports
/// of each run, one after the other.
pub proof fn lemma_reports_of_concat(a: Seq<ServiceEntry>, b: Seq<ServiceEntry>)
    ensures
        reports_of(a + b) == reports_of(a) + reports_of(b),
    decreases b.len(),
{
    if b.len() == 0 {
        assert(a + b =~= a);
        assert(reports_of(a) + reports_of(b) =~= reports_of(a));
    } else {
        lemma_reports_of_concat(a, b.drop_last());
        assert((a + b).drop_last() =~= a + b.drop_last());
        assert((a + b).last() == b.last());
        match report_of(b.last()) {
            Some(r) => {
                assert(reports_of(a) + reports_of(b.drop_last()).push(r) =~= (reports_of(a)
                    + reports_of(b.drop_last())).push(r));
            },
            None => {},
        }
    }
}

/// An entry whose latitude or longitude is missing or not a number gives no
/// report, wherever it stands, and leaves the reports of the others as they
/// are.
pub proof fn lemma_non_numeric_entry_skipped(
    before: Seq<ServiceEntry>,
    e: ServiceEntry,
    after: Seq<ServiceEntry>,
)
    requires
        !(e.latitude matches Some(lat) && is_float_literal(lat@)) || !(e.longitude matches Some(
            lng,
        ) && is_float_literal(lng@)),
    ensures
        reports_of(before.push(e) + after) == reports_of(before + after),
{
    lemma_reports_of_concat(before.push(e), after);
    lemma_reports_of_concat(before, after);
    assert(before.push(e).drop_last() =~= before);
}

fn text_or_default(o: &Option<String>, default: &str) -> (r: String)
    ensures
        r@ == text_or(*o, default@),
{
    match o {
        Some(s) => s.clone(),
        None => default.to_owned(),
    }
}

/// The report of one entry, or `None` where a coordinate is missing or is not
/// a number.
pub fn vehicle_report(e: &ServiceEntry) -> (r: Option<VehicleReport>)
    ensures
        match r {
            Some(v) => report_of(*e) == Some(v@),
            None => report_of(*e) is None,
        },
{
    match (&e.latitude, &e.longitude) {
        (Some(lat), Some(lng)) => {
            if is_float_text(lat.as_str()) && is_float_text(lng.as_str()) {
                let number = text_or_default(&e.service_number, "Unknown");
                let description = text_or_default(&e.service_description, "No description");
                proof {
                    reveal_strlit("Unknown");
                    reveal_strlit("No description");
                    assert("Unknown"@ =~= unknown_number());
                    assert("No description"@ =~= no_description());
                }
                Some(
                    VehicleReport {
                        service_number: number,
                        service_description: description,
                        lat: lat.clone(),
                        lng: lng.clone(),
                    },
                )
            } else {
                None
            }
        },
        _ => None,
    }
}

/// The reports of every usable entry of a response, in order; entries with
/// a missing or non-numeric coordinate are left out.
pub fn vehicle_reports(services: &Option<Vec<ServiceEntry>>) -> (r: Vec<VehicleReport>)
    ensures
        report_views(r@) == reports_of_response(*services),
{
    let mut out: Vec<VehicleReport> = Vec::new();
    match services {
        None => {
            assert(report_views(out@) =~= Seq::empty());
        },
        Some(es) => {
            let mut i: usize = 0;
            assert(es@.take(0) =~= Seq::<ServiceEntry>::empty());
            assert(report_views(out@) =~= Seq::empty());
            while i < es.len()
                invariant
                    i <= es@.len(),
                    report_views(out@) == reports_of(es@.take(i as int)),
                decreases es@.len() - i,
            {
                assert(es@.take(i + 1).drop_last() =~= es@.take(i as int));
                assert(es@.take(i + 1).last() == es@[i as int]);
                match vehicle_report(&es[i]) {
                    Some(v) => {
                        out.push(v);
                        assert(report_views(out@) =~= report_views(out@).drop_last().push(v@));
                    },
                    None => {},
                }
                i = i + 1;
            }
            assert(es@.take(es@.len() as int) =~= es@);
        },
    }
    out
}

} // verus!
