use bus_alert::alerts::{find_nearest_stop, notification_text, notifications};
use bus_alert::stops::{load_bus_stops, BusStop};
use bus_alert::vehicles::{vehicle_report, vehicle_reports, ServiceEntry, VehicleReport};

fn some(s: &str) -> Option<String> {
    Some(s.to_string())
}

fn entry(number: Option<String>, lat: Option<String>, lng: Option<String>) -> ServiceEntry {
    ServiceEntry {
        service_number: number,
        service_description: some("Town Centre"),
        latitude: lat,
        longitude: lng,
    }
}

fn three_stops() -> Vec<BusStop> {
    load_bus_stops("North,51.5,-0.1;Middle,51.6,-0.1;South,51.7,-0.1")
}

#[test]
fn vehicle_at_a_stop_matches_it() {
    let stops = three_stops();
    let found = find_nearest_stop(&stops, &vec![false, true, false]);
    assert_eq!(found, Some("Middle".to_string()));
}

#[test]
fn out_of_range_everywhere_gives_no_match() {
    let stops = three_stops();
    assert_eq!(find_nearest_stop(&stops, &vec![false, false, false]), None);
    assert_eq!(find_nearest_stop(&Vec::new(), &Vec::new()), None);
}

#[test]
fn first_in_range_stop_wins() {
    let stops = three_stops();
    let found = find_nearest_stop(&stops, &vec![false, true, true]);
    assert_eq!(found, Some("Middle".to_string()));
    let found = find_nearest_stop(&stops, &vec![true, true, true]);
    assert_eq!(found, Some("North".to_string()));
}

#[test]
fn message_names_bus_and_stop() {
    let report = VehicleReport {
        service_number: "X1".to_string(),
        service_description: "Town Centre".to_string(),
        lat: "51.5".to_string(),
        lng: "-0.1".to_string(),
    };
    assert_eq!(notification_text(&report, "Stop A"), "Bus (X1) Town Centre is near **Stop A**!");
}

#[test]
fn no_services_gives_no_reports() {
    assert_eq!(vehicle_reports(&None).len(), 0);
    assert_eq!(vehicle_reports(&Some(Vec::new())).len(), 0);
    let stops = three_stops();
    assert_eq!(notifications(&Vec::new(), &stops, &Vec::new()).len(), 0);
}

#[test]
fn non_numeric_vehicle_is_excluded() {
    let entries = vec![
        entry(some("1"), some("abc"), some("-0.1")),
        entry(some("2"), some("51.5"), None),
        entry(some("3"), some("51.5"), some("-0.1")),
        entry(some("4"), some("51.5"), some("")),
    ];
    let reports = vehicle_reports(&Some(entries));
    assert_eq!(reports.len(), 1);
    assert_eq!(reports[0].service_number, "3");
    assert_eq!(reports[0].lat, "51.5");
}

#[test]
fn missing_texts_get_defaults() {
    let e = ServiceEntry {
        service_number: None,
        service_description: None,
        latitude: some("51.5"),
        longitude: some("-0.1"),
    };
    let r = vehicle_report(&e).unwrap();
    assert_eq!(r.service_number, "Unknown");
    assert_eq!(r.service_description, "No description");
}

#[test]
fn one_notification_per_matching_vehicle() {
    let stops = three_stops();
    let entries = vec![
        entry(some("7"), some("51.5"), some("-0.1")),
        entry(some("8"), some("52.9"), some("1.0")),
        entry(some("9"), some("51.7"), some("-0.1")),
    ];
    let reports = vehicle_reports(&Some(entries));
    let flags = vec![vec![true, false, false], vec![false, false, false], vec![false, false, true]];
    let msgs = notifications(&reports, &stops, &flags);
    assert_eq!(
        msgs,
        vec![
            "Bus (7) Town Centre is near **North**!".to_string(),
            "Bus (9) Town Centre is near **South**!".to_string(),
        ]
    );
}
