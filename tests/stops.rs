use bus_alert::number::is_float_text;
use bus_alert::stops::{load_bus_stops, parse_stop};

#[test]
fn malformed_middle_record_is_dropped() {
    let stops = load_bus_stops("Stop A,51.5,-0.1;BadRecord;Stop B,52.0,0.0");
    assert_eq!(stops.len(), 2);
    assert_eq!(stops[0].name, "Stop A");
    assert_eq!(stops[0].lat, "51.5");
    assert_eq!(stops[0].lng, "-0.1");
    assert_eq!(stops[1].name, "Stop B");
    assert_eq!(stops[1].lat, "52.0");
    assert_eq!(stops[1].lng, "0.0");
}

#[test]
fn empty_text_gives_no_stops() {
    assert_eq!(load_bus_stops("").len(), 0);
    assert_eq!(load_bus_stops(";;").len(), 0);
}

#[test]
fn fields_are_trimmed() {
    let stops = load_bus_stops("  Stop A , 51.5 ,\t-0.1 ;");
    assert_eq!(stops.len(), 1);
    assert_eq!(stops[0].name, "Stop A");
    assert_eq!(stops[0].lat, "51.5");
    assert_eq!(stops[0].lng, "-0.1");
}

#[test]
fn wrong_field_count_is_skipped() {
    assert!(parse_stop("Stop A,51.5").is_none());
    assert!(parse_stop("Stop A,51.5,-0.1,extra").is_none());
    assert!(parse_stop("").is_none());
    assert!(parse_stop("Stop A,51.5,-0.1").is_some());
}

#[test]
fn non_numeric_coordinates_are_skipped() {
    let stops = load_bus_stops("A,north,0.0;B,1.0,;C,1.0,2.0");
    assert_eq!(stops.len(), 1);
    assert_eq!(stops[0].name, "C");
}

#[test]
fn float_syntax_agrees_with_std() {
    let samples = [
        "51.5", "-0.1", "+3", "1.", ".5", "1e5", "1E-5", "2.5e+10", "inf", "-Infinity", "NaN",
        "nAn", "INF", "", ".", "+", "-", "1e", "e5", "1.2.3", " 1", "1 ", "abc", "1,5", "0x10",
        "--1", "1e5.0", ".e1", "infinit", "1_000", "٣",
    ];
    for s in samples.iter() {
        assert_eq!(is_float_text(s), s.parse::<f64>().is_ok(), "sample {:?}", s);
    }
}
