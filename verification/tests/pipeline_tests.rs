use meshalert::feed::fetch_payload;
use meshalert::feed::HttpOutcome;
use meshalert::pipeline::plan_cycle;
use meshalert::zones::CityEntry;

// 2024-01-01T00:00:00Z as seconds since the Unix epoch.
const BASE_SECS: i64 = 1704067200;

fn city(name: &str, zone_en: &str) -> CityEntry {
    CityEntry {
        name: String::from(name),
        name_en: String::from(name),
        zone_en: String::from(zone_en),
    }
}

fn payload_of(body: &str) -> meshalert::feed::FeedPayload {
    fetch_payload(&HttpOutcome::Response { status: 200, body: String::from(body) }).unwrap()
}

#[test]
fn live_alert_goes_to_its_zone() {
    let gaz = vec![city("Tel Aviv", "Dan")];
    let p = payload_of("{\"data\":[\"Tel Aviv\"],\"cat\":\"1\",\"desc\":\"Rocket fire\"}");
    let plan = plan_cycle(&p, &gaz, 0).unwrap();
    assert_eq!(plan.message, "\u{1F6A8}missiles - \"Rocket fire\"");
    assert_eq!(plan.channels, vec![4]);
}

#[test]
fn test_marked_locality_yields_no_send() {
    let gaz = vec![city("Test City - בדיקה", "Dan")];
    let p = payload_of("{\"data\":[\"Test City - בדיקה\"],\"cat\":\"1\"}");
    let plan = plan_cycle(&p, &gaz, 0).unwrap();
    assert_eq!(plan.message, "\u{1F6A8}missiles");
    assert!(plan.channels.is_empty());
}

#[test]
fn seven_distinct_zones_broadcast_once() {
    let gaz = vec![
        city("A", "Upper Galilee"),
        city("B", "HaMifratz"),
        city("C", "Lower Galilee"),
        city("D", "Dan"),
        city("E", "Jerusalem"),
        city("F", "Gaza Envelope"),
        city("G", "Eilat"),
    ];
    let p = payload_of("{\"data\":[\"A\",\"B\",\"C\",\"D\",\"E\",\"F\",\"G\"],\"cat\":\"1\"}");
    let plan = plan_cycle(&p, &gaz, 0).unwrap();
    assert_eq!(plan.channels, vec![0]);
}

#[test]
fn stale_historical_payload_yields_nothing() {
    let gaz = vec![city("Tel Aviv", "Dan")];
    let p = payload_of(
        "[{\"alertDate\":\"2024-01-01T00:00:00Z\",\"data\":\"Tel Aviv\",\"category\":\"1\"}]",
    );
    let plan = plan_cycle(&p, &gaz, BASE_SECS + 200);
    assert!(plan.is_none());
}

#[test]
fn fresh_historical_payload_is_dispatched() {
    let gaz = vec![city("Tel Aviv", "Dan")];
    let p = payload_of(
        "[{\"alertDate\":\"2024-01-01T00:00:00Z\",\"data\":\"Tel Aviv\",\"category\":\"1\"}]",
    );
    let plan = plan_cycle(&p, &gaz, BASE_SECS + 60).unwrap();
    assert_eq!(plan.message, "\u{1F6A8}missiles");
    assert_eq!(plan.channels, vec![4]);
}

#[test]
fn drill_category_is_suppressed_end_to_end() {
    let gaz = vec![city("Tel Aviv", "Dan")];
    let p = payload_of("{\"data\":[\"Tel Aviv\"],\"cat\":\"101\"}");
    let plan = plan_cycle(&p, &gaz, 0);
    assert!(plan.is_none());
}

#[test]
fn unresolved_localities_are_skipped() {
    let gaz = vec![city("Tel Aviv", "Dan")];
    let p = payload_of("{\"data\":[\"Tel Aviv\",\"Nowhere\"],\"cat\":\"1\"}");
    let plan = plan_cycle(&p, &gaz, 0).unwrap();
    assert_eq!(plan.channels, vec![4]);
}

#[test]
fn duplicate_localities_one_channel() {
    let gaz = vec![city("Tel Aviv", "Dan"), city("Ramat Gan", "Dan")];
    let p = payload_of("{\"data\":[\"Tel Aviv\",\"Tel Aviv\",\"Ramat Gan\"],\"cat\":\"1\"}");
    let plan = plan_cycle(&p, &gaz, 0).unwrap();
    assert_eq!(plan.channels, vec![4]);
}

#[test]
fn live_payload_without_category_yields_nothing() {
    let gaz = vec![city("Tel Aviv", "Dan")];
    let p = payload_of("{\"data\":[\"Tel Aviv\"]}");
    assert!(plan_cycle(&p, &gaz, 0).is_none());
}
