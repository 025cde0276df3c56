use meshalert::feed::FeedPayload;
use meshalert::feed::HistoryEntry;
use meshalert::normalize::normalize;

// 2024-01-01T00:00:00Z as seconds since the Unix epoch.
const BASE_SECS: i64 = 1704067200;

fn live(cities: Vec<&str>, category: Option<&str>, instructions: Option<&str>) -> FeedPayload {
    FeedPayload::Live {
        cities: Some(cities.into_iter().map(String::from).collect()),
        category: category.map(String::from),
        instructions: instructions.map(String::from),
    }
}

fn entry(date: Option<&str>, locality: Option<&str>, category: Option<&str>) -> HistoryEntry {
    HistoryEntry {
        date: date.map(String::from),
        locality: locality.map(String::from),
        category: category.map(String::from),
    }
}

#[test]
fn live_cities_are_trimmed_and_deduplicated() {
    let p = live(vec!["  Tel Aviv ", "Haifa", "Tel Aviv"], Some("1"), None);
    let a = normalize(&p, 0);
    assert_eq!(a.alert_type, "missiles");
    assert_eq!(a.cities, vec![String::from("Tel Aviv"), String::from("Haifa")]);
    assert_eq!(a.instructions, None);
}

#[test]
fn live_test_marker_localities_are_excluded() {
    let p = live(vec!["Test City - בדיקה", "Haifa"], Some("1"), None);
    let a = normalize(&p, 0);
    assert_eq!(a.alert_type, "missiles");
    assert_eq!(a.cities, vec![String::from("Haifa")]);
}

#[test]
fn live_without_category_stays_none() {
    let p = live(vec!["Haifa"], None, Some("stay calm"));
    let a = normalize(&p, 0);
    assert_eq!(a.alert_type, "none");
    assert!(a.cities.is_empty());
    assert_eq!(a.instructions, Some(String::from("stay calm")));
}

#[test]
fn live_unknown_category_maps_to_unknown() {
    let a = normalize(&live(vec![], Some("999"), None), 0);
    assert_eq!(a.alert_type, "unknown");
    let b = normalize(&live(vec![], Some("abc"), None), 0);
    assert_eq!(b.alert_type, "unknown");
}

#[test]
fn empty_live_payload_is_none_alert() {
    let p = FeedPayload::Live { cities: None, category: None, instructions: None };
    let a = normalize(&p, 0);
    assert_eq!(a.alert_type, "none");
    assert!(a.cities.is_empty());
    assert_eq!(a.instructions, None);
}

#[test]
fn historical_fresh_entry_is_kept() {
    let p = FeedPayload::Historical {
        entries: vec![entry(Some("2024-01-01T00:00:00Z"), Some(" Tel Aviv "), Some("1"))],
    };
    let a = normalize(&p, BASE_SECS + 100);
    assert_eq!(a.alert_type, "missiles");
    assert_eq!(a.cities, vec![String::from("Tel Aviv")]);
    assert_eq!(a.instructions, None);
}

#[test]
fn historical_stale_entry_is_excluded() {
    let p = FeedPayload::Historical {
        entries: vec![entry(Some("2024-01-01T00:00:00Z"), Some("Tel Aviv"), Some("1"))],
    };
    let a = normalize(&p, BASE_SECS + 200);
    assert_eq!(a.alert_type, "none");
    assert!(a.cities.is_empty());
}

#[test]
fn historical_freshness_boundary() {
    let p = FeedPayload::Historical {
        entries: vec![entry(Some("2024-01-01T00:00:00Z"), Some("Tel Aviv"), Some("1"))],
    };
    let kept = normalize(&p, BASE_SECS + 120);
    assert_eq!(kept.alert_type, "missiles");
    let dropped = normalize(&p, BASE_SECS + 121);
    assert_eq!(dropped.alert_type, "none");
}

#[test]
fn historical_last_entry_sets_the_type() {
    let p = FeedPayload::Historical {
        entries: vec![
            entry(Some("2024-01-01T00:00:00Z"), Some("Tel Aviv"), Some("1")),
            entry(Some("2024-01-01T00:00:30Z"), Some("Haifa"), Some("2")),
        ],
    };
    let a = normalize(&p, BASE_SECS + 60);
    assert_eq!(a.alert_type, "hostileAircraftIntrusion");
    assert_eq!(a.cities, vec![String::from("Tel Aviv"), String::from("Haifa")]);
}

#[test]
fn historical_incomplete_entry_is_skipped() {
    let p = FeedPayload::Historical {
        entries: vec![
            entry(None, Some("Tel Aviv"), Some("1")),
            entry(Some("2024-01-01T00:00:00Z"), None, Some("1")),
            entry(Some("2024-01-01T00:00:00Z"), Some("Tel Aviv"), None),
        ],
    };
    let a = normalize(&p, BASE_SECS);
    assert_eq!(a.alert_type, "none");
    assert!(a.cities.is_empty());
}

#[test]
fn historical_test_marker_entry_is_excluded() {
    let p = FeedPayload::Historical {
        entries: vec![entry(Some("2024-01-01T00:00:00Z"), Some("בדיקה מקומית"), Some("1"))],
    };
    let a = normalize(&p, BASE_SECS);
    assert_eq!(a.alert_type, "none");
    assert!(a.cities.is_empty());
}

#[test]
fn historical_unreadable_date_entry_is_skipped() {
    let p = FeedPayload::Historical {
        entries: vec![
            entry(Some("yesterday"), Some("Tel Aviv"), Some("1")),
            entry(Some("2024-01-01T00:00:00Z"), Some("Haifa"), Some("2")),
        ],
    };
    let a = normalize(&p, BASE_SECS);
    assert_eq!(a.alert_type, "hostileAircraftIntrusion");
    assert_eq!(a.cities, vec![String::from("Haifa")]);
}

#[test]
fn normalize_is_idempotent_on_the_same_payload() {
    let p = live(vec![" Tel Aviv ", "Haifa", "Tel Aviv"], Some("13"), Some("go inside"));
    let a1 = normalize(&p, 7);
    let a2 = normalize(&p, 7);
    assert_eq!(a1, a2);

    let h = FeedPayload::Historical {
        entries: vec![entry(Some("2024-01-01T00:00:00Z"), Some("Tel Aviv"), Some("1"))],
    };
    let b1 = normalize(&h, BASE_SECS);
    let b2 = normalize(&h, BASE_SECS);
    assert_eq!(b1, b2);
}
