use meshalert::alert::AlertResult;
use meshalert::category::get_alert_type_by_category;
use meshalert::category::get_alert_type_by_historical_category;
use meshalert::dispatch::is_suppressed;
use meshalert::dispatch::plan_dispatch;
use meshalert::dispatch::retry_decision;
use meshalert::dispatch::MessageSender;
use meshalert::dispatch::SendStep;
use meshalert::dispatch::RETRY_DELAY_MS;
use meshalert::dispatch::SEND_RETRIES;
use meshalert::zones::find_zone_for_city;
use meshalert::zones::get_zone_number;
use meshalert::zones::CityEntry;
use meshalert::zones::ZoneSet;

fn alert(alert_type: &str, cities: Vec<&str>, instructions: Option<&str>) -> AlertResult {
    AlertResult {
        alert_type: String::from(alert_type),
        cities: cities.into_iter().map(String::from).collect(),
        instructions: instructions.map(String::from),
    }
}

fn zone_set(zones: Vec<u32>) -> ZoneSet {
    let mut zs = ZoneSet::new();
    for z in zones {
        zs.insert(z);
    }
    zs
}

#[test]
fn live_category_table() {
    assert_eq!(get_alert_type_by_category("1"), "missiles");
    assert_eq!(get_alert_type_by_category("7"), "hazardousMaterials");
    assert_eq!(get_alert_type_by_category("13"), "terroristInfiltration");
    assert_eq!(get_alert_type_by_category("101"), "missilesDrill");
    assert_eq!(get_alert_type_by_category("113"), "terroristInfiltrationDrill");
    assert_eq!(get_alert_type_by_category("8"), "unknown");
    assert_eq!(get_alert_type_by_category(""), "unknown");
    assert_eq!(get_alert_type_by_category("abc"), "unknown");
    assert_eq!(get_alert_type_by_category("99999999999999999999"), "unknown");
}

#[test]
fn live_category_numeral_forms() {
    assert_eq!(get_alert_type_by_category("+1"), "missiles");
    assert_eq!(get_alert_type_by_category("007"), "hazardousMaterials");
    assert_eq!(get_alert_type_by_category(" 1"), "unknown");
    assert_eq!(get_alert_type_by_category("-1"), "unknown");
}

#[test]
fn historical_category_table() {
    assert_eq!(get_alert_type_by_historical_category("1"), "missiles");
    assert_eq!(get_alert_type_by_historical_category("2"), "hostileAircraftIntrusion");
    assert_eq!(get_alert_type_by_historical_category("3"), "general");
    assert_eq!(get_alert_type_by_historical_category("4"), "general");
    assert_eq!(get_alert_type_by_historical_category("7"), "earthQuake");
    assert_eq!(get_alert_type_by_historical_category("9"), "radiologicalEvent");
    assert_eq!(get_alert_type_by_historical_category("10"), "terroristInfiltration");
    assert_eq!(get_alert_type_by_historical_category("11"), "tsunami");
    assert_eq!(get_alert_type_by_historical_category("12"), "hazardousMaterials");
    assert_eq!(get_alert_type_by_historical_category("5"), "unknown");
    assert_eq!(get_alert_type_by_historical_category("101"), "unknown");
}

#[test]
fn zone_table() {
    assert_eq!(get_zone_number("Upper Galilee"), Some(1));
    assert_eq!(get_zone_number("HaMifratz"), Some(2));
    assert_eq!(get_zone_number("Wadi Ara"), Some(3));
    assert_eq!(get_zone_number("Dan"), Some(4));
    assert_eq!(get_zone_number("Jerusalem"), Some(5));
    assert_eq!(get_zone_number("Gaza Envelope"), Some(6));
    assert_eq!(get_zone_number("Eilat"), Some(7));
    assert_eq!(get_zone_number("Atlantis"), None);
    assert_eq!(get_zone_number("dan"), None);
}

#[test]
fn first_gazetteer_match_decides() {
    let gaz = vec![
        CityEntry {
            name: String::from("Tel Aviv"),
            name_en: String::from("Tel Aviv"),
            zone_en: String::from("Nowhere"),
        },
        CityEntry {
            name: String::from("Tel Aviv"),
            name_en: String::from("Tel Aviv"),
            zone_en: String::from("Dan"),
        },
    ];
    assert_eq!(find_zone_for_city(&gaz, "Tel Aviv"), None);
    assert_eq!(find_zone_for_city(&gaz, "Haifa"), None);
}

#[test]
fn suppression_rule() {
    assert!(is_suppressed("none"));
    assert!(is_suppressed("missilesDrill"));
    assert!(is_suppressed("testAnything"));
    assert!(is_suppressed("GRAND DRILL"));
    assert!(is_suppressed("Test"));
    assert!(!is_suppressed("missiles"));
    assert!(!is_suppressed("hostileAircraftIntrusion"));
    assert!(!is_suppressed("unknown"));
}

#[test]
fn suppressed_alert_is_not_planned() {
    let zs = zone_set(vec![4]);
    assert!(plan_dispatch(&alert("none", vec![], None), &zs).is_none());
    assert!(plan_dispatch(&alert("missilesDrill", vec![], None), &zs).is_none());
    assert!(plan_dispatch(&alert("testAnything", vec![], None), &zs).is_none());
}

#[test]
fn message_carries_quoted_instructions() {
    let zs = zone_set(vec![4]);
    let p = plan_dispatch(&alert("missiles", vec![], Some("Rocket fire")), &zs).unwrap();
    assert_eq!(p.message, "\u{1F6A8}missiles - \"Rocket fire\"");
    assert_eq!(p.channels, vec![4]);
}

#[test]
fn message_without_instructions() {
    let zs = zone_set(vec![2, 5]);
    let p = plan_dispatch(&alert("earthQuake", vec![], None), &zs).unwrap();
    assert_eq!(p.message, "\u{1F6A8}earthQuake");
    assert_eq!(p.channels, vec![2, 5]);
}

#[test]
fn seven_zones_collapse_to_broadcast() {
    let zs = zone_set(vec![1, 2, 3, 4, 5, 6, 7]);
    let p = plan_dispatch(&alert("missiles", vec![], None), &zs).unwrap();
    assert_eq!(p.channels, vec![0]);
}

#[test]
fn six_zones_stay_separate() {
    let zs = zone_set(vec![1, 2, 3, 4, 5, 6]);
    let p = plan_dispatch(&alert("missiles", vec![], None), &zs).unwrap();
    assert_eq!(p.channels, vec![1, 2, 3, 4, 5, 6]);
}

#[test]
fn empty_zone_set_plans_no_channel() {
    let zs = ZoneSet::new();
    let p = plan_dispatch(&alert("missiles", vec![], None), &zs).unwrap();
    assert!(p.channels.is_empty());
}

#[test]
fn zone_set_deduplicates() {
    let zs = zone_set(vec![4, 4, 2, 4]);
    assert_eq!(zs.len(), 2);
    assert!(zs.contains(4));
    assert!(zs.contains(2));
    assert!(!zs.contains(1));
}

#[test]
fn pacing_gap_is_enforced() {
    let mut sender = MessageSender::new();
    assert_eq!(sender.pacing_delay_ms(5), 0);
    sender.record_send(1000);
    let delay = sender.pacing_delay_ms(5000);
    assert_eq!(delay, 6000);
    assert!(5000 + delay - 1000 >= 10000);
    assert_eq!(sender.pacing_delay_ms(11000), 0);
    assert_eq!(sender.pacing_delay_ms(10999), 1);
}

#[test]
fn retry_policy() {
    assert_eq!(retry_decision(0, SEND_RETRIES, true), SendStep::Sent);
    assert_eq!(retry_decision(0, SEND_RETRIES, false), SendStep::RetryAfterMs(RETRY_DELAY_MS));
    assert_eq!(retry_decision(2, SEND_RETRIES, false), SendStep::RetryAfterMs(5000));
    assert_eq!(retry_decision(3, SEND_RETRIES, false), SendStep::Failed);
}
