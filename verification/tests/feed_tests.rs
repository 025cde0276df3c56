use meshalert::feed::fetch_payload;
use meshalert::feed::FeedError;
use meshalert::feed::FeedPayload;
use meshalert::feed::HistoryEntry;
use meshalert::feed::HttpOutcome;

fn none_payload() -> FeedPayload {
    FeedPayload::Live { cities: None, category: None, instructions: None }
}

#[test]
fn fetch_failure_yields_none_payload() {
    let r = fetch_payload(&HttpOutcome::Failed);
    assert_eq!(r.unwrap(), none_payload());
}

#[test]
fn fetch_non_2xx_yields_none_payload() {
    let outcome = HttpOutcome::Response {
        status: 500,
        body: String::from("{\"data\":[\"Tel Aviv\"],\"cat\":\"1\"}"),
    };
    assert_eq!(fetch_payload(&outcome).unwrap(), none_payload());
}

#[test]
fn fetch_empty_body_yields_none_payload() {
    let outcome = HttpOutcome::Response { status: 200, body: String::from("   \r\n  ") };
    assert_eq!(fetch_payload(&outcome).unwrap(), none_payload());
}

#[test]
fn fetch_malformed_json_is_parse_error() {
    let outcome = HttpOutcome::Response { status: 200, body: String::from("{not json") };
    assert_eq!(fetch_payload(&outcome).unwrap_err(), FeedError::Parse);
}

#[test]
fn fetch_wellformed_json_is_not_parse_error() {
    let outcome = HttpOutcome::Response { status: 200, body: String::from("{}") };
    assert_eq!(fetch_payload(&outcome).unwrap(), none_payload());
}

#[test]
fn fetch_json_scalar_is_schema_error() {
    let outcome = HttpOutcome::Response { status: 200, body: String::from("5") };
    assert_eq!(fetch_payload(&outcome).unwrap_err(), FeedError::Schema);
}

#[test]
fn fetch_object_without_data_yields_none_payload() {
    let outcome = HttpOutcome::Response {
        status: 200,
        body: String::from("{\"cat\":\"1\",\"desc\":\"x\"}"),
    };
    assert_eq!(fetch_payload(&outcome).unwrap(), none_payload());
}

#[test]
fn fetch_live_object_is_taken_apart() {
    let outcome = HttpOutcome::Response {
        status: 200,
        body: String::from("{\"data\":[\"Tel Aviv\",\"Haifa\"],\"cat\":\"1\",\"desc\":\"Rocket fire\"}"),
    };
    let expected = FeedPayload::Live {
        cities: Some(vec![String::from("Tel Aviv"), String::from("Haifa")]),
        category: Some(String::from("1")),
        instructions: Some(String::from("Rocket fire")),
    };
    assert_eq!(fetch_payload(&outcome).unwrap(), expected);
}

#[test]
fn fetch_live_object_with_null_fields() {
    let outcome = HttpOutcome::Response {
        status: 200,
        body: String::from("{\"data\":null,\"cat\":null}"),
    };
    let expected = FeedPayload::Live { cities: None, category: None, instructions: None };
    assert_eq!(fetch_payload(&outcome).unwrap(), expected);
}

#[test]
fn fetch_live_object_with_numeric_category_is_schema_error() {
    let outcome = HttpOutcome::Response {
        status: 200,
        body: String::from("{\"data\":[\"Tel Aviv\"],\"cat\":1}"),
    };
    assert_eq!(fetch_payload(&outcome).unwrap_err(), FeedError::Schema);
}

#[test]
fn fetch_live_object_with_non_string_city_is_schema_error() {
    let outcome = HttpOutcome::Response {
        status: 200,
        body: String::from("{\"data\":[\"Tel Aviv\",7],\"cat\":\"1\"}"),
    };
    assert_eq!(fetch_payload(&outcome).unwrap_err(), FeedError::Schema);
}

#[test]
fn fetch_array_is_historical() {
    let outcome = HttpOutcome::Response {
        status: 200,
        body: String::from(
            "[{\"alertDate\":\"2024-01-01T00:00:00Z\",\"data\":\"Tel Aviv\",\"category\":\"1\"},{\"data\":\"Haifa\"}]",
        ),
    };
    let expected = FeedPayload::Historical {
        entries: vec![
            HistoryEntry {
                date: Some(String::from("2024-01-01T00:00:00Z")),
                locality: Some(String::from("Tel Aviv")),
                category: Some(String::from("1")),
            },
            HistoryEntry { date: None, locality: Some(String::from("Haifa")), category: None },
        ],
    };
    assert_eq!(fetch_payload(&outcome).unwrap(), expected);
}

#[test]
fn fetch_array_of_scalars_is_schema_error() {
    let outcome = HttpOutcome::Response { status: 200, body: String::from("[1,2]") };
    assert_eq!(fetch_payload(&outcome).unwrap_err(), FeedError::Schema);
}
