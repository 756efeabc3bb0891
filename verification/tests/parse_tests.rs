use serde_json::Value;
use weather_markov::parse::{extract_history, parse_weather_data, ParseError};
use weather_markov::state::StateType::{Cloudy, Rainy, Sunny};
use weather_markov::state::WeatherState;

const THREE_DAYS: &str = r#"{
    "location": {"name": "Lisbon", "country": "Portugal"},
    "forecast": {"forecastday": [
        {"date": "2024-02-28", "day": {"condition": {"text": "Sunny"}}},
        {"date": "2024-02-29", "day": {"condition": {"text": "Patchy light rain"}}},
        {"date": "2024-03-01", "day": {"condition": {"text": "Partly cloudy"}}}
    ]}
}"#;

fn missing_field(r: Result<weather_markov::history::HistoricalData, ParseError>) -> String {
    match r {
        Err(ParseError::MissingField(field)) => field,
        other => panic!("expected a missing field, got {:?}", other),
    }
}

fn invalid_data(r: Result<weather_markov::history::HistoricalData, ParseError>) -> String {
    match r {
        Err(ParseError::InvalidData(msg)) => msg,
        other => panic!("expected invalid data, got {:?}", other),
    }
}

fn text(s: &str) -> Value {
    Value::String(String::from(s))
}

fn object(members: Vec<(&str, Value)>) -> Value {
    let mut map = serde_json::Map::new();
    for (key, value) in members {
        map.insert(String::from(key), value);
    }
    Value::Object(map)
}

fn day(date: &str, condition: &str) -> Value {
    object(vec![
        ("date", text(date)),
        ("day", object(vec![("condition", object(vec![("text", text(condition))]))])),
    ])
}

fn document(days: Vec<Value>) -> Value {
    object(vec![
        ("location", object(vec![("name", text("Lisbon"))])),
        ("forecast", object(vec![("forecastday", Value::Array(days))])),
    ])
}

#[test]
fn well_formed_document_becomes_a_history() {
    let data = parse_weather_data(THREE_DAYS).unwrap();
    assert_eq!(data.location, "Lisbon");
    assert_eq!(
        data.states,
        vec![
            WeatherState::new(Sunny, 1709078400),
            WeatherState::new(Rainy, 1709164800),
            WeatherState::new(Cloudy, 1709251200),
        ]
    );
    assert!(data.is_complete());
}

#[test]
fn text_that_is_not_json_is_a_json_error() {
    match parse_weather_data("{not json") {
        Err(ParseError::JsonError(msg)) => assert!(!msg.is_empty()),
        other => panic!("expected a JSON error, got {:?}", other),
    }
    assert!(matches!(parse_weather_data(""), Err(ParseError::JsonError(_))));
}

#[test]
fn json_error_carries_the_parser_message() {
    let text = "[1, 2";
    let expected = serde_json::from_str::<Value>(text).unwrap_err().to_string();
    match parse_weather_data(text) {
        Err(ParseError::JsonError(msg)) => assert_eq!(msg, expected),
        other => panic!("expected a JSON error, got {:?}", other),
    }
}

#[test]
fn missing_members_are_named_by_path() {
    assert_eq!(missing_field(parse_weather_data("{}")), "location");
    assert_eq!(missing_field(parse_weather_data("[]")), "location");
    assert_eq!(missing_field(parse_weather_data(r#"{"location": {}}"#)), "location.name");
    assert_eq!(missing_field(parse_weather_data(r#"{"location": {"name": 7}}"#)), "location.name");
    assert_eq!(missing_field(parse_weather_data(r#"{"location": "Lisbon"}"#)), "location.name");
    assert_eq!(missing_field(parse_weather_data(r#"{"location": {"name": "L"}}"#)), "forecast");
    assert_eq!(
        missing_field(parse_weather_data(r#"{"location": {"name": "L"}, "forecast": {}}"#)),
        "forecast.forecastday"
    );
    assert_eq!(
        missing_field(parse_weather_data(
            r#"{"location": {"name": "L"}, "forecast": {"forecastday": {"0": 1}}}"#
        )),
        "forecast.forecastday"
    );
}

#[test]
fn missing_day_members_are_named_by_path() {
    let doc = |day: Value| document(vec![day]);
    assert_eq!(missing_field(extract_history(&doc(object(vec![])))), "date");
    assert_eq!(missing_field(extract_history(&doc(object(vec![("date", Value::Null)])))), "date");
    assert_eq!(
        missing_field(extract_history(&doc(object(vec![("date", text("2024-01-01"))])))),
        "day"
    );
    assert_eq!(
        missing_field(extract_history(&doc(object(vec![
            ("date", text("2024-01-01")),
            ("day", object(vec![])),
        ])))),
        "day.condition"
    );
    assert_eq!(
        missing_field(extract_history(&doc(object(vec![
            ("date", text("2024-01-01")),
            ("day", object(vec![("condition", object(vec![]))])),
        ])))),
        "day.condition.text"
    );
    assert_eq!(
        missing_field(extract_history(&doc(object(vec![
            ("date", text("2024-01-01")),
            ("day", object(vec![("condition", object(vec![("text", Value::Bool(true))]))])),
        ])))),
        "day.condition.text"
    );
}

#[test]
fn unreadable_dates_are_invalid_data() {
    let with_date = |date: &str| document(vec![day("2024-01-01", "Sunny"), day(date, "Sunny")]);
    assert_eq!(
        invalid_data(extract_history(&with_date("2024/01/02"))),
        "Invalid date format: Invalid date format, expected YYYY-MM-DD"
    );
    assert_eq!(
        invalid_data(extract_history(&with_date("abcd-01-02"))),
        "Invalid date format: Invalid year"
    );
    assert_eq!(
        invalid_data(extract_history(&with_date("2024-xx-02"))),
        "Invalid date format: Invalid month"
    );
    assert_eq!(
        invalid_data(extract_history(&with_date("2024-01-xx"))),
        "Invalid date format: Invalid day"
    );
}

#[test]
fn bad_date_is_reported_before_a_missing_summary() {
    let doc = document(vec![object(vec![("date", text("soon"))])]);
    assert_eq!(
        invalid_data(extract_history(&doc)),
        "Invalid date format: Invalid date format, expected YYYY-MM-DD"
    );
}

#[test]
fn first_faulty_day_decides_the_error() {
    let doc = document(vec![
        day("2024-01-01", "Sunny"),
        object(vec![("date", text("2024-01-02"))]),
        object(vec![]),
    ]);
    assert_eq!(missing_field(extract_history(&doc)), "day");
}

#[test]
fn fewer_than_two_days_is_insufficient() {
    assert_eq!(
        invalid_data(extract_history(&document(vec![]))),
        "Insufficient weather data (need at least 2 days)"
    );
    assert_eq!(
        invalid_data(extract_history(&document(vec![day("2024-01-01", "Sunny")]))),
        "Insufficient weather data (need at least 2 days)"
    );
}

#[test]
fn two_days_are_enough() {
    let data = extract_history(&document(vec![day("1970-01-01", "Fog"), day("1970-01-02", "Clear")]))
        .unwrap();
    assert_eq!(data.location, "Lisbon");
    assert_eq!(data.states, vec![WeatherState::new(Cloudy, 0), WeatherState::new(Sunny, 86400)]);
}

#[test]
fn error_messages_name_the_kind_and_the_detail() {
    assert_eq!(
        ParseError::JsonError(String::from("eof")).message(),
        "JSON parsing error: eof"
    );
    assert_eq!(
        ParseError::MissingField(String::from("location.name")).message(),
        "Missing required field: location.name"
    );
    assert_eq!(
        ParseError::InvalidData(String::from("too short")).message(),
        "Invalid data: too short"
    );
}
