use weather_markov::history::HistoricalData;
use weather_markov::state::StateType::{Cloudy, Rainy, Sunny};
use weather_markov::state::{WeatherState, SECONDS_PER_DAY, STATE_COUNT};

#[test]
fn states_are_numbered_in_enumeration_order() {
    assert_eq!(Sunny.index(), 0);
    assert_eq!(Rainy.index(), 1);
    assert_eq!(Cloudy.index(), 2);
    assert_eq!(STATE_COUNT, 3);
}

#[test]
fn labels_are_the_state_names() {
    assert_eq!(Sunny.label(), "Sunny");
    assert_eq!(Rainy.label(), "Rainy");
    assert_eq!(Cloudy.label(), "Cloudy");
}

#[test]
fn observation_keeps_its_fields() {
    let w = WeatherState::new(Rainy, 172800);
    assert_eq!(w.state, Rainy);
    assert_eq!(w.timestamp, 2 * SECONDS_PER_DAY);
}

#[test]
fn new_history_is_empty_and_incomplete() {
    let h = HistoricalData::new(String::from("Oslo"));
    assert_eq!(h.location, "Oslo");
    assert_eq!(h.len(), 0);
    assert!(h.is_empty());
    assert!(!h.is_complete());
    assert!(h.iter().is_empty());
    assert!(h.state_pairs().is_empty());
}

#[test]
fn history_is_complete_from_two_observations() {
    let mut h = HistoricalData::new(String::from("Oslo"));
    h.add_state(WeatherState::new(Sunny, 0));
    assert_eq!(h.len(), 1);
    assert!(!h.is_empty());
    assert!(!h.is_complete());
    assert!(h.state_pairs().is_empty());
    h.add_state(WeatherState::new(Cloudy, 86400));
    assert_eq!(h.len(), 2);
    assert!(h.is_complete());
}

#[test]
fn add_state_appends_in_order() {
    let mut h = HistoricalData::new(String::from("Oslo"));
    h.add_state(WeatherState::new(Sunny, 0));
    h.add_state(WeatherState::new(Rainy, 86400));
    h.add_state(WeatherState::new(Cloudy, 172800));
    assert_eq!(h.location, "Oslo");
    assert_eq!(
        h.iter().clone(),
        vec![
            WeatherState::new(Sunny, 0),
            WeatherState::new(Rainy, 86400),
            WeatherState::new(Cloudy, 172800),
        ]
    );
}

#[test]
fn state_pairs_are_the_adjacent_pairs() {
    let mut h = HistoricalData::new(String::from("Oslo"));
    h.add_state(WeatherState::new(Sunny, 0));
    h.add_state(WeatherState::new(Rainy, 86400));
    h.add_state(WeatherState::new(Cloudy, 172800));
    assert_eq!(
        h.state_pairs(),
        vec![
            (WeatherState::new(Sunny, 0), WeatherState::new(Rainy, 86400)),
            (WeatherState::new(Rainy, 86400), WeatherState::new(Cloudy, 172800)),
        ]
    );
}
