use weather_markov::builder::build_transition_matrix;
use weather_markov::history::HistoricalData;
use weather_markov::matrix::TransitionMatrix;
use weather_markov::simulate::{can_simulate, simulate_weather, simulate_with_draws, weighted_random_sample};
use weather_markov::state::StateType::{Cloudy, Rainy, Sunny};
use weather_markov::state::{StateType, WeatherState};

fn all_states() -> Vec<StateType> {
    vec![Sunny, Rainy, Cloudy]
}

fn matrix_of(rows: [([u64; 3], u64); 3]) -> TransitionMatrix {
    let mut m = TransitionMatrix::new();
    for (i, (numerators, denominator)) in rows.iter().enumerate() {
        m.set_row(i, *numerators, *denominator);
    }
    m
}

#[test]
fn draw_zero_selects_the_first_state() {
    assert_eq!(weighted_random_sample(&all_states(), &vec![1, 1, 0], 2, 0), Sunny);
}

#[test]
fn largest_draw_selects_the_state_that_completes_the_row() {
    assert_eq!(weighted_random_sample(&all_states(), &vec![1, 1, 0], 2, u64::MAX), Rainy);
    assert_eq!(weighted_random_sample(&all_states(), &vec![1, 1, 1], 3, u64::MAX), Cloudy);
}

#[test]
fn draw_at_a_boundary_goes_to_the_earlier_state() {
    let half: u64 = 1 << 63;
    assert_eq!(weighted_random_sample(&all_states(), &vec![1, 1, 0], 2, half - 1), Sunny);
    assert_eq!(weighted_random_sample(&all_states(), &vec![1, 1, 0], 2, half), Sunny);
    assert_eq!(weighted_random_sample(&all_states(), &vec![1, 1, 0], 2, half + 1), Rainy);
}

#[test]
fn thirds_split_the_draws_evenly() {
    let third: u64 = u64::MAX / 3;
    let s = all_states();
    assert_eq!(weighted_random_sample(&s, &vec![1, 1, 1], 3, third), Sunny);
    assert_eq!(weighted_random_sample(&s, &vec![1, 1, 1], 3, third + 1), Rainy);
    assert_eq!(weighted_random_sample(&s, &vec![1, 1, 1], 3, 2 * third), Rainy);
    assert_eq!(weighted_random_sample(&s, &vec![1, 1, 1], 3, 2 * third + 1), Cloudy);
}

#[test]
fn zero_weight_state_is_skipped_by_positive_draws() {
    assert_eq!(weighted_random_sample(&all_states(), &vec![0, 0, 5], 5, 1), Cloudy);
    assert_eq!(weighted_random_sample(&all_states(), &vec![0, 3, 2], 5, 1), Rainy);
}

#[test]
fn row_that_falls_short_falls_back_to_the_last_state() {
    assert_eq!(weighted_random_sample(&all_states(), &vec![0, 0, 0], 1, 5), Cloudy);
    assert_eq!(weighted_random_sample(&all_states(), &vec![1, 1, 0], 4, u64::MAX), Cloudy);
}

#[test]
fn oversized_weights_do_not_overflow() {
    let s = all_states();
    assert_eq!(weighted_random_sample(&s, &vec![u64::MAX, u64::MAX, u64::MAX], u64::MAX, u64::MAX), Sunny);
    assert_eq!(weighted_random_sample(&s, &vec![1, u64::MAX, u64::MAX], u64::MAX, u64::MAX), Rainy);
}

#[test]
fn full_row_never_needs_the_fallback() {
    let s = all_states();
    assert_eq!(weighted_random_sample(&s, &vec![1, 0, 0], 1, u64::MAX), Sunny);
    assert_eq!(weighted_random_sample(&s, &vec![0, 1, 0], 1, u64::MAX), Rainy);
    assert_eq!(weighted_random_sample(&s, &vec![3, 3, 2], 8, u64::MAX), Cloudy);
}

#[test]
fn day_counts_are_checked_against_the_timestamp_range() {
    assert!(can_simulate(0));
    assert!(can_simulate(1));
    assert!(can_simulate(365_000));
    let most: usize = (i64::MAX / 86400) as usize + 1;
    assert!(can_simulate(most));
    assert!(!can_simulate(most + 1));
    assert!(!can_simulate(usize::MAX));
}

#[test]
fn single_slot_is_always_selected() {
    assert_eq!(weighted_random_sample(&vec![Rainy], &vec![0], 1, u64::MAX), Rainy);
}

#[test]
fn next_state_reads_the_row_of_the_current_state() {
    let m = matrix_of([([0, 1, 0], 1), ([0, 0, 1], 1), ([1, 0, 0], 1)]);
    assert_eq!(m.next_state(Sunny, 1), Rainy);
    assert_eq!(m.next_state(Rainy, u64::MAX), Cloudy);
    assert_eq!(m.next_state(Cloudy, 12345), Sunny);
}

#[test]
fn walk_follows_the_draws() {
    let m = matrix_of([([1, 1, 0], 2), ([0, 1, 1], 2), ([1, 0, 1], 2)]);
    let low: u64 = 1;
    let high: u64 = u64::MAX;
    let walk = simulate_with_draws(&m, Sunny, &vec![low, high, high, low, high, low]);
    assert_eq!(
        walk,
        vec![
            WeatherState::new(Sunny, 0),
            WeatherState::new(Sunny, 86400),
            WeatherState::new(Rainy, 172800),
            WeatherState::new(Cloudy, 259200),
            WeatherState::new(Sunny, 345600),
            WeatherState::new(Rainy, 432000),
            WeatherState::new(Rainy, 518400),
        ]
    );
}

#[test]
fn walk_without_draws_is_the_initial_observation() {
    let m = matrix_of([([1, 1, 1], 3), ([1, 1, 1], 3), ([1, 1, 1], 3)]);
    assert_eq!(simulate_with_draws(&m, Cloudy, &vec![]), vec![WeatherState::new(Cloudy, 0)]);
}

#[test]
fn one_day_simulation_is_the_initial_observation() {
    let m = build_transition_matrix(&HistoricalData::new(String::from("Nowhere")));
    for s in all_states() {
        assert_eq!(simulate_weather(&m, s, 1), Ok(vec![WeatherState::new(s, 0)]));
    }
}

#[test]
fn zero_day_simulation_still_holds_day_zero() {
    let m = build_transition_matrix(&HistoricalData::new(String::from("Nowhere")));
    assert_eq!(simulate_weather(&m, Rainy, 0), Ok(vec![WeatherState::new(Rainy, 0)]));
}

#[test]
fn simulation_has_one_observation_per_day_a_day_apart() {
    let m = build_transition_matrix(&HistoricalData::new(String::from("Nowhere")));
    let results = simulate_weather(&m, Sunny, 50).unwrap();
    assert_eq!(results.len(), 50);
    assert_eq!(results[0], WeatherState::new(Sunny, 0));
    for (k, w) in results.iter().enumerate() {
        assert_eq!(w.timestamp, k as i64 * 86400);
    }
    for pair in results.windows(2) {
        assert!(pair[0].timestamp < pair[1].timestamp);
        assert_eq!(pair[1].timestamp - pair[0].timestamp, 86400);
    }
}

#[test]
fn simulation_of_a_certain_chain_is_determined() {
    let m = matrix_of([([1, 0, 0], 1), ([1, 0, 0], 1), ([1, 0, 0], 1)]);
    let results = simulate_weather(&m, Rainy, 5).unwrap();
    let states: Vec<StateType> = results.iter().map(|w| w.state).collect();
    assert_eq!(states, vec![Rainy, Sunny, Sunny, Sunny, Sunny]);
}

#[test]
fn simulation_never_enters_a_state_of_probability_zero_after_the_first_slot() {
    let m = matrix_of([([1, 1, 0], 2), ([1, 1, 0], 2), ([1, 1, 0], 2)]);
    let results = simulate_weather(&m, Sunny, 200).unwrap();
    assert!(results.iter().all(|w| w.state != Cloudy));
}

#[test]
fn simulation_draws_vary() {
    let m = matrix_of([([1, 1, 0], 2), ([1, 1, 0], 2), ([1, 1, 0], 2)]);
    let results = simulate_weather(&m, Sunny, 400).unwrap();
    assert!(results.iter().any(|w| w.state == Rainy));
    assert!(results[1..].iter().any(|w| w.state == Sunny));
}
