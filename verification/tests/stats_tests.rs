use weather_markov::state::StateType::{Cloudy, Rainy, Sunny};
use weather_markov::state::{StateType, WeatherState};
use weather_markov::stats::{calculate_average_streaks, calculate_state_distribution, Ratio};

fn run_of(states: &[StateType]) -> Vec<WeatherState> {
    states
        .iter()
        .enumerate()
        .map(|(k, s)| WeatherState::new(*s, k as i64 * 86400))
        .collect()
}

fn ratio(numerator: u64, denominator: u64) -> Ratio {
    Ratio { numerator, denominator }
}

#[test]
fn zero_ratio_is_zero_over_one() {
    assert_eq!(Ratio::zero(), ratio(0, 1));
}

#[test]
fn distribution_of_empty_result_is_all_zero() {
    assert_eq!(calculate_state_distribution(&vec![]), vec![ratio(0, 1), ratio(0, 1), ratio(0, 1)]);
}

#[test]
fn distribution_counts_each_state_over_the_length() {
    let results = run_of(&[Sunny, Sunny, Rainy, Cloudy, Sunny, Rainy, Sunny, Sunny]);
    assert_eq!(calculate_state_distribution(&results), vec![ratio(5, 8), ratio(2, 8), ratio(1, 8)]);
}

#[test]
fn distribution_sums_to_one() {
    let results = run_of(&[Cloudy, Rainy, Rainy, Cloudy, Sunny, Rainy, Cloudy]);
    let shares = calculate_state_distribution(&results);
    assert_eq!(shares.len(), 3);
    let total: u64 = shares.iter().map(|r| r.numerator).sum();
    assert!(shares.iter().all(|r| r.denominator == 7));
    assert_eq!(total, 7);
    let as_decimal: f64 = shares.iter().map(|r| r.numerator as f64 / r.denominator as f64).sum();
    assert!((as_decimal - 1.0).abs() < 1e-9);
}

#[test]
fn distribution_of_a_single_observation() {
    assert_eq!(
        calculate_state_distribution(&run_of(&[Rainy])),
        vec![ratio(0, 1), ratio(1, 1), ratio(0, 1)]
    );
}

#[test]
fn streaks_of_empty_result_are_all_zero() {
    assert_eq!(calculate_average_streaks(&vec![]), vec![ratio(0, 1), ratio(0, 1), ratio(0, 1)]);
}

#[test]
fn single_repeated_state_is_one_streak_of_full_length() {
    let results = run_of(&[Rainy; 9]);
    assert_eq!(calculate_average_streaks(&results), vec![ratio(0, 1), ratio(9, 1), ratio(0, 1)]);
    let results = run_of(&[Sunny; 1]);
    assert_eq!(calculate_average_streaks(&results), vec![ratio(1, 1), ratio(0, 1), ratio(0, 1)]);
    let results = run_of(&[Cloudy; 4]);
    assert_eq!(calculate_average_streaks(&results), vec![ratio(0, 1), ratio(0, 1), ratio(4, 1)]);
}

#[test]
fn streaks_average_the_run_lengths() {
    let results = run_of(&[Sunny, Sunny, Sunny, Rainy, Sunny, Cloudy, Cloudy, Rainy, Rainy, Sunny, Sunny]);
    assert_eq!(calculate_average_streaks(&results), vec![ratio(6, 3), ratio(3, 2), ratio(2, 1)]);
}

#[test]
fn streak_that_ends_with_the_sequence_is_counted() {
    let results = run_of(&[Rainy, Cloudy, Cloudy, Cloudy]);
    assert_eq!(calculate_average_streaks(&results), vec![ratio(0, 1), ratio(1, 1), ratio(3, 1)]);
}

#[test]
fn alternating_states_have_streaks_of_one() {
    let results = run_of(&[Sunny, Rainy, Sunny, Rainy, Sunny]);
    assert_eq!(calculate_average_streaks(&results), vec![ratio(3, 3), ratio(2, 2), ratio(0, 1)]);
}
