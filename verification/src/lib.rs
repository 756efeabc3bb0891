//! A three-state weather Markov chain: transition counting over a dated
//! history, exact row-stochastic matrices, inverse-CDF simulation and
//! occupancy / streak statistics.
//!
//! Probabilities are held as exact fractions of unsigned integers, so every
//! statement about them (rows summing to one, uniform fallback rows, sampled
//! states) is an integer fact that is proved rather than tested.

pub mod state;
pub mod history;
pub mod grid;
pub mod matrix;
pub mod builder;
pub mod simulate;
pub mod stats;
pub mod date;
pub mod classify;
pub mod json;
pub mod parse;
pub mod engine;
pub mod solver;

pub use crate::builder::build_transition_matrix;
pub use crate::classify::classify_weather;
pub use crate::history::HistoricalData;
pub use crate::matrix::TransitionMatrix;
pub use crate::parse::{parse_weather_data, ParseError};
pub use crate::simulate::simulate_weather;
pub use crate::state::{StateType, WeatherState};
