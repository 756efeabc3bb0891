//! The weather alphabet and a single dated observation.

use vstd::prelude::*;

verus! {

/// Number of states in the alphabet; every matrix is `STATE_COUNT` square.
pub const STATE_COUNT: usize = 3;

/// Length of one simulated or observed day, in seconds.
pub const SECONDS_PER_DAY: i64 = 86400;

/// One member of the closed weather alphabet.
#[derive(Debug, Clone, Copy, PartialEq, Eq, Hash, Structural)]
pub enum StateType {
    Sunny,
    Rainy,
    Cloudy,
}

/// The alphabet in enumeration order: the row and column order of every
/// matrix and the slot order of every statistics vector.
pub open spec fn canonical_states() -> Seq<StateType> {
    seq![StateType::Sunny, StateType::Rainy, StateType::Cloudy]
}

impl StateType {
    /// Position of the state in `canonical_states()`.
    pub open spec fn ordinal(self) -> int {
        match self {
            StateType::Sunny => 0,
            StateType::Rainy => 1,
            StateType::Cloudy => 2,
        }
    }

    /// The display name of the state as a sequence of characters.
    pub open spec fn label_text(self) -> Seq<char> {
        match self {
            StateType::Sunny => "Sunny"@,
            StateType::Rainy => "Rainy"@,
            StateType::Cloudy => "Cloudy"@,
        }
    }

    /// Position of the state in enumeration order.
    pub fn index(self) -> (i: usize)
        ensures
            i == self.ordinal(),
            i < STATE_COUNT,
            canonical_states()[i as int] == self,
    {
        match self {
            StateType::Sunny => 0,
            StateType::Rainy => 1,
            StateType::Cloudy => 2,
        }
    }

    /// The display name: "Sunny", "Rainy" or "Cloudy".
    pub fn label(self) -> (s: &'static str)
        ensures
            s@ == self.label_text(),
    {
        match self {
            StateType::Sunny => "Sunny",
            StateType::Rainy => "Rainy",
            StateType::Cloudy => "Cloudy",
        }
    }
}

/// One observation: a state and the second at which it was seen.
#[derive(Debug, Clone, Copy, PartialEq, Eq, Structural)]
pub struct WeatherState {
    pub state: StateType,
    pub timestamp: i64,
}

impl WeatherState {
    /// The observation of `state` at second `timestamp`.
    pub fn new(state: StateType, timestamp: i64) -> (w: Self)
        ensures
            w.state == state,
            w.timestamp == timestamp,
    {
        Self { state, timestamp }
    }
}

} // verus!
