//! A session with the engine: the matrix in use, the last simulation, and
//! the order in which the operations may be called.
//!
//! A session starts empty. Loading a forecast document gives it a matrix;
//! simulating and asking for statistics are refused until it has one.

use vstd::prelude::*;
use vstd::string::StringExecFns;
use crate::builder::{build_transition_matrix, is_empirical_matrix};
use crate::classify::{lowercase_of, to_lowercase};
use crate::json::json_document;
use crate::matrix::TransitionMatrix;
use crate::parse::{parse_weather_data, reading, Fault, ParseError};
use crate::simulate::{can_simulate, days_fit, simulate_weather, walk, walk_length};
use crate::state::{StateType, WeatherState, STATE_COUNT};
use crate::stats::{average_streak, calculate_average_streaks, calculate_state_distribution, occurrences, Ratio};

verus! {

/// Why an operation of a session was refused.
#[derive(Debug, Clone)]
pub enum EngineError {
    /// The forecast document could not be read.
    Parse(ParseError),
    /// The label names no state; holds the label as given.
    InvalidInitialState(String),
    /// No document has been loaded yet.
    NoMatrix,
    /// The random source failed during a simulation.
    RandomSource,
}

/// An `EngineError` with its texts as character sequences.
pub enum EngineFault {
    Parse(Fault),
    InvalidInitialState(Seq<char>),
    NoMatrix,
    RandomSource,
}

impl View for EngineError {
    type V = EngineFault;

    open spec fn view(&self) -> EngineFault {
        match self {
            EngineError::Parse(e) => EngineFault::Parse(e@),
            EngineError::InvalidInitialState(label) => EngineFault::InvalidInitialState(label@),
            EngineError::NoMatrix => EngineFault::NoMatrix,
            EngineError::RandomSource => EngineFault::RandomSource,
        }
    }
}

impl EngineFault {
    /// The sentence that describes the fault.
    pub open spec fn message_text(self) -> Seq<char> {
        match self {
            EngineFault::Parse(fault) => "Failed to parse weather data: "@ + fault.message_text(),
            EngineFault::InvalidInitialState(label) => "Invalid initial state: "@ + label
                + ". Must be 'Sunny', 'Rainy', or 'Cloudy'"@,
            EngineFault::NoMatrix => "No transition matrix available. Call process_weather_data first."@,
            EngineFault::RandomSource => "Failed to generate random number"@,
        }
    }
}

impl EngineError {
    /// The sentence that describes the error.
    pub fn message(&self) -> (s: String)
        ensures
            s@ == self@.message_text(),
    {
        match self {
            EngineError::Parse(e) => {
                let detail = e.message();
                String::from_str("Failed to parse weather data: ").concat(detail.as_str())
            },
            EngineError::InvalidInitialState(label) => String::from_str(
                "Invalid initial state: ",
            ).concat(label.as_str()).concat(". Must be 'Sunny', 'Rainy', or 'Cloudy'"),
            EngineError::NoMatrix => String::from_str(
                "No transition matrix available. Call process_weather_data first.",
            ),
            EngineError::RandomSource => String::from_str("Failed to generate random number"),
        }
    }
}

/// The state that a lower-case label names, if it names one.
pub open spec fn state_named(lower: Seq<char>) -> Option<StateType> {
    if lower == "sunny"@ {
        Some(StateType::Sunny)
    } else if lower == "rainy"@ {
        Some(StateType::Rainy)
    } else if lower == "cloudy"@ {
        Some(StateType::Cloudy)
    } else {
        None
    }
}

/// Reads a state label that is already in lower case.
pub fn state_from_lowercase(lower: &String) -> (s: Option<StateType>)
    ensures
        s == state_named(lower@),
{
    if *lower == String::from_str("sunny") {
        Some(StateType::Sunny)
    } else if *lower == String::from_str("rainy") {
        Some(StateType::Rainy)
    } else if *lower == String::from_str("cloudy") {
        Some(StateType::Cloudy)
    } else {
        None
    }
}

/// Reads a state label, ignoring case: "sunny", "rainy" or "cloudy".
pub fn state_from_label(label: &str) -> (s: Option<StateType>)
    ensures
        s == state_named(lowercase_of(label@)),
{
    let lower = to_lowercase(label);
    state_from_lowercase(&lower)
}

/// Occupancy shares and average streaks, each in enumeration order.
pub struct Summary {
    pub distribution: Vec<Ratio>,
    pub average_streaks: Vec<Ratio>,
}

impl Summary {
    /// Both vectors are all zero: nothing has been simulated.
    pub open spec fn is_blank(self) -> bool {
        &&& self.distribution@.len() == STATE_COUNT
        &&& self.average_streaks@.len() == STATE_COUNT
        &&& forall|i: int|
            0 <= i < STATE_COUNT ==> #[trigger] self.distribution@[i] == (Ratio {
                numerator: 0,
                denominator: 1,
            })
        &&& forall|i: int|
            0 <= i < STATE_COUNT ==> #[trigger] self.average_streaks@[i] == (Ratio {
                numerator: 0,
                denominator: 1,
            })
    }

    /// The vectors are the statistics of `results`.
    pub open spec fn describes(self, results: Seq<WeatherState>) -> bool {
        &&& self.distribution@.len() == STATE_COUNT
        &&& self.average_streaks@.len() == STATE_COUNT
        &&& forall|i: int|
            0 <= i < STATE_COUNT ==> #[trigger] self.distribution@[i] == (if results.len() == 0 {
                Ratio { numerator: 0, denominator: 1 }
            } else {
                Ratio {
                    numerator: occurrences(results, results.len(), i) as u64,
                    denominator: results.len() as u64,
                }
            })
        &&& forall|i: int|
            0 <= i < STATE_COUNT ==> #[trigger] self.average_streaks@[i] == average_streak(results, i)
    }
}

/// What a call to simulate `days` days from the state named `label` does
/// to a session and returns.
///
/// An unknown label is refused first, then a missing matrix; neither
/// changes the session. Otherwise the call can fail only on the random
/// source, and not at all for a single day; on success the matrix stays and
/// the last simulation becomes the walk of some list of draws from the
/// named state.
pub open spec fn simulation_outcome(
    before: Engine,
    after: Engine,
    days: usize,
    label: Seq<char>,
    r: Result<(), EngineError>,
) -> bool {
    let named = state_named(lowercase_of(label));
    &&& after.matrix == before.matrix
    &&& (r is Err ==> after.results == before.results)
    &&& (named is None ==> (r matches Err(e) && e@ == EngineFault::InvalidInitialState(label)))
    &&& (named is Some && before.matrix is None ==> (r matches Err(e) && e@ == EngineFault::NoMatrix))
    &&& (named is Some && before.matrix is Some ==> (r matches Err(e) ==> e@
        == EngineFault::RandomSource))
    &&& (named is Some && before.matrix is Some && days <= 1 ==> r is Ok)
    &&& (r is Ok ==> {
        &&& named is Some
        &&& before.matrix is Some
        &&& after.results is Some
        &&& exists|draws: Seq<u64>|
            draws.len() + 1 == walk_length(days) && after.results->0@ == walk(
                before.matrix->0,
                named->0,
                draws,
            )
    })
}

/// The matrix in use and the last simulation, if any.
pub struct Engine {
    pub matrix: Option<TransitionMatrix>,
    pub results: Option<Vec<WeatherState>>,
}

impl Engine {
    /// A stored matrix is always well formed.
    pub open spec fn wf(&self) -> bool {
        self.matrix matches Some(m) ==> m.wf()
    }

    /// An empty session: no matrix, no simulation.
    pub fn new() -> (e: Self)
        ensures
            e.matrix is None,
            e.results is None,
            e.wf(),
    {
        Engine { matrix: None, results: None }
    }

    /// Forgets the matrix and the last simulation.
    pub fn reset(&mut self)
        ensures
            final(self).matrix is None,
            final(self).results is None,
            final(self).wf(),
    {
        self.matrix = None;
        self.results = None;
    }

    /// Reads a forecast document and makes its empirical matrix the matrix
    /// in use. A document that cannot be read leaves the session as it was.
    pub fn load(&mut self, json_str: &str) -> (r: Result<(), EngineError>)
        requires
            old(self).wf(),
        ensures
            final(self).wf(),
            final(self).results == old(self).results,
            match reading(json_document(json_str@)) {
                Ok(history) => {
                    &&& r is Ok
                    &&& final(self).matrix is Some
                    &&& is_empirical_matrix(final(self).matrix->0, history.1)
                    &&& final(self).matrix->0.stochastic()
                },
                Err(fault) => {
                    &&& r matches Err(e)
                    &&& e@ == EngineFault::Parse(fault)
                    &&& final(self).matrix == old(self).matrix
                },
            },
    {
        match parse_weather_data(json_str) {
            Ok(historical_data) => {
                let matrix = build_transition_matrix(&historical_data);
                self.matrix = Some(matrix);
                Ok(())
            },
            Err(e) => Err(EngineError::Parse(e)),
        }
    }

    /// Simulates `days` days from the state that `initial_state_str` names
    /// and keeps the result as the last simulation.
    ///
    /// The label is looked at first, then the matrix: an unknown label is
    /// reported even when no matrix is loaded. A refused call leaves the
    /// session as it was. Where a simulation is actually run, its last
    /// timestamp must fit the timestamp type; `simulate_checked` tests that.
    pub fn simulate(&mut self, days: usize, initial_state_str: &str) -> (r: Result<(), EngineError>)
        requires
            old(self).wf(),
            (state_named(lowercase_of(initial_state_str@)) is Some && old(self).matrix is Some)
                ==> days_fit(days),
        ensures
            final(self).wf(),
            simulation_outcome(*old(self), *final(self), days, initial_state_str@, r),
    {
        let initial_state = match state_from_label(initial_state_str) {
            Some(s) => s,
            None => {
                return Err(EngineError::InvalidInitialState(initial_state_str.to_owned()));
            },
        };
        let outcome = match &self.matrix {
            Some(matrix) => simulate_weather(matrix, initial_state, days),
            None => {
                return Err(EngineError::NoMatrix);
            },
        };
        match outcome {
            Ok(simulation_results) => {
                self.results = Some(simulation_results);
                Ok(())
            },
            Err(_) => Err(EngineError::RandomSource),
        }
    }

    /// As `simulate`, for any number of days: returns `None`, and leaves the
    /// session untouched, exactly when a simulation would be run and the
    /// timestamp of its last day would not fit the timestamp type.
    pub fn simulate_checked(&mut self, days: usize, initial_state_str: &str) -> (r: Option<
        Result<(), EngineError>,
    >)
        requires
            old(self).wf(),
        ensures
            final(self).wf(),
            r is None <==> (state_named(lowercase_of(initial_state_str@)) is Some && old(self).matrix
                is Some && !days_fit(days)),
            r is None ==> *final(self) == *old(self),
            r matches Some(outcome) ==> simulation_outcome(
                *old(self),
                *final(self),
                days,
                initial_state_str@,
                outcome,
            ),
    {
        let named = state_from_label(initial_state_str);
        if named.is_some() && self.matrix.is_some() && !can_simulate(days) {
            return None;
        }
        Some(self.simulate(days, initial_state_str))
    }

    /// Occupancy and streak statistics of the last simulation; all zero if
    /// none has been run. Refused until a matrix is loaded.
    pub fn statistics(&self) -> (r: Result<Summary, EngineError>)
        ensures
            match r {
                Ok(summary) => {
                    &&& self.matrix is Some
                    &&& (self.results matches Some(results) ==> summary.describes(results@))
                    &&& (self.results is None ==> summary.is_blank())
                },
                Err(e) => self.matrix is None && e@ == EngineFault::NoMatrix,
            },
    {
        if self.matrix.is_none() {
            return Err(EngineError::NoMatrix);
        }
        match &self.results {
            Some(results) => {
                let distribution = calculate_state_distribution(results.as_slice());
                let average_streaks = calculate_average_streaks(results.as_slice());
                Ok(Summary { distribution, average_streaks })
            },
            None => {
                let distribution = vec![Ratio::zero(), Ratio::zero(), Ratio::zero()];
                let average_streaks = vec![Ratio::zero(), Ratio::zero(), Ratio::zero()];
                Ok(Summary { distribution, average_streaks })
            },
        }
    }
}

} // verus!
