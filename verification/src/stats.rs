//! Occupancy and streak statistics of a simulated sequence.
//!
//! Every statistic is an exact fraction; `Ratio::ZERO` stands for "nothing
//! observed".

use vstd::prelude::*;
use crate::state::{StateType, WeatherState, STATE_COUNT};

verus! {

/// The fraction `numerator / denominator`. The denominator is never zero.
#[derive(Debug, Clone, Copy, PartialEq, Eq, Structural)]
pub struct Ratio {
    pub numerator: u64,
    pub denominator: u64,
}

impl Ratio {
    /// The denominator is positive.
    pub open spec fn wf(self) -> bool {
        self.denominator > 0
    }

    /// The fraction `0 / 1`.
    pub fn zero() -> (r: Self)
        ensures
            r == (Ratio { numerator: 0, denominator: 1 }),
            r.wf(),
    {
        Ratio { numerator: 0, denominator: 1 }
    }
}

/// How many of the first `n` observations are in the state with ordinal `i`.
pub open spec fn occurrences(obs: Seq<WeatherState>, n: nat, i: int) -> nat
    decreases n,
{
    if n == 0 {
        0
    } else {
        occurrences(obs, (n - 1) as nat, i) + if obs[n - 1].state.ordinal() == i {
            1nat
        } else {
            0nat
        }
    }
}

/// The three occurrence counts account for every observation, so the
/// shares of a non-empty sequence add up to exactly one.
pub proof fn lemma_occurrences_partition(obs: Seq<WeatherState>, n: nat)
    ensures
        occurrences(obs, n, 0) + occurrences(obs, n, 1) + occurrences(obs, n, 2) == n,
    decreases n,
{
    if n > 0 {
        lemma_occurrences_partition(obs, (n - 1) as nat);
    }
}

/// Share of the sequence spent in each state, in enumeration order: the
/// number of observations in the state over the number of observations. An
/// empty sequence yields three zeros.
pub fn calculate_state_distribution(results: &[WeatherState]) -> (shares: Vec<Ratio>)
    ensures
        shares@.len() == STATE_COUNT,
        forall|i: int| 0 <= i < STATE_COUNT ==> (#[trigger] shares@[i]).wf(),
        results@.len() == 0 ==> forall|i: int|
            0 <= i < STATE_COUNT ==> shares@[i] == (Ratio { numerator: 0, denominator: 1 }),
        results@.len() > 0 ==> forall|i: int|
            0 <= i < STATE_COUNT ==> shares@[i] == (Ratio {
                numerator: occurrences(results@, results@.len(), i) as u64,
                denominator: results@.len() as u64,
            }),
        results@.len() > 0 ==> shares@[0].numerator + shares@[1].numerator + shares@[2].numerator
            == shares@[0].denominator,
{
    let total: usize = results.len();
    if total == 0 {
        return vec![Ratio::zero(), Ratio::zero(), Ratio::zero()];
    }
    let mut sunny: u64 = 0;
    let mut rainy: u64 = 0;
    let mut cloudy: u64 = 0;
    let mut k: usize = 0;
    while k < total
        invariant
            total == results@.len(),
            k <= total,
            sunny == occurrences(results@, k as nat, 0),
            rainy == occurrences(results@, k as nat, 1),
            cloudy == occurrences(results@, k as nat, 2),
            sunny + rainy + cloudy == k,
        decreases total - k,
    {
        match results[k].state {
            StateType::Sunny => {
                sunny += 1;
            },
            StateType::Rainy => {
                rainy += 1;
            },
            StateType::Cloudy => {
                cloudy += 1;
            },
        }
        k += 1;
    }
    let denominator: u64 = total as u64;
    vec![
        Ratio { numerator: sunny, denominator },
        Ratio { numerator: rainy, denominator },
        Ratio { numerator: cloudy, denominator },
    ]
}

/// How many runs of the state with ordinal `i` begin among the first `n`
/// observations: positions holding the state whose predecessor, if any,
/// holds another.
pub open spec fn run_starts(obs: Seq<WeatherState>, n: nat, i: int) -> nat
    decreases n,
{
    if n == 0 {
        0
    } else {
        let here = obs[n - 1].state.ordinal() == i;
        let continued = n >= 2 && obs[n - 2].state.ordinal() == i;
        run_starts(obs, (n - 1) as nat, i) + if here && !continued {
            1nat
        } else {
            0nat
        }
    }
}

/// Mean length of the maximal runs of the state with ordinal `i`: the
/// observations in that state shared out over its runs, or zero when the
/// state never occurs.
pub open spec fn average_streak(obs: Seq<WeatherState>, i: int) -> Ratio {
    if run_starts(obs, obs.len(), i) > 0 {
        Ratio {
            numerator: occurrences(obs, obs.len(), i) as u64,
            denominator: run_starts(obs, obs.len(), i) as u64,
        }
    } else {
        Ratio { numerator: 0, denominator: 1 }
    }
}

/// A state has no more runs than occurrences, and no runs at all exactly
/// when it does not occur.
pub proof fn lemma_runs_bounded(obs: Seq<WeatherState>, n: nat, i: int)
    ensures
        run_starts(obs, n, i) <= occurrences(obs, n, i) <= n,
        run_starts(obs, n, i) == 0 <==> occurrences(obs, n, i) == 0,
    decreases n,
{
    if n > 0 {
        lemma_runs_bounded(obs, (n - 1) as nat, i);
    }
}

/// In a run of `n` observations that are all in state `s`, the state `s`
/// occurs `n` times in one run, and no other state occurs.
pub proof fn lemma_constant_prefix(obs: Seq<WeatherState>, n: nat, s: StateType, i: int)
    requires
        n <= obs.len(),
        forall|k: int| 0 <= k < n ==> (#[trigger] obs[k]).state == s,
    ensures
        i == s.ordinal() ==> occurrences(obs, n, i) == n && run_starts(obs, n, i) == (if n > 0 {
            1nat
        } else {
            0nat
        }),
        i != s.ordinal() ==> occurrences(obs, n, i) == 0 && run_starts(obs, n, i) == 0,
    decreases n,
{
    if n > 0 {
        lemma_constant_prefix(obs, (n - 1) as nat, s, i);
        assert(obs[n - 1].state == s);
        if n >= 2 {
            assert(obs[n - 2].state == s);
        }
    }
}

/// A sequence that is one state repeated `L` times has average streak `L`
/// for that state and zero for the others.
pub proof fn lemma_single_run_streaks(obs: Seq<WeatherState>, s: StateType, i: int)
    requires
        obs.len() > 0,
        obs.len() <= u64::MAX,
        forall|k: int| 0 <= k < obs.len() ==> (#[trigger] obs[k]).state == s,
    ensures
        i == s.ordinal() ==> average_streak(obs, i) == (Ratio {
            numerator: obs.len() as u64,
            denominator: 1,
        }),
        i != s.ordinal() ==> average_streak(obs, i) == (Ratio { numerator: 0, denominator: 1 }),
{
    lemma_constant_prefix(obs, obs.len(), s, i);
}

/// Mean streak length of one state over the sequence.
fn average_streak_of(results: &[WeatherState], target: StateType) -> (avg: Ratio)
    ensures
        avg == average_streak(results@, target.ordinal()),
        avg.wf(),
{
    let ghost obs = results@;
    let ghost i = target.ordinal();
    let n: usize = results.len();
    let mut sum: u64 = 0;
    let mut runs: u64 = 0;
    let mut current_streak: u64 = 0;
    let mut k: usize = 0;
    while k < n
        invariant
            obs == results@,
            i == target.ordinal(),
            n == obs.len(),
            k <= n,
            sum + current_streak == occurrences(obs, k as nat, i),
            runs + (if current_streak > 0 { 1nat } else { 0nat }) == run_starts(obs, k as nat, i),
            current_streak > 0 <==> (k > 0 && obs[k - 1].state.ordinal() == i),
            occurrences(obs, k as nat, i) <= k,
            run_starts(obs, k as nat, i) <= k,
        decreases n - k,
    {
        proof {
            lemma_runs_bounded(obs, (k + 1) as nat, i);
        }
        if results[k].state == target {
            current_streak += 1;
        } else if current_streak > 0 {
            sum += current_streak;
            runs += 1;
            current_streak = 0;
        }
        k += 1;
    }
    if current_streak > 0 {
        sum += current_streak;
        runs += 1;
    }
    if runs > 0 {
        Ratio { numerator: sum, denominator: runs }
    } else {
        Ratio::zero()
    }
}

/// Mean length of the maximal runs of each state, in enumeration order: the
/// total length of the state's runs over their number, or zero for a state
/// that never occurs. An empty sequence yields three zeros.
pub fn calculate_average_streaks(results: &[WeatherState]) -> (averages: Vec<Ratio>)
    ensures
        averages@.len() == STATE_COUNT,
        forall|i: int|
            0 <= i < STATE_COUNT ==> #[trigger] averages@[i] == average_streak(results@, i)
                && averages@[i].wf(),
{
    vec![
        average_streak_of(results, StateType::Sunny),
        average_streak_of(results, StateType::Rainy),
        average_streak_of(results, StateType::Cloudy),
    ]
}

} // verus!
