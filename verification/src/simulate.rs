//! Drawing a state sequence from a transition matrix by inverse-CDF
//! sampling.
//!
//! A draw is a `u64` standing for the fraction `draw / 2^64`, a point of
//! the half-open unit interval: zero is reached and one is not. Comparing
//! it with a cumulative probability `c / d` is the integer comparison
//! `draw * d <= c * 2^64`, so which state a draw selects is decided
//! exactly.

use vstd::prelude::*;
use crate::matrix::TransitionMatrix;
use crate::state::{canonical_states, StateType, WeatherState, SECONDS_PER_DAY};

verus! {

/// Number of distinct draws: a draw `x` stands for `x / DRAW_RANGE`.
pub const DRAW_RANGE: u128 = 0x1_0000_0000_0000_0000;

/// Why a simulation produced nothing.
#[derive(Debug, Clone, Copy, PartialEq, Eq, Structural)]
pub enum SimulationError {
    /// The operating system's random source reported a failure.
    RandomSourceFailed,
}

/// Sum of the first `k` weights.
pub open spec fn prefix_sum(weights: Seq<u64>, k: nat) -> nat
    decreases k,
{
    if k == 0 {
        0
    } else {
        prefix_sum(weights, (k - 1) as nat) + weights[k - 1] as nat
    }
}

/// The cumulative probability through slot `k` is at least the draw:
/// `draw / DRAW_RANGE <= (weights[0] + .. + weights[k]) / denominator`.
pub open spec fn covers(weights: Seq<u64>, denominator: u64, draw: u64, k: int) -> bool {
    draw as int * denominator as int <= prefix_sum(weights, (k + 1) as nat) * (DRAW_RANGE as int)
}

/// The first slot at or after `k` whose cumulative probability covers the
/// draw; the last slot if none before it does.
pub open spec fn sample_from(weights: Seq<u64>, denominator: u64, draw: u64, k: int) -> int
    decreases weights.len() - k,
{
    if k >= weights.len() - 1 {
        weights.len() - 1
    } else if covers(weights, denominator, draw, k) {
        k
    } else {
        sample_from(weights, denominator, draw, k + 1)
    }
}

/// The slot that a draw selects.
pub open spec fn sample_index(weights: Seq<u64>, denominator: u64, draw: u64) -> int {
    sample_from(weights, denominator, draw, 0)
}

/// The selected slot is the earliest one that covers the draw: no slot
/// before it covers the draw, and unless it is the last slot it covers the
/// draw itself.
pub proof fn lemma_sample_is_first_cover(weights: Seq<u64>, denominator: u64, draw: u64, k: int)
    requires
        weights.len() > 0,
        0 <= k < weights.len(),
    ensures
        k <= sample_from(weights, denominator, draw, k) < weights.len(),
        forall|j: int|
            k <= j < sample_from(weights, denominator, draw, k) ==> !covers(weights, denominator, draw, j),
        sample_from(weights, denominator, draw, k) < weights.len() - 1 ==> covers(
            weights,
            denominator,
            draw,
            sample_from(weights, denominator, draw, k),
        ),
    decreases weights.len() - k,
{
    if k < weights.len() - 1 && !covers(weights, denominator, draw, k) {
        lemma_sample_is_first_cover(weights, denominator, draw, k + 1);
    }
}

/// A row whose weights add up to its denominator covers every draw by its
/// last slot at the latest, so the selected slot always covers the draw.
pub proof fn lemma_full_row_covers_every_draw(weights: Seq<u64>, denominator: u64, draw: u64)
    requires
        weights.len() > 0,
        prefix_sum(weights, weights.len()) == denominator,
    ensures
        covers(weights, denominator, draw, weights.len() - 1),
        covers(weights, denominator, draw, sample_index(weights, denominator, draw)),
{
    assert(draw as int * denominator as int <= denominator as int * 0x1_0000_0000_0000_0000)
        by (nonlinear_arith)
        requires
            draw <= 0xffff_ffff_ffff_ffff,
            denominator >= 0,
    ;
    lemma_sample_is_first_cover(weights, denominator, draw, 0);
}

/// Whether `draw / DRAW_RANGE <= cumulative / denominator`.
fn is_covered(cumulative: u128, denominator: u64, draw: u64) -> (b: bool)
    ensures
        b == (draw as int * denominator as int <= cumulative as int * (DRAW_RANGE as int)),
{
    assert(draw as int * denominator as int <= 0xffff_ffff_ffff_ffff * 0xffff_ffff_ffff_ffff)
        by (nonlinear_arith)
        requires
            draw <= 0xffff_ffff_ffff_ffff,
            denominator <= 0xffff_ffff_ffff_ffff,
    ;
    if cumulative > u64::MAX as u128 {
        assert(cumulative as int * 0x1_0000_0000_0000_0000 >= 0x1_0000_0000_0000_0000
            * 0x1_0000_0000_0000_0000) by (nonlinear_arith)
            requires
                cumulative >= 0x1_0000_0000_0000_0000,
        ;
        true
    } else {
        assert(cumulative as int * 0x1_0000_0000_0000_0000 <= 0xffff_ffff_ffff_ffff
            * 0x1_0000_0000_0000_0000) by (nonlinear_arith)
            requires
                cumulative <= 0xffff_ffff_ffff_ffff,
        ;
        (draw as u128) * (denominator as u128) <= cumulative * DRAW_RANGE
    }
}

/// Selects a state by inverse-CDF sampling: walks the cumulative weights
/// and returns the state of the first slot whose cumulative probability
/// reaches the draw, or the last state if the row falls short of the draw.
pub fn weighted_random_sample(
    states: &[StateType],
    weights: &[u64],
    denominator: u64,
    draw: u64,
) -> (s: StateType)
    requires
        states@.len() == weights@.len(),
        weights@.len() > 0,
    ensures
        s == states@[sample_index(weights@, denominator, draw)],
{
    let n: usize = weights.len();
    let mut cumulative: u128 = 0;
    let mut k: usize = 0;
    while k < n - 1
        invariant
            n == weights@.len(),
            n == states@.len(),
            n > 0,
            k <= n - 1,
            cumulative == prefix_sum(weights@, k as nat),
            cumulative <= k * u64::MAX,
            sample_index(weights@, denominator, draw) == sample_from(
                weights@,
                denominator,
                draw,
                k as int,
            ),
        decreases n - k,
    {
        assert((k + 1) * u64::MAX <= usize::MAX * u64::MAX) by (nonlinear_arith)
            requires
                k + 1 <= usize::MAX,
        ;
        cumulative = cumulative + weights[k] as u128;
        if is_covered(cumulative, denominator, draw) {
            return states[k];
        }
        k += 1;
    }
    states[n - 1]
}

impl TransitionMatrix {
    /// The numerators of row `i`, first column first.
    pub open spec fn row(&self, i: int) -> Seq<u64> {
        seq![self.matrix.at(i, 0), self.matrix.at(i, 1), self.matrix.at(i, 2)]
    }

    /// The state that follows `from` when the random draw is `draw`.
    pub open spec fn successor(&self, from: StateType, draw: u64) -> StateType {
        canonical_states()[sample_index(
            self.row(from.ordinal()),
            self.denominators@[from.ordinal()],
            draw,
        )]
    }

    /// One step of the chain: the state that follows `from` for this draw.
    pub fn next_state(&self, from: StateType, draw: u64) -> (s: StateType)
        requires
            self.wf(),
        ensures
            s == self.successor(from, draw),
    {
        let i: usize = from.index();
        let weights: Vec<u64> = vec![
            self.matrix.get(i, 0),
            self.matrix.get(i, 1),
            self.matrix.get(i, 2),
        ];
        assert(weights@ =~= self.row(i as int));
        weighted_random_sample(self.states.as_slice(), weights.as_slice(), self.denominators[i], draw)
    }
}

/// The sequence that a matrix, a first state and a list of draws determine:
/// day 0 is the first state at second 0, and day `k` is the successor of day
/// `k - 1` under draw `k - 1`, one day later.
pub open spec fn walk(m: TransitionMatrix, initial: StateType, draws: Seq<u64>) -> Seq<WeatherState>
    decreases draws.len(),
{
    if draws.len() == 0 {
        seq![WeatherState { state: initial, timestamp: 0 }]
    } else {
        let before = walk(m, initial, draws.drop_last());
        before.push(
            WeatherState {
                state: m.successor(before.last().state, draws.last()),
                timestamp: (draws.len() * SECONDS_PER_DAY) as i64,
            },
        )
    }
}

/// Number of observations a request for `days` days yields: day 0 is always
/// present.
pub open spec fn walk_length(days: usize) -> nat {
    if days == 0 {
        1
    } else {
        days as nat
    }
}

/// A walk over `n` draws has `n + 1` observations; it starts with the
/// initial state at second 0; observation `k` is stamped `k` days in, so
/// the stamps rise by exactly one day each; and every state is the successor
/// of the one before it under the matching draw.
pub proof fn lemma_walk_shape(m: TransitionMatrix, initial: StateType, draws: Seq<u64>)
    requires
        draws.len() * SECONDS_PER_DAY <= i64::MAX,
    ensures
        walk(m, initial, draws).len() == draws.len() + 1,
        walk(m, initial, draws)[0] == (WeatherState { state: initial, timestamp: 0 }),
        forall|k: int|
            0 <= k <= draws.len() ==> (#[trigger] walk(m, initial, draws)[k]).timestamp == k
                * SECONDS_PER_DAY,
        forall|k: int|
            0 <= k < draws.len() ==> (#[trigger] walk(m, initial, draws)[k + 1]).timestamp == walk(
                m,
                initial,
                draws,
            )[k].timestamp + SECONDS_PER_DAY,
        forall|k: int|
            0 <= k < draws.len() ==> (#[trigger] walk(m, initial, draws)[k + 1]).state == m.successor(
                walk(m, initial, draws)[k].state,
                draws[k],
            ),
        forall|k: int|
            0 <= k <= draws.len() ==> #[trigger] walk(m, initial, draws.take(k)) == walk(
                m,
                initial,
                draws,
            ).take(k + 1),
    decreases draws.len(),
{
    let w = walk(m, initial, draws);
    if draws.len() > 0 {
        let shorter = draws.drop_last();
        lemma_walk_shape(m, initial, shorter);
        let before = walk(m, initial, shorter);
        assert forall|k: int| 0 <= k <= draws.len() implies #[trigger] walk(m, initial, draws.take(k))
            == w.take(k + 1) by {
            if k == draws.len() {
                assert(draws.take(k) =~= draws);
                assert(w.take(k + 1) =~= w);
            } else {
                assert(draws.take(k) =~= shorter.take(k));
                assert(w.take(k + 1) =~= before.take(k + 1));
            }
        }
        assert forall|k: int| 0 <= k < draws.len() implies (#[trigger] w[k + 1]).state == m.successor(
            w[k].state,
            draws[k],
        ) by {
            if k < draws.len() - 1 {
                assert(w[k + 1] == before[k + 1]);
                assert(w[k] == before[k]);
                assert(draws[k] == shorter[k]);
            }
        }
    } else {
        assert(draws.take(0) =~= draws);
        assert(w.take(1) =~= w);
    }
}

/// The timestamp of the last of `days` observations fits the timestamp
/// type.
pub open spec fn days_fit(days: usize) -> bool {
    (walk_length(days) - 1) * SECONDS_PER_DAY <= i64::MAX
}

/// Whether a simulation of `days` days can be stamped: whether the
/// timestamp of its last observation fits the timestamp type.
pub fn can_simulate(days: usize) -> (b: bool)
    ensures
        b == days_fit(days),
{
    let last: u128 = if days == 0 { 0 } else { (days - 1) as u128 };
    last * 86400 <= 0x7fff_ffff_ffff_ffff
}

/// A simulation of `days` days, whatever its draws, holds exactly `days`
/// observations, and their timestamps rise by exactly one day from one to
/// the next, starting at zero.
pub proof fn lemma_simulation_length_and_spacing(
    m: TransitionMatrix,
    initial: StateType,
    days: usize,
    draws: Seq<u64>,
)
    requires
        days >= 1,
        days_fit(days),
        draws.len() == days - 1,
    ensures
        walk(m, initial, draws).len() == days,
        forall|k: int|
            0 <= k < days ==> (#[trigger] walk(m, initial, draws)[k]).timestamp == k * SECONDS_PER_DAY,
        forall|k: int|
            0 <= k < days - 1 ==> walk(m, initial, draws)[k].timestamp < (#[trigger] walk(
                m,
                initial,
                draws,
            )[k + 1]).timestamp && walk(m, initial, draws)[k + 1].timestamp - walk(
                m,
                initial,
                draws,
            )[k].timestamp == SECONDS_PER_DAY,
{
    lemma_walk_shape(m, initial, draws);
}

/// Runs the chain from `initial_state` with the given draws, one per step.
pub fn simulate_with_draws(matrix: &TransitionMatrix, initial_state: StateType, draws: &Vec<u64>) -> (results:
    Vec<WeatherState>)
    requires
        matrix.wf(),
        draws@.len() * SECONDS_PER_DAY <= i64::MAX,
    ensures
        results@ == walk(*matrix, initial_state, draws@),
        results@.len() == draws@.len() + 1,
{
    let mut results: Vec<WeatherState> = Vec::new();
    results.push(WeatherState::new(initial_state, 0));
    let mut current_state = initial_state;
    let n: usize = draws.len();
    let mut step: usize = 0;
    assert(draws@.take(0) =~= Seq::<u64>::empty());
    while step < n
        invariant
            matrix.wf(),
            n == draws@.len(),
            n * SECONDS_PER_DAY <= i64::MAX,
            step <= n,
            results@ == walk(*matrix, initial_state, draws@.take(step as int)),
            results@.len() == step + 1,
            current_state == results@[step as int].state,
        decreases n - step,
    {
        let next_state = matrix.next_state(current_state, draws[step]);
        let day: i64 = (step + 1) as i64;
        let timestamp: i64 = day * SECONDS_PER_DAY;
        proof {
            let longer = draws@.take(step + 1);
            assert(longer.drop_last() =~= draws@.take(step as int));
            assert(longer.last() == draws@[step as int]);
        }
        results.push(WeatherState::new(next_state, timestamp));
        current_state = next_state;
        step += 1;
    }
    assert(draws@.take(n as int) =~= draws@);
    results
}

/// Asks `getrandom::getrandom` for eight bytes and reads them as a
/// little-endian `u64`. Nothing is promised of the value: it is whatever
/// the operating system's random source returned, or `None` when that
/// source reported an error.
#[verifier::external_body]
fn random_draw() -> (r: Option<u64>) {
    let mut buf = [0u8; 8];
    match getrandom::getrandom(&mut buf) {
        Ok(()) => Some(u64::from_le_bytes(buf)),
        Err(_) => None,
    }
}

/// Simulates `days` days of weather starting from `initial_state`.
///
/// The result always opens with the initial state at second 0 and holds
/// `days` observations in all (one, when `days` is 0), stamped one day
/// apart. Each later state is the successor of the one before it under a
/// fresh random draw, so the whole result is the walk of some list of
/// draws. A single day needs no randomness and cannot fail; a longer run
/// fails only when the random source does.
pub fn simulate_weather(matrix: &TransitionMatrix, initial_state: StateType, days: usize) -> (r: Result<
    Vec<WeatherState>,
    SimulationError,
>)
    requires
        matrix.wf(),
        days_fit(days),
    ensures
        days <= 1 ==> r is Ok,
        match r {
            Ok(results) => {
                &&& exists|draws: Seq<u64>|
                    draws.len() + 1 == walk_length(days) && results@ == walk(
                        *matrix,
                        initial_state,
                        draws,
                    )
                &&& results@.len() == walk_length(days)
                &&& results@[0] == (WeatherState { state: initial_state, timestamp: 0 })
                &&& forall|k: int|
                    0 <= k < results@.len() ==> (#[trigger] results@[k]).timestamp == k * SECONDS_PER_DAY
            },
            Err(e) => e == SimulationError::RandomSourceFailed,
        },
{
    let mut results: Vec<WeatherState> = Vec::new();
    results.push(WeatherState::new(initial_state, 0));
    let mut current_state = initial_state;
    let ghost mut draws: Seq<u64> = Seq::empty();
    let mut day: usize = 1;
    while day < days
        invariant
            matrix.wf(),
            1 <= day,
            days <= 1 ==> day == 1,
            days > 1 ==> day <= days,
            days_fit(days),
            draws.len() == day - 1,
            results@ == walk(*matrix, initial_state, draws),
            results@.len() == day,
            current_state == results@[day - 1].state,
        decreases days - day,
    {
        let draw: u64 = match random_draw() {
            Some(value) => value,
            None => {
                return Err(SimulationError::RandomSourceFailed);
            },
        };
        let next_state = matrix.next_state(current_state, draw);
        assert(day * SECONDS_PER_DAY <= (days - 1) * SECONDS_PER_DAY) by (nonlinear_arith)
            requires
                day <= days - 1,
        ;
        let timestamp: i64 = (day as i64) * SECONDS_PER_DAY;
        proof {
            let longer = draws.push(draw);
            assert(longer.drop_last() =~= draws);
            assert(longer.last() == draw);
            draws = longer;
        }
        results.push(WeatherState::new(next_state, timestamp));
        current_state = next_state;
        day += 1;
    }
    proof {
        lemma_walk_shape(*matrix, initial_state, draws);
        assert(draws.len() + 1 == walk_length(days));
    }
    Ok(results)
}

} // verus!
