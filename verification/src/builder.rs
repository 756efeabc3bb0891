//! Counting observed transitions and normalising them into a matrix.

use vstd::prelude::*;
use crate::grid::Grid;
use crate::history::{adjacent_pairs, HistoricalData};
use crate::matrix::{lemma_exact_rows_are_stochastic, TransitionMatrix};
use crate::state::{canonical_states, StateType, WeatherState, STATE_COUNT};

verus! {

/// Among the first `n` adjacent pairs of `obs`, how many go from the state
/// with ordinal `i` to the state with ordinal `j`.
pub open spec fn pair_count(obs: Seq<WeatherState>, n: nat, i: int, j: int) -> nat
    decreases n,
{
    if n == 0 {
        0
    } else {
        let hit: nat = if obs[n - 1].state.ordinal() == i && obs[n as int].state.ordinal() == j {
            1
        } else {
            0
        };
        pair_count(obs, (n - 1) as nat, i, j) + hit
    }
}

/// Number of adjacent pairs in a run of `len` observations.
pub open spec fn pair_total(len: nat) -> nat {
    if len >= 1 {
        (len - 1) as nat
    } else {
        0
    }
}

/// How often the state with ordinal `i` is followed by anything in `obs`.
pub open spec fn departures(obs: Seq<WeatherState>, i: int) -> nat {
    let n = pair_total(obs.len());
    pair_count(obs, n, i, 0) + pair_count(obs, n, i, 1) + pair_count(obs, n, i, 2)
}

/// The departures of the three states together account for every pair.
pub proof fn lemma_pair_counts_partition(obs: Seq<WeatherState>, n: nat)
    ensures
        pair_count(obs, n, 0, 0) + pair_count(obs, n, 0, 1) + pair_count(obs, n, 0, 2)
            + pair_count(obs, n, 1, 0) + pair_count(obs, n, 1, 1) + pair_count(obs, n, 1, 2)
            + pair_count(obs, n, 2, 0) + pair_count(obs, n, 2, 1) + pair_count(obs, n, 2, 2) == n,
    decreases n,
{
    if n > 0 {
        lemma_pair_counts_partition(obs, (n - 1) as nat);
    }
}

/// Numerator of the empirical entry `(i, j)`: the number of transitions
/// from state `i` to state `j`, or 1 if state `i` was never left.
pub open spec fn empirical_numerator(obs: Seq<WeatherState>, i: int, j: int) -> nat {
    if departures(obs, i) > 0 {
        pair_count(obs, pair_total(obs.len()), i, j)
    } else {
        1
    }
}

/// Denominator of the empirical row `i`: the number of transitions from
/// state `i`, or the number of states if state `i` was never left.
pub open spec fn empirical_denominator(obs: Seq<WeatherState>, i: int) -> nat {
    if departures(obs, i) > 0 {
        departures(obs, i)
    } else {
        STATE_COUNT as nat
    }
}

/// What `build_transition_matrix` makes of the observations `obs`.
///
/// A state that was left at least once gets its observed frequencies: the
/// count of each destination over the count of all departures. A state that
/// was never left gets the uniform row, one third each.
pub open spec fn is_empirical_matrix(m: TransitionMatrix, obs: Seq<WeatherState>) -> bool {
    &&& m.wf()
    &&& forall|i: int, j: int|
        0 <= i < STATE_COUNT && 0 <= j < STATE_COUNT ==> #[trigger] m.numerator(i, j)
            == empirical_numerator(obs, i, j)
    &&& forall|i: int|
        0 <= i < STATE_COUNT ==> #[trigger] m.denominator(i) == empirical_denominator(obs, i)
}

/// A state that was never left gets the uniform row: each entry is
/// `1 / STATE_COUNT`.
pub proof fn lemma_unvisited_state_row_is_uniform(m: TransitionMatrix, obs: Seq<WeatherState>, i: int)
    requires
        is_empirical_matrix(m, obs),
        0 <= i < STATE_COUNT,
        departures(obs, i) == 0,
    ensures
        m.denominator(i) == STATE_COUNT,
        forall|j: int| 0 <= j < STATE_COUNT ==> m.numerator(i, j) == 1,
{
    assert forall|j: int| 0 <= j < STATE_COUNT implies m.numerator(i, j) == 1 by {
        assert(m.numerator(i, j) == empirical_numerator(obs, i, j));
    }
}

/// Every matrix built from observations has rows that sum to exactly one,
/// so it passes the tolerance check and its entries lie between zero and
/// one.
pub proof fn lemma_empirical_matrix_is_stochastic(m: TransitionMatrix, obs: Seq<WeatherState>)
    requires
        is_empirical_matrix(m, obs),
    ensures
        m.exactly_stochastic(),
        m.stochastic(),
        forall|i: int, j: int|
            0 <= i < STATE_COUNT && 0 <= j < STATE_COUNT ==> 0 <= #[trigger] m.numerator(i, j)
                <= m.denominator(i),
{
    assert forall|i: int| 0 <= i < STATE_COUNT implies m.row_total(i) == m.denominator(i) by {
        assert(m.numerator(i, 0) == empirical_numerator(obs, i, 0));
        assert(m.numerator(i, 1) == empirical_numerator(obs, i, 1));
        assert(m.numerator(i, 2) == empirical_numerator(obs, i, 2));
        assert(m.denominator(i) == empirical_denominator(obs, i));
    }
    lemma_exact_rows_are_stochastic(m);
}

/// The raw transition counts of `data`: cell `(i, j)` is the number of
/// times the state with ordinal `i` was directly followed by the state with
/// ordinal `j`.
pub fn count_transitions(data: &HistoricalData) -> (counts: Grid)
    ensures
        counts.has_shape(STATE_COUNT as nat, STATE_COUNT as nat),
        forall|i: int, j: int|
            0 <= i < STATE_COUNT && 0 <= j < STATE_COUNT ==> counts.at(i, j) == pair_count(
                data.states@,
                pair_total(data.states@.len()),
                i,
                j,
            ),
{
    let ghost obs = data.states@;
    let mut counts = Grid::zeros(STATE_COUNT, STATE_COUNT);
    let pairs = data.state_pairs();
    let n: usize = pairs.len();
    let mut k: usize = 0;
    while k < n
        invariant
            obs == data.states@,
            pairs@ == adjacent_pairs(obs),
            n == pairs@.len(),
            n == pair_total(obs.len()),
            k <= n,
            counts.has_shape(STATE_COUNT as nat, STATE_COUNT as nat),
            forall|i: int, j: int|
                0 <= i < STATE_COUNT && 0 <= j < STATE_COUNT ==> counts.at(i, j) == pair_count(
                    obs,
                    k as nat,
                    i,
                    j,
                ),
        decreases n - k,
    {
        let from: usize = pairs[k].0.state.index();
        let to: usize = pairs[k].1.state.index();
        assert(pairs@[k as int] == (obs[k as int], obs[k + 1]));
        let seen: u64 = counts.get(from, to);
        proof {
            lemma_pair_counts_partition(obs, k as nat);
        }
        counts.put(from, to, seen + 1);
        k += 1;
        assert forall|i: int, j: int| 0 <= i < STATE_COUNT && 0 <= j < STATE_COUNT implies counts.at(
            i,
            j,
        ) == pair_count(obs, k as nat, i, j) by {
            assert(pair_count(obs, k as nat, i, j) == pair_count(obs, (k - 1) as nat, i, j) + (if i
                == from && j == to {
                1nat
            } else {
                0nat
            }));
        }
    }
    counts
}

/// Builds the empirical transition matrix of a history.
///
/// Each row is the observed frequency of every destination from that state,
/// or the uniform row if the state was never left. Every row of the result
/// sums to exactly one, whatever the history holds, and every entry lies
/// between zero and one.
pub fn build_transition_matrix(data: &HistoricalData) -> (m: TransitionMatrix)
    ensures
        is_empirical_matrix(m, data.states@),
        m.exactly_stochastic(),
        m.stochastic(),
        forall|i: int, j: int|
            0 <= i < STATE_COUNT && 0 <= j < STATE_COUNT ==> m.numerator(i, j) <= m.denominator(i),
{
    let ghost obs = data.states@;
    let ghost n = pair_total(obs.len());
    let len: usize = data.len();
    let mut matrix = count_transitions(data);
    let states = vec![StateType::Sunny, StateType::Rainy, StateType::Cloudy];
    assert(states@ =~= canonical_states());
    let mut denominators: Vec<u64> = vec![1, 1, 1];
    proof {
        lemma_pair_counts_partition(obs, n);
    }
    let mut i: usize = 0;
    while i < STATE_COUNT
        invariant
            i <= STATE_COUNT,
            n == pair_total(obs.len()),
            n <= usize::MAX,
            matrix.has_shape(STATE_COUNT as nat, STATE_COUNT as nat),
            denominators@.len() == STATE_COUNT,
            pair_count(obs, n, 0, 0) + pair_count(obs, n, 0, 1) + pair_count(obs, n, 0, 2)
                + pair_count(obs, n, 1, 0) + pair_count(obs, n, 1, 1) + pair_count(obs, n, 1, 2)
                + pair_count(obs, n, 2, 0) + pair_count(obs, n, 2, 1) + pair_count(obs, n, 2, 2)
                == n,
            forall|r: int, j: int|
                i <= r < STATE_COUNT && 0 <= j < STATE_COUNT ==> matrix.at(r, j) == pair_count(
                    obs,
                    n,
                    r,
                    j,
                ),
            forall|r: int, j: int|
                0 <= r < i && 0 <= j < STATE_COUNT ==> matrix.at(r, j) == empirical_numerator(obs, r, j),
            forall|r: int| 0 <= r < i ==> #[trigger] denominators@[r] == empirical_denominator(obs, r),
            forall|r: int| 0 <= r < STATE_COUNT ==> #[trigger] denominators@[r] > 0,
        decreases STATE_COUNT - i,
    {
        let a: u64 = matrix.get(i, 0);
        let b: u64 = matrix.get(i, 1);
        let c: u64 = matrix.get(i, 2);
        let row_sum: u64 = a + b + c;
        assert(row_sum == departures(obs, i as int));
        if row_sum > 0 {
            denominators[i] = row_sum;
        } else {
            matrix.put(i, 0, 1);
            matrix.put(i, 1, 1);
            matrix.put(i, 2, 1);
            denominators[i] = 3;
        }
        i += 1;
    }
    let m = TransitionMatrix { matrix, denominators, states };
    proof {
        assert(is_empirical_matrix(m, obs)) by {
            assert forall|r: int| 0 <= r < STATE_COUNT implies #[trigger] m.denominator(r)
                == empirical_denominator(obs, r) by {
                assert(m.denominator(r) == m.denominators@[r]);
            }
        }
        lemma_empirical_matrix_is_stochastic(m, obs);
    }
    m
}

} // verus!
