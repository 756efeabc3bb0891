//! Row-stochastic transition matrices with exact fractional entries.
//!
//! Entry `(i, j)` of a matrix is the fraction `numerator(i, j) /
//! denominator(i)`: every row shares one denominator. A row built from
//! observed transitions keeps the raw counts as numerators and their total
//! as denominator, so the fraction is the empirical frequency with no
//! rounding anywhere.

use vstd::prelude::*;
use crate::grid::{grid_cells, Grid};
use crate::state::{canonical_states, StateType, STATE_COUNT};

verus! {

/// Parts per million of slack allowed between a row total and one.
pub const TOLERANCE_SCALE: u128 = 1_000_000;

/// A square matrix of fractions over the weather alphabet. `states[i]` names
/// both row `i` (the state left) and column `i` (the state entered).
#[derive(Debug)]
pub struct TransitionMatrix {
    /// Numerators, one row per state left.
    pub matrix: Grid,
    /// The common denominator of each row.
    pub denominators: Vec<u64>,
    pub states: Vec<StateType>,
}

/// A matrix whose rows sum to exactly one passes the tolerance check, and
/// each of its entries lies between zero and one.
pub proof fn lemma_exact_rows_are_stochastic(m: TransitionMatrix)
    requires
        m.wf(),
        m.exactly_stochastic(),
    ensures
        m.stochastic(),
        forall|i: int, j: int|
            0 <= i < STATE_COUNT && 0 <= j < STATE_COUNT ==> 0 <= #[trigger] m.numerator(i, j)
                <= m.denominator(i),
{
    assert forall|i: int| 0 <= i < STATE_COUNT implies m.row_near_one(i) by {
        assert(m.row_total(i) == m.denominator(i));
    }
    assert forall|i: int, j: int| 0 <= i < STATE_COUNT && 0 <= j < STATE_COUNT implies 0
        <= #[trigger] m.numerator(i, j) <= m.denominator(i) by {
        assert(m.row_total(i) == m.denominator(i));
    }
}

/// Numerator of entry `(i, j)` of the matrix multiplied by itself, for a
/// matrix whose rows share one denominator `d`: the entry is this number
/// over `d * d`.
pub open spec fn squared_numerator(m: TransitionMatrix, i: int, j: int) -> nat {
    m.numerator(i, 0) * m.numerator(0, j) + m.numerator(i, 1) * m.numerator(1, j) + m.numerator(i, 2)
        * m.numerator(2, j)
}

/// A matrix whose rows are all the same distribution is unchanged by
/// multiplying it with itself: every entry of the square, a fraction over
/// `d * d`, equals the entry it came from, a fraction over `d`. Its common
/// row is therefore stationary.
pub proof fn lemma_identical_rows_square_to_themselves(m: TransitionMatrix, i: int, j: int)
    requires
        m.wf(),
        m.exactly_stochastic(),
        forall|r: int, c: int|
            0 <= r < STATE_COUNT && 0 <= c < STATE_COUNT ==> #[trigger] m.numerator(r, c)
                == m.numerator(0, c),
        forall|r: int| 0 <= r < STATE_COUNT ==> #[trigger] m.denominator(r) == m.denominator(0),
        0 <= i < STATE_COUNT,
        0 <= j < STATE_COUNT,
    ensures
        squared_numerator(m, i, j) * m.denominator(i) == m.numerator(i, j) * (m.denominator(i)
            * m.denominator(i)),
{
    let d = m.denominator(0) as int;
    let a = m.numerator(0, 0) as int;
    let b = m.numerator(0, 1) as int;
    let c = m.numerator(0, 2) as int;
    let x = m.numerator(0, j) as int;
    assert(m.row_total(0) == m.denominator(0));
    assert(a + b + c == d);
    assert(m.numerator(i, 0) == a && m.numerator(i, 1) == b && m.numerator(i, 2) == c);
    assert(m.numerator(1, j) == x && m.numerator(2, j) == x && m.numerator(i, j) == x);
    assert(m.denominator(i) == d);
    assert((a * x + b * x + c * x) * d == x * (d * d)) by (nonlinear_arith)
        requires
            a + b + c == d,
    ;
}

impl TransitionMatrix {
    /// Shape and labelling: three rows of three numerators, a positive
    /// denominator for each row, and the states in enumeration order.
    pub open spec fn wf(&self) -> bool {
        &&& self.states@ == canonical_states()
        &&& self.matrix.has_shape(STATE_COUNT as nat, STATE_COUNT as nat)
        &&& self.denominators@.len() == STATE_COUNT
        &&& forall|i: int| 0 <= i < STATE_COUNT ==> #[trigger] self.denominators@[i] > 0
    }

    /// Numerator of entry `(i, j)`.
    pub open spec fn numerator(&self, i: int, j: int) -> nat {
        self.matrix.at(i, j) as nat
    }

    /// Denominator shared by the entries of row `i`.
    pub open spec fn denominator(&self, i: int) -> nat {
        self.denominators@[i] as nat
    }

    /// Sum of the numerators of row `i`.
    pub open spec fn row_total(&self, i: int) -> nat {
        self.numerator(i, 0) + self.numerator(i, 1) + self.numerator(i, 2)
    }

    /// Row `i` sums to one within one part per million:
    /// `|row_total / denominator - 1| <= 1e-6`, cleared of fractions.
    pub open spec fn row_near_one(&self, i: int) -> bool {
        let total = self.row_total(i) as int;
        let den = self.denominator(i) as int;
        let gap = if total >= den { total - den } else { den - total };
        gap * TOLERANCE_SCALE <= den
    }

    /// Every row sums to one within the tolerance.
    pub open spec fn stochastic(&self) -> bool {
        forall|i: int| 0 <= i < STATE_COUNT ==> self.row_near_one(i)
    }

    /// Every row sums to exactly one: its numerators add up to its
    /// denominator.
    pub open spec fn exactly_stochastic(&self) -> bool {
        forall|i: int| 0 <= i < STATE_COUNT ==> self.row_total(i) == self.denominator(i)
    }

    /// The all-zero matrix over the alphabet: every entry is `0 / 1`.
    pub fn new() -> (m: Self)
        ensures
            m.wf(),
            forall|i: int, j: int|
                0 <= i < STATE_COUNT && 0 <= j < STATE_COUNT ==> m.numerator(i, j) == 0,
            forall|i: int| 0 <= i < STATE_COUNT ==> m.denominator(i) == 1,
    {
        let matrix = Grid::zeros(STATE_COUNT, STATE_COUNT);
        let states = vec![StateType::Sunny, StateType::Rainy, StateType::Cloudy];
        let denominators: Vec<u64> = vec![1, 1, 1];
        assert(states@ =~= canonical_states());
        Self { matrix, denominators, states }
    }

    /// Whether the value has the shape and labelling that `wf` describes.
    pub fn is_well_formed(&self) -> (b: bool)
        ensures
            b == self.wf(),
    {
        if self.states.len() != STATE_COUNT || self.denominators.len() != STATE_COUNT {
            assert(canonical_states().len() == 3);
            return false;
        }
        if self.states[0] != StateType::Sunny || self.states[1] != StateType::Rainy
            || self.states[2] != StateType::Cloudy {
            return false;
        }
        assert(self.states@ =~= canonical_states());
        if self.matrix.nrows() != STATE_COUNT || self.matrix.ncols() != STATE_COUNT {
            assert(!self.matrix.has_shape(3, 3)) by {
                if self.matrix.has_shape(3, 3) {
                    assert(grid_cells(self.matrix)[0].len() == 3);
                }
            }
            return false;
        }
        if self.denominators[0] == 0 || self.denominators[1] == 0 || self.denominators[2] == 0 {
            return false;
        }
        true
    }

    /// Numerator of entry `(i, j)`.
    pub fn numerator_at(&self, i: usize, j: usize) -> (v: u64)
        requires
            self.wf(),
            i < STATE_COUNT,
            j < STATE_COUNT,
        ensures
            v == self.numerator(i as int, j as int),
    {
        self.matrix.get(i, j)
    }

    /// Denominator of row `i`.
    pub fn denominator_at(&self, i: usize) -> (v: u64)
        requires
            self.wf(),
            i < STATE_COUNT,
        ensures
            v == self.denominator(i as int),
            v > 0,
    {
        self.denominators[i]
    }

    /// Replaces row `i` by the fractions `numerators[j] / denominator`.
    pub fn set_row(&mut self, i: usize, numerators: [u64; 3], denominator: u64)
        requires
            old(self).wf(),
            i < STATE_COUNT,
            denominator > 0,
        ensures
            final(self).wf(),
            final(self).denominator(i as int) == denominator,
            forall|j: int| 0 <= j < STATE_COUNT ==> final(self).numerator(i as int, j) == numerators[j],
            forall|r: int, j: int|
                0 <= r < STATE_COUNT && r != i && 0 <= j < STATE_COUNT ==> final(self).numerator(r, j)
                    == old(self).numerator(r, j),
            forall|r: int|
                0 <= r < STATE_COUNT && r != i ==> final(self).denominator(r) == old(self).denominator(r),
    {
        self.matrix.put(i, 0, numerators[0]);
        self.matrix.put(i, 1, numerators[1]);
        self.matrix.put(i, 2, numerators[2]);
        self.denominators[i] = denominator;
    }

    /// Sum of the numerators of row `i`, which may exceed `u64`.
    pub fn row_sum(&self, i: usize) -> (total: u128)
        requires
            self.wf(),
            i < STATE_COUNT,
        ensures
            total == self.row_total(i as int),
    {
        let a: u128 = self.matrix.get(i, 0) as u128;
        let b: u128 = self.matrix.get(i, 1) as u128;
        let c: u128 = self.matrix.get(i, 2) as u128;
        a + b + c
    }

    /// Whether every row sums to one within one part per million.
    pub fn is_stochastic(&self) -> (b: bool)
        requires
            self.wf(),
        ensures
            b == self.stochastic(),
    {
        let mut i: usize = 0;
        while i < STATE_COUNT
            invariant
                self.wf(),
                i <= STATE_COUNT,
                forall|k: int| 0 <= k < i ==> self.row_near_one(k),
            decreases STATE_COUNT - i,
        {
            let total: u128 = self.row_sum(i);
            let den: u128 = self.denominators[i] as u128;
            let gap: u128 = if total >= den { total - den } else { den - total };
            if gap * TOLERANCE_SCALE > den {
                assert(!self.row_near_one(i as int));
                return false;
            }
            assert(self.row_near_one(i as int));
            i += 1;
        }
        true
    }

    /// Position of the first occurrence of `state` among the labels.
    pub fn state_index(&self, state: StateType) -> (r: Option<usize>)
        ensures
            match r {
                Some(k) => k < self.states@.len() && self.states@[k as int] == state && forall|j: int|
                    0 <= j < k ==> self.states@[j] != state,
                None => forall|j: int| 0 <= j < self.states@.len() ==> self.states@[j] != state,
            },
            self.wf() ==> r == Some(state.ordinal() as usize),
    {
        let mut k: usize = 0;
        while k < self.states.len()
            invariant
                k <= self.states@.len(),
                forall|j: int| 0 <= j < k ==> self.states@[j] != state,
            decreases self.states@.len() - k,
        {
            if self.states[k] == state {
                return Some(k);
            }
            k += 1;
        }
        None
    }
}

impl Clone for TransitionMatrix {
    /// A copy with the same entries and labels.
    fn clone(&self) -> (m: Self)
        ensures
            grid_cells(m.matrix) == grid_cells(self.matrix),
            m.denominators@ == self.denominators@,
            m.states@ == self.states@,
            self.wf() ==> m.wf(),
    {
        let matrix = self.matrix.duplicate();
        let denominators = self.denominators.clone();
        let states = self.states.clone();
        assert(denominators@ =~= self.denominators@);
        assert(states@ =~= self.states@);
        Self { matrix, denominators, states }
    }
}

impl Default for TransitionMatrix {
    /// The all-zero matrix, as `new` makes it.
    fn default() -> (m: Self)
        ensures
            m.wf(),
            forall|i: int, j: int|
                0 <= i < STATE_COUNT && 0 <= j < STATE_COUNT ==> m.numerator(i, j) == 0,
            forall|i: int| 0 <= i < STATE_COUNT ==> m.denominator(i) == 1,
    {
        Self::new()
    }
}

} // verus!
