//! An ordered, append-only history of observations for one location.

use vstd::prelude::*;
use crate::state::WeatherState;

verus! {

/// Observations in the order they were made, with the name of the place.
#[derive(Debug, Clone)]
pub struct HistoricalData {
    pub states: Vec<WeatherState>,
    pub location: String,
}

/// The adjacent pairs of `obs`, in order: pair `i` is `(obs[i], obs[i + 1])`.
pub open spec fn adjacent_pairs(obs: Seq<WeatherState>) -> Seq<(WeatherState, WeatherState)> {
    Seq::new(
        if obs.len() >= 1 { (obs.len() - 1) as nat } else { 0 },
        |i: int| (obs[i], obs[i + 1]),
    )
}

impl HistoricalData {
    /// An empty history for `location`.
    pub fn new(location: String) -> (h: Self)
        ensures
            h.states@ == Seq::<WeatherState>::empty(),
            h.location == location,
    {
        Self { states: Vec::new(), location }
    }

    /// Number of observations recorded.
    pub fn len(&self) -> (n: usize)
        ensures
            n == self.states@.len(),
    {
        self.states.len()
    }

    /// Whether nothing has been recorded yet.
    pub fn is_empty(&self) -> (b: bool)
        ensures
            b == (self.states@.len() == 0),
    {
        self.states.len() == 0
    }

    /// A history is complete once it holds a transition: two observations.
    pub fn is_complete(&self) -> (b: bool)
        ensures
            b == (self.states@.len() >= 2),
    {
        self.states.len() >= 2
    }

    /// Appends one observation; nothing already recorded changes.
    pub fn add_state(&mut self, state: WeatherState)
        ensures
            final(self).states@ == old(self).states@.push(state),
            final(self).location == old(self).location,
    {
        self.states.push(state);
    }

    /// The observations in order.
    pub fn iter(&self) -> (it: &Vec<WeatherState>)
        ensures
            it@ == self.states@,
    {
        &self.states
    }

    /// Every observation paired with its successor, in order.
    pub fn state_pairs(&self) -> (pairs: Vec<(WeatherState, WeatherState)>)
        ensures
            pairs@ == adjacent_pairs(self.states@),
    {
        let mut pairs: Vec<(WeatherState, WeatherState)> = Vec::new();
        let n: usize = self.states.len();
        if n < 2 {
            assert(pairs@ =~= adjacent_pairs(self.states@));
            return pairs;
        }
        let mut i: usize = 0;
        while i < n - 1
            invariant
                n == self.states@.len(),
                n >= 2,
                i <= n - 1,
                pairs@.len() == i,
                forall|k: int| 0 <= k < i ==> pairs@[k] == (self.states@[k], self.states@[k + 1]),
            decreases n - 1 - i,
        {
            pairs.push((self.states[i], self.states[i + 1]));
            i += 1;
        }
        assert(pairs@ =~= adjacent_pairs(self.states@));
        pairs
    }
}

} // verus!
