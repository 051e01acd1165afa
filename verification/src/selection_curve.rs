use vstd::prelude::*;
use rand::rngs::StdRng;
use crate::rng::next_index;

verus! {

/// A biased random-index policy over a sorted population. Populations are
/// sorted least fit first, so an index near the top of the range names a
/// fit individual; the preference curves skew their draws toward that end.
#[derive(Clone, Copy, Debug, PartialEq, Eq, Structural)]
pub enum SelectionCurve {
    /// Every index is equally likely.
    Fair,
    /// A moderate preference for fit individuals: the higher of two
    /// uniform draws.
    PreferenceForFit,
    /// A strong preference for fit individuals: the highest of three
    /// uniform draws.
    StrongPreferenceForFit,
}

impl SelectionCurve {
    /// Picks one index into a sorted population of `max` individuals.
    pub fn pick_one_index(&self, rng: &mut StdRng, max: usize) -> (r: usize)
        requires
            max > 0,
        ensures
            r < max,
    {
        match self {
            SelectionCurve::Fair => next_index(rng, max),
            SelectionCurve::PreferenceForFit => {
                let a = next_index(rng, max);
                let b = next_index(rng, max);
                if a >= b {
                    a
                } else {
                    b
                }
            },
            SelectionCurve::StrongPreferenceForFit => {
                let a = next_index(rng, max);
                let b = next_index(rng, max);
                let c = next_index(rng, max);
                let high = if a >= b {
                    a
                } else {
                    b
                };
                if high >= c {
                    high
                } else {
                    c
                }
            },
        }
    }
}

} // verus!
