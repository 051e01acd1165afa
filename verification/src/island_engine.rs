use vstd::prelude::*;
use core::cmp::Ordering;

verus! {

/// The evaluation capability owned by each island: how individuals are
/// executed and how their fitness is compared. The comparison used for
/// sorting must order individuals by the score that `score_individual`
/// reports, which `score_spec` names at the specification level; running
/// an individual may change the state the scores are drawn from.
pub trait IslandEngine {
    /// The score that `score_individual` reports for an individual in the
    /// engine's present state. Populations sort ascending by this score:
    /// least fit first, most fit last.
    spec fn score_spec(&self, id: u64) -> u64;

    /// Called once before any individuals of a generation are run, so the
    /// engine can set up state shared by the whole generation.
    fn pre_generation_run(&mut self, individuals: &Vec<u64>) {
    }

    /// Called once after all individuals of a generation are run, for
    /// cleanup or whole-generation analysis.
    fn post_generation_run(&mut self, individuals: &Vec<u64>) {
    }

    /// Runs a single individual, updating whatever external state its
    /// score is drawn from. Called once per individual per generation.
    fn run_individual(&mut self, id: u64);

    /// Compares two individuals for sorting, least fit to most fit. The
    /// default implementation compares their scores.
    fn sort_individuals(&self, a: u64, b: u64) -> (r: Ordering)
        ensures
            (r == Ordering::Less <==> self.score_spec(a) < self.score_spec(b)),
            (r == Ordering::Equal <==> self.score_spec(a) == self.score_spec(b)),
            (r == Ordering::Greater <==> self.score_spec(a) > self.score_spec(b)),
    {
        let score_a = self.score_individual(a);
        let score_b = self.score_individual(b);
        if score_a < score_b {
            Ordering::Less
        } else if score_a == score_b {
            Ordering::Equal
        } else {
            Ordering::Greater
        }
    }

    /// Scores the effectiveness of one individual in the engine's present
    /// state. `score_spec` names the result, so an implementation
    /// supplies both together; scoring every individual zero, the worst
    /// fitness possible, is the neutral choice.
    fn score_individual(&self, id: u64) -> (r: u64)
        ensures
            r == self.score_spec(id),
    ;
}

} // verus!
