use vstd::prelude::*;
use vstd::multiset::Multiset;
use core::cmp::Ordering;
use rand::rngs::StdRng;
use crate::island_engine::IslandEngine;
use crate::selection_curve::SelectionCurve;

verus! {

/// Is `s` ascending by the engine's score, least fit first?
pub open spec fn sorted_by_score<E: IslandEngine>(engine: E, s: Seq<u64>) -> bool {
    forall|i: int, j: int|
        0 <= i < j < s.len() ==> engine.score_spec(s[i]) <= engine.score_spec(s[j])
}

/// One isolated sub-population: a current generation that can be sorted
/// by fitness, a staging future generation, and the evaluation capability
/// that owns execution and comparison of its individuals.
pub struct Island<E: IslandEngine> {
    name: String,
    engine: E,
    individuals: Vec<u64>,
    individuals_are_sorted: bool,
    future: Vec<u64>,
}

impl<E: IslandEngine> Island<E> {
    pub closed spec fn name_spec(&self) -> Seq<char> {
        self.name@
    }

    pub closed spec fn eng(&self) -> E {
        self.engine
    }

    /// The current generation, in population order.
    pub closed spec fn current(&self) -> Seq<u64> {
        self.individuals@
    }

    /// Whether the current generation has been sorted since it last
    /// changed.
    pub closed spec fn sorted_flag(&self) -> bool {
        self.individuals_are_sorted
    }

    /// The staging future generation.
    pub closed spec fn future_gen(&self) -> Seq<u64> {
        self.future@
    }

    /// The sorted flag is only set while the current generation really is
    /// in score order.
    pub open spec fn wf(&self) -> bool {
        self.sorted_flag() ==> sorted_by_score(self.eng(), self.current())
    }

    pub(crate) fn new(name: String, engine: E) -> (r: Island<E>)
        ensures
            r.name_spec() == name@,
            r.eng() == engine,
            r.current() == Seq::<u64>::empty(),
            r.future_gen() == Seq::<u64>::empty(),
            !r.sorted_flag(),
            r.wf(),
    {
        Island {
            name,
            engine,
            individuals: Vec::new(),
            individuals_are_sorted: false,
            future: Vec::new(),
        }
    }

    /// Returns the name of the island.
    pub fn name(&self) -> (r: &str)
        ensures
            r@ == self.name_spec(),
    {
        self.name.as_str()
    }

    /// Does the island carry exactly this name?
    pub fn has_name(&self, wanted: &String) -> (r: bool)
        ensures
            r == (self.name_spec() == wanted@),
    {
        self.name.eq(wanted)
    }

    /// Resets the island to its newly created state.
    pub fn clear(&mut self)
        ensures
            final(self).current() == Seq::<u64>::empty(),
            final(self).future_gen() == Seq::<u64>::empty(),
            !final(self).sorted_flag(),
            final(self).name_spec() == old(self).name_spec(),
            final(self).eng() == old(self).eng(),
            final(self).wf(),
    {
        self.individuals.clear();
        self.individuals_are_sorted = false;
        self.future.clear();
    }

    /// Returns the most fit individual, the one sorted to the tail, or
    /// nothing if the population is empty or has not been sorted.
    pub fn most_fit_individual(&self) -> (r: Option<u64>)
        requires
            self.wf(),
        ensures
            r is Some <==> (self.sorted_flag() && self.current().len() > 0),
            r matches Some(id) ==> {
                &&& id == self.current().last()
                &&& forall|i: int|
                    0 <= i < self.current().len()
                        ==> self.eng().score_spec(#[trigger] self.current()[i])
                        <= self.eng().score_spec(id)
            },
    {
        if !self.individuals_are_sorted {
            return None;
        }
        let n = self.individuals.len();
        if n == 0 {
            None
        } else {
            Some(self.individuals[n - 1])
        }
    }

    /// Returns the least fit individual, the one sorted to the head, or
    /// nothing if the population is empty or has not been sorted.
    pub fn least_fit_individual(&self) -> (r: Option<u64>)
        requires
            self.wf(),
        ensures
            r is Some <==> (self.sorted_flag() && self.current().len() > 0),
            r matches Some(id) ==> {
                &&& id == self.current().first()
                &&& forall|i: int|
                    0 <= i < self.current().len()
                        ==> self.eng().score_spec(id)
                        <= self.eng().score_spec(#[trigger] self.current()[i])
            },
    {
        if !self.individuals_are_sorted {
            return None;
        }
        if self.individuals.len() == 0 {
            None
        } else {
            Some(self.individuals[0])
        }
    }

    /// Returns one individual by index, or nothing if the index is out of
    /// range.
    pub fn get_one_individual(&self, index: usize) -> (r: Option<u64>)
        ensures
            r is Some <==> index < self.current().len(),
            r matches Some(id) ==> id == self.current()[index as int],
    {
        if index < self.individuals.len() {
            Some(self.individuals[index])
        } else {
            None
        }
    }

    /// Runs one generation: the evaluation capability's pre-pass hook,
    /// then its run hook once per individual in population order, then its
    /// post-pass hook, and finally a sort of the current generation.
    pub fn run_one_generation(&mut self)
        ensures
            final(self).current().to_multiset() == old(self).current().to_multiset(),
            final(self).current().len() == old(self).current().len(),
            final(self).sorted_flag(),
            final(self).wf(),
            sorted_by_score(final(self).eng(), final(self).current()),
            exists|pos: Seq<int>|
                stable_rearrangement(
                    final(self).eng(),
                    old(self).current(),
                    final(self).current(),
                    pos,
                ),
            final(self).future_gen() == old(self).future_gen(),
            final(self).name_spec() == old(self).name_spec(),
    {
        self.engine.pre_generation_run(&self.individuals);

        let ghost pre_individuals = self.individuals@;
        let ghost pre_future = self.future@;
        let ghost pre_name = self.name@;
        let mut i: usize = 0;
        while i < self.individuals.len()
            invariant
                i <= self.individuals@.len(),
                self.individuals@ == pre_individuals,
                self.future@ == pre_future,
                self.name@ == pre_name,
            decreases self.individuals@.len() - i,
        {
            let id = self.individuals[i];
            self.engine.run_individual(id);
            i = i + 1;
        }

        self.engine.post_generation_run(&self.individuals);

        let ghost before_sort = self.individuals@;
        self.sort_individuals();
        proof {
            assert(before_sort == pre_individuals);
            let pos = choose|pos: Seq<int>|
                stable_rearrangement(self.eng(), before_sort, self.current(), pos);
            assert(stable_rearrangement(self.eng(), pre_individuals, self.current(), pos));
        }
    }

    /// Stable-sorts the current generation ascending by the evaluation
    /// capability's comparison, least fit first, and marks it sorted.
    pub fn sort_individuals(&mut self)
        ensures
            final(self).current().to_multiset() == old(self).current().to_multiset(),
            final(self).current().len() == old(self).current().len(),
            final(self).sorted_flag(),
            final(self).wf(),
            sorted_by_score(final(self).eng(), final(self).current()),
            exists|pos: Seq<int>|
                stable_rearrangement(
                    final(self).eng(),
                    old(self).current(),
                    final(self).current(),
                    pos,
                ),
            final(self).future_gen() == old(self).future_gen(),
            final(self).name_spec() == old(self).name_spec(),
            final(self).eng() == old(self).eng(),
    {
        sort_by_engine(&self.engine, &mut self.individuals);
        self.individuals_are_sorted = true;
    }

    /// Returns the current number of individuals on the island.
    pub fn len(&self) -> (r: usize)
        ensures
            r == self.current().len(),
    {
        self.individuals.len()
    }

    /// Returns the number of individuals staged for the next generation.
    pub fn len_future_generation(&self) -> (r: usize)
        ensures
            r == self.future_gen().len(),
    {
        self.future.len()
    }

    /// Discards the current generation entirely, promotes the future
    /// generation in its place, and clears the sorted flag. This is the
    /// only way the current generation changes identity.
    pub fn advance_generation(&mut self)
        ensures
            final(self).current() == old(self).future_gen(),
            final(self).future_gen() == Seq::<u64>::empty(),
            !final(self).sorted_flag(),
            final(self).name_spec() == old(self).name_spec(),
            final(self).eng() == old(self).eng(),
            final(self).wf(),
    {
        self.individuals.clear();
        self.individuals_are_sorted = false;
        core::mem::swap(&mut self.individuals, &mut self.future);
    }

    /// Selects one individual according to the curve and borrows it, or
    /// returns nothing if the population is empty or not sorted.
    pub fn select_one_individual(&self, curve: SelectionCurve, rng: &mut StdRng) -> (r: Option<
        u64,
    >)
        ensures
            r is Some <==> (self.sorted_flag() && self.current().len() > 0),
            r matches Some(id) ==> self.current().contains(id),
    {
        if !self.individuals_are_sorted {
            return None;
        }
        let max = self.individuals.len();
        if max == 0 {
            None
        } else {
            let index = curve.pick_one_index(rng, max);
            let id = self.individuals[index];
            proof {
                assert(self.current()[index as int] == id);
            }
            Some(id)
        }
    }

    /// Selects one individual according to the curve and removes it
    /// permanently, or returns nothing if the population is empty or not
    /// sorted.
    pub fn select_and_remove_one_individual(
        &mut self,
        curve: SelectionCurve,
        rng: &mut StdRng,
    ) -> (r: Option<u64>)
        requires
            old(self).wf(),
        ensures
            final(self).wf(),
            r is Some <==> (old(self).sorted_flag() && old(self).current().len() > 0),
            r is None ==> *final(self) == *old(self),
            r matches Some(id) ==> {
                &&& old(self).current().contains(id)
                &&& exists|i: int|
                    0 <= i < old(self).current().len() && old(self).current()[i] == id && final(
                        self).current() == old(self).current().remove(i)
                &&& final(self).current().to_multiset() == old(self).current().to_multiset().remove(
                    id)
                &&& final(self).current().len() == old(self).current().len() - 1
                &&& final(self).sorted_flag() == old(self).sorted_flag()
                &&& final(self).future_gen() == old(self).future_gen()
                &&& final(self).name_spec() == old(self).name_spec()
                &&& final(self).eng() == old(self).eng()
            },
    {
        if !self.individuals_are_sorted {
            return None;
        }
        let max = self.individuals.len();
        if max == 0 {
            None
        } else {
            let index = curve.pick_one_index(rng, max);
            let ghost before = self.individuals@;
            let id = self.individuals.remove(index);
            proof {
                broadcast use vstd::seq_lib::group_to_multiset_ensures;

                assert(before.contains(id)) by {
                    assert(before[index as int] == id);
                }
                assert forall|a: int, b: int|
                    0 <= a < b < self.individuals@.len() implies self.eng().score_spec(
                    self.individuals@[a],
                ) <= self.eng().score_spec(self.individuals@[b]) by {
                    assert(self.individuals@[a] == if a < index as int {
                        before[a]
                    } else {
                        before[a + 1]
                    });
                    assert(self.individuals@[b] == if b < index as int {
                        before[b]
                    } else {
                        before[b + 1]
                    });
                }
            }
            Some(id)
        }
    }

    /// Adds an individual to the future generation.
    pub fn add_individual_to_future_generation(&mut self, id: u64)
        ensures
            final(self).future_gen() == old(self).future_gen().push(id),
            final(self).current() == old(self).current(),
            final(self).sorted_flag() == old(self).sorted_flag(),
            final(self).name_spec() == old(self).name_spec(),
            final(self).eng() == old(self).eng(),
            old(self).wf() ==> final(self).wf(),
    {
        self.future.push(id);
    }

    /// Returns the score for the individual at the given index, or
    /// nothing if the index is out of bounds.
    pub fn score_for_individual(&self, index: usize) -> (r: Option<u64>)
        ensures
            r is Some <==> index < self.current().len(),
            r matches Some(score) ==> score == self.eng().score_spec(
                self.current()[index as int],
            ),
    {
        if let Some(id) = self.get_one_individual(index) {
            Some(self.engine.score_individual(id))
        } else {
            None
        }
    }
}

/// Finds the index of a least-fit individual, scanning left to right and
/// keeping the first minimum, so the sort built on it is stable.
fn find_min_index<E: IslandEngine>(engine: &E, v: &Vec<u64>) -> (r: usize)
    requires
        v@.len() > 0,
    ensures
        r < v@.len(),
        forall|j: int|
            0 <= j < v@.len() ==> engine.score_spec(v@[r as int]) <= engine.score_spec(
                #[trigger] v@[j],
            ),
        forall|j: int|
            0 <= j < r ==> engine.score_spec(v@[r as int]) < engine.score_spec(#[trigger] v@[j]),
{
    let mut min_index: usize = 0;
    let mut j: usize = 1;
    while j < v.len()
        invariant
            min_index < j,
            1 <= j <= v@.len(),
            forall|k: int|
                0 <= k < j ==> engine.score_spec(v@[min_index as int]) <= engine.score_spec(
                    #[trigger] v@[k],
                ),
            forall|k: int|
                0 <= k < min_index ==> engine.score_spec(v@[min_index as int])
                    < engine.score_spec(#[trigger] v@[k]),
        decreases v@.len() - j,
    {
        let ord = engine.sort_individuals(v[j], v[min_index]);
        let is_less = match ord {
            Ordering::Less => true,
            _ => false,
        };
        if is_less {
            min_index = j;
        }
        j = j + 1;
    }
    min_index
}

/// Sorts `v` ascending by the engine's score by repeatedly moving the
/// first remaining minimum to the output, which keeps equal-scored
/// individuals in their original order.
/// `pos` witnesses that `sorted` is a stable rearrangement of `orig`
/// under the engine's score: every output slot names the distinct input
/// slot it came from, and slots holding equal scores keep their input
/// order.
pub open spec fn stable_rearrangement<E: IslandEngine>(
    engine: E,
    orig: Seq<u64>,
    sorted: Seq<u64>,
    pos: Seq<int>,
) -> bool {
    &&& pos.len() == sorted.len()
    &&& sorted.len() == orig.len()
    &&& (forall|k: int|
        0 <= k < pos.len() ==> 0 <= #[trigger] pos[k] < orig.len() && sorted[k] == orig[pos[k]])
    &&& (forall|k: int, l: int| 0 <= k < l < pos.len() ==> pos[k] != pos[l])
    &&& (forall|k: int, l: int|
        0 <= k < l < pos.len() && engine.score_spec(sorted[k]) == engine.score_spec(sorted[l])
            ==> pos[k] < pos[l])
}

fn sort_by_engine<E: IslandEngine>(engine: &E, v: &mut Vec<u64>)
    ensures
        final(v)@.to_multiset() == old(v)@.to_multiset(),
        final(v)@.len() == old(v)@.len(),
        sorted_by_score(*engine, final(v)@),
        exists|pos: Seq<int>| stable_rearrangement(*engine, old(v)@, final(v)@, pos),
{
    let ghost orig = v@;
    let mut out: Vec<u64> = Vec::new();
    let ghost mut pos = Seq::<int>::empty();
    let ghost mut rem = Seq::<int>::new(orig.len(), |i: int| i);
    proof {
        broadcast use vstd::seq_lib::group_to_multiset_ensures;

        assert(out@.to_multiset().add(v@.to_multiset()) =~= orig.to_multiset());
    }
    while v.len() > 0
        invariant
            out@.to_multiset().add(v@.to_multiset()) == orig.to_multiset(),
            out@.len() + v@.len() == orig.len(),
            sorted_by_score(*engine, out@),
            forall|k: int, l: int|
                0 <= k < out@.len() && 0 <= l < v@.len() ==> engine.score_spec(
                    #[trigger] out@[k],
                ) <= engine.score_spec(#[trigger] v@[l]),
            rem.len() == v@.len(),
            forall|j: int|
                0 <= j < rem.len() ==> 0 <= #[trigger] rem[j] < orig.len() && v@[j] == orig[rem[j]],
            forall|j: int, l: int| 0 <= j < l < rem.len() ==> rem[j] < rem[l],
            pos.len() == out@.len(),
            forall|k: int|
                0 <= k < pos.len() ==> 0 <= #[trigger] pos[k] < orig.len() && out@[k] == orig[pos[k]],
            forall|k: int, l: int| 0 <= k < l < pos.len() ==> pos[k] != pos[l],
            forall|k: int, j: int|
                0 <= k < pos.len() && 0 <= j < rem.len() ==> #[trigger] pos[k] != #[trigger] rem[j],
            forall|k: int, l: int|
                0 <= k < l < pos.len() && engine.score_spec(out@[k]) == engine.score_spec(out@[l])
                    ==> pos[k] < pos[l],
            forall|k: int, j: int|
                0 <= k < pos.len() && 0 <= j < rem.len() && engine.score_spec(out@[k])
                    == engine.score_spec(v@[j]) ==> #[trigger] pos[k] < #[trigger] rem[j],
        decreases v@.len(),
    {
        let m = find_min_index(engine, v);
        let ghost v_before = v@;
        let ghost out_before = out@;
        let ghost rem_before = rem;
        let ghost pos_before = pos;
        let x = v.remove(m);
        out.push(x);
        proof {
            pos = pos_before.push(rem_before[m as int]);
            rem = rem_before.remove(m as int);
            assert forall|j: int| 0 <= j < rem.len() implies 0 <= #[trigger] rem[j] < orig.len()
                && v@[j] == orig[rem[j]] && rem_before[m as int] < rem[j] == (if j < m as int {
                rem_before[j]
            } else {
                rem_before[j + 1]
            }) || rem[j] < rem_before[m as int] by {
                assert(rem[j] == if j < m as int {
                    rem_before[j]
                } else {
                    rem_before[j + 1]
                });
                assert(v@[j] == if j < m as int {
                    v_before[j]
                } else {
                    v_before[j + 1]
                });
            }
            broadcast use vstd::seq_lib::group_to_multiset_ensures;
            broadcast use vstd::multiset::group_multiset_axioms;

            assert(v_before[m as int] == x);
            assert(v@.to_multiset() =~= v_before.to_multiset().remove(x));
            assert(out@.to_multiset() =~= out_before.to_multiset().insert(x));
            assert(out@.to_multiset().add(v@.to_multiset()) =~= orig.to_multiset()) by {
                assert(out_before.to_multiset().add(v_before.to_multiset())
                    == orig.to_multiset());
                assert(v_before.to_multiset().count(x) > 0) by {
                    assert(v_before.contains(x)) by {
                        assert(v_before[m as int] == x);
                    }
                }
                assert forall|y: u64|
                    out@.to_multiset().add(v@.to_multiset()).count(y) == orig.to_multiset().count(
                        y,
                    ) by {
                    assert(out@.to_multiset().count(y) == out_before.to_multiset().count(y) + (
                    if y == x {
                        1int
                    } else {
                        0int
                    }));
                    assert(v@.to_multiset().count(y) == v_before.to_multiset().count(y) - (
                    if y == x {
                        1int
                    } else {
                        0int
                    }));
                }
            }
            assert forall|k: int, l: int|
                0 <= k < out@.len() && 0 <= l < v@.len() implies engine.score_spec(
                #[trigger] out@[k],
            ) <= engine.score_spec(#[trigger] v@[l]) by {
                assert(v@[l] == if l < m as int {
                    v_before[l]
                } else {
                    v_before[l + 1]
                });
                if k < out@.len() - 1 {
                    assert(out@[k] == out_before[k]);
                } else {
                    assert(out@[k] == x);
                }
            }
            assert forall|k: int, j: int|
                0 <= k < pos.len() && 0 <= j < rem.len() && engine.score_spec(out@[k])
                    == engine.score_spec(v@[j]) implies #[trigger] pos[k] < #[trigger] rem[j] by {
                assert(rem[j] == if j < m as int {
                    rem_before[j]
                } else {
                    rem_before[j + 1]
                });
                assert(v@[j] == if j < m as int {
                    v_before[j]
                } else {
                    v_before[j + 1]
                });
                if k < pos.len() - 1 {
                    assert(pos[k] == pos_before[k]);
                    assert(out@[k] == out_before[k]);
                } else {
                    assert(pos[k] == rem_before[m as int]);
                    assert(out@[k] == x);
                    // an equal-scored survivor sat strictly after the
                    // first minimum, so its input slot is larger
                    assert(j >= m as int) by {
                        if j < m as int {
                            assert(engine.score_spec(v_before[j]) > engine.score_spec(x));
                        }
                    }
                    assert(rem[j] == rem_before[j + 1]);
                    assert(rem_before[m as int] < rem_before[j + 1]);
                }
            }
            assert forall|k: int, l: int|
                0 <= k < l < pos.len() && engine.score_spec(out@[k]) == engine.score_spec(
                    out@[l],
                ) implies pos[k] < pos[l] by {
                if l < pos.len() - 1 {
                    assert(pos[k] == pos_before[k] && pos[l] == pos_before[l]);
                    assert(out@[k] == out_before[k] && out@[l] == out_before[l]);
                } else {
                    assert(pos[l] == rem_before[m as int]);
                    assert(out@[l] == x);
                    assert(pos[k] == pos_before[k]);
                    assert(out@[k] == out_before[k]);
                    assert(v_before[m as int] == x);
                    assert(pos_before[k] < rem_before[m as int]);
                }
            }
        }
    }
    proof {
        assert(v@.len() == 0);
        assert(v@.to_multiset() =~= Multiset::<u64>::empty()) by {
            broadcast use vstd::seq_lib::group_to_multiset_ensures;

        }
        assert(out@.to_multiset() =~= orig.to_multiset()) by {
            broadcast use vstd::multiset::group_multiset_axioms;

        }
        assert(stable_rearrangement(*engine, orig, out@, pos));
    }
    *v = out;
}

} // verus!
