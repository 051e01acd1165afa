//! Spec-level accounting for the migration topologies: the total
//! population across islands, and permutations of island-index space.

use vstd::prelude::*;
use vstd::multiset::Multiset;
use crate::island::Island;
use crate::island_engine::IslandEngine;

verus! {

/// How many individuals an island holds, counting both its current and
/// its staged future generation.
pub open spec fn island_size<E: IslandEngine>(island: Island<E>) -> int {
    island.current().len() + island.future_gen().len() as int
}

/// The total number of individuals across all islands, current and
/// future generations included.
pub open spec fn total_individuals<E: IslandEngine>(islands: Seq<Island<E>>) -> int
    decreases islands.len(),
{
    if islands.len() <= 0 {
        0
    } else {
        total_individuals(islands.drop_last()) + island_size(islands.last())
    }
}

/// Replacing one island changes the total by the difference of the two
/// island sizes.
pub proof fn lemma_total_individuals_update<E: IslandEngine>(
    islands: Seq<Island<E>>,
    k: int,
    island: Island<E>,
)
    requires
        0 <= k < islands.len(),
    ensures
        total_individuals(islands.update(k, island)) == total_individuals(islands) + island_size(
            island,
        ) - island_size(islands[k]),
    decreases islands.len(),
{
    let upd = islands.update(k, island);
    if k == islands.len() - 1 {
        assert(upd.drop_last() =~= islands.drop_last());
        assert(upd.last() == island);
    } else {
        assert(upd.drop_last() =~= islands.drop_last().update(k, island));
        assert(upd.last() == islands.last());
        lemma_total_individuals_update(islands.drop_last(), k, island);
    }
}

/// Every handle an island holds, current and future generations
/// together, with multiplicity.
pub open spec fn island_handles<E: IslandEngine>(island: Island<E>) -> Multiset<u64> {
    island.current().to_multiset().add(island.future_gen().to_multiset())
}

/// Every handle held anywhere in the world, with multiplicity.
pub open spec fn all_handles<E: IslandEngine>(islands: Seq<Island<E>>) -> Multiset<u64>
    decreases islands.len(),
{
    if islands.len() <= 0 {
        Multiset::<u64>::empty()
    } else {
        all_handles(islands.drop_last()).add(island_handles(islands.last()))
    }
}

/// Replacing one island changes each handle's count by the difference
/// of its counts on the two islands.
pub proof fn lemma_all_handles_update<E: IslandEngine>(
    islands: Seq<Island<E>>,
    k: int,
    island: Island<E>,
)
    requires
        0 <= k < islands.len(),
    ensures
        forall|x: u64|
            all_handles(islands.update(k, island)).count(x) as int == all_handles(islands).count(
                x,
            ) as int - island_handles(islands[k]).count(x) + island_handles(island).count(x),
    decreases islands.len(),
{
    broadcast use vstd::multiset::group_multiset_axioms;

    let upd = islands.update(k, island);
    if k == islands.len() - 1 {
        assert(upd.drop_last() =~= islands.drop_last());
        assert(upd.last() == island);
        assert forall|x: u64|
            all_handles(upd).count(x) as int == all_handles(islands).count(x) as int
                - island_handles(islands[k]).count(x) + island_handles(island).count(x) by {
            assert(all_handles(upd).count(x) == all_handles(upd.drop_last()).count(x)
                + island_handles(upd.last()).count(x));
            assert(all_handles(islands).count(x) == all_handles(islands.drop_last()).count(x)
                + island_handles(islands.last()).count(x));
        }
    } else {
        assert(upd.drop_last() =~= islands.drop_last().update(k, island));
        assert(upd.last() == islands.last());
        lemma_all_handles_update(islands.drop_last(), k, island);
        assert forall|x: u64|
            all_handles(upd).count(x) as int == all_handles(islands).count(x) as int
                - island_handles(islands[k]).count(x) + island_handles(island).count(x) by {
            assert(all_handles(upd).count(x) == all_handles(islands.drop_last().update(
                k,
                island,
            )).count(x) + island_handles(islands.last()).count(x));
            assert(all_handles(islands).count(x) == all_handles(islands.drop_last()).count(x)
                + island_handles(islands.last()).count(x));
            assert(islands.drop_last()[k] == islands[k]);
        }
    }
}

/// Islands holding pairwise the same handles carry the same handles in
/// total.
pub proof fn lemma_all_handles_pointwise<E: IslandEngine>(
    s1: Seq<Island<E>>,
    s2: Seq<Island<E>>,
)
    requires
        s1.len() == s2.len(),
        forall|i: int|
            0 <= i < s1.len() ==> island_handles(#[trigger] s1[i]) == island_handles(s2[i]),
    ensures
        all_handles(s1) == all_handles(s2),
    decreases s1.len(),
{
    if s1.len() > 0 {
        lemma_all_handles_pointwise(s1.drop_last(), s2.drop_last());
    }
}

/// Islands of pairwise equal size carry the same total.
pub proof fn lemma_total_individuals_pointwise<E: IslandEngine>(
    s1: Seq<Island<E>>,
    s2: Seq<Island<E>>,
)
    requires
        s1.len() == s2.len(),
        forall|i: int| 0 <= i < s1.len() ==> island_size(#[trigger] s1[i]) == island_size(s2[i]),
    ensures
        total_individuals(s1) == total_individuals(s2),
    decreases s1.len(),
{
    if s1.len() > 0 {
        lemma_total_individuals_pointwise(s1.drop_last(), s2.drop_last());
    }
}

/// The island indices `0, 1, ..., len - 1` in positional order.
pub open spec fn identity_order(len: int) -> Seq<usize> {
    Seq::new(len as nat, |i: int| i as usize)
}

/// `s` lists every island index below `len` exactly once, in some order.
pub open spec fn is_index_permutation(s: Seq<usize>, len: int) -> bool {
    s.to_multiset() == identity_order(len).to_multiset()
}

/// Each index below `len` occurs exactly once in the identity order, and
/// no other value occurs at all.
pub proof fn lemma_identity_order_counts(len: int)
    requires
        0 <= len <= usize::MAX,
    ensures
        identity_order(len).len() == len,
        forall|v: usize|
            identity_order(len).to_multiset().count(v) == if (v as int) < len {
                1int
            } else {
                0int
            },
    decreases len,
{
    broadcast use vstd::seq_lib::group_to_multiset_ensures;
    broadcast use vstd::multiset::group_multiset_axioms;

    if len == 0 {
        assert(identity_order(0) =~= Seq::<usize>::empty());
        assert(identity_order(0).to_multiset() =~= Multiset::<usize>::empty());
    } else {
        lemma_identity_order_counts(len - 1);
        assert(identity_order(len) =~= identity_order(len - 1).push((len - 1) as usize));
        assert(identity_order(len).to_multiset() =~= identity_order(len - 1).to_multiset().insert(
            (len - 1) as usize,
        ));
    }
}

/// What being an index permutation means pointwise: the right length,
/// every entry in range, no entry repeated, and every index below `len`
/// present exactly once.
pub proof fn lemma_index_permutation_facts(s: Seq<usize>, len: int)
    requires
        0 <= len <= usize::MAX,
        is_index_permutation(s, len),
    ensures
        s.len() == len,
        forall|i: int| 0 <= i < len ==> (#[trigger] s[i]) < len,
        s.no_duplicates(),
        forall|v: usize| (v as int) < len ==> s.to_multiset().count(v) == 1,
        forall|v: usize| (v as int) >= len ==> s.to_multiset().count(v) == 0,
{
    broadcast use vstd::seq_lib::group_to_multiset_ensures;
    broadcast use vstd::multiset::group_multiset_axioms;

    lemma_identity_order_counts(len);
    assert(s.to_multiset().len() == identity_order(len).to_multiset().len());
    assert(s.len() == len);
    assert forall|i: int| 0 <= i < len implies (#[trigger] s[i]) < len by {
        assert(s.contains(s[i]));
        assert(s.to_multiset().count(s[i]) > 0);
    }
    s.lemma_multiset_has_no_duplicates_conv();
}

/// The position whose occupant an island receives migrants from in a
/// random-circular pass: the previous position in the shuffled order,
/// wrapping from the first back to the last.
pub open spec fn previous_position(i: int, len: int) -> int {
    if i == 0 {
        len - 1
    } else {
        i - 1
    }
}

/// The destinations of one random-circular pass, position by position:
/// the island at position `i` of the shuffled order sends its migrants to
/// the island listed at the previous position.
pub open spec fn rotate_to_previous(order: Seq<usize>) -> Seq<usize> {
    Seq::new(order.len(), |i: int| order[previous_position(i, order.len() as int)])
}

/// Across one random-circular migration pass every island index appears
/// exactly once as a source and exactly once as a destination: the
/// sources are the shuffled order itself, a permutation of the island
/// indices, and the destinations are that order rotated by one, again a
/// permutation.
pub proof fn lemma_random_circular_pairing(order: Seq<usize>, len: int)
    requires
        1 <= len <= usize::MAX,
        is_index_permutation(order, len),
    ensures
        forall|v: usize| (v as int) < len ==> order.to_multiset().count(v) == 1,
        is_index_permutation(rotate_to_previous(order), len),
        forall|v: usize| (v as int) < len ==> rotate_to_previous(order).to_multiset().count(v) == 1,
        rotate_to_previous(order).len() == len,
        forall|i: int|
            0 <= i < len ==> #[trigger] rotate_to_previous(order)[i] == order[previous_position(
                i,
                len,
            )],
{
    broadcast use vstd::multiset::group_multiset_axioms;

    lemma_index_permutation_facts(order, len);
    let rot = rotate_to_previous(order);
    let front = order.subrange(0, len - 1);
    let back = order.subrange(len - 1, len);
    assert(order =~= front + back);
    assert(rot =~= back + front);
    vstd::seq_lib::lemma_multiset_commutative(front, back);
    vstd::seq_lib::lemma_multiset_commutative(back, front);
    assert(rot.to_multiset() =~= order.to_multiset());
    lemma_index_permutation_facts(rot, len);
}

} // verus!
