//! What the ICE connectivity panel shows of the candidate pairs: how many
//! pairs are in each state, and the pairs that the state filter lets
//! through, by first sighting.
use vstd::prelude::*;
use super::types::{CandidatePairState, IceCandidatesData, PairView};
use crate::app::tables::row_order::{
    key_views, lemma_lists_every_row, lists_all, listed_by_key, order_by_key, stable_order,
};

verus! {

/// The number of pairs in state `s`.
pub open spec fn count_in_state(pairs: Seq<PairView>, s: CandidatePairState) -> nat {
    pairs.filter(|p: PairView| p.state == s).len()
}

/// The state filter lets a pair through: no filter, or the pair's state.
pub open spec fn passes_state(filter: Option<CandidatePairState>, p: PairView) -> bool {
    match filter {
        None => true,
        Some(s) => p.state == s,
    }
}

/// The indices below `n` of the pairs that the filter lets through, in
/// order.
pub open spec fn passing_upto(pairs: Seq<PairView>, filter: Option<CandidatePairState>, n: int) -> Seq<
    usize,
>
    decreases n,
{
    if n <= 0 {
        Seq::empty()
    } else if passes_state(filter, pairs[n - 1]) {
        passing_upto(pairs, filter, n - 1).push((n - 1) as usize)
    } else {
        passing_upto(pairs, filter, n - 1)
    }
}

/// The pairs, as indices, that the panel lists: those that the filter lets
/// through, by first sighting, pairs first seen at the same time in their
/// order.
pub open spec fn listed_pairs(pairs: Seq<PairView>, filter: Option<CandidatePairState>) -> Seq<usize> {
    let passing = passing_upto(pairs, filter, pairs.len() as int);
    let seen = passing.map_values(|i: usize| pairs[i as int].first_seen);
    stable_order::<u128>(seen).map_values(|k: usize| passing[k as int])
}

/// How many pairs are in state `s`.
pub fn pairs_in_state(data: &IceCandidatesData, s: CandidatePairState) -> (n: usize)
    ensures
        n == count_in_state(data@, s),
{
    let pairs = &data.candidate_pairs;
    let mut n: usize = 0;
    let mut i: usize = 0;
    let ghost f = |p: PairView| p.state == s;
    assert(data@.subrange(0, 0).filter(f) =~= Seq::<PairView>::empty());
    while i < pairs.len()
        invariant
            i <= pairs@.len(),
            data@ == pairs@.map_values(|p: super::types::CandidatePairStats| p@),
            f == (|p: PairView| p.state == s),
            n == data@.subrange(0, i as int).filter(f).len(),
            n <= i,
        decreases pairs.len() - i,
    {
        let ghost before = data@.subrange(0, i as int);
        assert(data@.subrange(0, i + 1) =~= before.push(data@[i as int]));
        proof {
            before.lemma_filter_push(data@[i as int], f);
        }
        if pairs[i].state == s {
            n = n + 1;
        }
        i = i + 1;
    }
    assert(data@.subrange(0, i as int) =~= data@);
    n
}

/// The pairs, as indices into `data.candidate_pairs`, that the panel lists
/// under the state filter `filter` (see [`listed_pairs`]).
pub fn visible_pairs(data: &IceCandidatesData, filter: Option<CandidatePairState>) -> (r: Vec<usize>)
    ensures
        r@ == listed_pairs(data@, filter),
        r@.no_duplicates(),
        forall|k: int|
            0 <= k < r@.len() ==> r@[k] < data@.len() && passes_state(filter, data@[r@[k] as int]),
        forall|i: int|
            0 <= i < data@.len() && passes_state(filter, #[trigger] data@[i]) ==> r@.contains(
                i as usize,
            ),
        forall|k1: int, k2: int|
            0 <= k1 < k2 < r@.len() ==> data@[r@[k1] as int].first_seen <= data@[r@[k2] as int].first_seen,
{
    let pairs = &data.candidate_pairs;
    let ghost v = data@;
    let mut passing: Vec<usize> = Vec::new();
    let mut seen: Vec<u128> = Vec::new();
    let mut i: usize = 0;
    while i < pairs.len()
        invariant
            i <= pairs@.len(),
            v == data@,
            v == pairs@.map_values(|p: super::types::CandidatePairStats| p@),
            passing@ == passing_upto(v, filter, i as int),
            seen@ == passing@.map_values(|j: usize| v[j as int].first_seen),
            forall|k: int| 0 <= k < passing@.len() ==> passing@[k] < i,
            forall|k: int|
                0 <= k < passing@.len() ==> passes_state(filter, v[passing@[k] as int]),
            forall|k1: int, k2: int|
                0 <= k1 < k2 < passing@.len() ==> passing@[k1] < passing@[k2],
            forall|j: int|
                0 <= j < i && passes_state(filter, #[trigger] v[j]) ==> passing@.contains(
                    j as usize,
                ),
        decreases pairs.len() - i,
    {
        let through = match filter {
            None => true,
            Some(s) => pairs[i].state == s,
        };
        assert(through == passes_state(filter, v[i as int]));
        let ghost before = passing@;
        if through {
            passing.push(i);
            seen.push(pairs[i].first_seen);
            assert(seen@ =~= passing@.map_values(|j: usize| v[j as int].first_seen));
            assert(passing@[passing@.len() - 1] == i);
        }
        assert forall|j: int| 0 <= j < i + 1 && passes_state(filter, #[trigger] v[j]) implies passing@.contains(
            j as usize,
        ) by {
            if j < i {
                let m = choose|m: int| 0 <= m < before.len() && before[m] == j as usize;
                assert(passing@[m] == j as usize);
            } else {
                assert(passing@[passing@.len() - 1] == j as usize);
            }
        }
        i = i + 1;
    }
    assert(key_views(seen@) =~= seen@);
    let order = order_by_key(&seen);
    let mut r: Vec<usize> = Vec::new();
    let mut k: usize = 0;
    while k < order.len()
        invariant
            k <= order@.len(),
            order@ == stable_order::<u128>(seen@),
            order@.len() == passing@.len(),
            forall|q: int| 0 <= q < order@.len() ==> order@[q] < passing@.len(),
            r@ == order@.subrange(0, k as int).map_values(|q: usize| passing@[q as int]),
        decreases order.len() - k,
    {
        r.push(passing[order[k]]);
        k = k + 1;
        assert(r@ =~= order@.subrange(0, k as int).map_values(|q: usize| passing@[q as int]));
    }
    assert(order@.subrange(0, k as int) =~= order@);
    proof {
        let n = passing@.len();
        assert(lists_all(order@, n));
        assert(listed_by_key::<u128>(key_views(seen@), order@));
        lemma_lists_every_row(order@, n);
        assert forall|k1: int, k2: int| 0 <= k1 < k2 < r@.len() implies r@[k1] != r@[k2] by {
            assert(order@[k1] != order@[k2]);
            let a = order@[k1] as int;
            let b = order@[k2] as int;
            if a < b {
                assert(passing@[a] < passing@[b]);
            } else {
                assert(passing@[b] < passing@[a]);
            }
        }
        assert forall|i: int|
            0 <= i < v.len() && passes_state(filter, #[trigger] v[i]) implies r@.contains(
            i as usize,
        ) by {
            let m = choose|m: int| 0 <= m < n && passing@[m] == i as usize;
            assert(order@.contains(m as usize));
            let q = choose|q: int| 0 <= q < order@.len() && order@[q] == m as usize;
            assert(r@[q] == i as usize);
        }
        assert forall|k1: int, k2: int| 0 <= k1 < k2 < r@.len() implies v[r@[k1] as int].first_seen
            <= v[r@[k2] as int].first_seen by {
            let a = order@[k1] as int;
            let b = order@[k2] as int;
            assert(key_views(seen@)[a] == seen@[a]);
            assert(key_views(seen@)[b] == seen@[b]);
            assert(crate::app::tables::row_order::listed_before::<u128>(key_views(seen@), a, b));
            assert(seen@[a] == v[passing@[a] as int].first_seen);
            assert(seen@[b] == v[passing@[b] as int].first_seen);
            assert(r@[k1] == passing@[a]);
            assert(r@[k2] == passing@[b]);
        }
    }
    r
}

} // verus!
