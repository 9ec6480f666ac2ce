use vstd::prelude::*;
use crate::signal::{alloc_step, release_step};

verus! {

/// `states` and `results` record successive allocations from a pool whose ids
/// are `ids`: `states[j]` is the occupied set before the `j`-th allocation,
/// `results[j]` what it returned.
pub open spec fn alloc_chain(ids: Set<u64>, states: Seq<Set<u64>>, results: Seq<Option<u64>>) -> bool {
    &&& states.len() == results.len() + 1
    &&& forall|j: int|
        0 <= j < results.len() ==> alloc_step(ids, states[j], #[trigger] results[j], states[j + 1])
}

/// One operation on a signal pool, as far as the set of occupied ids goes.
pub enum PoolOp {
    /// An allocation, and what it returned.
    Alloc(Option<u64>),
    /// A release of the given id, whatever it returned.
    Release(u64),
}

/// `states[j]` is the occupied set before `ops[j]`, and `states[j + 1]` the
/// one after it, for ids `ids`.
pub open spec fn op_trace(ids: Set<u64>, states: Seq<Set<u64>>, ops: Seq<PoolOp>) -> bool {
    &&& states.len() == ops.len() + 1
    &&& forall|j: int|
        0 <= j < ops.len() ==> match #[trigger] ops[j] {
            PoolOp::Alloc(r) => alloc_step(ids, states[j], r, states[j + 1]),
            PoolOp::Release(id) => release_step(states[j], id, states[j + 1]),
        }
}

/// An id that is in use stays in use until it is released.
proof fn lemma_held_until_released(
    ids: Set<u64>,
    states: Seq<Set<u64>>,
    ops: Seq<PoolOp>,
    h: u64,
    a: int,
    b: int,
)
    requires
        op_trace(ids, states, ops),
        0 <= a <= b < states.len(),
        states[a].contains(h),
        forall|i: int| a <= i < b ==> #[trigger] ops[i] != PoolOp::Release(h),
    ensures
        states[b].contains(h),
    decreases b - a,
{
    if a < b {
        lemma_held_until_released(ids, states, ops, h, a, b - 1);
        assert(ops[b - 1] != PoolOp::Release(h));
        match ops[b - 1] {
            PoolOp::Alloc(r) => {
                assert(alloc_step(ids, states[b - 1], r, states[b]));
            },
            PoolOp::Release(id) => {
                assert(release_step(states[b - 1], id, states[b]));
            },
        }
    }
}

/// No double allocation: over any run of allocations and releases, an id
/// that is handed out twice was released between the two.
pub proof fn law_no_double_allocation(
    ids: Set<u64>,
    states: Seq<Set<u64>>,
    ops: Seq<PoolOp>,
    h: u64,
    j: int,
    k: int,
)
    requires
        op_trace(ids, states, ops),
        0 <= j < k < ops.len(),
        ops[j] == PoolOp::Alloc(Some(h)),
        ops[k] == PoolOp::Alloc(Some(h)),
    ensures
        exists|i: int| j < i < k && #[trigger] ops[i] == PoolOp::Release(h),
{
    if !exists|i: int| j < i < k && #[trigger] ops[i] == PoolOp::Release(h) {
        assert(alloc_step(ids, states[j], Some(h), states[j + 1]));
        assert(states[j + 1].contains(h));
        lemma_held_until_released(ids, states, ops, h, j + 1, k);
        assert(alloc_step(ids, states[k], Some(h), states[k + 1]));
    }
}

/// Allocations never free a slot: the occupied set only grows along a chain.
proof fn lemma_chain_grows(
    ids: Set<u64>,
    states: Seq<Set<u64>>,
    results: Seq<Option<u64>>,
    j: int,
    k: int,
)
    requires
        alloc_chain(ids, states, results),
        0 <= j <= k < states.len(),
    ensures
        states[j].subset_of(states[k]),
    decreases k - j,
{
    if j < k {
        lemma_chain_grows(ids, states, results, j, k - 1);
        assert(alloc_step(ids, states[k - 1], results[k - 1], states[k]));
    }
}

/// While free slots remain, each allocation of a chain claims a new id, and
/// the occupied set is the start set plus what was returned.
proof fn lemma_chain_prefix(
    ids: Set<u64>,
    states: Seq<Set<u64>>,
    results: Seq<Option<u64>>,
    n: int,
)
    requires
        alloc_chain(ids, states, results),
        ids.finite(),
        states[0].subset_of(ids),
        0 <= n <= results.len(),
        states[0].len() + n <= ids.len(),
    ensures
        states[n].subset_of(ids),
        states[n].finite(),
        states[n].len() == states[0].len() + n,
        forall|j: int| 0 <= j < n ==> (#[trigger] results[j]) is Some,
        forall|x: u64|
            states[n].contains(x) ==> states[0].contains(x) || exists|j: int|
                0 <= j < n && #[trigger] results[j] == Some(x),
    decreases n,
{
    if n > 0 {
        lemma_chain_prefix(ids, states, results, n - 1);
        let prev = states[n - 1];
        assert(alloc_step(ids, prev, results[n - 1], states[n]));
        vstd::set_lib::lemma_len_subset(prev, ids);
        if results[n - 1] is None {
            assert(prev == ids);
            assert(false);
        }
        let id = results[n - 1]->0;
        assert forall|x: u64| states[n].contains(x) implies states[0].contains(x) || exists|j: int|
            0 <= j < n && #[trigger] results[j] == Some(x) by {
            if x == id {
                assert(results[n - 1] == Some(x));
            } else {
                assert(prev.contains(x));
            }
        }
    } else {
        vstd::set_lib::lemma_len_subset(states[0], ids);
    }
}

/// A finite set that holds a subset of the same size holds exactly that
/// subset.
proof fn lemma_full_subset(sub: Set<u64>, s: Set<u64>)
    requires
        s.finite(),
        sub.subset_of(s),
        sub.len() == s.len(),
    ensures
        sub == s,
{
    if exists|x: u64| s.contains(x) && !sub.contains(x) {
        let x = choose|x: u64| s.contains(x) && !sub.contains(x);
        vstd::set_lib::lemma_len_subset(sub, s.remove(x));
        assert(false);
    }
    assert(sub =~= s);
}

/// Exhaustion: starting with no slot occupied, a pool of `N` ids yields `N`
/// ids of the pool, all distinct, and the allocation after them returns
/// `None`.
pub proof fn law_exhaustion(ids: Set<u64>, states: Seq<Set<u64>>, results: Seq<Option<u64>>)
    requires
        ids.finite(),
        alloc_chain(ids, states, results),
        results.len() == ids.len() + 1,
        states[0] == Set::<u64>::empty(),
    ensures
        forall|j: int| 0 <= j < ids.len() ==> (#[trigger] results[j]) is Some && ids.contains(results[j]->0),
        forall|j: int, k: int|
            0 <= j < k < ids.len() ==> #[trigger] results[j] != #[trigger] results[k],
        results[ids.len() as int] is None,
{
    let n = ids.len() as int;
    lemma_chain_prefix(ids, states, results, n);
    lemma_full_subset(states[n], ids);
    assert(alloc_step(ids, states[n], results[n], states[n + 1]));
    assert forall|j: int| 0 <= j < n implies (#[trigger] results[j]) is Some && ids.contains(results[j]->0) by {
        assert(alloc_step(ids, states[j], results[j], states[j + 1]));
    }
    lemma_chain_distinct(ids, states, results);
}

/// Reuse: once `h` is released, allocating as many times as there are free
/// slots hands `h` out again.
pub proof fn law_reuse(
    ids: Set<u64>,
    held: Set<u64>,
    h: u64,
    states: Seq<Set<u64>>,
    results: Seq<Option<u64>>,
)
    requires
        ids.finite(),
        held.subset_of(ids),
        held.contains(h),
        states[0] == held.remove(h),
        alloc_chain(ids, states, results),
        results.len() == ids.len() - held.len() + 1,
    ensures
        exists|j: int| 0 <= j < results.len() && #[trigger] results[j] == Some(h),
{
    vstd::set_lib::lemma_len_subset(held, ids);
    let n = results.len() as int;
    assert(states[0].len() == held.len() - 1);
    lemma_chain_prefix(ids, states, results, n);
    lemma_full_subset(states[n], ids);
    assert(states[n].contains(h));
}

/// Along allocations with no release between them, no id is handed out
/// twice.
proof fn lemma_chain_distinct(
    ids: Set<u64>,
    states: Seq<Set<u64>>,
    results: Seq<Option<u64>>,
)
    requires
        alloc_chain(ids, states, results),
    ensures
        forall|j: int, k: int|
            0 <= j < k < results.len() && (#[trigger] results[j]) is Some ==> results[j]
                != #[trigger] results[k],
{
    assert forall|j: int, k: int|
        0 <= j < k < results.len() && (#[trigger] results[j]) is Some implies results[j]
        != #[trigger] results[k] by {
        assert(alloc_step(ids, states[j], results[j], states[j + 1]));
        assert(alloc_step(ids, states[k], results[k], states[k + 1]));
        lemma_chain_grows(ids, states, results, j + 1, k);
    }
}

} // verus!
