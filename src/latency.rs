//! The pointer chase: an index array that forms one cycle through every
//! slot, built in random order and then followed step by step.

use vstd::prelude::*;
use crate::memory::pick_below;

verus! {

/// The slots of the index array that the latency probe chases.
pub const LATENCY_ARRAY_SIZE: usize = 1048576;

/// The steps that the latency probe takes.
pub const LATENCY_ITERATIONS: u64 = 10000000;

/// The slot reached from `start` after `steps` steps through `next`.
pub open spec fn follow(next: Seq<usize>, start: int, steps: nat) -> int
    decreases steps,
{
    if steps == 0 {
        start
    } else {
        next[follow(next, start, (steps - 1) as nat)] as int
    }
}

/// `next` is one cycle through all its slots: from slot 0, the first
/// `len` steps reach every slot exactly once, and the step after them is
/// back at slot 0.
pub open spec fn is_single_cycle(next: Seq<usize>) -> bool {
    &&& next.len() > 0
    &&& forall|i: int| 0 <= i < next.len() ==> #[trigger] next[i] < next.len()
    &&& follow(next, 0, next.len()) == 0
    &&& forall|a: nat, b: nat|
        a < b < next.len() ==> #[trigger] follow(next, 0, a) != #[trigger] follow(next, 0, b)
    &&& forall|i: int| 0 <= i < next.len() ==> #[trigger] reached_within(next, i, next.len())
}

/// Slot `i` is reached from slot 0 in fewer than `bound` steps.
pub open spec fn reached_within(next: Seq<usize>, i: int, bound: nat) -> bool {
    exists|k: nat| k < bound && #[trigger] follow(next, 0, k) == i
}

proof fn lemma_follow_order(next: Seq<usize>, order: Seq<int>, k: nat)
    requires
        order.len() > 0,
        order[0] == 0,
        forall|j: int| 0 <= j < order.len() - 1 ==> next[#[trigger] order[j]] == order[j + 1],
        k < order.len(),
    ensures
        follow(next, 0, k) == order[k as int],
    decreases k,
{
    if k > 0 {
        lemma_follow_order(next, order, (k - 1) as nat);
        assert(next[order[k - 1]] == order[k as int]);
    }
}

/// Builds the chase array: starting at slot 0, each step links the current
/// slot to a slot drawn at random from those not yet linked, and the last
/// slot is linked back to slot 0.
pub fn build_chase_cycle(n: usize, rng: &mut fastrand::Rng) -> (next: Vec<usize>)
    requires
        n > 0,
    ensures
        next@.len() == n,
        is_single_cycle(next@),
{
    let mut next: Vec<usize> = Vec::new();
    let mut available: Vec<usize> = Vec::new();
    let mut i: usize = 0;
    while i < n
        invariant
            i <= n,
            next@.len() == i,
            available@.len() == if i == 0 { 0 } else { i - 1 },
            forall|k: int| 0 <= k < available@.len() ==> #[trigger] available@[k] == k + 1,
        decreases n - i,
    {
        next.push(0);
        if i > 0 {
            available.push(i);
        }
        i = i + 1;
    }
    let mut current: usize = 0;
    let ghost mut order: Seq<int> = seq![0int];
    proof {
        assert forall|x: int| 0 <= x < n implies order.contains(x) || available@.contains(
            x as usize,
        ) by {
            if x == 0 {
                assert(order[0] == x);
            } else {
                assert(available@[x - 1] == x);
            }
        }
    }
    while available.len() > 0
        invariant
            next@.len() == n,
            order.len() + available@.len() == n,
            order.len() >= 1,
            order[0] == 0,
            current == order.last(),
            forall|k: int| 0 <= k < order.len() ==> 0 <= #[trigger] order[k] < n,
            forall|a: int, b: int|
                0 <= a < b < order.len() ==> #[trigger] order[a] != #[trigger] order[b],
            forall|k: int|
                0 <= k < available@.len() ==> #[trigger] available@[k] < n && !order.contains(
                    available@[k] as int,
                ),
            forall|x: int| 0 <= x < n ==> order.contains(x) || available@.contains(x as usize),
            forall|a: int, b: int|
                0 <= a < b < available@.len() ==> #[trigger] available@[a]
                    != #[trigger] available@[b],
            forall|j: int|
                0 <= j < order.len() - 1 ==> next@[#[trigger] order[j]] == order[j + 1],
        decreases available@.len(),
    {
        let idx = pick_below(rng, available.len());
        let ghost old_avail = available@;
        let ghost old_order = order;
        let nxt = available.swap_remove(idx);
        next.set(current, nxt);
        current = nxt;
        proof {
            order = order.push(nxt as int);
            assert(!old_order.contains(nxt as int));
            assert forall|a: int, b: int| 0 <= a < b < order.len() implies #[trigger] order[a]
                != #[trigger] order[b] by {
                if b == order.len() - 1 {
                    assert(old_order[a] == order[a]);
                }
            }
            assert forall|j: int| 0 <= j < order.len() - 1 implies next@[#[trigger] order[j]]
                == order[j + 1] by {
                if j < old_order.len() - 1 {
                    assert(order[j] != old_order.last());
                }
            }
            assert forall|k: int| 0 <= k < available@.len() implies #[trigger] available@[k] < n
                && !order.contains(available@[k] as int) by {
                let src = if k == idx { old_avail.len() - 1 } else { k };
                assert(available@[k] == old_avail[src]);
                assert(old_avail[src] < n);
                assert(src != idx);
                assert(old_avail[src] != old_avail[idx as int]);
                assert(!old_order.contains(old_avail[src] as int));
                if order.contains(available@[k] as int) {
                    let q = choose|q: int| 0 <= q < order.len() && order[q] == available@[k] as int;
                    if q < old_order.len() {
                        assert(old_order[q] == order[q]);
                    } else {
                        assert(available@[k] == nxt);
                        assert(src != idx);
                    }
                }
            }
            assert forall|a: int, b: int| 0 <= a < b < available@.len() implies #[trigger] available@[a]
                != #[trigger] available@[b] by {
                let sa = if a == idx { old_avail.len() - 1 } else { a };
                let sb = if b == idx { old_avail.len() - 1 } else { b };
                assert(available@[a] == old_avail[sa]);
                assert(available@[b] == old_avail[sb]);
            }
            assert forall|x: int| 0 <= x < n implies order.contains(x) || available@.contains(
                x as usize,
            ) by {
                if old_order.contains(x) {
                    let q = choose|q: int| 0 <= q < old_order.len() && old_order[q] == x;
                    assert(order[q] == x);
                } else {
                    let q = choose|q: int| 0 <= q < old_avail.len() && old_avail[q] == x as usize;
                    if q == idx {
                        assert(order[order.len() - 1] == x);
                    } else if q == old_avail.len() - 1 {
                        assert(available@[idx as int] == x as usize);
                    } else {
                        assert(available@[q] == x as usize);
                    }
                }
            }
        }
    }
    let ghost last_order = order;
    next.set(current, 0);
    proof {
        assert(order.len() == n);
        assert forall|j: int| 0 <= j < order.len() - 1 implies next@[#[trigger] order[j]] == order[j
            + 1] by {
            assert(order[j] != order[order.len() - 1]);
        }
        assert forall|k: nat| k < n implies follow(next@, 0, k) == order[k as int] by {
            lemma_follow_order(next@, order, k);
        }
        assert(follow(next@, 0, (n - 1) as nat) == order[n - 1]);
        assert(follow(next@, 0, n as nat) == 0);
        assert forall|i: int| 0 <= i < n implies #[trigger] next@[i] < n by {
            assert(order.contains(i));
            let q = choose|q: int| 0 <= q < order.len() && order[q] == i;
            if q < order.len() - 1 {
                assert(next@[order[q]] == order[q + 1]);
            }
        }
        assert forall|a: nat, b: nat| a < b < n implies #[trigger] follow(next@, 0, a)
            != #[trigger] follow(next@, 0, b) by {
            assert(order[a as int] != order[b as int]);
        }
        assert forall|i: int| 0 <= i < n implies #[trigger] reached_within(next@, i, n as nat) by {
            assert(order.contains(i));
            let q = choose|q: int| 0 <= q < order.len() && order[q] == i;
            assert(follow(next@, 0, q as nat) == i);
        }
    }
    next
}

/// Follows `next` from slot 0 for `steps` steps and returns the slot reached.
pub fn chase(next: &Vec<usize>, steps: u64) -> (r: usize)
    requires
        next@.len() > 0,
        forall|i: int| 0 <= i < next@.len() ==> #[trigger] next@[i] < next@.len(),
    ensures
        r == follow(next@, 0, steps as nat),
        r < next@.len(),
{
    let mut current: usize = 0;
    let mut s: u64 = 0;
    while s < steps
        invariant
            s <= steps,
            current < next@.len(),
            current == follow(next@, 0, s as nat),
            forall|i: int| 0 <= i < next@.len() ==> #[trigger] next@[i] < next@.len(),
        decreases steps - s,
    {
        current = next[current];
        s = s + 1;
    }
    current
}

} // verus!
