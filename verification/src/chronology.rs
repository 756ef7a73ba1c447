//! Putting records into chronological order.
use vstd::prelude::*;

verus! {

/// Record `i` comes before record `j`: earlier, or at the same time and listed
/// first.
pub open spec fn comes_before(times: Seq<i128>, i: int, j: int) -> bool {
    times[i] < times[j] || (times[i] == times[j] && i < j)
}

/// `order` lists the first `n` positions of `times` chronologically, each
/// once; records of the same time keep their order.
pub open spec fn is_time_order(times: Seq<i128>, order: Seq<usize>, n: int) -> bool {
    &&& forall|k: int| 0 <= k < order.len() ==> (#[trigger] order[k]) < n
    &&& forall|k: int, l: int|
        0 <= k < l < order.len() ==> comes_before(
            times,
            (#[trigger] order[k]) as int,
            (#[trigger] order[l]) as int,
        )
    &&& forall|i: int| 0 <= i < n ==> lists_position(order, i)
}

pub open spec fn lists_position(order: Seq<usize>, i: int) -> bool {
    exists|k: int| 0 <= k < order.len() && #[trigger] order[k] == i
}

/// The chronological order of records, as positions.
pub fn time_order(times: &Vec<i128>) -> (order: Vec<usize>)
    ensures
        is_time_order(times@, order@, times@.len() as int),
{
    let mut order: Vec<usize> = Vec::new();
    let mut i: usize = 0;
    while i < times.len()
        invariant
            i <= times.len(),
            is_time_order(times@, order@, i as int),
        decreases times.len() - i,
    {
        let ghost before = order@;
        let mut at: usize = order.len();
        while at > 0 && times[order[at - 1]] > times[i]
            invariant
                at <= order.len(),
                order@ == before,
                i < times.len(),
                is_time_order(times@, before, i as int),
                forall|k: int|
                    at <= k < before.len() ==> times@[(#[trigger] before[k]) as int]
                        > times@[i as int],
            decreases at,
        {
            at = at - 1;
        }
        order.insert(at, i);
        proof {
            let after = order@;
            assert forall|k: int| 0 <= k < after.len() implies (#[trigger] after[k]) < i + 1 by {
                if k < at {
                    assert(after[k] == before[k]);
                } else if k > at {
                    assert(after[k] == before[k - 1]);
                }
            }
            assert forall|k: int, l: int| 0 <= k < l < after.len() implies comes_before(
                times@,
                (#[trigger] after[k]) as int,
                (#[trigger] after[l]) as int,
            ) by {
                if l < at {
                    assert(after[k] == before[k] && after[l] == before[l]);
                } else if l == at {
                    assert(after[k] == before[k]);
                    assert(before[k] < i);
                    if k < at - 1 {
                        assert(comes_before(times@, before[k] as int, before[at - 1] as int));
                    }
                } else if k < at {
                    assert(after[k] == before[k] && after[l] == before[l - 1]);
                } else if k == at {
                    assert(after[l] == before[l - 1]);
                } else {
                    assert(after[k] == before[k - 1] && after[l] == before[l - 1]);
                }
            }
            assert forall|j: int| 0 <= j < i + 1 implies lists_position(after, j) by {
                if j == i {
                    assert(after[at as int] == j);
                } else {
                    assert(lists_position(before, j));
                    let k = choose|k: int| 0 <= k < before.len() && #[trigger] before[k] == j;
                    if k < at {
                        assert(after[k] == j);
                    } else {
                        assert(after[k + 1] == j);
                    }
                }
            }
        }
        i = i + 1;
    }
    order
}

/// Records have one chronological order.
pub proof fn the_time_order_is_unique(times: Seq<i128>, a: Seq<usize>, b: Seq<usize>, n: int)
    requires
        is_time_order(times, a, n),
        is_time_order(times, b, n),
    ensures
        a == b,
{
    lemma_prefix_agrees(times, a, b, n, a.len() as int);
    lemma_prefix_agrees(times, b, a, n, b.len() as int);
    assert(a =~= b);
}

proof fn lemma_prefix_agrees(times: Seq<i128>, a: Seq<usize>, b: Seq<usize>, n: int, k: int)
    requires
        is_time_order(times, a, n),
        is_time_order(times, b, n),
        0 <= k <= a.len(),
    ensures
        k <= b.len(),
        forall|m: int| 0 <= m < k ==> a[m] == b[m],
    decreases k,
{
    if k > 0 {
        lemma_prefix_agrees(times, a, b, n, k - 1);
        let x = a[k - 1];
        assert(lists_position(b, x as int));
        let p = choose|p: int| 0 <= p < b.len() && #[trigger] b[p] == x;
        if p < k - 1 {
            assert(a[p] == b[p]);
            assert(comes_before(times, a[p] as int, a[k - 1] as int));
        }
        let y = b[k - 1];
        if y != x {
            assert(lists_position(a, y as int));
            let q = choose|q: int| 0 <= q < a.len() && #[trigger] a[q] == y;
            if q < k - 1 {
                assert(a[q] == b[q]);
                assert(comes_before(times, b[q] as int, b[k - 1] as int));
            }
            assert(comes_before(times, a[k - 1] as int, a[q] as int));
            assert(comes_before(times, b[k - 1] as int, b[p] as int));
        }
    }
}

} // verus!
