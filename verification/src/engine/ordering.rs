//! Ordering items by a count, largest first, keeping the order in which
//! items were first seen among equal counts.

use vstd::prelude::*;

verus! {

/// Where an item with count `c` goes into `order` (already sorted, largest
/// count first): after every item whose count is at least `c`. The scan
/// starts at `j`.
pub open spec fn insert_pos(order: Seq<int>, counts: Seq<nat>, c: nat, j: int) -> int
    decreases order.len() - j,
{
    if j < 0 || j >= order.len() {
        order.len() as int
    } else if counts[order[j]] < c {
        j
    } else {
        insert_pos(order, counts, c, j + 1)
    }
}

/// The indices `0..n` of `counts`, largest count first, earlier indices
/// first among equal counts: each index is inserted after every earlier
/// one whose count is at least its own.
pub open spec fn count_order_prefix(counts: Seq<nat>, n: nat) -> Seq<int>
    decreases n,
{
    if n == 0 {
        seq![]
    } else {
        let o = count_order_prefix(counts, (n - 1) as nat);
        o.insert(insert_pos(o, counts, counts[n - 1], 0), n - 1)
    }
}

/// All indices of `counts`, largest count first, earlier indices first
/// among equal counts.
pub open spec fn count_order(counts: Seq<nat>) -> Seq<int> {
    count_order_prefix(counts, counts.len())
}

/// `order` lists indices below `n`, each once, largest count first, and
/// earlier indices first among equal counts.
pub open spec fn is_count_order(counts: Seq<nat>, order: Seq<int>, n: nat) -> bool {
    &&& order.len() == n
    &&& forall|i: int| 0 <= i < order.len() ==> 0 <= #[trigger] order[i] < n
    &&& forall|i: int, j: int| 0 <= i < j < order.len() ==> order[i] != order[j]
    &&& forall|i: int, j: int|
        #![trigger order[i], order[j]]
        0 <= i < j < order.len() ==> counts[order[i]] > counts[order[j]] || (counts[order[i]]
            == counts[order[j]] && order[i] < order[j])
}

proof fn lemma_insert_pos(order: Seq<int>, counts: Seq<nat>, c: nat, j: int)
    requires
        0 <= j <= order.len(),
        forall|k: int| 0 <= k < j ==> counts[#[trigger] order[k]] >= c,
    ensures
        j <= insert_pos(order, counts, c, j) <= order.len(),
        forall|k: int| 0 <= k < insert_pos(order, counts, c, j) ==> counts[#[trigger] order[k]] >= c,
        insert_pos(order, counts, c, j) < order.len() ==> counts[order[insert_pos(order, counts, c, j)]] < c,
    decreases order.len() - j,
{
    if j < order.len() && counts[order[j]] >= c {
        lemma_insert_pos(order, counts, c, j + 1);
    }
}

/// Every prefix of the count order is a count order of that prefix: the
/// order lists each index once, sorted by count (largest first), ties by
/// index.
pub proof fn lemma_count_order_prefix(counts: Seq<nat>, n: nat)
    requires
        n <= counts.len(),
    ensures
        is_count_order(counts, count_order_prefix(counts, n), n),
    decreases n,
{
    if n > 0 {
        let m = (n - 1) as nat;
        lemma_count_order_prefix(counts, m);
        let o = count_order_prefix(counts, m);
        let c = counts[m as int];
        lemma_insert_pos(o, counts, c, 0);
        let p = insert_pos(o, counts, c, 0);
        let r = o.insert(p, m as int);
        assert(r == count_order_prefix(counts, n));
        assert forall|i: int| 0 <= i < r.len() implies 0 <= #[trigger] r[i] < n by {
            if i < p {
                assert(r[i] == o[i]);
            } else if i > p {
                assert(r[i] == o[i - 1]);
            }
        }
        assert forall|i: int, j: int| 0 <= i < j < r.len() implies r[i] != r[j] by {
            if i < p {
                assert(r[i] == o[i]);
            } else if i > p {
                assert(r[i] == o[i - 1]);
            }
            if j < p {
                assert(r[j] == o[j]);
            } else if j > p {
                assert(r[j] == o[j - 1]);
            }
        }
        assert forall|i: int, j: int|
            #![trigger r[i], r[j]]
            0 <= i < j < r.len() implies counts[r[i]] > counts[r[j]] || (counts[r[i]] == counts[r[j]]
                && r[i] < r[j]) by {
            if i < p {
                assert(r[i] == o[i]);
                if j < p {
                    assert(r[j] == o[j]);
                } else if j > p {
                    assert(r[j] == o[j - 1]);
                    assert(counts[o[i]] > counts[o[j - 1]] || (counts[o[i]] == counts[o[j - 1]]
                        && o[i] < o[j - 1]));
                }
            } else if i == p {
                assert(r[j] == o[j - 1]);
                if p < o.len() {
                    assert(counts[o[p]] < c);
                    if j - 1 > p {
                        assert(counts[o[p]] > counts[o[j - 1]] || (counts[o[p]] == counts[o[j - 1]]
                            && o[p] < o[j - 1]));
                    }
                }
            } else {
                assert(r[i] == o[i - 1]);
                assert(r[j] == o[j - 1]);
            }
        }
    }
}

/// The count order of all indices lists every index once, largest count
/// first, and earlier indices first among equal counts.
pub proof fn lemma_count_order(counts: Seq<nat>)
    ensures
        is_count_order(counts, count_order(counts), counts.len()),
{
    lemma_count_order_prefix(counts, counts.len());
}

/// The indices of `counts` in count order.
pub fn order_by_count(counts: &Vec<usize>) -> (r: Vec<usize>)
    ensures
        r@.map_values(|i: usize| i as int) == count_order(counts@.map_values(|c: usize| c as nat)),
{
    let ghost cs = counts@.map_values(|c: usize| c as nat);
    let mut order: Vec<usize> = Vec::new();
    let mut k: usize = 0;
    while k < counts.len()
        invariant
            k <= counts@.len(),
            cs == counts@.map_values(|c: usize| c as nat),
            order@.map_values(|i: usize| i as int) == count_order_prefix(cs, k as nat),
            forall|i: int| 0 <= i < order@.len() ==> #[trigger] order@[i] < k,
        decreases counts@.len() - k,
    {
        let ghost o = order@.map_values(|i: usize| i as int);
        proof {
            lemma_count_order_prefix(cs, k as nat);
        }
        let c = counts[k];
        let mut j: usize = 0;
        while j < order.len() && counts[order[j]] >= c
            invariant
                j <= order@.len(),
                k < counts@.len(),
                c == counts@[k as int],
                cs == counts@.map_values(|c: usize| c as nat),
                o == order@.map_values(|i: usize| i as int),
                forall|i: int| 0 <= i < order@.len() ==> #[trigger] order@[i] < k,
                insert_pos(o, cs, c as nat, j as int) == insert_pos(o, cs, c as nat, 0),
            decreases order@.len() - j,
        {
            j = j + 1;
        }
        order.insert(j, k);
        assert(order@.map_values(|i: usize| i as int) =~= o.insert(j as int, k as int));
        k = k + 1;
    }
    order
}

} // verus!
