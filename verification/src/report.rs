use vstd::prelude::*;

verus! {

/// The timings of one library's run, in nanoseconds.
#[derive(Clone, Copy, Debug)]
pub struct BenchResult {
    pub name: &'static str,
    pub send: u128,
    pub echo: u128,
    pub recv: u128,
    pub total: u128,
}

/// Every result is at most as slow, in total, as every result after it.
pub open spec fn sorted_by_total(s: Seq<BenchResult>) -> bool {
    forall|i: int, j: int| 0 <= i <= j < s.len() ==> #[trigger] s[i].total <= #[trigger] s[j].total
}

/// `after` holds the results of `before`, result `k` of `after` being result
/// `perm[k]` of `before`, each taken once, and results with equal totals keep
/// the order they had in `before`.
pub open spec fn stable_rearrangement(
    before: Seq<BenchResult>,
    after: Seq<BenchResult>,
    perm: Seq<int>,
) -> bool {
    &&& after.len() == before.len()
    &&& perm.len() == before.len()
    &&& forall|k: int| 0 <= k < perm.len() ==> 0 <= #[trigger] perm[k] < before.len()
    &&& forall|a: int, b: int|
        0 <= a < b < perm.len() ==> #[trigger] perm[a] != #[trigger] perm[b]
    &&& forall|k: int| 0 <= k < after.len() ==> #[trigger] after[k] == before[perm[k]]
    &&& forall|a: int, b: int|
        0 <= a < b < after.len() && #[trigger] after[a].total == #[trigger] after[b].total
            ==> perm[a] < perm[b]
}

/// `after` is `before` sorted by total time, ties left in their first order.
pub open spec fn stable_sort_by_total(before: Seq<BenchResult>, after: Seq<BenchResult>) -> bool {
    &&& sorted_by_total(after)
    &&& exists|perm: Seq<int>| stable_rearrangement(before, after, perm)
}

pub open spec fn swap_at<T>(s: Seq<T>, j: int) -> Seq<T> {
    s.update(j - 1, s[j]).update(j, s[j - 1])
}

/// Swapping two neighbours whose totals are out of order keeps a stable
/// rearrangement stable.
proof fn lemma_swap_keeps_stable(
    before: Seq<BenchResult>,
    after: Seq<BenchResult>,
    perm: Seq<int>,
    j: int,
)
    requires
        stable_rearrangement(before, after, perm),
        0 < j < after.len(),
        after[j - 1].total > after[j].total,
    ensures
        stable_rearrangement(before, swap_at(after, j), swap_at(perm, j)),
{
    let a2 = swap_at(after, j);
    let p2 = swap_at(perm, j);
    let sigma = |x: int| if x == j - 1 { j } else if x == j { j - 1 } else { x };
    assert forall|k: int| 0 <= k < a2.len() implies #[trigger] a2[k] == before[p2[k]] by {
        assert(a2[k] == after[sigma(k)]);
        assert(p2[k] == perm[sigma(k)]);
    }
    assert forall|k: int| 0 <= k < p2.len() implies 0 <= #[trigger] p2[k] < before.len() by {
        assert(p2[k] == perm[sigma(k)]);
    }
    assert forall|a: int, b: int| 0 <= a < b < p2.len() implies #[trigger] p2[a] != #[trigger] p2[b] by {
        assert(p2[a] == perm[sigma(a)]);
        assert(p2[b] == perm[sigma(b)]);
        if sigma(a) < sigma(b) {
            assert(perm[sigma(a)] != perm[sigma(b)]);
        } else {
            assert(perm[sigma(b)] != perm[sigma(a)]);
        }
    }
    assert forall|a: int, b: int|
        0 <= a < b < a2.len() && #[trigger] a2[a].total == #[trigger] a2[b].total implies p2[a] < p2[b] by {
        assert(a2[a] == after[sigma(a)]);
        assert(a2[b] == after[sigma(b)]);
        assert(p2[a] == perm[sigma(a)]);
        assert(p2[b] == perm[sigma(b)]);
        assert(sigma(a) < sigma(b));
        assert(after[sigma(a)].total == after[sigma(b)].total);
    }
}

proof fn lemma_increasing_perm_is_identity(perm: Seq<int>, n: int)
    requires
        perm.len() == n,
        forall|k: int| 0 <= k < n ==> 0 <= #[trigger] perm[k] < n,
        forall|a: int, b: int| 0 <= a < b < n ==> #[trigger] perm[a] < #[trigger] perm[b],
    ensures
        forall|k: int| 0 <= k < n ==> #[trigger] perm[k] == k,
{
    assert forall|k: int| 0 <= k < n implies #[trigger] perm[k] >= k by {
        lemma_perm_lower(perm, n, k);
    }
    assert forall|k: int| 0 <= k < n implies #[trigger] perm[k] <= k by {
        lemma_perm_room_above(perm, n, k);
    }
}

proof fn lemma_perm_lower(perm: Seq<int>, n: int, k: int)
    requires
        perm.len() == n,
        0 <= k < n,
        forall|i: int| 0 <= i < n ==> 0 <= #[trigger] perm[i] < n,
        forall|a: int, b: int| 0 <= a < b < n ==> #[trigger] perm[a] < #[trigger] perm[b],
    ensures
        perm[k] >= k,
    decreases k,
{
    if k > 0 {
        lemma_perm_lower(perm, n, k - 1);
        assert(perm[k - 1] < perm[k]);
    }
}

/// From position `k` on, `n - k` distinct increasing values below `n` leave
/// `perm[k]` at most `k`.
proof fn lemma_perm_room_above(perm: Seq<int>, n: int, k: int)
    requires
        perm.len() == n,
        0 <= k < n,
        forall|i: int| 0 <= i < n ==> 0 <= #[trigger] perm[i] < n,
        forall|a: int, b: int| 0 <= a < b < n ==> #[trigger] perm[a] < #[trigger] perm[b],
    ensures
        perm[k] <= k,
    decreases n - k,
{
    if k < n - 1 {
        lemma_perm_room_above(perm, n, k + 1);
        assert(perm[k] < perm[k + 1]);
    }
}

/// Ordering a report that is already in order of total time leaves it as it is.
pub proof fn law_sorted_report_unchanged(before: Seq<BenchResult>, after: Seq<BenchResult>)
    requires
        sorted_by_total(before),
        stable_sort_by_total(before, after),
    ensures
        after == before,
{
    let perm = choose|perm: Seq<int>| stable_rearrangement(before, after, perm);
    let n = before.len() as int;
    assert forall|a: int, b: int| 0 <= a < b < n implies #[trigger] perm[a] < #[trigger] perm[b] by {
        assert(after[a] == before[perm[a]]);
        assert(after[b] == before[perm[b]]);
        assert(after[a].total <= after[b].total);
        if after[a].total == after[b].total {
        } else {
            if perm[b] < perm[a] {
                assert(before[perm[b]].total <= before[perm[a]].total);
            }
            assert(perm[a] != perm[b]);
        }
    }
    lemma_increasing_perm_is_identity(perm, n);
    assert forall|k: int| 0 <= k < n implies #[trigger] after[k] == before[k] by {
        assert(perm[k] == k);
    }
    assert(after =~= before);
}

/// Orders the results by total time, fastest first; results with equal
/// totals keep their relative order.
pub fn sort_by_total(results: &mut Vec<BenchResult>)
    ensures
        stable_sort_by_total(old(results)@, final(results)@),
{
    let n: usize = results.len();
    let ghost orig = results@;
    let ghost mut perm: Seq<int> = Seq::new(n as nat, |k: int| k);
    assert(stable_rearrangement(orig, results@, perm));
    let mut i: usize = 0;
    while i < n
        invariant
            i <= n,
            results.len() == n,
            stable_rearrangement(orig, results@, perm),
            forall|a: int, b: int|
                0 <= a <= b < i ==> #[trigger] results@[a].total <= #[trigger] results@[b].total,
        decreases n - i,
    {
        let mut j: usize = i;
        while j > 0 && results[j - 1].total > results[j].total
            invariant
                j <= i < n,
                results.len() == n,
                stable_rearrangement(orig, results@, perm),
                forall|a: int, b: int|
                    0 <= a <= b < j ==> #[trigger] results@[a].total <= #[trigger] results@[b].total,
                forall|a: int, b: int|
                    j < a <= b <= i ==> #[trigger] results@[a].total <= #[trigger] results@[b].total,
                forall|a: int, b: int|
                    0 <= a < j && j < b <= i ==> #[trigger] results@[a].total
                        <= #[trigger] results@[b].total,
                forall|b: int| j < b <= i ==> results@[j as int].total < #[trigger] results@[b].total,
            decreases j,
        {
            proof {
                lemma_swap_keeps_stable(orig, results@, perm, j as int);
                perm = swap_at(perm, j as int);
            }
            let ghost prev = results@;
            let lower = results[j - 1];
            let upper = results[j];
            results.set(j - 1, upper);
            results.set(j, lower);
            assert(results@ == swap_at(prev, j as int));
            j = j - 1;
        }
        i = i + 1;
    }
    assert(stable_rearrangement(orig, results@, perm));
}

} // verus!
