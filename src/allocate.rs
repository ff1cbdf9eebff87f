//! Weighted division of a fixed capacity among optional text sources.
use vstd::prelude::*;
use vstd::arithmetic::div_mod::{lemma_fundamental_div_mod, lemma_mod_bound};

verus! {

/// The summed weight of the present sources.
pub open spec fn active_weight(sources: Seq<(u32, bool)>) -> nat
    decreases sources.len(),
{
    if sources.len() == 0 {
        0
    } else {
        active_weight(sources.drop_last()) + if sources.last().1 {
            sources.last().0 as nat
        } else {
            0nat
        }
    }
}

/// The budget of source `i`: `floor(total * weight / active_weight)` when it is present and
/// some present source has weight, none otherwise.
pub open spec fn budget_of(total: nat, sources: Seq<(u32, bool)>, i: int) -> Option<nat> {
    let w = active_weight(sources);
    if sources[i].1 && w > 0 {
        Some(total * (sources[i].0 as nat) / w)
    } else {
        None
    }
}

/// The sum of the budgets of the first `k` sources.
pub open spec fn budget_sum(total: nat, sources: Seq<(u32, bool)>, k: int) -> nat
    decreases k,
{
    if k <= 0 {
        0
    } else {
        budget_sum(total, sources, k - 1) + match budget_of(total, sources, k - 1) {
            Some(b) => b,
            None => 0nat,
        }
    }
}

/// Divides `total_capacity` among `sources`, given as `(weight, present)`: each present
/// source gets `floor(total * weight / W)`, where `W` sums the weights of the present
/// sources only; absent sources get nothing. When `W` is zero the plan is empty.
pub fn allocate(total_capacity: u32, sources: &Vec<(u32, bool)>) -> (r: Vec<Option<u64>>)
    requires
        sources.len() <= u32::MAX,
    ensures
        r.len() == sources.len(),
        forall|i: int|
            0 <= i < r.len() ==> match #[trigger] budget_of(
                total_capacity as nat,
                sources@,
                i,
            ) {
                Some(b) => r[i] == Some(b as u64),
                None => r[i] is None,
            },
{
    let mut w: u64 = 0;
    let mut k: usize = 0;
    while k < sources.len()
        invariant
            0 <= k <= sources.len() <= u32::MAX,
            w == active_weight(sources@.take(k as int)),
            w <= k * (u32::MAX as nat),
        decreases sources.len() - k,
    {
        assert(sources@.take(k + 1).drop_last() =~= sources@.take(k as int));
        let (weight, present) = sources[k];
        if present {
            w = w + weight as u64;
        }
        k = k + 1;
        assert(w <= k * (u32::MAX as nat)) by (nonlinear_arith)
            requires
                w <= (k - 1) * (u32::MAX as nat) + u32::MAX,
        ;
    }
    assert(sources@.take(sources@.len() as int) =~= sources@);
    let mut r: Vec<Option<u64>> = Vec::new();
    let mut i: usize = 0;
    while i < sources.len()
        invariant
            0 <= i <= sources.len(),
            w == active_weight(sources@),
            r.len() == i,
            forall|j: int|
                0 <= j < i ==> match #[trigger] budget_of(total_capacity as nat, sources@, j) {
                    Some(b) => r[j] == Some(b as u64),
                    None => r[j] is None,
                },
        decreases sources.len() - i,
    {
        let (weight, present) = sources[i];
        if present && w > 0 {
            let t = total_capacity as u64;
            assert(t * (weight as u64) <= u32::MAX * u32::MAX) by (nonlinear_arith)
                requires
                    t <= u32::MAX,
                    weight <= u32::MAX,
            ;
            let b = t * (weight as u64) / w;
            r.push(Some(b));
        } else {
            r.push(None);
        }
        i = i + 1;
    }
    r
}

proof fn lemma_div_bounds(x: nat, d: nat)
    requires
        d > 0,
    ensures
        (x / d) * d <= x,
        x < (x / d) * d + d,
{
    lemma_fundamental_div_mod(x as int, d as int);
    lemma_mod_bound(x as int, d as int);
    assert((x / d) * d == d * (x / d)) by (nonlinear_arith);
}

proof fn lemma_budget_sum_bound(total: nat, sources: Seq<(u32, bool)>, k: int)
    requires
        0 <= k <= sources.len(),
        active_weight(sources) > 0,
    ensures
        budget_sum(total, sources, k) * active_weight(sources) <= total * active_weight(
            sources.take(k),
        ),
    decreases k,
{
    let w = active_weight(sources);
    if k > 0 {
        lemma_budget_sum_bound(total, sources, k - 1);
        assert(sources.take(k).drop_last() =~= sources.take(k - 1));
        let prev = budget_sum(total, sources, k - 1);
        let a = active_weight(sources.take(k - 1));
        let wk = sources[k - 1].0 as nat;
        assert(sources.take(k).last() == sources[k - 1]);
        if sources[k - 1].1 {
            lemma_div_bounds(total * wk, w);
            let b = total * wk / w;
            assert((prev + b) * w <= total * (a + wk)) by (nonlinear_arith)
                requires
                    prev * w <= total * a,
                    b * w <= total * wk,
            ;
            assert(active_weight(sources.take(k)) == a + wk);
            assert(budget_sum(total, sources, k) == prev + b);
            assert(budget_sum(total, sources, k) * w <= total * active_weight(sources.take(k)));
        } else {
            assert(active_weight(sources.take(k)) == a);
            assert(budget_sum(total, sources, k) == prev);
            assert(prev * w <= total * a);
            assert(budget_sum(total, sources, k) * w <= total * active_weight(sources.take(k)));
        }
    } else {
        assert(sources.take(k) =~= Seq::<(u32, bool)>::empty());
        assert(active_weight(sources.take(k)) == 0);
        assert(budget_sum(total, sources, k) == 0);
        assert(0 * w <= total * 0) by (nonlinear_arith);
    }
}

/// The plan never spends more than the capacity: the budgets of the present sources sum to
/// at most `total`. And it keeps the weights' proportions up to rounding: for present sources
/// `i` and `j` with budgets `bi` and `bj`, `bi * wj` and `bj * wi` differ by at most the
/// larger of the two weights.
pub proof fn lemma_allocation_fair(total: nat, sources: Seq<(u32, bool)>, i: int, j: int)
    requires
        0 <= i < sources.len(),
        0 <= j < sources.len(),
    ensures
        budget_sum(total, sources, sources.len() as int) <= total,
        budget_of(total, sources, i) is Some && budget_of(total, sources, j) is Some ==> {
            let bi = budget_of(total, sources, i)->0;
            let bj = budget_of(total, sources, j)->0;
            let wi = sources[i].0 as nat;
            let wj = sources[j].0 as nat;
            &&& bi * wj <= bj * wi + wi
            &&& bj * wi <= bi * wj + wj
        },
{
    let w = active_weight(sources);
    if w > 0 {
        lemma_budget_sum_bound(total, sources, sources.len() as int);
        assert(sources.take(sources.len() as int) =~= sources);
        let s = budget_sum(total, sources, sources.len() as int);
        assert(s <= total) by (nonlinear_arith)
            requires
                s * w <= total * w,
                w > 0,
        ;
        if sources[i].1 && sources[j].1 {
            let wi = sources[i].0 as nat;
            let wj = sources[j].0 as nat;
            lemma_div_bounds(total * wi, w);
            lemma_div_bounds(total * wj, w);
            let bi = total * wi / w;
            let bj = total * wj / w;
            lemma_cross(bi, bj, wi, wj, w, total);
            lemma_cross(bj, bi, wj, wi, w, total);
        }
    } else {
        assert forall|k: int| 0 <= k <= sources.len() implies budget_sum(total, sources, k) == 0 by {
            lemma_sum_zero(total, sources, k);
        }
    }
}

proof fn lemma_cross(bi: nat, bj: nat, wi: nat, wj: nat, w: nat, total: nat)
    requires
        w > 0,
        bi * w <= total * wi,
        total * wj < bj * w + w,
    ensures
        bi * wj <= bj * wi + wi,
{
    assert(bi * w * wj <= total * wi * wj) by (nonlinear_arith)
        requires
            bi * w <= total * wi,
    ;
    assert(total * wj * wi <= (bj * w + w) * wi) by (nonlinear_arith)
        requires
            total * wj < bj * w + w,
    ;
    assert((bi * wj) * w <= (bj * wi + wi) * w) by (nonlinear_arith)
        requires
            bi * w * wj <= total * wi * wj,
            total * wj * wi <= (bj * w + w) * wi,
    ;
    assert(bi * wj <= bj * wi + wi) by (nonlinear_arith)
        requires
            (bi * wj) * w <= (bj * wi + wi) * w,
            w > 0,
    ;
}

/// A present source's weight is at most the active weight.
pub proof fn lemma_present_weight_bound(sources: Seq<(u32, bool)>, i: int)
    requires
        0 <= i < sources.len(),
        sources[i].1,
    ensures
        sources[i].0 as nat <= active_weight(sources),
    decreases sources.len(),
{
    if i < sources.len() - 1 {
        lemma_present_weight_bound(sources.drop_last(), i);
    }
}

proof fn lemma_sum_zero(total: nat, sources: Seq<(u32, bool)>, k: int)
    requires
        active_weight(sources) == 0,
    ensures
        budget_sum(total, sources, k) == 0,
    decreases k,
{
    if k > 0 {
        lemma_sum_zero(total, sources, k - 1);
    }
}

} // verus!
