//! Sums over per-action sequences.

use vstd::prelude::*;

verus! {

/// The sum of the first `k` entries of `s`.
pub open spec fn prefix_total(s: Seq<int>, k: int) -> int
    decreases k,
{
    if k <= 0 {
        0
    } else {
        prefix_total(s, k - 1) + s[k - 1]
    }
}

/// The sum of all entries of `s`.
pub open spec fn total(s: Seq<int>) -> int {
    prefix_total(s, s.len() as int)
}

/// The sequence of `n` copies of `value`.
pub open spec fn constant(n: int, value: int) -> Seq<int> {
    Seq::new(n as nat, |i: int| value)
}

/// Over entries that are never negative, prefix sums start at zero and never
/// fall as the prefix grows.
pub proof fn lemma_prefix_total_monotone(s: Seq<int>, j: int, k: int)
    requires
        0 <= j <= k <= s.len(),
        forall|i: int| 0 <= i < s.len() ==> s[i] >= 0,
    ensures
        0 <= prefix_total(s, j) <= prefix_total(s, k),
    decreases k,
{
    if j < k {
        lemma_prefix_total_monotone(s, j, k - 1);
    } else if k > 0 {
        lemma_prefix_total_monotone(s, j - 1, k - 1);
    }
}

/// Each entry of a sequence without negative entries is at most the total.
pub proof fn lemma_entry_at_most_total(s: Seq<int>, i: int)
    requires
        0 <= i < s.len(),
        forall|j: int| 0 <= j < s.len() ==> s[j] >= 0,
    ensures
        0 <= s[i] <= total(s),
{
    lemma_prefix_total_monotone(s, i, i);
    lemma_prefix_total_monotone(s, i + 1, s.len() as int);
}

/// The prefix sums of a constant sequence are multiples of its value.
pub proof fn lemma_prefix_total_constant(n: int, value: int, k: int)
    requires
        0 <= k <= n,
    ensures
        prefix_total(constant(n, value), k) == k * value,
    decreases k,
{
    if k > 0 {
        lemma_prefix_total_constant(n, value, k - 1);
        assert(k * value == (k - 1) * value + value) by (nonlinear_arith);
    } else {
        assert(k * value == 0) by (nonlinear_arith)
            requires
                k == 0,
        ;
    }
}

/// Entries bounded in absolute value give prefix sums bounded by the bound
/// times the length of the prefix.
pub proof fn lemma_prefix_total_bounded(s: Seq<int>, k: int, low: int, high: int)
    requires
        0 <= k <= s.len(),
        forall|i: int| 0 <= i < k ==> low <= #[trigger] s[i] && s[i] <= high,
    ensures
        k * low <= prefix_total(s, k) <= k * high,
    decreases k,
{
    if k > 0 {
        lemma_prefix_total_bounded(s, k - 1, low, high);
        assert(k * low == (k - 1) * low + low) by (nonlinear_arith);
        assert(k * high == (k - 1) * high + high) by (nonlinear_arith);
    } else {
        assert(k * low == 0 && k * high == 0) by (nonlinear_arith)
            requires
                k == 0,
        ;
    }
}

} // verus!
