//! Finite sums over an index range, and the few facts about them that the
//! conservation laws rest on.

use vstd::prelude::*;

verus! {

/// The sum of `f(0), f(1), .., f(n - 1)`.
pub open spec fn sum_to(f: spec_fn(int) -> int, n: int) -> int
    decreases n,
{
    if n <= 0 {
        0
    } else {
        sum_to(f, n - 1) + f(n - 1)
    }
}

/// A sum is monotone in its terms.
pub proof fn lemma_sum_monotone(f: spec_fn(int) -> int, g: spec_fn(int) -> int, n: int)
    requires
        forall|i: int| 0 <= i < n ==> #[trigger] f(i) <= g(i),
    ensures
        sum_to(f, n) <= sum_to(g, n),
    decreases n,
{
    if n > 0 {
        lemma_sum_monotone(f, g, n - 1);
        assert(f(n - 1) <= g(n - 1));
    }
}

/// Sums of equal terms are equal.
pub proof fn lemma_sum_equal(f: spec_fn(int) -> int, g: spec_fn(int) -> int, n: int)
    requires
        forall|i: int| 0 <= i < n ==> #[trigger] f(i) == g(i),
    ensures
        sum_to(f, n) == sum_to(g, n),
    decreases n,
{
    if n > 0 {
        lemma_sum_equal(f, g, n - 1);
        assert(f(n - 1) == g(n - 1));
    }
}

/// The sum of termwise sums is the sum of the sums.
pub proof fn lemma_sum_add(
    f: spec_fn(int) -> int,
    g: spec_fn(int) -> int,
    h: spec_fn(int) -> int,
    n: int,
)
    requires
        forall|i: int| 0 <= i < n ==> #[trigger] h(i) == f(i) + g(i),
    ensures
        sum_to(h, n) == sum_to(f, n) + sum_to(g, n),
    decreases n,
{
    if n > 0 {
        lemma_sum_add(f, g, h, n - 1);
        assert(h(n - 1) == f(n - 1) + g(n - 1));
    }
}

/// The sum of termwise differences is the difference of the sums.
pub proof fn lemma_sum_sub(
    f: spec_fn(int) -> int,
    g: spec_fn(int) -> int,
    h: spec_fn(int) -> int,
    n: int,
)
    requires
        forall|i: int| 0 <= i < n ==> #[trigger] h(i) == f(i) - g(i),
    ensures
        sum_to(h, n) == sum_to(f, n) - sum_to(g, n),
    decreases n,
{
    if n > 0 {
        lemma_sum_sub(f, g, h, n - 1);
        assert(h(n - 1) == f(n - 1) - g(n - 1));
    }
}

/// Terms that are zero from `k` on add nothing.
pub proof fn lemma_sum_zero_tail(f: spec_fn(int) -> int, k: int, n: int)
    requires
        0 <= k <= n,
        forall|i: int| k <= i < n ==> #[trigger] f(i) == 0,
    ensures
        sum_to(f, n) == sum_to(f, k),
    decreases n,
{
    if n > k {
        lemma_sum_zero_tail(f, k, n - 1);
        assert(f(n - 1) == 0);
    }
}

/// For terms `f` that are the terms of `g` moved up by `k`, the first `m + k`
/// of `f` sum to the first `m` of `g`.
proof fn lemma_sum_shift_prefix(
    f: spec_fn(int) -> int,
    g: spec_fn(int) -> int,
    k: int,
    m: int,
)
    requires
        0 <= k,
        0 <= m,
        forall|i: int| 0 <= i < k ==> #[trigger] f(i) == 0,
        forall|i: int| 0 <= i < m ==> f(i + k) == #[trigger] g(i),
    ensures
        sum_to(f, m + k) == sum_to(g, m),
    decreases m,
{
    if m == 0 {
        lemma_sum_zero_tail(f, 0, k);
    } else {
        lemma_sum_shift_prefix(f, g, k, m - 1);
        assert(f((m - 1) + k) == g(m - 1));
    }
}

/// Moving every term up by `k` places does not change a sum of `n` terms,
/// provided that nothing is moved in from below or out at the top: the first
/// `k` terms of `f` and the last `k` terms of `g` are zero, and
/// `f(i + k) == g(i)` in between.
pub proof fn lemma_sum_shift(f: spec_fn(int) -> int, g: spec_fn(int) -> int, k: int, n: int)
    requires
        0 <= k <= n,
        forall|i: int| 0 <= i < k ==> #[trigger] f(i) == 0,
        forall|i: int| n - k <= i < n ==> #[trigger] g(i) == 0,
        forall|i: int| 0 <= i < n - k ==> f(i + k) == #[trigger] g(i),
    ensures
        sum_to(f, n) == sum_to(g, n),
{
    lemma_sum_shift_prefix(f, g, k, n - k);
    lemma_sum_zero_tail(g, n - k, n);
}

/// Changing one term changes the sum by the change of that term.
pub proof fn lemma_sum_change_one(
    f: spec_fn(int) -> int,
    g: spec_fn(int) -> int,
    at: int,
    n: int,
)
    requires
        0 <= at < n,
        forall|i: int| 0 <= i < n && i != at ==> #[trigger] f(i) == g(i),
    ensures
        sum_to(g, n) == sum_to(f, n) - f(at) + g(at),
    decreases n,
{
    if n - 1 == at {
        lemma_sum_equal(f, g, n - 1);
    } else {
        lemma_sum_change_one(f, g, at, n - 1);
        assert(f(n - 1) == g(n - 1));
    }
}

} // verus!
