use vstd::prelude::*;

verus! {

/// The number of indices `k` in `0..n` at which `p` holds.
pub open spec fn count_true(n: int, p: spec_fn(int) -> bool) -> nat
    decreases n,
{
    if n <= 0 {
        0
    } else {
        count_true(n - 1, p) + if p(n - 1) {
            1nat
        } else {
            0nat
        }
    }
}

/// No witness below `n` means a count of zero.
pub proof fn lemma_count_zero(n: int, p: spec_fn(int) -> bool)
    requires
        forall|k: int| 0 <= k < n ==> !#[trigger] p(k),
    ensures
        count_true(n, p) == 0,
    decreases n,
{
    if n > 0 {
        lemma_count_zero(n - 1, p);
    }
}

/// A witness below `n` means a positive count.
pub proof fn lemma_count_positive(n: int, p: spec_fn(int) -> bool, w: int)
    requires
        0 <= w < n,
        p(w),
    ensures
        count_true(n, p) > 0,
    decreases n,
{
    if w < n - 1 {
        lemma_count_positive(n - 1, p, w);
    }
}

/// Predicates that agree below `n` have the same count.
pub proof fn lemma_count_congruent(n: int, p: spec_fn(int) -> bool, q: spec_fn(int) -> bool)
    requires
        forall|k: int| 0 <= k < n ==> #[trigger] p(k) == q(k),
    ensures
        count_true(n, p) == count_true(n, q),
    decreases n,
{
    if n > 0 {
        lemma_count_congruent(n - 1, p, q);
    }
}

/// Predicates that agree below `n` except at `w`, where only `p` holds,
/// differ in count by one.
pub proof fn lemma_count_one_more(
    n: int,
    p: spec_fn(int) -> bool,
    q: spec_fn(int) -> bool,
    w: int,
)
    requires
        0 <= w < n,
        p(w),
        !q(w),
        forall|k: int| 0 <= k < n && k != w ==> #[trigger] p(k) == q(k),
    ensures
        count_true(n, p) == count_true(n, q) + 1,
    decreases n,
{
    if w < n - 1 {
        lemma_count_one_more(n - 1, p, q, w);
    } else {
        lemma_count_congruent(n - 1, p, q);
    }
}

/// A predicate `r` that holds exactly where one of two disjoint predicates
/// holds counts the sum of their counts.
pub proof fn lemma_count_disjoint_union(
    n: int,
    p: spec_fn(int) -> bool,
    q: spec_fn(int) -> bool,
    r: spec_fn(int) -> bool,
)
    requires
        forall|k: int| 0 <= k < n ==> !(#[trigger] p(k) && q(k)),
        forall|k: int| 0 <= k < n ==> #[trigger] r(k) == (p(k) || q(k)),
    ensures
        count_true(n, r) == count_true(n, p) + count_true(n, q),
    decreases n,
{
    if n > 0 {
        lemma_count_disjoint_union(n - 1, p, q, r);
    }
}

} // verus!
