//! First-match search over an index range, the shape of every table lookup
//! that takes the first entry satisfying a test.

use vstd::prelude::*;

verus! {

/// The first index from `k` below `n` that satisfies `p`.
pub open spec fn first_index(n: int, p: spec_fn(int) -> bool, k: int) -> Option<int>
    decreases n - k,
{
    if k >= n {
        None
    } else if p(k) {
        Some(k)
    } else {
        first_index(n, p, k + 1)
    }
}

/// What `first_index` finds: the least index from `k` that satisfies `p`,
/// or none when no index does.
pub proof fn lemma_first_index(n: int, p: spec_fn(int) -> bool, k: int)
    requires
        0 <= k <= n,
    ensures
        match first_index(n, p, k) {
            Some(i) => k <= i < n && p(i) && forall|j: int| k <= j < i ==> !#[trigger] p(j),
            None => forall|j: int| k <= j < n ==> !#[trigger] p(j),
        },
    decreases n - k,
{
    if k < n && !p(k) {
        lemma_first_index(n, p, k + 1);
    }
}

/// Two searches find the same index when their tests agree over the first
/// range and the second test fails over the rest of its longer range.
pub proof fn lemma_first_index_agree(
    n: int,
    m: int,
    p: spec_fn(int) -> bool,
    q: spec_fn(int) -> bool,
    k: int,
)
    requires
        0 <= k <= m,
        n <= m,
        forall|j: int| k <= j < n ==> #[trigger] p(j) == q(j),
        forall|j: int| n <= j < m ==> !#[trigger] q(j),
    ensures
        first_index(n, p, k) == first_index(m, q, k),
    decreases m - k,
{
    if k < m {
        if k < n && p(k) {
        } else {
            lemma_first_index_agree(n, m, p, q, k + 1);
        }
    }
}

} // verus!