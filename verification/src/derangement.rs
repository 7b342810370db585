//! The derangement generator: a rejection-sampled Fisher–Yates shuffle that
//! restarts whenever a fixed point becomes unavoidable, so that an accepted
//! draw is always a permutation of `[0, n)` mapping no index to itself.
use vstd::prelude::*;

use crate::errors::Error;
use crate::rng::rand_below;

verus! {

/// How many full shuffle attempts one call may spend before giving up.
/// Each attempt succeeds with probability near 1/e for large `n`, so the
/// chance of exhausting this budget is negligible; the bound only turns a
/// theoretical non-termination into a typed failure.
pub const MAX_DRAW_ATTEMPTS: usize = 10000;

/// `p` is a permutation of the index range `[0, n)`: it has length `n`,
/// every entry is below `n`, and no entry repeats.
pub open spec fn is_permutation(p: Seq<usize>, n: nat) -> bool {
    &&& p.len() == n
    &&& forall|i: int| 0 <= i < n ==> (#[trigger] p[i]) < n
    &&& forall|i: int, j: int| 0 <= i < n && 0 <= j < n && i != j ==> p[i] != p[j]
}

/// `p` is a derangement of `[0, n)`: a permutation with no fixed point.
pub open spec fn is_derangement(p: Seq<usize>, n: nat) -> bool {
    &&& is_permutation(p, n)
    &&& forall|i: int| 0 <= i < n ==> (#[trigger] p[i]) != i
}

/// Swapping two entries of a permutation leaves a permutation.
proof fn lemma_swap_permutation(s: Seq<usize>, n: nat, i: int, p: int)
    requires
        is_permutation(s, n),
        0 <= i < n,
        0 <= p < n,
    ensures
        is_permutation(s.update(i, s[p]).update(p, s[i]), n),
{
    let t = s.update(i, s[p]).update(p, s[i]);
    assert forall|j: int| 0 <= j < n implies (#[trigger] t[j]) == (if j == p {
        s[i]
    } else if j == i {
        s[p]
    } else {
        s[j]
    }) by {}
}

/// Some position of `p` holds the value `v`.
pub open spec fn appears(p: Seq<usize>, v: int) -> bool {
    exists|i: int| 0 <= i < p.len() && p[i] == v
}

/// Law: a permutation of `[0, n)` is onto. Together with the distinctness
/// that `is_permutation` already states, every index in `[0, n)` appears
/// exactly once among the values, so the set of values equals the set of
/// indices (and in particular their sums agree).
pub proof fn lemma_permutation_onto(p: Seq<usize>, n: nat)
    requires
        is_permutation(p, n),
    ensures
        forall|v: int| 0 <= v < n ==> #[trigger] appears(p, v),
{
    broadcast use vstd::seq_lib::seq_to_set_is_finite;

    let q = p.map_values(|x: usize| x as int);
    assert(q.no_duplicates());
    q.unique_seq_to_set();
    let image = q.to_set();
    let range = vstd::set_lib::set_int_range(0, n as int);
    vstd::set_lib::lemma_int_range(0, n as int);
    assert forall|v: int| image.contains(v) implies range.contains(v) by {
        let i = choose|i: int| 0 <= i < q.len() && q[i] == v;
        assert(p[i] < n);
    }
    assert(image.subset_of(range));
    vstd::set_lib::lemma_subset_equality(image, range);
    assert forall|v: int| 0 <= v < n implies #[trigger] appears(p, v) by {
        assert(range.contains(v));
        assert(image.contains(v));
        let i = choose|i: int| 0 <= i < q.len() && q[i] == v;
        assert(0 <= i < p.len() && p[i] == v);
    }
}

/// One full shuffle pass. `None` means this attempt was abandoned because a
/// fixed point became unavoidable (or was detected at position zero); `Some`
/// is always a derangement of `[0, n)`.
fn derangement_attempt(n: usize, rng: &mut rand::rngs::StdRng) -> (r: Option<Vec<usize>>)
    requires
        n >= 2,
    ensures
        r is Some ==> is_derangement(r->0@, n as nat),
{
    let mut range: Vec<usize> = Vec::new();
    let mut k: usize = 0;
    while k < n
        invariant
            k <= n,
            range@.len() == k,
            forall|j: int| 0 <= j < k ==> (#[trigger] range@[j]) == j,
        decreases n - k,
    {
        range.push(k);
        k = k + 1;
    }
    let mut i: usize = n;
    while i > 0
        invariant
            i <= n,
            is_permutation(range@, n as nat),
            forall|j: int| i <= j < n ==> (#[trigger] range@[j]) != j,
        decreases i,
    {
        i = i - 1;
        let p = rand_below(rng, i + 1);
        if range[p] == i {
            return None;
        }
        let ghost before = range@;
        let at_i = range[i];
        let at_p = range[p];
        range.set(i, at_p);
        range.set(p, at_i);
        proof {
            lemma_swap_permutation(before, n as nat, i as int, p as int);
        }
    }
    if range[0] != 0 {
        Some(range)
    } else {
        None
    }
}

/// Draw a random derangement of `[0, n)`: a sequence of `n` distinct
/// indices, each below `n` and none equal to its own position, interpreted
/// as `to = result[from]`.
///
/// Fails with `InvalidSize` exactly when `n < 2` (no derangement of zero or
/// one element exists), and with `RetriesExhausted` in the negligible case
/// that `MAX_DRAW_ATTEMPTS` full shuffle passes were all abandoned.
pub fn random_derangement(n: usize, rng: &mut rand::rngs::StdRng) -> (r: Result<
    Vec<usize>,
    Error,
>)
    ensures
        r is Ok ==> is_derangement(r->Ok_0@, n as nat),
        r == Err::<Vec<usize>, Error>(Error::InvalidSize) <==> n < 2,
        r is Err ==> (r == Err::<Vec<usize>, Error>(Error::InvalidSize) || r == Err::<
            Vec<usize>,
            Error,
        >(Error::RetriesExhausted)),
{
    if n < 2 {
        return Err(Error::InvalidSize);
    }
    let mut attempts: usize = 0;
    while attempts < MAX_DRAW_ATTEMPTS
        invariant
            n >= 2,
        decreases MAX_DRAW_ATTEMPTS - attempts,
    {
        match derangement_attempt(n, rng) {
            Some(v) => {
                return Ok(v);
            },
            None => {
                attempts = attempts + 1;
            },
        }
    }
    Err(Error::RetriesExhausted)
}

} // verus!
