//! Theme partitioning: a shuffled theme list is cut into contiguous,
//! non-overlapping chunks of equal size, one chunk per giver; leftover
//! themes beyond `n * k` stay unused.
use vstd::prelude::*;

use crate::errors::Error;
use crate::rng::shuffle_strings;

verus! {

/// The per-giver theme count actually used: the explicit override when one
/// is given, otherwise `floor(total / n)`.
pub open spec fn chosen_per_giver(total: nat, n: nat, per_giver: Option<usize>) -> nat
    recommends
        n >= 1,
{
    match per_giver {
        Option::Some(v) => v as nat,
        Option::None => total / n,
    }
}

/// An explicit override asks for more themes per giver than the list can
/// supply.
pub open spec fn theme_shortage(total: nat, n: nat, per_giver: Option<usize>) -> bool
    recommends
        n >= 1,
{
    per_giver matches Some(v) && v as nat > total / n
}

/// `cs` holds `n` chunks of `k` themes each, cut contiguously and without
/// overlap from the front of `s` in giver order.
pub open spec fn chunks_of(s: Seq<String>, cs: Seq<Vec<String>>, n: nat, k: nat) -> bool {
    &&& cs.len() == n
    &&& forall|i: int| 0 <= i < n ==> (#[trigger] cs[i])@ == s.subrange(i * k, i * k + k)
}

/// `n` chunks of `k` themes each fit inside the list they are cut from.
proof fn lemma_chunks_fit(total: int, n: int, k: int)
    requires
        n >= 1,
        total >= 0,
        0 <= k <= total / n,
    ensures
        n * k <= total,
{
    vstd::arithmetic::div_mod::lemma_remainder_lower(total, n);
    vstd::arithmetic::mul::lemma_mul_inequality(k, total / n, n);
    vstd::arithmetic::mul::lemma_mul_is_commutative(n, k);
    vstd::arithmetic::mul::lemma_mul_is_commutative(n, total / n);
}

/// Cut the theme list into `n` contiguous chunks, one per giver, each of
/// the chosen per-giver size; themes beyond `n * k` are silently unused.
///
/// Fails with `InvalidSize` exactly when `n` is zero, and with
/// `ThemeShortage` exactly when an explicit override exceeds
/// `floor(len(themes) / n)`.
pub fn theme_chunks(themes: &Vec<String>, n: usize, per_giver: Option<usize>) -> (r: Result<
    Vec<Vec<String>>,
    Error,
>)
    ensures
        r == Err::<Vec<Vec<String>>, Error>(Error::InvalidSize) <==> n == 0,
        n != 0 ==> (r == Err::<Vec<Vec<String>>, Error>(Error::ThemeShortage) <==> theme_shortage(
            themes@.len(),
            n as nat,
            per_giver,
        )),
        r is Ok ==> chunks_of(
            themes@,
            r->Ok_0@,
            n as nat,
            chosen_per_giver(themes@.len(), n as nat, per_giver),
        ),
        r is Err ==> (r == Err::<Vec<Vec<String>>, Error>(Error::InvalidSize) || r == Err::<
            Vec<Vec<String>>,
            Error,
        >(Error::ThemeShortage)),
{
    if n == 0 {
        return Err(Error::InvalidSize);
    }
    let total = themes.len();
    let default_k = total / n;
    let k = match per_giver {
        Option::Some(v) => {
            if v > default_k {
                return Err(Error::ThemeShortage);
            }
            v
        },
        Option::None => default_k,
    };
    proof {
        lemma_chunks_fit(themes@.len() as int, n as int, k as int);
    }
    let mut cs: Vec<Vec<String>> = Vec::new();
    let mut base: usize = 0;
    let mut i: usize = 0;
    while i < n
        invariant
            i <= n,
            n >= 1,
            total == themes@.len(),
            n * k <= total,
            base == i * k,
            cs@.len() == i,
            forall|j: int|
                0 <= j < i ==> (#[trigger] cs@[j])@ == themes@.subrange(j * k, j * k + k),
        decreases n - i,
    {
        proof {
            vstd::arithmetic::mul::lemma_mul_inequality(i as int + 1, n as int, k as int);
            vstd::arithmetic::mul::lemma_mul_is_commutative(i as int + 1, k as int);
            vstd::arithmetic::mul::lemma_mul_is_commutative(n as int, k as int);
            vstd::arithmetic::mul::lemma_mul_is_distributive_add_other_way(
                k as int,
                i as int,
                1,
            );
            assert(base + k <= total);
        }
        let mut chunk: Vec<String> = Vec::new();
        let mut j: usize = 0;
        while j < k
            invariant
                j <= k,
                total == themes@.len(),
                base + k <= total,
                chunk@.len() == j,
                forall|t: int| 0 <= t < j ==> (#[trigger] chunk@[t]) == themes@[base + t],
            decreases k - j,
        {
            chunk.push(themes[base + j].clone());
            j = j + 1;
        }
        proof {
            assert(chunk@ =~= themes@.subrange(i as int * k as int, i as int * k as int + k as int));
        }
        cs.push(chunk);
        base = base + k;
        i = i + 1;
    }
    Ok(cs)
}

/// Shuffle the theme list once, then cut it into `n` contiguous per-giver
/// chunks of the chosen size. The chunks partition the front of some
/// rearrangement of the given list, so no theme is duplicated across givers
/// and none appears that was not in the list.
///
/// Fails with `InvalidSize` exactly when `n` is zero, and with
/// `ThemeShortage` exactly when an explicit override exceeds
/// `floor(len(themes) / n)`.
pub fn assign_themes(
    themes: Vec<String>,
    n: usize,
    per_giver: Option<usize>,
    rng: &mut rand::rngs::StdRng,
) -> (r: Result<Vec<Vec<String>>, Error>)
    ensures
        r == Err::<Vec<Vec<String>>, Error>(Error::InvalidSize) <==> n == 0,
        n != 0 ==> (r == Err::<Vec<Vec<String>>, Error>(Error::ThemeShortage) <==> theme_shortage(
            themes@.len(),
            n as nat,
            per_giver,
        )),
        r is Ok ==> exists|s: Seq<String>|
            s.to_multiset() == themes@.to_multiset() && #[trigger] chunks_of(
                s,
                r->Ok_0@,
                n as nat,
                chosen_per_giver(themes@.len(), n as nat, per_giver),
            ),
        r is Err ==> (r == Err::<Vec<Vec<String>>, Error>(Error::InvalidSize) || r == Err::<
            Vec<Vec<String>>,
            Error,
        >(Error::ThemeShortage)),
{
    let mut pool = themes;
    shuffle_strings(&mut pool, rng);
    let r = theme_chunks(&pool, n, per_giver);
    proof {
        if r is Ok {
            assert(chunks_of(
                pool@,
                r->Ok_0@,
                n as nat,
                chosen_per_giver(pool@.len(), n as nat, per_giver),
            ));
        }
    }
    r
}

} // verus!
