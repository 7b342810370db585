//! The constrained matcher: draws derangements until one also respects every
//! participant's exclusion rule, then materializes the giver → receiver
//! pairs.
use vstd::prelude::*;

use crate::derangement::{is_derangement, is_permutation, random_derangement};
use crate::errors::Error;

verus! {

/// One gift-exchange participant. `except`, when present, names another
/// participant that must not be matched with this one in either direction.
pub struct Participant {
    pub name: String,
    pub email: String,
    pub except: Option<String>,
}

impl Clone for Participant {
    fn clone(&self) -> (r: Participant)
        ensures
            r == *self,
    {
        Participant {
            name: self.name.clone(),
            email: self.email.clone(),
            except: match &self.except {
                Option::Some(e) => Option::Some(e.clone()),
                Option::None => Option::None,
            },
        }
    }
}

/// One giver → receiver pair of a completed assignment.
pub struct Match {
    pub from: Participant,
    pub to: Participant,
}

/// The pair (`a`, `b`) is forbidden: one of the two names the other in its
/// exclusion rule. The rule is symmetric at the pair level even though each
/// participant declares only one excluded name.
pub open spec fn excludes(a: Participant, b: Participant) -> bool {
    ||| (a.except matches Some(e) && e@ == b.name@)
    ||| (b.except matches Some(e) && e@ == a.name@)
}

/// Exclusion check on one pair, exactly the spec-level `excludes`.
pub fn pair_excluded(a: &Participant, b: &Participant) -> (r: bool)
    ensures
        r == excludes(*a, *b),
{
    let fwd = match &a.except {
        Option::Some(e) => *e == b.name,
        Option::None => false,
    };
    let bwd = match &b.except {
        Option::Some(e) => *e == a.name,
        Option::None => false,
    };
    fwd || bwd
}

/// `ms` pairs each giver `ps[i]` with the receiver `ps[perm[i]]`.
pub open spec fn matches_for(ps: Seq<Participant>, perm: Seq<usize>, ms: Seq<Match>) -> bool {
    &&& perm.len() == ps.len()
    &&& ms.len() == ps.len()
    &&& forall|i: int|
        0 <= i < ps.len() ==> (#[trigger] ms[i]).from == ps[i] && ms[i].to == ps[perm[i] as int]
}

/// No pair of `ms` is forbidden by an exclusion rule.
pub open spec fn respects_exclusions(ms: Seq<Match>) -> bool {
    forall|i: int| 0 <= i < ms.len() ==> !excludes((#[trigger] ms[i]).from, ms[i].to)
}

/// `ms` is a complete, valid assignment over `ps`: its pairs come from a
/// derangement of the participant indices (so it is a one-to-one mapping
/// with nobody assigned to themselves), and no pair is excluded.
pub open spec fn valid_assignment(ps: Seq<Participant>, ms: Seq<Match>) -> bool {
    &&& exists|perm: Seq<usize>|
        is_derangement(perm, ps.len()) && #[trigger] matches_for(ps, perm, ms)
    &&& respects_exclusions(ms)
}

/// Whether the candidate permutation respects every exclusion rule.
fn permutation_ok(ps: &Vec<Participant>, perm: &Vec<usize>) -> (r: bool)
    requires
        is_permutation(perm@, ps@.len()),
    ensures
        r == forall|i: int|
            0 <= i < ps@.len() ==> !excludes(ps@[i], ps@[#[trigger] perm@[i] as int]),
{
    let n = ps.len();
    let mut i: usize = 0;
    while i < n
        invariant
            i <= n,
            n == ps@.len(),
            is_permutation(perm@, ps@.len()),
            forall|j: int| 0 <= j < i ==> !excludes(ps@[j], ps@[#[trigger] perm@[j] as int]),
        decreases n - i,
    {
        if pair_excluded(&ps[i], &ps[perm[i]]) {
            return false;
        }
        i = i + 1;
    }
    true
}

/// Turn an accepted permutation into the ordered giver → receiver pairs.
fn materialize(ps: &Vec<Participant>, perm: &Vec<usize>) -> (ms: Vec<Match>)
    requires
        is_permutation(perm@, ps@.len()),
    ensures
        matches_for(ps@, perm@, ms@),
{
    let n = ps.len();
    let mut ms: Vec<Match> = Vec::new();
    let mut i: usize = 0;
    while i < n
        invariant
            i <= n,
            n == ps@.len(),
            is_permutation(perm@, ps@.len()),
            ms@.len() == i,
            forall|j: int|
                0 <= j < i ==> (#[trigger] ms@[j]).from == ps@[j] && ms@[j].to == ps@[perm@[j] as int],
        decreases n - i,
    {
        ms.push(Match { from: ps[i].clone(), to: ps[perm[i]].clone() });
        i = i + 1;
    }
    ms
}

/// How many candidate derangements one matching run may draw before
/// concluding that the exclusion rules admit none.
pub const MAX_MATCH_ATTEMPTS: usize = 1000;

/// Repeatedly draw a derangement of the participant indices and accept the
/// first one under which no pair is excluded; the accepted draw is returned
/// as the ordered giver → receiver pairs.
///
/// Fails with `InvalidSize` exactly when there are fewer than two
/// participants; with `ConstraintUnsatisfiable` when `MAX_MATCH_ATTEMPTS`
/// drawn derangements all violated an exclusion rule; and with
/// `RetriesExhausted` in the negligible case that the generator's own draw
/// budget ran out.
pub fn constrained_matching(participants: &Vec<Participant>, rng: &mut rand::rngs::StdRng) -> (r:
    Result<Vec<Match>, Error>)
    ensures
        r is Ok ==> valid_assignment(participants@, r->Ok_0@),
        r is Ok ==> r->Ok_0@.len() == participants@.len(),
        r == Err::<Vec<Match>, Error>(Error::InvalidSize) <==> participants@.len() < 2,
        r is Err ==> (r == Err::<Vec<Match>, Error>(Error::InvalidSize) || r == Err::<
            Vec<Match>,
            Error,
        >(Error::ConstraintUnsatisfiable) || r == Err::<Vec<Match>, Error>(
            Error::RetriesExhausted,
        )),
{
    let n = participants.len();
    if n < 2 {
        return Err(Error::InvalidSize);
    }
    let mut attempts: usize = 0;
    while attempts < MAX_MATCH_ATTEMPTS
        invariant
            n == participants@.len(),
            n >= 2,
        decreases MAX_MATCH_ATTEMPTS - attempts,
    {
        match random_derangement(n, rng) {
            Ok(perm) => {
                if permutation_ok(participants, &perm) {
                    let ms = materialize(participants, &perm);
                    proof {
                        assert(is_derangement(perm@, participants@.len()));
                        assert(matches_for(participants@, perm@, ms@));
                        assert forall|i: int| 0 <= i < ms@.len() implies !excludes(
                            (#[trigger] ms@[i]).from,
                            ms@[i].to,
                        ) by {
                            assert(!excludes(participants@[i], participants@[perm@[i] as int]));
                        }
                    }
                    return Ok(ms);
                }
                attempts = attempts + 1;
            },
            Err(e) => {
                return Err(e);
            },
        }
    }
    Err(Error::ConstraintUnsatisfiable)
}

/// The only derangement of two elements swaps them.
proof fn lemma_derangement_of_two_swaps(perm: Seq<usize>)
    requires
        is_derangement(perm, 2),
    ensures
        perm[0] == 1,
        perm[1] == 0,
{
    assert(perm[0] < 2 && perm[0] != 0);
    assert(perm[1] < 2 && perm[1] != 1);
}

/// Law: two participants who each name the other in their exclusion rule
/// admit no valid assignment at all — the only derangement of two indices
/// swaps the pair, and that pair is excluded. Since `valid_assignment` asks
/// for both a derangement-derived pairing and `respects_exclusions`, the
/// matcher can never return pairs for such an input: it must fail.
pub proof fn lemma_mutual_exclusion_unsatisfiable(
    ps: Seq<Participant>,
    perm: Seq<usize>,
    ms: Seq<Match>,
)
    requires
        ps.len() == 2,
        ps[0].except matches Some(e) && e@ == ps[1].name@,
        ps[1].except matches Some(e) && e@ == ps[0].name@,
        is_derangement(perm, ps.len()),
        matches_for(ps, perm, ms),
    ensures
        !respects_exclusions(ms),
{
    lemma_derangement_of_two_swaps(perm);
    assert(ms[0].from == ps[0] && ms[0].to == ps[1]);
    assert(excludes(ms[0].from, ms[0].to));
}

} // verus!
