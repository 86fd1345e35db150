use vstd::prelude::*;

use crate::types::{AccountId, ProposalId, Vote};

verus! {

/// A vote's place in the ledger: the voter and the proposal.
pub type VoteKey = (AccountId, ProposalId);

/// What one vote contributes to a total.
pub type Weight = spec_fn(VoteKey, Vote) -> int;

/// The sum of `w` over the votes under `keys`.
pub open spec fn sum_over(votes: Map<VoteKey, Vote>, keys: Set<VoteKey>, w: Weight) -> int
    decreases keys.len(),
{
    if keys.finite() && keys.len() > 0 {
        let k = keys.choose();
        w(k, votes[k]) + sum_over(votes, keys.remove(k), w)
    } else {
        0
    }
}

/// The sum of `w` over all votes.
pub open spec fn total(votes: Map<VoteKey, Vote>, w: Weight) -> int {
    sum_over(votes, votes.dom(), w)
}

/// Points a vote adds to the ayes of proposal `id`.
pub open spec fn aye_weight(id: ProposalId) -> Weight {
    |k: VoteKey, v: Vote| if k.1 == id { v.vote_decision.aye_points() } else { 0 }
}

/// Points a vote adds to the nays of proposal `id`.
pub open spec fn nay_weight(id: ProposalId) -> Weight {
    |k: VoteKey, v: Vote| if k.1 == id { v.vote_decision.nay_points() } else { 0 }
}

/// Collateral a vote holds on account `who`: the square of its points while it is locked.
pub open spec fn lock_weight(who: AccountId) -> Weight {
    |k: VoteKey, v: Vote|
        if k.0 == who && v.locked {
            v.vote_decision.magnitude() * v.vote_decision.magnitude()
        } else {
            0
        }
}

/// Taking one key out of the sum takes out its term.
pub proof fn lemma_sum_remove(votes: Map<VoteKey, Vote>, keys: Set<VoteKey>, w: Weight, k: VoteKey)
    requires
        keys.finite(),
        keys.contains(k),
    ensures
        sum_over(votes, keys, w) == w(k, votes[k]) + sum_over(votes, keys.remove(k), w),
    decreases keys.len(),
{
    let c = keys.choose();
    if c != k {
        lemma_sum_remove(votes, keys.remove(c), w, k);
        lemma_sum_remove(votes, keys.remove(k), w, c);
        assert(keys.remove(c).remove(k) =~= keys.remove(k).remove(c));
    }
}

/// The sum reads the votes under its keys only.
pub proof fn lemma_sum_frame(
    a: Map<VoteKey, Vote>,
    b: Map<VoteKey, Vote>,
    keys: Set<VoteKey>,
    w: Weight,
)
    requires
        keys.finite(),
        forall|k: VoteKey| keys.contains(k) ==> w(k, a[k]) == w(k, b[k]),
    ensures
        sum_over(a, keys, w) == sum_over(b, keys, w),
    decreases keys.len(),
{
    if keys.len() > 0 {
        let c = keys.choose();
        lemma_sum_frame(a, b, keys.remove(c), w);
    }
}

/// A sum of terms that are not negative is not negative, and is at least each term.
pub proof fn lemma_sum_bounds(votes: Map<VoteKey, Vote>, keys: Set<VoteKey>, w: Weight, k: VoteKey)
    requires
        keys.finite(),
        forall|j: VoteKey| keys.contains(j) ==> w(j, votes[j]) >= 0,
    ensures
        sum_over(votes, keys, w) >= 0,
        keys.contains(k) ==> sum_over(votes, keys, w) >= w(k, votes[k]),
    decreases keys.len(),
{
    if keys.len() > 0 {
        let c = keys.choose();
        lemma_sum_bounds(votes, keys.remove(c), w, k);
        if keys.contains(k) {
            lemma_sum_remove(votes, keys, w, k);
            lemma_sum_bounds(votes, keys.remove(k), w, k);
        }
    }
}

/// A sum of zero terms is zero.
pub proof fn lemma_sum_zero(votes: Map<VoteKey, Vote>, keys: Set<VoteKey>, w: Weight)
    requires
        keys.finite(),
        forall|j: VoteKey| keys.contains(j) ==> w(j, votes[j]) == 0,
    ensures
        sum_over(votes, keys, w) == 0,
    decreases keys.len(),
{
    if keys.len() > 0 {
        lemma_sum_zero(votes, keys.remove(keys.choose()), w);
    }
}

/// Storing a vote under `k` replaces the old term of `k`, if any, by the new one.
pub proof fn lemma_total_insert(votes: Map<VoteKey, Vote>, w: Weight, k: VoteKey, v: Vote)
    requires
        votes.dom().finite(),
    ensures
        total(votes.insert(k, v), w) == total(votes, w) - (if votes.contains_key(k) {
            w(k, votes[k])
        } else {
            0
        }) + w(k, v),
{
    let after = votes.insert(k, v);
    let rest = votes.dom().remove(k);
    lemma_sum_remove(after, after.dom(), w, k);
    assert(after.dom().remove(k) =~= rest);
    lemma_sum_frame(after, votes, rest, w);
    if votes.contains_key(k) {
        lemma_sum_remove(votes, votes.dom(), w, k);
    } else {
        assert(rest =~= votes.dom());
    }
}

/// Dropping the vote under `k` takes out its term.
pub proof fn lemma_total_remove(votes: Map<VoteKey, Vote>, w: Weight, k: VoteKey)
    requires
        votes.dom().finite(),
        votes.contains_key(k),
    ensures
        total(votes.remove(k), w) == total(votes, w) - w(k, votes[k]),
{
    let after = votes.remove(k);
    assert(after.dom() =~= votes.dom().remove(k));
    lemma_sum_frame(after, votes, after.dom(), w);
    lemma_sum_remove(votes, votes.dom(), w, k);
}

} // verus!
