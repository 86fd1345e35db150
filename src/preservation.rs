use vstd::prelude::*;

use crate::balances::reserved_of;
use crate::state::{GovernanceState, cost};
use crate::tally::{
    VoteKey, Weight, aye_weight, lemma_sum_bounds, lemma_sum_zero, lemma_total_insert,
    lemma_total_remove, lock_weight, nay_weight, total,
};
use crate::types::{AccountId, BlockNumber, DescriptionHash, Origin, ProposalId, Vote, VoteDecision};

verus! {

/// Every total, whatever its weight, after a vote is stored under `k`.
proof fn lemma_totals_insert(votes: Map<VoteKey, Vote>, k: VoteKey, v: Vote)
    requires
        votes.dom().finite(),
    ensures
        forall|w: Weight| #[trigger]
            total(votes.insert(k, v), w) == total(votes, w) - (if votes.contains_key(k) {
                w(k, votes[k])
            } else {
                0
            }) + w(k, v),
{
    assert forall|w: Weight| #[trigger]
        total(votes.insert(k, v), w) == total(votes, w) - (if votes.contains_key(k) {
            w(k, votes[k])
        } else {
            0
        }) + w(k, v) by {
        lemma_total_insert(votes, w, k, v);
    }
}

/// Every total, whatever its weight, after the vote under `k` is dropped.
proof fn lemma_totals_remove(votes: Map<VoteKey, Vote>, k: VoteKey)
    requires
        votes.dom().finite(),
        votes.contains_key(k),
    ensures
        forall|w: Weight| #[trigger] total(votes.remove(k), w) == total(votes, w) - w(k, votes[k]),
{
    assert forall|w: Weight| #[trigger]
        total(votes.remove(k), w) == total(votes, w) - w(k, votes[k]) by {
        lemma_total_remove(votes, w, k);
    }
}

/// The tallies of the proposal and the reservation of the voter under `k` each hold at
/// least what the vote under `k` contributes to them.
proof fn lemma_vote_within_totals(s: GovernanceState, k: VoteKey)
    requires
        s.wf(),
        s.votes.contains_key(k),
    ensures
        total(s.votes, aye_weight(k.1)) >= aye_weight(k.1)(k, s.votes[k]),
        total(s.votes, nay_weight(k.1)) >= nay_weight(k.1)(k, s.votes[k]),
        total(s.votes, lock_weight(k.0)) >= lock_weight(k.0)(k, s.votes[k]),
{
    lemma_sum_bounds(s.votes, s.votes.dom(), aye_weight(k.1), k);
    lemma_sum_bounds(s.votes, s.votes.dom(), nay_weight(k.1), k);
    lemma_sum_bounds(s.votes, s.votes.dom(), lock_weight(k.0), k);
}

pub proof fn lemma_register_keeps_wf(s: GovernanceState, origin: Origin, who: AccountId)
    requires
        s.wf(),
    ensures
        s.register_outcome(origin, who).0.wf(),
{
}

pub proof fn lemma_propose_keeps_wf(
    s: GovernanceState,
    origin: Origin,
    text: DescriptionHash,
    time_period: BlockNumber,
)
    requires
        s.wf(),
    ensures
        s.propose_outcome(origin, text, time_period).0.wf(),
{
    if s.propose_error(origin, time_period) is None {
        let id = (s.counter + 1) as ProposalId;
        assert forall|k: VoteKey| s.votes.dom().contains(k) implies k.1 != id by {
            assert(s.proposals.contains_key(k.1));
        }
        lemma_sum_zero(s.votes, s.votes.dom(), aye_weight(id));
        lemma_sum_zero(s.votes, s.votes.dom(), nay_weight(id));
    }
}

pub proof fn lemma_extend_keeps_wf(
    s: GovernanceState,
    origin: Origin,
    id: ProposalId,
    new_time_period: BlockNumber,
)
    requires
        s.wf(),
    ensures
        s.extend_outcome(origin, id, new_time_period).0.wf(),
{
}

pub proof fn lemma_cancel_proposal_keeps_wf(s: GovernanceState, origin: Origin, id: ProposalId)
    requires
        s.wf(),
    ensures
        s.cancel_proposal_outcome(origin, id).0.wf(),
{
}

pub proof fn lemma_vote_keeps_wf(s: GovernanceState, origin: Origin, id: ProposalId, d: VoteDecision)
    requires
        s.wf(),
    ensures
        s.vote_outcome(origin, id, d).0.wf(),
{
    if s.vote_error(origin, id, d) is None {
        let who = origin->Signed_0;
        let k = (who, id);
        let next = Vote { vote_decision: d, locked: true };
        let t = s.vote_outcome(origin, id, d).0;
        lemma_totals_insert(s.votes, k, next);
        assert forall|w: AccountId| #[trigger]
            reserved_of(t.accounts, w) == total(t.votes, lock_weight(w)) by {
            assert(reserved_of(s.accounts, w) == total(s.votes, lock_weight(w)));
            if w == who {
                assert(lock_weight(w)(k, next) == cost(d.magnitude()));
                assert(reserved_of(t.accounts, w) == reserved_of(s.accounts, w) + cost(
                    d.magnitude(),
                ));
            } else {
                assert(lock_weight(w)(k, next) == 0);
                assert(reserved_of(t.accounts, w) == reserved_of(s.accounts, w));
            }
        }
    }
}

pub proof fn lemma_update_keeps_wf(
    s: GovernanceState,
    origin: Origin,
    id: ProposalId,
    d: VoteDecision,
)
    requires
        s.wf(),
    ensures
        s.update_outcome(origin, id, d).0.wf(),
{
    if s.update_error(origin, id, d) is None {
        let who = origin->Signed_0;
        let k = (who, id);
        let prev = s.votes[k];
        let next = Vote { vote_decision: d, locked: true };
        let t = s.update_outcome(origin, id, d).0;
        lemma_vote_within_totals(s, k);
        lemma_totals_insert(s.votes, k, next);
        assert(prev.locked);
        assert forall|w: AccountId| #[trigger]
            reserved_of(t.accounts, w) == total(t.votes, lock_weight(w)) by {
            assert(reserved_of(s.accounts, w) == total(s.votes, lock_weight(w)));
            if w == who {
                let c = prev.vote_decision.magnitude();
                let n = d.magnitude();
                assert(lock_weight(w)(k, prev) == cost(c));
                assert(lock_weight(w)(k, next) == cost(n));
                if n > c {
                    assert(c * c <= n * n) by (nonlinear_arith)
                        requires
                            c < n,
                    ;
                } else if n < c {
                    assert(n * n <= c * c) by (nonlinear_arith)
                        requires
                            n < c,
                    ;
                }
                assert(reserved_of(t.accounts, w) == reserved_of(s.accounts, w) - cost(c) + cost(
                    n,
                ));
            } else {
                assert(lock_weight(w)(k, prev) == 0);
                assert(lock_weight(w)(k, next) == 0);
                assert(reserved_of(t.accounts, w) == reserved_of(s.accounts, w));
            }
        }
    }
}

pub proof fn lemma_cancel_vote_keeps_wf(s: GovernanceState, origin: Origin, id: ProposalId)
    requires
        s.wf(),
    ensures
        s.cancel_vote_outcome(origin, id).0.wf(),
{
    if s.cancel_vote_error(origin, id) is None {
        let who = origin->Signed_0;
        let k = (who, id);
        let prev = s.votes[k];
        let t = s.cancel_vote_outcome(origin, id).0;
        lemma_vote_within_totals(s, k);
        lemma_totals_remove(s.votes, k);
        assert(prev.locked);
        assert forall|w: AccountId| #[trigger]
            reserved_of(t.accounts, w) == total(t.votes, lock_weight(w)) by {
            assert(reserved_of(s.accounts, w) == total(s.votes, lock_weight(w)));
            if w == who {
                let c = prev.vote_decision.magnitude();
                assert(lock_weight(w)(k, prev) == cost(c));
                assert(reserved_of(t.accounts, w) == reserved_of(s.accounts, w) - cost(c));
            } else {
                assert(lock_weight(w)(k, prev) == 0);
                assert(reserved_of(t.accounts, w) == reserved_of(s.accounts, w));
            }
        }
    }
}

pub proof fn lemma_finish_keeps_wf(s: GovernanceState, origin: Origin, id: ProposalId)
    requires
        s.wf(),
    ensures
        s.finish_outcome(origin, id).0.wf(),
{
}

pub proof fn lemma_unlock_keeps_wf(s: GovernanceState, origin: Origin, id: ProposalId)
    requires
        s.wf(),
    ensures
        s.unlock_outcome(origin, id).0.wf(),
{
    if s.unlock_error(origin, id) is None {
        let who = origin->Signed_0;
        let k = (who, id);
        let prev = s.votes[k];
        let next = Vote { locked: false, ..prev };
        let t = s.unlock_outcome(origin, id).0;
        lemma_vote_within_totals(s, k);
        lemma_totals_insert(s.votes, k, next);
        assert forall|w: AccountId| #[trigger]
            reserved_of(t.accounts, w) == total(t.votes, lock_weight(w)) by {
            assert(reserved_of(s.accounts, w) == total(s.votes, lock_weight(w)));
            assert(lock_weight(w)(k, next) == 0);
            if w == who {
                let c = prev.vote_decision.magnitude();
                assert(lock_weight(w)(k, prev) == cost(c));
                assert(reserved_of(t.accounts, w) == reserved_of(s.accounts, w) - cost(c));
            } else {
                assert(lock_weight(w)(k, prev) == 0);
                assert(reserved_of(t.accounts, w) == reserved_of(s.accounts, w));
            }
        }
    }
}

} // verus!
