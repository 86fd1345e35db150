use vstd::prelude::*;

use crate::balances::{AccountData, account_of, reserved_of};
use crate::state::{GovernanceState, cost};
use crate::tally::{aye_weight, lemma_sum_bounds, lock_weight, nay_weight, total};
use crate::types::{
    AccountId, Balance, BlockNumber, Config, DescriptionHash, Error, Origin, Proposal, ProposalId,
    ProposalStatus, VoteDecision,
};

verus! {

/// A successful vote of `n` points reserves exactly `n * n` more of the voter's balance
/// and adds exactly `n` to the tally of its side.
pub proof fn lemma_vote_costs_square(s: GovernanceState, who: AccountId, id: ProposalId, d: VoteDecision)
    requires
        s.vote_outcome(Origin::Signed(who), id, d).1 is Ok,
    ensures
        ({
            let t = s.vote_outcome(Origin::Signed(who), id, d).0;
            &&& t.reserved(who) == s.reserved(who) + d.magnitude() * d.magnitude()
            &&& t.proposals[id].ayes == s.proposals[id].ayes + d.aye_points()
            &&& t.proposals[id].nays == s.proposals[id].nays + d.nay_points()
        }),
{
}

/// The state after the voter updates the vote on `id` to each decision of `ds` in turn,
/// whether each update is accepted or not.
pub open spec fn after_updates(
    s: GovernanceState,
    who: AccountId,
    id: ProposalId,
    ds: Seq<VoteDecision>,
) -> GovernanceState
    decreases ds.len(),
{
    if ds.len() == 0 {
        s
    } else {
        after_updates(s, who, id, ds.drop_last()).update_outcome(
            Origin::Signed(who),
            id,
            ds.last(),
        ).0
    }
}

/// What the voter has reserved and spent of its free balance, and what the proposal
/// tallies hold, measured from `base`, come from the voter's current vote alone.
pub open spec fn tracks_current_vote(
    base: GovernanceState,
    u: GovernanceState,
    who: AccountId,
    id: ProposalId,
) -> bool {
    let cur = u.votes[(who, id)].vote_decision;
    &&& u.votes.contains_key((who, id))
    &&& u.proposals.contains_key(id)
    &&& u.reserved(who) == base.reserved(who) + cur.magnitude() * cur.magnitude()
    &&& u.free(who) + cur.magnitude() * cur.magnitude() == base.free(who)
    &&& u.proposals[id].ayes == base.proposals[id].ayes + cur.aye_points()
    &&& u.proposals[id].nays == base.proposals[id].nays + cur.nay_points()
}

/// One update, accepted or not, keeps the reservation and the tallies following the
/// current vote.
proof fn lemma_update_tracks(
    base: GovernanceState,
    u: GovernanceState,
    who: AccountId,
    id: ProposalId,
    d: VoteDecision,
)
    requires
        tracks_current_vote(base, u, who, id),
    ensures
        tracks_current_vote(base, u.update_outcome(Origin::Signed(who), id, d).0, who, id),
{
    if u.update_error(Origin::Signed(who), id, d) is None {
        let c = u.votes[(who, id)].vote_decision.magnitude();
        let n = d.magnitude();
        if n > c {
            assert(c * c <= n * n) by (nonlinear_arith)
                requires
                    c < n,
            ;
        } else if n < c {
            assert(n * n <= c * c) by (nonlinear_arith)
                requires
                    n < c,
            ;
        }
        assert(cost(n) == n * n && cost(c) == c * c);
    }
}

/// Along any run of updates that follows a successful vote, the voter's reservation grows
/// and its free balance shrinks by exactly the square of the points of the current vote,
/// and the tallies grow by exactly its points on its side: no earlier vote leaves a trace.
pub proof fn lemma_updates_track_current_vote(
    s: GovernanceState,
    who: AccountId,
    id: ProposalId,
    d: VoteDecision,
    ds: Seq<VoteDecision>,
)
    requires
        s.vote_outcome(Origin::Signed(who), id, d).1 is Ok,
    ensures
        tracks_current_vote(
            s,
            after_updates(s.vote_outcome(Origin::Signed(who), id, d).0, who, id, ds),
            who,
            id,
        ),
    decreases ds.len(),
{
    let s1 = s.vote_outcome(Origin::Signed(who), id, d).0;
    if ds.len() == 0 {
        assert(cost(d.magnitude()) == d.magnitude() * d.magnitude());
    } else {
        lemma_updates_track_current_vote(s, who, id, d, ds.drop_last());
        lemma_update_tracks(s, after_updates(s1, who, id, ds.drop_last()), who, id, ds.last());
    }
}

/// Canceling a vote outside the removal window and casting it again at once leaves the
/// proposal, the voter's reservation and the votes as they were, and the free balance too
/// unless the release saturated it at the largest value.
pub proof fn lemma_cancel_then_recast(s: GovernanceState, who: AccountId, id: ProposalId)
    requires
        s.wf(),
        s.cancel_vote_outcome(Origin::Signed(who), id).1 is Ok,
        s.proposals[id].time_period > s.now,
    ensures
        ({
            let d = s.votes[(who, id)].vote_decision;
            let s1 = s.cancel_vote_outcome(Origin::Signed(who), id).0;
            let (s2, r) = s1.vote_outcome(Origin::Signed(who), id, d);
            &&& r is Ok
            &&& s2.proposals[id] == s.proposals[id]
            &&& s2.reserved(who) == s.reserved(who)
            &&& s2.votes == s.votes
            &&& s.free(who) + d.magnitude() * d.magnitude() <= u128::MAX ==> s2.free(who)
                == s.free(who)
        }),
{
    let k = (who, id);
    let v = s.votes[k];
    let d = v.vote_decision;
    let s1 = s.cancel_vote_outcome(Origin::Signed(who), id).0;
    lemma_sum_bounds(s.votes, s.votes.dom(), aye_weight(id), k);
    lemma_sum_bounds(s.votes, s.votes.dom(), nay_weight(id), k);
    assert(s.proposals[id].ayes >= d.aye_points());
    assert(s.proposals[id].nays >= d.nay_points());
    assert(v.locked);
    assert(s.registered.contains(who));
    lemma_sum_bounds(s.votes, s.votes.dom(), lock_weight(who), k);
    assert(reserved_of(s.accounts, who) == total(s.votes, lock_weight(who)));
    assert(lock_weight(who)(k, v) == cost(d.magnitude()));
    let a = account_of(s.accounts, who);
    let a1 = account_of(s1.accounts, who);
    assert(a1.free >= cost(d.magnitude()));
    assert(a1.reserved + cost(d.magnitude()) == a.reserved);
    assert(s1.vote_error(Origin::Signed(who), id, d) is None);
    let s2 = s1.vote_outcome(Origin::Signed(who), id, d).0;
    assert(s2.votes =~= s.votes);
}

/// Once a proposal is finished, finishing it again is refused as already ended.
pub proof fn lemma_finish_once(
    s: GovernanceState,
    origin: Origin,
    id: ProposalId,
    again: AccountId,
)
    requires
        s.finish_outcome(origin, id).1 is Ok,
        s.registered.contains(again),
    ensures
        ({
            let t = s.finish_outcome(origin, id).0;
            t.finish_outcome(Origin::Signed(again), id) == (t, Err::<(), Error>(
                Error::ProposalAlreadyEnded,
            ))
        }),
{
}

/// The proposer of a proposal can always move its deadline later, whatever the proposal's
/// status: the call succeeds and only the deadline changes.
pub proof fn lemma_proposer_can_extend(
    s: GovernanceState,
    id: ProposalId,
    new_time_period: BlockNumber,
)
    requires
        s.wf(),
        s.proposals.contains_key(id),
        new_time_period > s.proposals[id].time_period,
        new_time_period > s.now,
    ensures
        ({
            let p = s.proposals[id];
            let (t, r) = s.extend_outcome(Origin::Signed(p.proposer), id, new_time_period);
            &&& r is Ok
            &&& t.proposals == s.proposals.insert(id, Proposal { time_period: new_time_period, ..p })
            &&& t.votes == s.votes
            &&& t.accounts == s.accounts
            &&& t.registered == s.registered
            &&& t.counter == s.counter
        }),
{
}

/// One call to the ledger, with its arguments.
pub enum Call {
    RegisterVoter { origin: Origin, who: AccountId },
    MakeProposal { origin: Origin, text: DescriptionHash, time_period: BlockNumber },
    IncreaseProposalTime { origin: Origin, id: ProposalId, time_period: BlockNumber },
    CancelProposal { origin: Origin, id: ProposalId },
    Vote { origin: Origin, id: ProposalId, decision: VoteDecision },
    UpdateVote { origin: Origin, id: ProposalId, decision: VoteDecision },
    CancelVote { origin: Origin, id: ProposalId },
    FinishProposal { origin: Origin, id: ProposalId },
    UnlockBalance { origin: Origin, id: ProposalId },
    SetBlockNumber { now: BlockNumber },
    SetMaxVoters { max_voters: u32 },
    MakeFreeBalanceBe { who: AccountId, amount: Balance },
}

/// The state after one call, as the contract of the matching `Pallet` method gives it.
pub open spec fn step(s: GovernanceState, c: Call) -> GovernanceState {
    match c {
        Call::RegisterVoter { origin, who } => s.register_outcome(origin, who).0,
        Call::MakeProposal { origin, text, time_period } => s.propose_outcome(
            origin,
            text,
            time_period,
        ).0,
        Call::IncreaseProposalTime { origin, id, time_period } => s.extend_outcome(
            origin,
            id,
            time_period,
        ).0,
        Call::CancelProposal { origin, id } => s.cancel_proposal_outcome(origin, id).0,
        Call::Vote { origin, id, decision } => s.vote_outcome(origin, id, decision).0,
        Call::UpdateVote { origin, id, decision } => s.update_outcome(origin, id, decision).0,
        Call::CancelVote { origin, id } => s.cancel_vote_outcome(origin, id).0,
        Call::FinishProposal { origin, id } => s.finish_outcome(origin, id).0,
        Call::UnlockBalance { origin, id } => s.unlock_outcome(origin, id).0,
        Call::SetBlockNumber { now } => GovernanceState { now, ..s },
        Call::SetMaxVoters { max_voters } => GovernanceState {
            config: Config { max_voters, ..s.config },
            ..s
        },
        Call::MakeFreeBalanceBe { who, amount } => GovernanceState {
            accounts: s.accounts.insert(who, AccountData { free: amount, reserved: s.reserved(who) }),
            ..s
        },
    }
}

/// The state after the calls, in order.
pub open spec fn run(s: GovernanceState, calls: Seq<Call>) -> GovernanceState
    decreases calls.len(),
{
    if calls.len() == 0 {
        s
    } else {
        step(run(s, calls.drop_last()), calls.last())
    }
}

/// Proposal `id` has ended with `p`'s status and tallies.
pub open spec fn settled_as(s: GovernanceState, id: ProposalId, p: Proposal) -> bool {
    &&& s.proposals.contains_key(id)
    &&& id <= s.counter
    &&& p.status != ProposalStatus::InProgress
    &&& s.proposals[id].status == p.status
    &&& s.proposals[id].ayes == p.ayes
    &&& s.proposals[id].nays == p.nays
}

proof fn lemma_step_keeps_settled(s: GovernanceState, id: ProposalId, p: Proposal, c: Call)
    requires
        settled_as(s, id, p),
    ensures
        settled_as(step(s, c), id, p),
{
}

proof fn lemma_run_keeps_settled(s: GovernanceState, id: ProposalId, p: Proposal, calls: Seq<Call>)
    requires
        settled_as(s, id, p),
    ensures
        settled_as(run(s, calls), id, p),
    decreases calls.len(),
{
    if calls.len() > 0 {
        lemma_run_keeps_settled(s, id, p, calls.drop_last());
        lemma_step_keeps_settled(run(s, calls.drop_last()), id, p, calls.last());
    }
}

/// Once a proposal is finished, no sequence of calls changes its status or tallies again,
/// and every later attempt to finish it fails: a proposal is finished at most once.
pub proof fn lemma_finished_stays_settled(
    s: GovernanceState,
    origin: Origin,
    id: ProposalId,
    calls: Seq<Call>,
)
    requires
        s.wf(),
        s.finish_outcome(origin, id).1 is Ok,
    ensures
        ({
            let t0 = s.finish_outcome(origin, id).0;
            let t = run(t0, calls);
            &&& t0.proposals[id].status != ProposalStatus::InProgress
            &&& t.proposals.contains_key(id)
            &&& t.proposals[id].status == t0.proposals[id].status
            &&& t.proposals[id].ayes == s.proposals[id].ayes
            &&& t.proposals[id].nays == s.proposals[id].nays
            &&& forall|o: Origin| (#[trigger] t.finish_outcome(o, id)).1 is Err
        }),
{
    let t0 = s.finish_outcome(origin, id).0;
    lemma_run_keeps_settled(t0, id, t0.proposals[id], calls);
}

} // verus!
