use vstd::prelude::*;

use crate::balances::{
    AccountData, after_reserve, after_unreserve, free_of, reserve_error, reserved_of,
};
use crate::tally::{aye_weight, lock_weight, nay_weight, total};
use crate::types::{
    AccountId, Balance, BlockNumber, Config, DescriptionHash, Error, Event, Origin, Proposal,
    ProposalId, ProposalStatus, Vote, VoteDecision,
};

verus! {

/// Everything the governance ledger holds, as mathematical values.
pub struct GovernanceState {
    pub config: Config,
    /// The current time, as the clock last gave it.
    pub now: BlockNumber,
    pub registered: Set<AccountId>,
    pub voter_count: u32,
    pub proposals: Map<ProposalId, Proposal>,
    /// At most one vote per voter and proposal.
    pub votes: Map<(AccountId, ProposalId), Vote>,
    /// The identifier given to the latest proposal.
    pub counter: ProposalId,
    pub accounts: Map<AccountId, AccountData>,
    pub events: Seq<Event>,
}

/// The square of a number of points: the collateral that a vote of that many points locks.
pub open spec fn cost(n: u32) -> int {
    n * n
}

/// `a - b`, or zero where `b` exceeds `a`.
pub open spec fn saturating_sub(a: int, b: int) -> int {
    if a >= b {
        a - b
    } else {
        0
    }
}

/// The proposal with other tallies.
pub open spec fn with_tally(p: Proposal, ayes: int, nays: int) -> Proposal {
    Proposal { ayes: ayes as u32, nays: nays as u32, ..p }
}

/// The status a proposal ends in, by its tallies.
pub open spec fn outcome(p: Proposal) -> ProposalStatus {
    if p.ayes > p.nays {
        ProposalStatus::Passed
    } else if p.ayes < p.nays {
        ProposalStatus::Rejected
    } else {
        ProposalStatus::Tied
    }
}

/// The result of an operation: the state after it, and what it returned.
pub type Outcome = (GovernanceState, Result<(), Error>);

impl GovernanceState {
    pub open spec fn free(self, who: AccountId) -> Balance {
        free_of(self.accounts, who)
    }

    pub open spec fn reserved(self, who: AccountId) -> Balance {
        reserved_of(self.accounts, who)
    }

    /// Whether a deadline lies within the trailing window in which votes can be neither
    /// reduced nor canceled. Meaningful where the deadline is not in the past.
    pub open spec fn passed_threshold(self, deadline: BlockNumber) -> bool {
        deadline - self.now < self.config.vote_removal_threshold
    }

    /// Whether voting on the proposal is open.
    pub open spec fn open_for_votes(self, p: Proposal) -> bool {
        p.time_period > self.now && p.status == ProposalStatus::InProgress
    }

    /// The invariant of the ledger. Every proposer and every voter is registered, each tally
    /// is the sum of the points of the live votes on its side, and each account has reserved
    /// exactly the squares of the points of its locked votes.
    pub open spec fn wf(self) -> bool {
        &&& self.registered.finite()
        &&& self.voter_count == self.registered.len()
        &&& forall|id: ProposalId| #[trigger]
            self.proposals.contains_key(id) ==> {
                &&& self.proposals[id].id == id
                &&& 1 <= id <= self.counter
                &&& self.registered.contains(self.proposals[id].proposer)
                &&& self.proposals[id].ayes == total(self.votes, aye_weight(id))
                &&& self.proposals[id].nays == total(self.votes, nay_weight(id))
            }
        &&& self.votes.dom().finite()
        &&& forall|who: AccountId| #[trigger]
            reserved_of(self.accounts, who) == total(self.votes, lock_weight(who))
        &&& forall|k: (AccountId, ProposalId)| #[trigger]
            self.votes.contains_key(k) ==> {
                let v = self.votes[k];
                let n = v.vote_decision.magnitude();
                &&& self.registered.contains(k.0)
                &&& self.proposals.contains_key(k.1)
                &&& 0 < n <= self.config.vote_limit
                &&& cost(n) <= u32::MAX
                &&& self.proposals[k.1].status == ProposalStatus::InProgress ==> v.locked
            }
    }

    pub open spec fn with_event(self, e: Event) -> GovernanceState {
        GovernanceState { events: self.events.push(e), ..self }
    }

    // ---- register_voter

    pub open spec fn register_error(self, origin: Origin, who: AccountId) -> Option<Error> {
        if origin != Origin::Root {
            Some(Error::BadOrigin)
        } else if self.registered.contains(who) {
            Some(Error::AlreadyRegistered)
        } else if self.voter_count >= self.config.max_voters {
            Some(Error::MaxVotersLimitReached)
        } else {
            None
        }
    }

    pub open spec fn register_outcome(self, origin: Origin, who: AccountId) -> Outcome {
        match self.register_error(origin, who) {
            Some(e) => (self, Err(e)),
            None => (
                GovernanceState {
                    registered: self.registered.insert(who),
                    voter_count: (self.voter_count + 1) as u32,
                    ..self
                }.with_event(Event::VoterRegistered { who }),
                Ok(()),
            ),
        }
    }

    // ---- make_proposal

    pub open spec fn propose_error(self, origin: Origin, time_period: BlockNumber) -> Option<
        Error,
    > {
        match origin {
            Origin::Root => Some(Error::BadOrigin),
            Origin::Signed(who) => {
                if !self.registered.contains(who) {
                    Some(Error::VoterIsNotRegistered)
                } else if time_period <= self.now {
                    Some(Error::TimePeriodTooLow)
                } else if self.counter == u32::MAX {
                    Some(Error::ProposalIdTooHigh)
                } else {
                    None
                }
            },
        }
    }

    pub open spec fn propose_outcome(
        self,
        origin: Origin,
        text: DescriptionHash,
        time_period: BlockNumber,
    ) -> Outcome {
        match self.propose_error(origin, time_period) {
            Some(e) => (self, Err(e)),
            None => {
                let who = origin->Signed_0;
                let id = (self.counter + 1) as ProposalId;
                (
                    GovernanceState {
                        proposals: self.proposals.insert(
                            id,
                            Proposal::fresh(id, who, text, time_period),
                        ),
                        counter: id,
                        ..self
                    }.with_event(Event::ProposalSubmitted { proposal_id: id, who }),
                    Ok(()),
                )
            },
        }
    }

    // ---- increase_proposal_time

    pub open spec fn extend_error(
        self,
        origin: Origin,
        id: ProposalId,
        new_time_period: BlockNumber,
    ) -> Option<Error> {
        match origin {
            Origin::Root => Some(Error::BadOrigin),
            Origin::Signed(who) => {
                if !self.registered.contains(who) {
                    Some(Error::VoterIsNotRegistered)
                } else if !self.proposals.contains_key(id) {
                    Some(Error::ProposalNotFound)
                } else if self.proposals[id].proposer != who {
                    Some(Error::Unauthorized)
                } else if new_time_period <= self.proposals[id].time_period {
                    Some(Error::TimePeriodTooLow)
                } else if new_time_period <= self.now {
                    Some(Error::TimePeriodTooLow)
                } else {
                    None
                }
            },
        }
    }

    pub open spec fn extend_outcome(
        self,
        origin: Origin,
        id: ProposalId,
        new_time_period: BlockNumber,
    ) -> Outcome {
        match self.extend_error(origin, id, new_time_period) {
            Some(e) => (self, Err(e)),
            None => (
                GovernanceState {
                    proposals: self.proposals.insert(
                        id,
                        Proposal { time_period: new_time_period, ..self.proposals[id] },
                    ),
                    ..self
                }.with_event(
                    Event::ProposalUpdated { proposal_id: id, end_block: new_time_period },
                ),
                Ok(()),
            ),
        }
    }

    // ---- cancel_proposal

    pub open spec fn cancel_proposal_error(self, origin: Origin, id: ProposalId) -> Option<Error> {
        match origin {
            Origin::Root => Some(Error::BadOrigin),
            Origin::Signed(who) => {
                if !self.proposals.contains_key(id) {
                    Some(Error::ProposalNotFound)
                } else if self.proposals[id].proposer != who {
                    Some(Error::Unauthorized)
                } else if self.proposals[id].status != ProposalStatus::InProgress {
                    Some(Error::ProposalAlreadyEnded)
                } else if self.proposals[id].time_period <= self.now {
                    Some(Error::TimePeriodTooLow)
                } else {
                    None
                }
            },
        }
    }

    pub open spec fn cancel_proposal_outcome(self, origin: Origin, id: ProposalId) -> Outcome {
        match self.cancel_proposal_error(origin, id) {
            Some(e) => (self, Err(e)),
            None => (
                GovernanceState {
                    proposals: self.proposals.insert(
                        id,
                        Proposal { status: ProposalStatus::Canceled, ..self.proposals[id] },
                    ),
                    ..self
                }.with_event(Event::ProposalCanceled { proposal_id: id }),
                Ok(()),
            ),
        }
    }

    // ---- vote

    pub open spec fn vote_error(self, origin: Origin, id: ProposalId, d: VoteDecision) -> Option<
        Error,
    > {
        match origin {
            Origin::Root => Some(Error::BadOrigin),
            Origin::Signed(who) => {
                let p = self.proposals[id];
                let n = d.magnitude();
                if !self.registered.contains(who) {
                    Some(Error::VoterIsNotRegistered)
                } else if !self.proposals.contains_key(id) {
                    Some(Error::ProposalNotFound)
                } else if !self.open_for_votes(p) {
                    Some(Error::ProposalAlreadyEnded)
                } else if self.votes.contains_key((who, id)) {
                    Some(Error::VoteAlreadyCasted)
                } else if n == 0 {
                    Some(Error::InvalidVoteAmount)
                } else if n > self.config.vote_limit {
                    Some(Error::VoteAmountLimit)
                } else if cost(n) > u32::MAX {
                    Some(Error::Overflow)
                } else if p.ayes + d.aye_points() > u32::MAX || p.nays + d.nay_points() > u32::MAX {
                    Some(Error::Overflow)
                } else {
                    reserve_error(self.accounts, who, cost(n) as Balance)
                }
            },
        }
    }

    pub open spec fn vote_outcome(self, origin: Origin, id: ProposalId, d: VoteDecision) -> Outcome {
        match self.vote_error(origin, id, d) {
            Some(e) => (self, Err(e)),
            None => {
                let who = origin->Signed_0;
                let p = self.proposals[id];
                (
                    GovernanceState {
                        proposals: self.proposals.insert(
                            id,
                            with_tally(p, p.ayes + d.aye_points(), p.nays + d.nay_points()),
                        ),
                        votes: self.votes.insert((who, id), Vote { vote_decision: d, locked: true }),
                        accounts: after_reserve(self.accounts, who, cost(d.magnitude()) as Balance),
                        ..self
                    }.with_event(Event::VoteCasted { proposal_id: id, who }),
                    Ok(()),
                )
            },
        }
    }

    // ---- update_vote

    /// The tallies of the proposal once the voter's current vote is taken out
    /// (saturating at zero) and `d` is put in.
    pub open spec fn retallied(self, who: AccountId, id: ProposalId, d: VoteDecision) -> (int, int) {
        let p = self.proposals[id];
        let prev = self.votes[(who, id)].vote_decision;
        (
            saturating_sub(p.ayes as int, prev.aye_points()) + d.aye_points(),
            saturating_sub(p.nays as int, prev.nay_points()) + d.nay_points(),
        )
    }

    pub open spec fn update_error(self, origin: Origin, id: ProposalId, d: VoteDecision) -> Option<
        Error,
    > {
        match origin {
            Origin::Root => Some(Error::BadOrigin),
            Origin::Signed(who) => {
                let p = self.proposals[id];
                let c = self.votes[(who, id)].vote_decision.magnitude();
                let n = d.magnitude();
                let t = self.retallied(who, id, d);
                if !self.registered.contains(who) {
                    Some(Error::VoterIsNotRegistered)
                } else if !self.proposals.contains_key(id) {
                    Some(Error::ProposalNotFound)
                } else if !self.open_for_votes(p) {
                    Some(Error::ProposalAlreadyEnded)
                } else if !self.votes.contains_key((who, id)) {
                    Some(Error::VoteNotFound)
                } else if n < c && self.passed_threshold(p.time_period) {
                    Some(Error::PassedRemovalThreshold)
                } else if n == 0 {
                    Some(Error::InvalidUpdateAmount)
                } else if n > self.config.vote_limit {
                    Some(Error::VoteAmountLimit)
                } else if cost(c) > u32::MAX || cost(n) > u32::MAX {
                    Some(Error::Overflow)
                } else if t.0 > u32::MAX || t.1 > u32::MAX {
                    Some(Error::Overflow)
                } else if n > c {
                    reserve_error(self.accounts, who, (cost(n) - cost(c)) as Balance)
                } else {
                    None
                }
            },
        }
    }

    pub open spec fn update_outcome(self, origin: Origin, id: ProposalId, d: VoteDecision) -> Outcome {
        match self.update_error(origin, id, d) {
            Some(e) => (self, Err(e)),
            None => {
                let who = origin->Signed_0;
                let p = self.proposals[id];
                let prev = self.votes[(who, id)].vote_decision;
                let c = prev.magnitude();
                let n = d.magnitude();
                let t = self.retallied(who, id, d);
                let accounts = if n > c {
                    after_reserve(self.accounts, who, (cost(n) - cost(c)) as Balance)
                } else if n < c {
                    after_unreserve(self.accounts, who, (cost(c) - cost(n)) as Balance)
                } else {
                    self.accounts
                };
                (
                    GovernanceState {
                        proposals: self.proposals.insert(id, with_tally(p, t.0, t.1)),
                        votes: self.votes.insert((who, id), Vote { vote_decision: d, locked: true }),
                        accounts,
                        ..self
                    }.with_event(
                        Event::VoteUpdated { proposal_id: id, who, previous: prev, new: d },
                    ),
                    Ok(()),
                )
            },
        }
    }

    // ---- cancel_vote

    pub open spec fn cancel_vote_error(self, origin: Origin, id: ProposalId) -> Option<Error> {
        match origin {
            Origin::Root => Some(Error::BadOrigin),
            Origin::Signed(who) => {
                let p = self.proposals[id];
                if !self.proposals.contains_key(id) {
                    Some(Error::ProposalNotFound)
                } else if !self.votes.contains_key((who, id)) {
                    Some(Error::VoteNotFound)
                } else if !(p.time_period >= self.now && p.status == ProposalStatus::InProgress) {
                    Some(Error::ProposalAlreadyEnded)
                } else if self.passed_threshold(p.time_period) {
                    Some(Error::PassedRemovalThreshold)
                } else {
                    None
                }
            },
        }
    }

    pub open spec fn cancel_vote_outcome(self, origin: Origin, id: ProposalId) -> Outcome {
        match self.cancel_vote_error(origin, id) {
            Some(e) => (self, Err(e)),
            None => {
                let who = origin->Signed_0;
                let p = self.proposals[id];
                let prev = self.votes[(who, id)].vote_decision;
                (
                    GovernanceState {
                        proposals: self.proposals.insert(
                            id,
                            with_tally(
                                p,
                                saturating_sub(p.ayes as int, prev.aye_points()),
                                saturating_sub(p.nays as int, prev.nay_points()),
                            ),
                        ),
                        votes: self.votes.remove((who, id)),
                        accounts: after_unreserve(
                            self.accounts,
                            who,
                            cost(prev.magnitude()) as Balance,
                        ),
                        ..self
                    }.with_event(Event::VoteCanceled { proposal_id: id, who }),
                    Ok(()),
                )
            },
        }
    }

    // ---- finish_proposal

    pub open spec fn finish_error(self, origin: Origin, id: ProposalId) -> Option<Error> {
        match origin {
            Origin::Root => Some(Error::BadOrigin),
            Origin::Signed(who) => {
                let p = self.proposals[id];
                if !self.registered.contains(who) {
                    Some(Error::VoterIsNotRegistered)
                } else if !self.proposals.contains_key(id) {
                    Some(Error::ProposalNotFound)
                } else if !(p.time_period < self.now && p.status == ProposalStatus::InProgress) {
                    Some(Error::ProposalAlreadyEnded)
                } else {
                    None
                }
            },
        }
    }

    pub open spec fn finish_outcome(self, origin: Origin, id: ProposalId) -> Outcome {
        match self.finish_error(origin, id) {
            Some(e) => (self, Err(e)),
            None => {
                let p = self.proposals[id];
                (
                    GovernanceState {
                        proposals: self.proposals.insert(id, Proposal { status: outcome(p), ..p }),
                        ..self
                    }.with_event(Event::ProposalEnded { proposal_id: id, status: outcome(p) }),
                    Ok(()),
                )
            },
        }
    }

    // ---- unlock_balance

    pub open spec fn unlock_error(self, origin: Origin, id: ProposalId) -> Option<Error> {
        match origin {
            Origin::Root => Some(Error::BadOrigin),
            Origin::Signed(who) => {
                if !self.proposals.contains_key(id) {
                    Some(Error::ProposalNotFound)
                } else if self.proposals[id].status == ProposalStatus::InProgress {
                    Some(Error::ProposalInProgress)
                } else if !self.votes.contains_key((who, id)) {
                    Some(Error::VoteNotFound)
                } else if !self.votes[(who, id)].locked {
                    Some(Error::BalanceAlreadyUnlocked)
                } else {
                    None
                }
            },
        }
    }

    pub open spec fn unlock_outcome(self, origin: Origin, id: ProposalId) -> Outcome {
        match self.unlock_error(origin, id) {
            Some(e) => (self, Err(e)),
            None => {
                let who = origin->Signed_0;
                let v = self.votes[(who, id)];
                (
                    GovernanceState {
                        votes: self.votes.insert((who, id), Vote { locked: false, ..v }),
                        accounts: after_unreserve(
                            self.accounts,
                            who,
                            cost(v.vote_decision.magnitude()) as Balance,
                        ),
                        ..self
                    }.with_event(Event::BalanceUnlocked { proposal_id: id, who }),
                    Ok(()),
                )
            },
        }
    }
}

} // verus!
