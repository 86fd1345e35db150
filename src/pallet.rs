use vstd::prelude::*;

use std::collections::BTreeMap;
use std::collections::BTreeSet;

use crate::balances::{AccountData, Balances, reserved_of};
use crate::preservation::{
    lemma_cancel_proposal_keeps_wf, lemma_cancel_vote_keeps_wf, lemma_extend_keeps_wf,
    lemma_finish_keeps_wf, lemma_propose_keeps_wf, lemma_register_keeps_wf, lemma_unlock_keeps_wf,
    lemma_update_keeps_wf, lemma_vote_keeps_wf,
};
use crate::state::GovernanceState;
use crate::types::{
    AccountId, Balance, BlockNumber, Config, DescriptionHash, Error, Event, Origin, Proposal,
    ProposalId, ProposalStatus, Vote, VoteDecision,
};

verus! {

/// The governance ledger: voter registry, proposal store, vote ledger and the balances
/// that votes lock.
pub struct Pallet {
    config: Config,
    block_number: BlockNumber,
    registered_voters: BTreeSet<AccountId>,
    amount_voters: u32,
    proposals: BTreeMap<ProposalId, Proposal>,
    votes: BTreeMap<(AccountId, ProposalId), Vote>,
    proposal_counter: ProposalId,
    balances: Balances,
    events: Vec<Event>,
}

impl View for Pallet {
    type V = GovernanceState;

    closed spec fn view(&self) -> GovernanceState {
        GovernanceState {
            config: self.config,
            now: self.block_number,
            registered: self.registered_voters@,
            voter_count: self.amount_voters,
            proposals: self.proposals@,
            votes: self.votes@,
            counter: self.proposal_counter,
            accounts: self.balances@,
            events: self.events@,
        }
    }
}

/// The account behind a signed origin.
fn ensure_signed(origin: Origin) -> (r: Result<AccountId, Error>)
    ensures
        match origin {
            Origin::Root => r == Err::<AccountId, Error>(Error::BadOrigin),
            Origin::Signed(who) => r == Ok::<AccountId, Error>(who),
        },
{
    match origin {
        Origin::Root => Err(Error::BadOrigin),
        Origin::Signed(who) => Ok(who),
    }
}

impl Pallet {
    pub open spec fn wf(&self) -> bool {
        self@.wf()
    }

    /// An empty ledger at time zero.
    pub fn new(config: Config) -> (r: Pallet)
        ensures
            r.wf(),
            r@ == (GovernanceState {
                config,
                now: 0,
                registered: Set::empty(),
                voter_count: 0,
                proposals: Map::empty(),
                votes: Map::empty(),
                counter: 0,
                accounts: Map::empty(),
                events: Seq::empty(),
            }),
    {
        Pallet {
            config,
            block_number: 0,
            registered_voters: BTreeSet::new(),
            amount_voters: 0,
            proposals: BTreeMap::new(),
            votes: BTreeMap::new(),
            proposal_counter: 0,
            balances: Balances::new(),
            events: Vec::new(),
        }
    }

    /// Registers `who` as a voter. Only the administrative origin may do so.
    pub fn register_voter(&mut self, origin: Origin, who: AccountId) -> (r: Result<(), Error>)
        requires
            old(self).wf(),
        ensures
            final(self).wf(),
            (final(self)@, r) == old(self)@.register_outcome(origin, who),
    {
        proof {
            lemma_register_keeps_wf(self@, origin, who);
        }
        if origin != Origin::Root {
            return Err(Error::BadOrigin);
        }
        if self.is_registered(&who) {
            return Err(Error::AlreadyRegistered);
        }
        let amount_voters = self.amount_voters;
        if amount_voters >= self.config.max_voters {
            return Err(Error::MaxVotersLimitReached);
        }
        self.registered_voters.insert(who);
        self.amount_voters = amount_voters.saturating_add(1);
        self.events.push(Event::VoterRegistered { who });
        Ok(())
    }

    /// Submits a proposal that can be voted on until `time_period`, under the next identifier.
    pub fn make_proposal(
        &mut self,
        origin: Origin,
        description: DescriptionHash,
        time_period: BlockNumber,
    ) -> (r: Result<(), Error>)
        requires
            old(self).wf(),
        ensures
            final(self).wf(),
            (final(self)@, r) == old(self)@.propose_outcome(origin, description, time_period),
    {
        proof {
            lemma_propose_keeps_wf(self@, origin, description, time_period);
        }
        let who = ensure_signed(origin)?;
        if !self.is_registered(&who) {
            return Err(Error::VoterIsNotRegistered);
        }
        if time_period <= self.block_number {
            return Err(Error::TimePeriodTooLow);
        }
        let proposal_id = match self.proposal_counter.checked_add(1) {
            Some(id) => id,
            None => return Err(Error::ProposalIdTooHigh),
        };
        let new_proposal = Proposal::new(proposal_id, who, description, time_period);
        self.proposals.insert(proposal_id, new_proposal);
        self.proposal_counter = proposal_id;
        self.events.push(Event::ProposalSubmitted { proposal_id, who });
        Ok(())
    }

    /// Moves the deadline of a proposal later. Only its proposer may do so.
    pub fn increase_proposal_time(
        &mut self,
        origin: Origin,
        proposal_id: ProposalId,
        new_time_period: BlockNumber,
    ) -> (r: Result<(), Error>)
        requires
            old(self).wf(),
        ensures
            final(self).wf(),
            (final(self)@, r) == old(self)@.extend_outcome(origin, proposal_id, new_time_period),
    {
        proof {
            lemma_extend_keeps_wf(self@, origin, proposal_id, new_time_period);
        }
        let who = ensure_signed(origin)?;
        if !self.is_registered(&who) {
            return Err(Error::VoterIsNotRegistered);
        }
        let proposal = match self.get_proposal(&proposal_id) {
            Some(p) => p,
            None => return Err(Error::ProposalNotFound),
        };
        if proposal.proposer != who {
            return Err(Error::Unauthorized);
        }
        if new_time_period <= proposal.time_period {
            return Err(Error::TimePeriodTooLow);
        }
        if new_time_period <= self.block_number {
            return Err(Error::TimePeriodTooLow);
        }
        self.proposals.insert(proposal_id, Proposal { time_period: new_time_period, ..proposal });
        self.events.push(Event::ProposalUpdated { proposal_id, end_block: new_time_period });
        Ok(())
    }

    /// Cancels a proposal that is still open. Only its proposer may do so. The collateral
    /// of the votes on it stays reserved until each voter unlocks it.
    pub fn cancel_proposal(&mut self, origin: Origin, proposal_id: ProposalId) -> (r: Result<(), Error>)
        requires
            old(self).wf(),
        ensures
            final(self).wf(),
            (final(self)@, r) == old(self)@.cancel_proposal_outcome(origin, proposal_id),
    {
        proof {
            lemma_cancel_proposal_keeps_wf(self@, origin, proposal_id);
        }
        let who = ensure_signed(origin)?;
        let proposal = match self.get_proposal(&proposal_id) {
            Some(p) => p,
            None => return Err(Error::ProposalNotFound),
        };
        if proposal.proposer != who {
            return Err(Error::Unauthorized);
        }
        if proposal.status != ProposalStatus::InProgress {
            return Err(Error::ProposalAlreadyEnded);
        }
        if proposal.time_period <= self.block_number {
            return Err(Error::TimePeriodTooLow);
        }
        self.proposals.insert(proposal_id, Proposal { status: ProposalStatus::Canceled, ..proposal });
        self.events.push(Event::ProposalCanceled { proposal_id });
        Ok(())
    }

    /// Casts a vote of `n` points on an open proposal, reserving `n * n` of the voter's
    /// free balance and adding `n` to the chosen side's tally. A tally that would go past
    /// `u32::MAX` is refused with `Overflow`.
    pub fn vote(
        &mut self,
        origin: Origin,
        proposal_id: ProposalId,
        vote_decision: VoteDecision,
    ) -> (r: Result<(), Error>)
        requires
            old(self).wf(),
        ensures
            final(self).wf(),
            (final(self)@, r) == old(self)@.vote_outcome(origin, proposal_id, vote_decision),
    {
        proof {
            lemma_vote_keeps_wf(self@, origin, proposal_id, vote_decision);
        }
        let who = ensure_signed(origin)?;
        if !self.is_registered(&who) {
            return Err(Error::VoterIsNotRegistered);
        }
        let proposal = match self.get_proposal(&proposal_id) {
            Some(p) => p,
            None => return Err(Error::ProposalNotFound),
        };
        if !(proposal.time_period > self.block_number && proposal.status == ProposalStatus::InProgress) {
            return Err(Error::ProposalAlreadyEnded);
        }
        if self.vote_casted(&who, &proposal_id) {
            return Err(Error::VoteAlreadyCasted);
        }
        let vote_amount = vote_decision.amount();
        if vote_amount == 0 {
            return Err(Error::InvalidVoteAmount);
        }
        if vote_amount > self.config.vote_limit {
            return Err(Error::VoteAmountLimit);
        }
        let amount_to_reserve = match vote_amount.checked_mul(vote_amount) {
            Some(a) => a,
            None => return Err(Error::Overflow),
        };
        let (ayes, nays) = match vote_decision {
            VoteDecision::Aye(v) => match proposal.ayes.checked_add(v) {
                Some(a) => (a, proposal.nays),
                None => return Err(Error::Overflow),
            },
            VoteDecision::Nay(v) => match proposal.nays.checked_add(v) {
                Some(n) => (proposal.ayes, n),
                None => return Err(Error::Overflow),
            },
        };
        self.balances.reserve(who, amount_to_reserve as Balance)?;
        self.votes.insert((who, proposal_id), Vote { vote_decision, locked: true });
        self.proposals.insert(proposal_id, Proposal { ayes, nays, ..proposal });
        self.events.push(Event::VoteCasted { proposal_id, who });
        Ok(())
    }

    /// Replaces a voter's vote on an open proposal, moving the tallies and the reserved
    /// collateral from the old vote to the new one. Within the removal window a vote can
    /// grow but not shrink.
    pub fn update_vote(
        &mut self,
        origin: Origin,
        proposal_id: ProposalId,
        new_vote_decision: VoteDecision,
    ) -> (r: Result<(), Error>)
        requires
            old(self).wf(),
        ensures
            final(self).wf(),
            (final(self)@, r) == old(self)@.update_outcome(origin, proposal_id, new_vote_decision),
    {
        proof {
            lemma_update_keeps_wf(self@, origin, proposal_id, new_vote_decision);
        }
        let who = ensure_signed(origin)?;
        if !self.is_registered(&who) {
            return Err(Error::VoterIsNotRegistered);
        }
        let proposal = match self.get_proposal(&proposal_id) {
            Some(p) => p,
            None => return Err(Error::ProposalNotFound),
        };
        if !(proposal.time_period > self.block_number && proposal.status == ProposalStatus::InProgress) {
            return Err(Error::ProposalAlreadyEnded);
        }
        let current_vote = match self.votes.get(&(who, proposal_id)) {
            Some(v) => *v,
            None => return Err(Error::VoteNotFound),
        };
        let (ayes, nays, current_amount) = match current_vote.vote_decision {
            VoteDecision::Aye(v) => (proposal.ayes.saturating_sub(v), proposal.nays, v),
            VoteDecision::Nay(v) => (proposal.ayes, proposal.nays.saturating_sub(v), v),
        };
        let new_amount = new_vote_decision.amount();
        if new_amount < current_amount && self.passed_removal_threshold(&proposal.time_period) {
            return Err(Error::PassedRemovalThreshold);
        }
        if new_amount == 0 {
            return Err(Error::InvalidUpdateAmount);
        }
        if new_amount > self.config.vote_limit {
            return Err(Error::VoteAmountLimit);
        }
        let current_amount_pow = match current_amount.checked_mul(current_amount) {
            Some(a) => a,
            None => return Err(Error::Overflow),
        };
        let new_amount_pow = match new_amount.checked_mul(new_amount) {
            Some(a) => a,
            None => return Err(Error::Overflow),
        };
        let (ayes, nays) = match new_vote_decision {
            VoteDecision::Aye(v) => match ayes.checked_add(v) {
                Some(a) => (a, nays),
                None => return Err(Error::Overflow),
            },
            VoteDecision::Nay(v) => match nays.checked_add(v) {
                Some(n) => (ayes, n),
                None => return Err(Error::Overflow),
            },
        };
        if new_amount > current_amount {
            proof {
                assert(current_amount * current_amount <= new_amount * new_amount) by (nonlinear_arith)
                    requires current_amount < new_amount;
            }
            self.balances.reserve(who, (new_amount_pow - current_amount_pow) as Balance)?;
        } else if new_amount < current_amount {
            proof {
                assert(new_amount * new_amount <= current_amount * current_amount) by (nonlinear_arith)
                    requires new_amount < current_amount;
            }
            self.balances.unreserve(who, (current_amount_pow - new_amount_pow) as Balance);
        }
        self.votes.insert((who, proposal_id), Vote { vote_decision: new_vote_decision, locked: true });
        self.proposals.insert(proposal_id, Proposal { ayes, nays, ..proposal });
        self.events.push(
            Event::VoteUpdated {
                proposal_id,
                who,
                previous: current_vote.vote_decision,
                new: new_vote_decision,
            },
        );
        Ok(())
    }

    /// Withdraws a voter's vote from an open proposal outside the removal window, taking
    /// its points off the tally and releasing its collateral.
    pub fn cancel_vote(&mut self, origin: Origin, proposal_id: ProposalId) -> (r: Result<(), Error>)
        requires
            old(self).wf(),
        ensures
            final(self).wf(),
            (final(self)@, r) == old(self)@.cancel_vote_outcome(origin, proposal_id),
    {
        proof {
            lemma_cancel_vote_keeps_wf(self@, origin, proposal_id);
        }
        let who = ensure_signed(origin)?;
        let proposal = match self.get_proposal(&proposal_id) {
            Some(p) => p,
            None => return Err(Error::ProposalNotFound),
        };
        let vote = match self.votes.get(&(who, proposal_id)) {
            Some(v) => *v,
            None => return Err(Error::VoteNotFound),
        };
        if !(proposal.time_period >= self.block_number && proposal.status == ProposalStatus::InProgress) {
            return Err(Error::ProposalAlreadyEnded);
        }
        if self.passed_removal_threshold(&proposal.time_period) {
            return Err(Error::PassedRemovalThreshold);
        }
        let (ayes, nays, vote_amount) = match vote.vote_decision {
            VoteDecision::Aye(v) => (proposal.ayes.saturating_sub(v), proposal.nays, v),
            VoteDecision::Nay(v) => (proposal.ayes, proposal.nays.saturating_sub(v), v),
        };
        let amount_to_unreserve = vote_amount * vote_amount;
        self.proposals.insert(proposal_id, Proposal { ayes, nays, ..proposal });
        self.votes.remove(&(who, proposal_id));
        self.balances.unreserve(who, amount_to_unreserve as Balance);
        self.events.push(Event::VoteCanceled { proposal_id, who });
        Ok(())
    }

    /// Closes a proposal whose deadline has passed, settling it by its tallies.
    pub fn finish_proposal(&mut self, origin: Origin, proposal_id: ProposalId) -> (r: Result<(), Error>)
        requires
            old(self).wf(),
        ensures
            final(self).wf(),
            (final(self)@, r) == old(self)@.finish_outcome(origin, proposal_id),
    {
        proof {
            lemma_finish_keeps_wf(self@, origin, proposal_id);
        }
        let who = ensure_signed(origin)?;
        if !self.is_registered(&who) {
            return Err(Error::VoterIsNotRegistered);
        }
        let proposal = match self.get_proposal(&proposal_id) {
            Some(p) => p,
            None => return Err(Error::ProposalNotFound),
        };
        if !(proposal.time_period < self.block_number && proposal.status == ProposalStatus::InProgress) {
            return Err(Error::ProposalAlreadyEnded);
        }
        let voting_result = if proposal.ayes > proposal.nays {
            ProposalStatus::Passed
        } else if proposal.ayes < proposal.nays {
            ProposalStatus::Rejected
        } else {
            ProposalStatus::Tied
        };
        self.proposals.insert(proposal_id, Proposal { status: voting_result, ..proposal });
        self.events.push(Event::ProposalEnded { proposal_id, status: voting_result });
        Ok(())
    }

    /// Releases the collateral of a voter's vote once the proposal is no longer in progress.
    pub fn unlock_balance(&mut self, origin: Origin, proposal_id: ProposalId) -> (r: Result<(), Error>)
        requires
            old(self).wf(),
        ensures
            final(self).wf(),
            (final(self)@, r) == old(self)@.unlock_outcome(origin, proposal_id),
    {
        proof {
            lemma_unlock_keeps_wf(self@, origin, proposal_id);
        }
        let who = ensure_signed(origin)?;
        let proposal = match self.get_proposal(&proposal_id) {
            Some(p) => p,
            None => return Err(Error::ProposalNotFound),
        };
        if proposal.status == ProposalStatus::InProgress {
            return Err(Error::ProposalInProgress);
        }
        let vote = match self.votes.get(&(who, proposal_id)) {
            Some(v) => *v,
            None => return Err(Error::VoteNotFound),
        };
        if !vote.locked {
            return Err(Error::BalanceAlreadyUnlocked);
        }
        self.votes.insert((who, proposal_id), Vote { locked: false, ..vote });
        let vote_amount = vote.vote_decision.amount();
        let amount_to_unreserve = vote_amount * vote_amount;
        self.balances.unreserve(who, amount_to_unreserve as Balance);
        self.events.push(Event::BalanceUnlocked { proposal_id, who });
        Ok(())
    }

    /// Whether a deadline that is not in the past lies within the trailing window in which
    /// votes can be neither reduced nor canceled.
    pub fn passed_removal_threshold(&self, end_time_period: &BlockNumber) -> (r: bool)
        requires
            *end_time_period >= self@.now,
        ensures
            r == self@.passed_threshold(*end_time_period),
    {
        let difference = *end_time_period - self.block_number;
        difference < self.config.vote_removal_threshold as BlockNumber
    }

    pub fn is_registered(&self, who: &AccountId) -> (r: bool)
        ensures
            r == self@.registered.contains(*who),
    {
        self.registered_voters.contains(who)
    }

    pub fn proposal_exists(&self, proposal_id: ProposalId) -> (r: bool)
        ensures
            r == self@.proposals.contains_key(proposal_id),
    {
        self.proposals.contains_key(&proposal_id)
    }

    /// The identifier of the latest proposal; zero before the first.
    pub fn get_proposal_counter(&self) -> (r: ProposalId)
        ensures
            r == self@.counter,
    {
        self.proposal_counter
    }

    pub fn get_proposal(&self, proposal_id: &ProposalId) -> (r: Option<Proposal>)
        ensures
            match r {
                Some(p) => self@.proposals.contains_key(*proposal_id)
                    && p == self@.proposals[*proposal_id],
                None => !self@.proposals.contains_key(*proposal_id),
            },
    {
        match self.proposals.get(proposal_id) {
            Some(p) => Some(*p),
            None => None,
        }
    }

    /// Whether `who` has a vote on the proposal.
    pub fn vote_casted(&self, who: &AccountId, proposal_id: &ProposalId) -> (r: bool)
        ensures
            r == self@.votes.contains_key((*who, *proposal_id)),
    {
        self.votes.contains_key(&(*who, *proposal_id))
    }

    pub fn get_vote(&self, who: &AccountId, proposal_id: &ProposalId) -> (r: Option<Vote>)
        ensures
            match r {
                Some(v) => self@.votes.contains_key((*who, *proposal_id)) && v == self@.votes[(
                    *who,
                    *proposal_id,
                )],
                None => !self@.votes.contains_key((*who, *proposal_id)),
            },
    {
        match self.votes.get(&(*who, *proposal_id)) {
            Some(v) => Some(*v),
            None => None,
        }
    }

    /// How many voters are registered.
    pub fn amount_voters(&self) -> (r: u32)
        ensures
            r == self@.voter_count,
    {
        self.amount_voters
    }

    pub fn config(&self) -> (r: Config)
        ensures
            r == self@.config,
    {
        self.config
    }

    /// Changes how many voters can be registered; voters already in stay.
    pub fn set_max_voters(&mut self, max_voters: u32)
        requires
            old(self).wf(),
        ensures
            final(self).wf(),
            final(self)@ == (GovernanceState {
                config: Config { max_voters, ..old(self)@.config },
                ..old(self)@
            }),
    {
        self.config = Config { max_voters, ..self.config };
    }

    /// The current time, as the clock last gave it.
    pub fn block_number(&self) -> (r: BlockNumber)
        ensures
            r == self@.now,
    {
        self.block_number
    }

    /// Hands the ledger the clock's current time.
    pub fn set_block_number(&mut self, n: BlockNumber)
        requires
            old(self).wf(),
        ensures
            final(self).wf(),
            final(self)@ == (GovernanceState { now: n, ..old(self)@ }),
    {
        self.block_number = n;
    }

    pub fn free_balance(&self, who: &AccountId) -> (r: Balance)
        ensures
            r == self@.free(*who),
    {
        self.balances.free_balance(*who)
    }

    pub fn reserved_balance(&self, who: &AccountId) -> (r: Balance)
        ensures
            r == self@.reserved(*who),
    {
        self.balances.reserved_balance(*who)
    }

    /// Sets the free balance of an account, leaving what it has reserved as it is.
    pub fn make_free_balance_be(&mut self, who: &AccountId, amount: Balance)
        requires
            old(self).wf(),
        ensures
            final(self).wf(),
            final(self)@ == (GovernanceState {
                accounts: old(self)@.accounts.insert(
                    *who,
                    AccountData { free: amount, reserved: old(self)@.reserved(*who) },
                ),
                ..old(self)@
            }),
    {
        let ghost before = self@;
        self.balances.make_free_balance_be(*who, amount);
        assert forall|w: AccountId| #[trigger]
            reserved_of(self@.accounts, w) == reserved_of(before.accounts, w) by {}
    }

    /// The notifications of the successful operations so far, oldest first.
    pub fn events(&self) -> (r: &Vec<Event>)
        ensures
            r@ == self@.events,
    {
        &self.events
    }

    /// Whether `event` was recorded.
    pub fn has_event(&self, event: &Event) -> (r: bool)
        ensures
            r == self@.events.contains(*event),
    {
        let mut i: usize = 0;
        while i < self.events.len()
            invariant
                0 <= i <= self.events@.len(),
                forall|j: int| 0 <= j < i ==> self.events@[j] != *event,
            decreases self.events@.len() - i,
        {
            if self.events[i] == *event {
                return true;
            }
            i += 1;
        }
        false
    }
}

} // verus!
