use vstd::prelude::*;

verus! {

/// Identifier of a proposal, assigned from an ever-increasing counter.
pub type ProposalId = u32;

/// Identifier of a participant account.
pub type AccountId = u64;

/// Ordinal time value (a block number).
pub type BlockNumber = u64;

/// Amount of the currency that votes lock as collateral.
pub type Balance = u128;

/// Opaque 256-bit hash of a proposal's description.
pub type DescriptionHash = [u8; 32];

/// A vote's side together with its number of points.
#[derive(Clone, Copy, Debug, PartialEq, Eq, Structural)]
pub enum VoteDecision {
    Aye(u32),
    Nay(u32),
}

impl VoteDecision {
    /// The number of points of the decision, whatever its side.
    pub open spec fn magnitude(self) -> u32 {
        match self {
            VoteDecision::Aye(n) => n,
            VoteDecision::Nay(n) => n,
        }
    }

    /// Points that the decision adds to the ayes.
    pub open spec fn aye_points(self) -> int {
        match self {
            VoteDecision::Aye(n) => n as int,
            VoteDecision::Nay(_) => 0,
        }
    }

    /// Points that the decision adds to the nays.
    pub open spec fn nay_points(self) -> int {
        match self {
            VoteDecision::Aye(_) => 0,
            VoteDecision::Nay(n) => n as int,
        }
    }

    pub fn amount(&self) -> (r: u32)
        ensures
            r == self.magnitude(),
    {
        match self {
            VoteDecision::Aye(n) => *n,
            VoteDecision::Nay(n) => *n,
        }
    }
}

/// A voter's vote on one proposal.
#[derive(Clone, Copy, Debug, PartialEq, Eq, Structural)]
pub struct Vote {
    pub vote_decision: VoteDecision,
    /// Whether the collateral of the vote is still reserved.
    pub locked: bool,
}

#[derive(Clone, Copy, Debug, PartialEq, Eq, Structural)]
pub enum ProposalStatus {
    InProgress,
    Canceled,
    Passed,
    Rejected,
    Tied,
}

#[derive(Clone, Copy, Debug, PartialEq, Eq)]
pub struct Proposal {
    pub id: ProposalId,
    pub proposer: AccountId,
    pub text: DescriptionHash,
    /// The block after which the proposal can be finished.
    pub time_period: BlockNumber,
    pub status: ProposalStatus,
    pub ayes: u32,
    pub nays: u32,
}

impl Proposal {
    /// A proposal in progress with no votes.
    pub open spec fn fresh(
        id: ProposalId,
        proposer: AccountId,
        text: DescriptionHash,
        time_period: BlockNumber,
    ) -> Proposal {
        Proposal { id, proposer, text, time_period, status: ProposalStatus::InProgress, ayes: 0, nays: 0 }
    }

    pub fn new(
        id: ProposalId,
        proposer: AccountId,
        text: DescriptionHash,
        time_period: BlockNumber,
    ) -> (r: Proposal)
        ensures
            r == Proposal::fresh(id, proposer, text, time_period),
    {
        Proposal { id, proposer, text, time_period, status: ProposalStatus::InProgress, ayes: 0, nays: 0 }
    }
}

/// Why an operation was rejected. A rejected operation changes nothing.
#[derive(Clone, Copy, Debug, PartialEq, Eq, Structural)]
pub enum Error {
    /// The origin is not of the kind the operation needs.
    BadOrigin,
    AlreadyRegistered,
    VoterIsNotRegistered,
    MaxVotersLimitReached,
    VoteAlreadyCasted,
    VoteNotFound,
    VoteAmountLimit,
    InvalidVoteAmount,
    InvalidUpdateAmount,
    TimePeriodTooLow,
    ProposalIdTooHigh,
    ProposalNotFound,
    Unauthorized,
    ProposalAlreadyEnded,
    BalanceAlreadyUnlocked,
    PassedRemovalThreshold,
    ProposalInProgress,
    Overflow,
    /// The free balance does not cover the amount to reserve.
    InsufficientBalance,
}

/// Who a call comes from: the administrative actor, or an authenticated account.
#[derive(Clone, Copy, Debug, PartialEq, Eq, Structural)]
pub enum Origin {
    Root,
    Signed(AccountId),
}

/// Notification recorded for each successful mutating operation.
#[derive(Clone, Copy, Debug, PartialEq, Eq, Structural)]
pub enum Event {
    VoterRegistered { who: AccountId },
    ProposalSubmitted { proposal_id: ProposalId, who: AccountId },
    VoteCasted { proposal_id: ProposalId, who: AccountId },
    VoteUpdated {
        proposal_id: ProposalId,
        who: AccountId,
        previous: VoteDecision,
        new: VoteDecision,
    },
    VoteCanceled { proposal_id: ProposalId, who: AccountId },
    ProposalEnded { proposal_id: ProposalId, status: ProposalStatus },
    ProposalUpdated { proposal_id: ProposalId, end_block: BlockNumber },
    ProposalCanceled { proposal_id: ProposalId },
    BalanceUnlocked { proposal_id: ProposalId, who: AccountId },
}

/// The parameters of the ledger.
#[derive(Clone, Copy, Debug, PartialEq, Eq, Structural)]
pub struct Config {
    /// Length of the window before a proposal's deadline in which votes can be
    /// neither reduced nor canceled.
    pub vote_removal_threshold: u32,
    /// How many voters can be registered.
    pub max_voters: u32,
    /// The most points one vote can have.
    pub vote_limit: u32,
}

} // verus!
