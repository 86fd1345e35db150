//! A governance ledger: registered voters submit proposals and cast quadratic-cost votes
//! that lock collateral, and each proposal is settled by its tallies once its voting
//! window has closed.
//!
//! [`Pallet`] holds the ledger. Each of its operations is specified by a transition of the
//! abstract [`GovernanceState`]: an operation either returns `Ok` and moves to the state
//! that the transition gives, or returns the first error that applies and changes nothing.

pub mod balances;
pub mod laws;
pub mod pallet;
pub mod preservation;
pub mod state;
pub mod tally;
pub mod types;

pub use balances::{AccountData, Balances};
pub use pallet::Pallet;
pub use state::GovernanceState;
pub use types::{
    AccountId, Balance, BlockNumber, Config, DescriptionHash, Error, Event, Origin, Proposal,
    ProposalId, ProposalStatus, Vote, VoteDecision,
};
