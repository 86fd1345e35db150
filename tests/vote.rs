use voting::{Config, Error, Event, Origin, Pallet, Proposal, VoteDecision};

fn new_test_ext() -> Pallet {
    Pallet::new(Config { vote_removal_threshold: 10, max_voters: 100, vote_limit: 10 })
}

#[test]
fn cast_valid_votes() {
    let mut voting = new_test_ext();
    // Initial setup
    voting.set_block_number(1);
    let proposal_id = voting.get_proposal_counter() + 1;
    assert_eq!(voting.register_voter(Origin::Root, 1), Ok(()));
    assert_eq!(voting.register_voter(Origin::Root, 2), Ok(()));
    let initial_balance: u32 = 25;
    voting.make_free_balance_be(&1, initial_balance.into());
    assert_eq!(voting.make_proposal(Origin::Signed(1), [0u8; 32], 90), Ok(()));

    // Vote in favor
    let vote_amount: u32 = 2;
    assert_eq!(voting.vote(Origin::Signed(1), proposal_id, VoteDecision::Aye(vote_amount)), Ok(()));
    assert!(voting.has_event(&Event::VoteCasted { proposal_id, who: 1 }));

    // The reserved amount is the square of the points
    let user_balance = voting.free_balance(&1);
    assert_eq!(initial_balance, user_balance as u32 + vote_amount.pow(2));

    // The vote is stored and the proposal updated
    assert!(voting.vote_casted(&1, &proposal_id));
    let updated_proposal: Proposal = voting.get_proposal(&proposal_id).unwrap();
    assert_eq!(updated_proposal.ayes, vote_amount);

    // Vote nay
    voting.make_free_balance_be(&2, 25u32.into());
    assert_eq!(voting.vote(Origin::Signed(2), proposal_id, VoteDecision::Nay(vote_amount)), Ok(()));
    assert!(voting.has_event(&Event::VoteCasted { proposal_id, who: 2 }));
    assert!(voting.vote_casted(&2, &proposal_id));
    let updated_proposal: Proposal = voting.get_proposal(&proposal_id).unwrap();
    assert_eq!(updated_proposal.nays, vote_amount);
}

#[test]
fn voter_not_registered() {
    let mut voting = new_test_ext();
    voting.set_block_number(1);
    let proposal_id = voting.get_proposal_counter() + 1;
    assert_eq!(voting.register_voter(Origin::Root, 1), Ok(()));
    assert_eq!(voting.make_proposal(Origin::Signed(1), [0u8; 32], 90), Ok(()));

    assert_eq!(
        voting.vote(Origin::Signed(2), proposal_id, VoteDecision::Aye(1)),
        Err(Error::VoterIsNotRegistered)
    );
}

#[test]
fn vote_already_casted() {
    let mut voting = new_test_ext();
    voting.set_block_number(1);
    voting.make_free_balance_be(&1, 25u32.into());
    let proposal_id = voting.get_proposal_counter() + 1;
    assert_eq!(voting.register_voter(Origin::Root, 1), Ok(()));
    assert_eq!(voting.make_proposal(Origin::Signed(1), [0u8; 32], 90), Ok(()));

    assert_eq!(voting.vote(Origin::Signed(1), proposal_id, VoteDecision::Aye(1)), Ok(()));
    assert_eq!(
        voting.vote(Origin::Signed(1), proposal_id, VoteDecision::Aye(1)),
        Err(Error::VoteAlreadyCasted)
    );
    assert_eq!(voting.reserved_balance(&1), 1);
}

#[test]
fn vote_over_limit() {
    let mut voting = new_test_ext();
    voting.set_block_number(1);
    voting.make_free_balance_be(&1, 25u32.into());
    let proposal_id = voting.get_proposal_counter() + 1;
    assert_eq!(voting.register_voter(Origin::Root, 1), Ok(()));
    assert_eq!(voting.make_proposal(Origin::Signed(1), [0u8; 32], 90), Ok(()));

    let vote_limit: u32 = voting.config().vote_limit;
    assert_eq!(
        voting.vote(Origin::Signed(1), proposal_id, VoteDecision::Aye(vote_limit + 1)),
        Err(Error::VoteAmountLimit)
    );
}

#[test]
fn invalid_proposal() {
    let mut voting = new_test_ext();
    voting.set_block_number(1);
    voting.make_free_balance_be(&1, 25u32.into());
    let proposal_id = voting.get_proposal_counter() + 1;
    assert_eq!(voting.register_voter(Origin::Root, 1), Ok(()));

    assert_eq!(
        voting.vote(Origin::Signed(1), proposal_id, VoteDecision::Aye(2)),
        Err(Error::ProposalNotFound)
    );
}

#[test]
fn ended_proposal() {
    let mut voting = new_test_ext();
    voting.set_block_number(1);
    voting.make_free_balance_be(&1, 25u32.into());
    let proposal_id = voting.get_proposal_counter() + 1;
    assert_eq!(voting.register_voter(Origin::Root, 1), Ok(()));
    assert_eq!(voting.make_proposal(Origin::Signed(1), [0u8; 32], 10), Ok(()));

    voting.set_block_number(20);

    assert_eq!(
        voting.vote(Origin::Signed(1), proposal_id, VoteDecision::Aye(2)),
        Err(Error::ProposalAlreadyEnded)
    );
}

#[test]
fn invalid_vote_amount() {
    let mut voting = new_test_ext();
    voting.set_block_number(1);
    let proposal_id = voting.get_proposal_counter() + 1;
    assert_eq!(voting.register_voter(Origin::Root, 1), Ok(()));
    assert_eq!(voting.make_proposal(Origin::Signed(1), [0u8; 32], 90), Ok(()));

    assert_eq!(
        voting.vote(Origin::Signed(1), proposal_id, VoteDecision::Aye(0)),
        Err(Error::InvalidVoteAmount)
    );
}

#[test]
fn vote_without_balance() {
    let mut voting = new_test_ext();
    voting.set_block_number(1);
    voting.make_free_balance_be(&1, 8);
    assert_eq!(voting.register_voter(Origin::Root, 1), Ok(()));
    assert_eq!(voting.make_proposal(Origin::Signed(1), [0u8; 32], 90), Ok(()));
    assert_eq!(
        voting.vote(Origin::Signed(1), 1, VoteDecision::Nay(3)),
        Err(Error::InsufficientBalance)
    );
    assert!(!voting.vote_casted(&1, &1));
    assert_eq!(voting.free_balance(&1), 8);
    assert_eq!(voting.get_proposal(&1).unwrap().nays, 0);
}

#[test]
fn vote_reserves_square_of_points() {
    // Voting at the deadline's eve, with the largest allowed amount
    let mut voting = new_test_ext();
    voting.set_block_number(1);
    voting.make_free_balance_be(&4, 100);
    assert_eq!(voting.register_voter(Origin::Root, 4), Ok(()));
    assert_eq!(voting.make_proposal(Origin::Signed(4), [0u8; 32], 2), Ok(()));
    assert_eq!(voting.vote(Origin::Signed(4), 1, VoteDecision::Nay(10)), Ok(()));
    assert_eq!(voting.reserved_balance(&4), 100);
    assert_eq!(voting.free_balance(&4), 0);
    let p = voting.get_proposal(&1).unwrap();
    assert_eq!((p.ayes, p.nays), (0, 10));
    assert_eq!(voting.get_vote(&4, &1).unwrap().vote_decision, VoteDecision::Nay(10));
    assert!(voting.get_vote(&4, &1).unwrap().locked);
}

#[test]
fn vote_points_whose_square_overflows() {
    let mut voting = Pallet::new(Config { vote_removal_threshold: 10, max_voters: 100, vote_limit: u32::MAX });
    voting.set_block_number(1);
    voting.make_free_balance_be(&1, u128::MAX);
    assert_eq!(voting.register_voter(Origin::Root, 1), Ok(()));
    assert_eq!(voting.make_proposal(Origin::Signed(1), [0u8; 32], 90), Ok(()));
    assert_eq!(voting.vote(Origin::Signed(1), 1, VoteDecision::Aye(65536)), Err(Error::Overflow));
    assert_eq!(voting.vote(Origin::Signed(1), 1, VoteDecision::Aye(65535)), Ok(()));
    assert_eq!(voting.reserved_balance(&1), 65535u128 * 65535u128);
}
