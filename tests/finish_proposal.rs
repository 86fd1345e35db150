use voting::{Config, Error, Event, Origin, Pallet, ProposalStatus, VoteDecision};

fn new_test_ext() -> Pallet {
    Pallet::new(Config { vote_removal_threshold: 10, max_voters: 100, vote_limit: 10 })
}

#[test]
fn proposal_passed() {
    let mut voting = new_test_ext();
    voting.set_block_number(1);
    let proposal_id = voting.get_proposal_counter() + 1;
    voting.make_free_balance_be(&1, 25u32.into());
    assert_eq!(voting.register_voter(Origin::Root, 1), Ok(()));
    assert_eq!(voting.make_proposal(Origin::Signed(1), [0u8; 32], 5), Ok(()));

    assert_eq!(voting.vote(Origin::Signed(1), proposal_id, VoteDecision::Aye(1)), Ok(()));

    voting.set_block_number(6);

    assert_eq!(voting.finish_proposal(Origin::Signed(1), proposal_id), Ok(()));
    assert!(voting.has_event(&Event::ProposalEnded { proposal_id, status: ProposalStatus::Passed }));
}

#[test]
fn proposal_rejected() {
    let mut voting = new_test_ext();
    voting.set_block_number(1);
    let proposal_id = voting.get_proposal_counter() + 1;
    voting.make_free_balance_be(&1, 25u32.into());
    assert_eq!(voting.register_voter(Origin::Root, 1), Ok(()));
    assert_eq!(voting.make_proposal(Origin::Signed(1), [0u8; 32], 5), Ok(()));

    assert_eq!(voting.vote(Origin::Signed(1), proposal_id, VoteDecision::Nay(1)), Ok(()));

    voting.set_block_number(6);

    assert_eq!(voting.finish_proposal(Origin::Signed(1), proposal_id), Ok(()));
    assert!(voting.has_event(&Event::ProposalEnded { proposal_id, status: ProposalStatus::Rejected }));
}

#[test]
fn proposal_tied() {
    let mut voting = new_test_ext();
    voting.set_block_number(1);

    let proposal_id = voting.get_proposal_counter() + 1;
    assert_eq!(voting.register_voter(Origin::Root, 1), Ok(()));
    assert_eq!(voting.make_proposal(Origin::Signed(1), [0u8; 32], 5), Ok(()));

    voting.set_block_number(6);

    assert_eq!(voting.finish_proposal(Origin::Signed(1), proposal_id), Ok(()));
    assert!(voting.has_event(&Event::ProposalEnded { proposal_id, status: ProposalStatus::Tied }));
}

#[test]
fn finish_proposal_fails_if_canceled() {
    let mut voting = new_test_ext();
    voting.set_block_number(1);
    let proposal_id = voting.get_proposal_counter() + 1;
    assert_eq!(voting.register_voter(Origin::Root, 1), Ok(()));
    assert_eq!(voting.make_proposal(Origin::Signed(1), [0u8; 32], 5), Ok(()));
    assert_eq!(voting.cancel_proposal(Origin::Signed(1), proposal_id), Ok(()));

    assert_eq!(
        voting.finish_proposal(Origin::Signed(1), proposal_id),
        Err(Error::ProposalAlreadyEnded)
    );
}

#[test]
fn finish_proposal_early_rejects() {
    let mut voting = new_test_ext();
    let proposal_id = voting.get_proposal_counter() + 1;
    assert_eq!(voting.register_voter(Origin::Root, 1), Ok(()));
    assert_eq!(voting.make_proposal(Origin::Signed(1), [0u8; 32], 5), Ok(()));

    assert_eq!(
        voting.finish_proposal(Origin::Signed(1), proposal_id),
        Err(Error::ProposalAlreadyEnded)
    );
}

#[test]
fn equal_tallies_after_votes_tie() {
    let mut voting = new_test_ext();
    voting.set_block_number(1);
    voting.make_free_balance_be(&1, 25);
    voting.make_free_balance_be(&2, 25);
    assert_eq!(voting.register_voter(Origin::Root, 1), Ok(()));
    assert_eq!(voting.register_voter(Origin::Root, 2), Ok(()));
    assert_eq!(voting.make_proposal(Origin::Signed(1), [0u8; 32], 5), Ok(()));
    assert_eq!(voting.vote(Origin::Signed(1), 1, VoteDecision::Aye(3)), Ok(()));
    assert_eq!(voting.vote(Origin::Signed(2), 1, VoteDecision::Nay(3)), Ok(()));
    // At the deadline itself the proposal cannot be finished yet
    voting.set_block_number(5);
    assert_eq!(voting.finish_proposal(Origin::Signed(2), 1), Err(Error::ProposalAlreadyEnded));
    voting.set_block_number(6);
    assert_eq!(voting.finish_proposal(Origin::Signed(2), 1), Ok(()));
    assert_eq!(voting.get_proposal(&1).unwrap().status, ProposalStatus::Tied);
}

#[test]
fn finish_twice_fails() {
    let mut voting = new_test_ext();
    voting.set_block_number(1);
    voting.make_free_balance_be(&1, 25);
    assert_eq!(voting.register_voter(Origin::Root, 1), Ok(()));
    assert_eq!(voting.register_voter(Origin::Root, 2), Ok(()));
    assert_eq!(voting.make_proposal(Origin::Signed(1), [0u8; 32], 5), Ok(()));
    assert_eq!(voting.vote(Origin::Signed(1), 1, VoteDecision::Nay(2)), Ok(()));
    voting.set_block_number(6);
    assert_eq!(voting.finish_proposal(Origin::Signed(1), 1), Ok(()));
    assert_eq!(voting.get_proposal(&1).unwrap().status, ProposalStatus::Rejected);
    assert_eq!(voting.finish_proposal(Origin::Signed(1), 1), Err(Error::ProposalAlreadyEnded));
    assert_eq!(voting.finish_proposal(Origin::Signed(2), 1), Err(Error::ProposalAlreadyEnded));
    assert_eq!(voting.get_proposal(&1).unwrap().status, ProposalStatus::Rejected);
}

#[test]
fn finish_needs_registered_caller() {
    let mut voting = new_test_ext();
    voting.set_block_number(1);
    assert_eq!(voting.register_voter(Origin::Root, 1), Ok(()));
    assert_eq!(voting.make_proposal(Origin::Signed(1), [0u8; 32], 5), Ok(()));
    voting.set_block_number(6);
    assert_eq!(voting.finish_proposal(Origin::Signed(3), 1), Err(Error::VoterIsNotRegistered));
    assert_eq!(voting.finish_proposal(Origin::Signed(1), 2), Err(Error::ProposalNotFound));
    assert_eq!(voting.finish_proposal(Origin::Root, 1), Err(Error::BadOrigin));
}
