use voting::{Config, Error, Origin, Pallet, ProposalStatus, VoteDecision};

fn new_test_ext() -> Pallet {
    Pallet::new(Config { vote_removal_threshold: 10, max_voters: 100, vote_limit: 10 })
}

#[test]
fn propose_then_vote_reserves_square() {
    let mut voting = new_test_ext();
    voting.set_block_number(82);
    assert_eq!(voting.register_voter(Origin::Root, 1), Ok(()));
    let counter = voting.get_proposal_counter();
    assert_eq!(voting.make_proposal(Origin::Signed(1), [0u8; 32], 90), Ok(()));
    let id = voting.get_proposal_counter();
    assert_eq!(id, counter + 1);

    voting.make_free_balance_be(&1, 25);
    assert_eq!(voting.vote(Origin::Signed(1), id, VoteDecision::Aye(2)), Ok(()));
    assert_eq!(voting.reserved_balance(&1), 4);
    assert_eq!(voting.free_balance(&1), 21);
    assert!(voting.vote_casted(&1, &id));
}

#[test]
fn late_reduction_refused_late_increase_taken() {
    let mut voting = new_test_ext();
    voting.set_block_number(1);
    voting.make_free_balance_be(&1, 25);
    assert_eq!(voting.register_voter(Origin::Root, 1), Ok(()));
    assert_eq!(voting.make_proposal(Origin::Signed(1), [0u8; 32], 9), Ok(()));
    assert_eq!(voting.vote(Origin::Signed(1), 1, VoteDecision::Aye(3)), Ok(()));

    assert_eq!(
        voting.update_vote(Origin::Signed(1), 1, VoteDecision::Aye(2)),
        Err(Error::PassedRemovalThreshold)
    );
    assert_eq!(voting.reserved_balance(&1), 9);
    assert_eq!(voting.update_vote(Origin::Signed(1), 1, VoteDecision::Aye(4)), Ok(()));
    assert_eq!(voting.reserved_balance(&1), 16);
    assert_eq!(voting.get_proposal(&1).unwrap().ayes, 4);
}

#[test]
fn unlock_only_after_end_and_once() {
    let mut voting = new_test_ext();
    voting.set_block_number(1);
    voting.make_free_balance_be(&1, 25);
    assert_eq!(voting.register_voter(Origin::Root, 1), Ok(()));
    assert_eq!(voting.make_proposal(Origin::Signed(1), [0u8; 32], 5), Ok(()));
    assert_eq!(voting.vote(Origin::Signed(1), 1, VoteDecision::Aye(4)), Ok(()));
    assert_eq!(voting.unlock_balance(Origin::Signed(1), 1), Err(Error::ProposalInProgress));
    voting.set_block_number(6);
    assert_eq!(voting.finish_proposal(Origin::Signed(1), 1), Ok(()));
    assert_eq!(voting.get_proposal(&1).unwrap().status, ProposalStatus::Passed);
    assert_eq!(voting.free_balance(&1), 9);
    assert_eq!(voting.unlock_balance(Origin::Signed(1), 1), Ok(()));
    assert_eq!(voting.free_balance(&1), 25);
    assert_eq!(voting.unlock_balance(Origin::Signed(1), 1), Err(Error::BalanceAlreadyUnlocked));
}

#[test]
fn tallies_sum_over_voters() {
    let mut voting = new_test_ext();
    voting.set_block_number(1);
    for who in 1..=4u64 {
        assert_eq!(voting.register_voter(Origin::Root, who), Ok(()));
        voting.make_free_balance_be(&who, 100);
    }
    assert_eq!(voting.make_proposal(Origin::Signed(1), [0u8; 32], 50), Ok(()));
    assert_eq!(voting.vote(Origin::Signed(1), 1, VoteDecision::Aye(3)), Ok(()));
    assert_eq!(voting.vote(Origin::Signed(2), 1, VoteDecision::Aye(5)), Ok(()));
    assert_eq!(voting.vote(Origin::Signed(3), 1, VoteDecision::Nay(7)), Ok(()));
    assert_eq!(voting.vote(Origin::Signed(4), 1, VoteDecision::Nay(1)), Ok(()));
    let p = voting.get_proposal(&1).unwrap();
    assert_eq!((p.ayes, p.nays), (8, 8));
    assert_eq!(voting.cancel_vote(Origin::Signed(4), 1), Ok(()));
    assert_eq!(voting.update_vote(Origin::Signed(1), 1, VoteDecision::Nay(2)), Ok(()));
    let p = voting.get_proposal(&1).unwrap();
    assert_eq!((p.ayes, p.nays), (5, 9));
    assert_eq!(voting.reserved_balance(&1), 4);
    assert_eq!(voting.reserved_balance(&2), 25);
    assert_eq!(voting.reserved_balance(&3), 49);
    assert_eq!(voting.reserved_balance(&4), 0);
    voting.set_block_number(51);
    assert_eq!(voting.finish_proposal(Origin::Signed(4), 1), Ok(()));
    assert_eq!(voting.get_proposal(&1).unwrap().status, ProposalStatus::Rejected);
}

#[test]
fn proposal_ids_count_up() {
    let mut voting = new_test_ext();
    voting.set_block_number(1);
    assert_eq!(voting.register_voter(Origin::Root, 1), Ok(()));
    for i in 1..=5u32 {
        assert_eq!(voting.make_proposal(Origin::Signed(1), [i as u8; 32], 10), Ok(()));
        assert_eq!(voting.get_proposal_counter(), i);
    }
}

#[test]
fn passed_removal_threshold_window() {
    let mut voting = new_test_ext();
    voting.set_block_number(20);
    assert!(voting.passed_removal_threshold(&20));
    assert!(voting.passed_removal_threshold(&29));
    assert!(!voting.passed_removal_threshold(&30));
    assert!(!voting.passed_removal_threshold(&100));
}
