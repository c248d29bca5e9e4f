use dao::{resolve, Address, DAOError, Notification, Word, DAO};

fn addr(b: u8) -> Address {
    Address::new([b; 20])
}

fn w(x: u64) -> Word {
    Word::from_u64(x)
}

fn max_word() -> Word {
    Word { limbs: [u64::MAX; 4] }
}

const PERIOD: u64 = 100;
const START: u64 = 1_000;

/// Creator 1 with weight 1, voting period 100, quorum 50%.
fn org() -> DAO {
    DAO::init("Guild".to_string(), addr(1), w(PERIOD), w(50), START)
}

fn info(d: &DAO, id: u64) -> (String, Address, Word, Word, Word, bool, bool) {
    d.get_proposal_info(w(id)).unwrap()
}

#[test]
fn init_enrolls_creator_with_weight_one() {
    let d = org();
    assert_eq!(d.name().unwrap(), "Guild");
    assert_eq!(d.creator().unwrap(), addr(1));
    assert_eq!(d.voting_period().unwrap(), w(PERIOD));
    assert_eq!(d.quorum_percentage().unwrap(), w(50));
    assert_eq!(d.member_count().unwrap(), w(1));
    assert_eq!(d.proposal_count().unwrap(), w(0));
    assert_eq!(d.get_total_voting_power().unwrap(), w(1));
    assert!(d.is_member(&addr(1)));
    assert!(!d.is_member(&addr(2)));
}

#[test]
fn total_follows_adds_and_removes() {
    let mut d = org();
    d.add_member(addr(1), addr(2), w(2), START).unwrap();
    d.add_member(addr(2), addr(3), w(3), START).unwrap();
    assert_eq!(d.get_total_voting_power().unwrap(), w(6));
    d.remove_member(addr(1), addr(2)).unwrap();
    assert_eq!(d.get_total_voting_power().unwrap(), w(4));
    assert_eq!(d.member_count().unwrap(), w(2));
    d.add_member(addr(3), addr(2), w(7), START + 5).unwrap();
    assert_eq!(d.get_total_voting_power().unwrap(), w(11));
    assert_eq!(d.member_count().unwrap(), w(3));
    d.remove_member(addr(1), addr(3)).unwrap();
    d.remove_member(addr(1), addr(2)).unwrap();
    assert_eq!(d.get_total_voting_power().unwrap(), w(1));
    assert_eq!(d.member_count().unwrap(), w(1));
}

#[test]
fn add_member_errors() {
    let mut d = org();
    assert_eq!(d.add_member(addr(9), addr(2), w(1), START), Err(DAOError::NotMember));
    assert_eq!(d.add_member(addr(1), addr(1), w(1), START), Err(DAOError::AlreadyMember));
    assert_eq!(d.add_member(addr(1), addr(2), w(0), START), Err(DAOError::InvalidVotingPower));
    assert_eq!(d.get_total_voting_power().unwrap(), w(1));
    assert_eq!(d.member_count().unwrap(), w(1));
    assert!(d.take_notifications().is_empty());
}

#[test]
fn creator_cannot_be_removed() {
    let mut d = org();
    d.add_member(addr(1), addr(2), w(1), START).unwrap();
    assert_eq!(d.remove_member(addr(2), addr(1)), Err(DAOError::CannotRemoveCreator));
    assert_eq!(d.remove_member(addr(1), addr(1)), Err(DAOError::CannotRemoveCreator));
    d.remove_member(addr(1), addr(2)).unwrap();
    assert_eq!(d.remove_member(addr(1), addr(1)), Err(DAOError::CannotRemoveCreator));
    assert!(d.is_member(&addr(1)));
}

#[test]
fn remove_member_errors() {
    let mut d = org();
    d.add_member(addr(1), addr(2), w(1), START).unwrap();
    assert_eq!(d.remove_member(addr(9), addr(2)), Err(DAOError::NotMember));
    assert_eq!(d.remove_member(addr(1), addr(9)), Err(DAOError::NotMember));
    d.remove_member(addr(1), addr(2)).unwrap();
    assert_eq!(d.remove_member(addr(1), addr(2)), Err(DAOError::NotMember));
    assert_eq!(d.remove_member(addr(2), addr(1)), Err(DAOError::NotMember));
}

#[test]
fn proposals_get_dense_ids_and_windows() {
    let mut d = org();
    assert_eq!(d.create_proposal(addr(9), "x".to_string(), START), Err(DAOError::NotMember));
    assert_eq!(d.create_proposal(addr(1), "first".to_string(), START).unwrap(), w(0));
    assert_eq!(d.create_proposal(addr(1), "second".to_string(), START + 7).unwrap(), w(1));
    assert_eq!(d.proposal_count().unwrap(), w(2));
    let (desc, proposer, f, a, end, executed, passed) = info(&d, 1);
    assert_eq!(desc, "second");
    assert_eq!(proposer, addr(1));
    assert_eq!((f, a), (w(0), w(0)));
    assert_eq!(end, w(START + 7 + PERIOD));
    assert!(!executed && !passed);
    assert_eq!(
        d.get_proposal_info(w(2)),
        Ok((String::new(), Address::new([0u8; 20]), w(0), w(0), w(0), false, false))
    );
    assert_eq!(
        d.get_proposal_info(max_word()),
        Ok((String::new(), Address::new([0u8; 20]), w(0), w(0), w(0), false, false))
    );
    assert_eq!(Address::zero(), Address::new([0u8; 20]));
}

#[test]
fn votes_add_current_weight() {
    let mut d = org();
    d.add_member(addr(1), addr(2), w(5), START).unwrap();
    d.add_member(addr(1), addr(3), w(3), START).unwrap();
    d.create_proposal(addr(2), "p".to_string(), START).unwrap();
    d.vote(addr(2), w(0), true, START + 1).unwrap();
    d.vote(addr(3), w(0), false, START + 2).unwrap();
    d.vote(addr(1), w(0), true, START + 3).unwrap();
    let (_, _, f, a, _, _, _) = info(&d, 0);
    assert_eq!(f, w(6));
    assert_eq!(a, w(3));
}

#[test]
fn second_vote_is_rejected() {
    let mut d = org();
    d.add_member(addr(1), addr(2), w(4), START).unwrap();
    d.create_proposal(addr(1), "p".to_string(), START).unwrap();
    d.vote(addr(2), w(0), true, START + 1).unwrap();
    assert_eq!(d.vote(addr(2), w(0), true, START + 2), Err(DAOError::AlreadyVoted));
    assert_eq!(d.vote(addr(2), w(0), false, START + 3), Err(DAOError::AlreadyVoted));
    let (_, _, f, a, _, _, _) = info(&d, 0);
    assert_eq!((f, a), (w(4), w(0)));
}

#[test]
fn vote_errors() {
    let mut d = org();
    d.create_proposal(addr(1), "p".to_string(), START).unwrap();
    assert_eq!(d.vote(addr(9), w(0), true, START), Err(DAOError::NotMember));
    assert_eq!(d.vote(addr(1), w(1), true, START), Err(DAOError::VotingPeriodEnded));
    assert_eq!(d.vote(addr(1), max_word(), true, START), Err(DAOError::VotingPeriodEnded));
    assert_eq!(d.vote(addr(9), w(1), true, START), Err(DAOError::NotMember));
    let (_, _, f, a, _, _, _) = info(&d, 0);
    assert_eq!((f, a), (w(0), w(0)));
}

#[test]
fn window_is_enforced() {
    let mut d = org();
    d.create_proposal(addr(1), "p".to_string(), START).unwrap();
    let end = START + PERIOD;
    assert_eq!(d.execute_proposal(w(0), end - 1), Err(DAOError::VotingPeriodNotEnded));
    assert_eq!(d.vote(addr(1), w(0), true, end), Err(DAOError::VotingPeriodEnded));
    assert_eq!(d.vote(addr(1), w(0), true, end + 50), Err(DAOError::VotingPeriodEnded));
    d.vote(addr(1), w(0), true, end - 1).unwrap();
    d.execute_proposal(w(0), end).unwrap();
    let (_, _, f, _, _, executed, passed) = info(&d, 0);
    assert_eq!(f, w(1));
    assert!(executed && passed);
}

#[test]
fn execution_latches() {
    let mut d = org();
    d.create_proposal(addr(1), "p".to_string(), START).unwrap();
    d.vote(addr(1), w(0), true, START).unwrap();
    let end = START + PERIOD;
    d.execute_proposal(w(0), end).unwrap();
    assert_eq!(d.execute_proposal(w(0), end), Err(DAOError::AlreadyExecuted));
    d.add_member(addr(1), addr(2), w(100), end).unwrap();
    assert_eq!(d.execute_proposal(w(0), end + 10), Err(DAOError::AlreadyExecuted));
    let (_, _, _, _, _, executed, passed) = info(&d, 0);
    assert!(executed && passed);
    assert_eq!(d.vote(addr(2), w(0), false, START), Err(DAOError::VotingPeriodEnded));
    assert_eq!(d.execute_proposal(w(5), end), Err(DAOError::ProposalNotFound));
}

#[test]
fn resolution_examples() {
    assert_eq!(resolve(&w(60), &w(40), &w(100), &w(50)), Ok(true));
    assert_eq!(resolve(&w(50), &w(50), &w(100), &w(50)), Ok(false));
    assert_eq!(resolve(&w(1), &w(0), &w(3), &w(50)), Ok(false));
    assert_eq!(resolve(&w(2), &w(0), &w(3), &w(50)), Ok(true));
    assert_eq!(resolve(&w(0), &w(0), &w(0), &w(50)), Ok(false));
    assert_eq!(resolve(&w(30), &w(20), &w(100), &w(50)), Ok(true));
    assert_eq!(resolve(&w(30), &w(19), &w(100), &w(50)), Ok(false));
}

#[test]
fn resolution_rejects_overflow() {
    let half = Word { limbs: [0, 0, 0, 1u64 << 63] };
    assert_eq!(resolve(&half, &half, &w(1), &w(1)), Err(DAOError::Overflow));
    let big = Word { limbs: [0, 0, 0, 1u64 << 58] };
    assert_eq!(resolve(&big, &w(0), &w(1), &w(1)), Err(DAOError::Overflow));
    assert_eq!(resolve(&w(1), &w(0), &max_word(), &w(2)), Err(DAOError::Overflow));
    assert_eq!(resolve(&w(1), &w(0), &max_word(), &w(1)), Ok(false));
}

#[test]
fn one_of_three_for_misses_quorum() {
    let mut d = org();
    d.add_member(addr(1), addr(2), w(1), START).unwrap();
    d.add_member(addr(1), addr(3), w(1), START).unwrap();
    assert_eq!(d.get_total_voting_power().unwrap(), w(3));
    d.create_proposal(addr(1), "p".to_string(), START).unwrap();
    d.vote(addr(2), w(0), true, START + 1).unwrap();
    d.execute_proposal(w(0), START + PERIOD).unwrap();
    let (_, _, f, a, _, executed, passed) = info(&d, 0);
    assert_eq!((f, a), (w(1), w(0)));
    assert!(executed);
    assert!(!passed);
}

#[test]
fn removed_member_cannot_vote_and_total_shrinks() {
    let mut d = org();
    d.add_member(addr(1), addr(2), w(1), START).unwrap();
    d.add_member(addr(1), addr(3), w(2), START).unwrap();
    d.create_proposal(addr(1), "p".to_string(), START).unwrap();
    d.remove_member(addr(1), addr(3)).unwrap();
    assert_eq!(d.vote(addr(3), w(0), true, START + 1), Err(DAOError::NotMember));
    assert_eq!(d.get_total_voting_power().unwrap(), w(2));
    d.vote(addr(2), w(0), true, START + 1).unwrap();
    d.execute_proposal(w(0), START + PERIOD).unwrap();
    let (_, _, f, _, _, executed, passed) = info(&d, 0);
    assert_eq!(f, w(1));
    assert!(executed);
    // 1 * 100 >= 2 * 50 against the reduced roster; against the old one
    // (4 * 50) it would have failed.
    assert!(passed);
}

#[test]
fn overflowing_end_time_is_rejected() {
    let mut d = DAO::init("G".to_string(), addr(1), max_word(), w(50), START);
    assert_eq!(d.create_proposal(addr(1), "p".to_string(), START), Err(DAOError::Overflow));
    assert_eq!(d.proposal_count().unwrap(), w(0));
    let mut d = DAO::init("G".to_string(), addr(1), max_word(), w(50), 0);
    assert_eq!(d.create_proposal(addr(1), "p".to_string(), 0).unwrap(), w(0));
}

#[test]
fn overflowing_total_is_rejected() {
    let mut d = org();
    d.add_member(addr(1), addr(2), max_word(), START).unwrap();
    assert_eq!(d.get_total_voting_power(), Err(DAOError::Overflow));
    d.create_proposal(addr(1), "p".to_string(), START).unwrap();
    d.vote(addr(2), w(0), true, START).unwrap();
    assert_eq!(d.vote(addr(1), w(0), true, START), Err(DAOError::Overflow));
    assert_eq!(d.execute_proposal(w(0), START + PERIOD), Err(DAOError::Overflow));
    let (_, _, f, _, _, executed, _) = info(&d, 0);
    assert_eq!(f, max_word());
    assert!(!executed);
    d.remove_member(addr(1), addr(2)).unwrap();
    assert_eq!(d.get_total_voting_power().unwrap(), w(1));
}

#[test]
fn notifications_follow_changes() {
    let mut d = org();
    d.add_member(addr(1), addr(2), w(3), START).unwrap();
    d.create_proposal(addr(2), "p".to_string(), START).unwrap();
    d.vote(addr(2), w(0), false, START + 1).unwrap();
    let _ = d.vote(addr(2), w(0), false, START + 1);
    d.execute_proposal(w(0), START + PERIOD).unwrap();
    d.remove_member(addr(1), addr(2)).unwrap();
    let notes = d.take_notifications();
    assert_eq!(
        notes,
        vec![
            Notification::MemberAdded { member: addr(2), voting_power: w(3) },
            Notification::ProposalCreated {
                proposal_id: w(0),
                description: "p".to_string(),
                proposer: addr(2),
            },
            Notification::VoteCast {
                proposal_id: w(0),
                voter: addr(2),
                support: false,
                weight: w(3),
            },
            Notification::ProposalExecuted { proposal_id: w(0), passed: false },
            Notification::MemberRemoved { member: addr(2) },
        ]
    );
    assert!(d.take_notifications().is_empty());
}

#[test]
fn words_and_addresses() {
    assert!(w(0).is_zero());
    assert!(Word::zero().is_zero());
    assert!(!w(7).is_zero());
    assert!(!Word { limbs: [0, 0, 0, 1] }.is_zero());
    assert_eq!(w(7).limbs, [7, 0, 0, 0]);
    let mut b = [4u8; 20];
    assert!(Address::new(b).same(&addr(4)));
    b[19] = 5;
    assert!(!Address::new(b).same(&addr(4)));
    assert_ne!(Address::new(b), addr(4));
}

#[test]
fn repeated_vote_is_rejected_even_after_decision() {
    let mut d = org();
    d.create_proposal(addr(1), "p".to_string(), START).unwrap();
    d.vote(addr(1), w(0), true, START).unwrap();
    d.execute_proposal(w(0), START + PERIOD).unwrap();
    assert_eq!(d.vote(addr(1), w(0), false, START + 1), Err(DAOError::AlreadyVoted));
    assert_eq!(d.vote(addr(1), w(0), false, START + PERIOD), Err(DAOError::VotingPeriodEnded));
    let (_, _, f, a, _, executed, passed) = info(&d, 0);
    assert_eq!((f, a), (w(1), w(0)));
    assert!(executed && passed);
}

#[test]
fn creator_keeps_weight_one() {
    let mut d = org();
    assert_eq!(d.add_member(addr(1), addr(1), w(9), START), Err(DAOError::AlreadyMember));
    d.add_member(addr(1), addr(2), w(4), START).unwrap();
    assert_eq!(d.add_member(addr(2), addr(1), w(9), START), Err(DAOError::AlreadyMember));
    assert_eq!(d.remove_member(addr(2), addr(1)), Err(DAOError::CannotRemoveCreator));
    d.remove_member(addr(1), addr(2)).unwrap();
    assert_eq!(d.get_total_voting_power().unwrap(), w(1));
    assert_eq!(d.member_count().unwrap(), w(1));
    assert!(d.is_member(&addr(1)));
}
