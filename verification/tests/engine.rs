use fedi_dao::{
    DaoError, FediDAO, Member, NumOrRatio, PolicyItem, Proposal, ProposalInput, ProposalKind,
    ProposalStatus, Transfer, Vote,
};

fn name(id: usize) -> String {
    ["alice", "bob", "charlie", "danny", "eugene", "fargo"][id].to_string()
}

fn dao_of(members: usize) -> FediDAO {
    let mut dao = FediDAO::new(1_000, 10, "key".to_string(), "example.org".to_string());
    for id in 0..members {
        dao.join_dao(String::new(), name(id), name(id));
    }
    dao
}

fn input(kind: ProposalKind, target: usize) -> ProposalInput {
    ProposalInput { target: name(target), description: "proposal".to_string(), kind }
}

#[test]
fn a_new_engine_has_the_initial_policy_and_nothing_else() {
    let dao = FediDAO::new(1_000, 10, "key".to_string(), "example.org".to_string());
    assert_eq!(dao.get_vote_period(), 1_000);
    assert_eq!(dao.get_grace_period(), 10);
    assert_eq!(dao.public_key(), "key");
    assert_eq!(dao.domain(), "example.org");
    assert_eq!(
        dao.get_policy(),
        &vec![PolicyItem { max_amount: 0, votes: NumOrRatio::Ratio(1, 2) }]
    );
    assert!(dao.get_council().is_empty());
    assert!(dao.get_members().is_empty());
    assert_eq!(dao.get_num_proposals(), 0);
    assert!(dao.is_well_formed());
}

#[test]
fn joining_takes_the_next_seat_and_joining_again_renames() {
    let mut dao = dao_of(0);
    assert_eq!(dao.join_dao("t".to_string(), "Alice".to_string(), name(0)), 1);
    assert_eq!(dao.join_dao("t".to_string(), "Bob".to_string(), name(1)), 1);
    assert_eq!(dao.join_dao("t".to_string(), "Charlie".to_string(), name(2)), 1);
    assert_eq!(dao.get_council(), vec!["Alice", "Bob", "Charlie"]);
    assert_eq!(dao.join_dao("t".to_string(), "Robert".to_string(), name(1)), 1);
    assert_eq!(dao.get_council(), vec!["Alice", "Robert", "Charlie"]);
    assert_eq!(
        dao.get_members(),
        &vec![
            Member { account: name(0), name: "Alice".to_string() },
            Member { account: name(1), name: "Robert".to_string() },
            Member { account: name(2), name: "Charlie".to_string() },
        ]
    );
}

#[test]
fn filing_gives_consecutive_ids_and_changes_nothing_else() {
    let mut dao = dao_of(2);
    for expected in 0..5u64 {
        let id = dao
            .add_proposal(input(ProposalKind::Payout { amount: 1 }, 3), name(0), 7)
            .unwrap();
        assert_eq!(id, expected);
        assert_eq!(dao.get_num_proposals(), expected + 1);
    }
    let p = dao.get_proposal(4).unwrap();
    assert_eq!(p.status(), ProposalStatus::Vote);
    assert_eq!(p.proposer(), &name(0));
    assert_eq!(p.target(), &name(3));
    assert_eq!(p.vote_period_end(), 1_007);
    assert_eq!(dao.get_council(), vec![name(0), name(1)]);
    assert_eq!(dao.get_vote_period(), 1_000);
}

#[test]
fn filing_is_refused_for_each_reason() {
    let mut dao = dao_of(2);
    let mut long = input(ProposalKind::RemoveCouncil, 1);
    long.description = "d".repeat(280);
    assert_eq!(dao.add_proposal(long, name(0), 0), Err(DaoError::DescriptionTooLong));
    let no_ratio = ProposalKind::ChangePolicy {
        policy: vec![PolicyItem { max_amount: 1, votes: NumOrRatio::Number(1) }],
    };
    assert_eq!(dao.add_proposal(input(no_ratio, 1), name(0), 0), Err(DaoError::InvalidPolicy));
    assert_eq!(
        dao.add_proposal(input(ProposalKind::RemoveCouncil, 1), name(0), u64::MAX - 999),
        Err(DaoError::Overflow)
    );
    assert_eq!(dao.get_num_proposals(), 0);
    assert_eq!(
        dao.add_proposal(input(ProposalKind::RemoveCouncil, 1), name(0), u64::MAX - 1_000),
        Ok(0)
    );
}

#[test]
fn a_successful_removal_moves_the_last_member_to_the_free_seat() {
    let mut dao = dao_of(4);
    let id = dao.add_proposal(input(ProposalKind::RemoveCouncil, 1), name(0), 0).unwrap();
    for voter in 0..3 {
        assert_eq!(dao.vote(id, Vote::Yes, name(voter), 1), Ok(None));
    }
    assert_eq!(dao.get_proposal(id).unwrap().status(), ProposalStatus::Success);
    assert_eq!(dao.get_council(), vec![name(0), name(3), name(2)]);
    assert!(dao.is_well_formed());
}

#[test]
fn removing_the_last_member_or_a_stranger_keeps_the_order() {
    let mut dao = dao_of(3);
    let id = dao.add_proposal(input(ProposalKind::RemoveCouncil, 2), name(0), 0).unwrap();
    dao.vote(id, Vote::Yes, name(0), 1).unwrap();
    dao.vote(id, Vote::Yes, name(1), 1).unwrap();
    assert_eq!(dao.get_council(), vec![name(0), name(1)]);
    let id = dao.add_proposal(input(ProposalKind::RemoveCouncil, 5), name(0), 0).unwrap();
    dao.vote(id, Vote::Yes, name(0), 1).unwrap();
    dao.vote(id, Vote::Yes, name(1), 1).unwrap();
    assert_eq!(dao.get_proposal(id).unwrap().status(), ProposalStatus::Success);
    assert_eq!(dao.get_council(), vec![name(0), name(1)]);
}

#[test]
fn a_rejected_or_failed_proposal_has_no_effect() {
    let mut dao = dao_of(3);
    let id = dao
        .add_proposal(input(ProposalKind::ChangeVotePeriod { vote_period: 5 }, 0), name(0), 0)
        .unwrap();
    assert_eq!(dao.vote(id, Vote::No, name(0), 1), Ok(None));
    assert_eq!(dao.vote(id, Vote::No, name(1), 1), Ok(None));
    assert_eq!(dao.get_proposal(id).unwrap().status(), ProposalStatus::Reject);
    assert_eq!(dao.get_vote_period(), 1_000);

    let id = dao.add_proposal(input(ProposalKind::Payout { amount: 9 }, 0), name(0), 0).unwrap();
    assert_eq!(dao.vote(id, Vote::Yes, name(0), 1), Ok(None));
    assert_eq!(dao.finalize(id, 1_001), Ok(None));
    // One Yes of three is below the threshold of two: time ran out.
    assert_eq!(dao.get_proposal(id).unwrap().status(), ProposalStatus::Fail);
}

#[test]
fn a_new_vote_period_applies_to_later_proposals() {
    let mut dao = dao_of(1);
    let id = dao
        .add_proposal(input(ProposalKind::ChangeVotePeriod { vote_period: 50 }, 0), name(0), 0)
        .unwrap();
    assert_eq!(dao.vote(id, Vote::Yes, name(0), 1), Ok(None));
    assert_eq!(dao.get_vote_period(), 50);
    assert_eq!(dao.get_proposal(id).unwrap().vote_period_end(), 1_000);
    let id = dao.add_proposal(input(ProposalKind::RemoveCouncil, 4), name(0), 100).unwrap();
    assert_eq!(dao.get_proposal(id).unwrap().vote_period_end(), 150);
}

#[test]
fn a_payout_is_answered_once_and_never_again() {
    let mut dao = dao_of(2);
    let id = dao.add_proposal(input(ProposalKind::Payout { amount: 40 }, 3), name(0), 0).unwrap();
    assert_eq!(dao.vote(id, Vote::Yes, name(0), 1), Ok(None));
    assert_eq!(
        dao.vote(id, Vote::Yes, name(1), 2),
        Ok(Some(Transfer { target: name(3), amount: 40 }))
    );
    let decided = dao.get_proposal(id).unwrap();
    for now in [2, 999, 1_001, u64::MAX] {
        assert_eq!(dao.finalize(id, now), Err(DaoError::AlreadyFinalized));
        assert_eq!(dao.vote(id, Vote::Yes, name(2), now), Err(DaoError::AlreadyFinalized));
        assert_eq!(dao.vote(id, Vote::No, name(0), now), Err(DaoError::AlreadyFinalized));
    }
    assert_eq!(dao.get_proposal(id).unwrap(), decided);
}

#[test]
fn finalizing_after_the_grace_period_answers_the_payout() {
    let mut dao = dao_of(5);
    let id = dao.add_proposal(input(ProposalKind::Payout { amount: 40 }, 3), name(0), 0).unwrap();
    // Three of five is the ceiling; with the single tier it is the threshold too.
    assert_eq!(dao.vote(id, Vote::Yes, name(0), 1), Ok(None));
    assert_eq!(dao.vote(id, Vote::Yes, name(1), 1), Ok(None));
    assert_eq!(dao.get_proposal(id).unwrap().status(), ProposalStatus::Vote);
    assert_eq!(dao.finalize(id, 1_000), Err(DaoError::Undecided));
    assert_eq!(dao.finalize(id, 1_001), Ok(None));
    assert_eq!(dao.get_proposal(id).unwrap().status(), ProposalStatus::Fail);
}

#[test]
fn a_late_vote_finalizes_and_can_answer_the_payout() {
    let policy = vec![
        PolicyItem { max_amount: 100, votes: NumOrRatio::Number(1) },
        PolicyItem { max_amount: 1_000, votes: NumOrRatio::Ratio(1, 1) },
    ];
    let mut dao = FediDAO::restore(
        1_000,
        10,
        policy,
        vec![
            Member { account: name(0), name: name(0) },
            Member { account: name(1), name: name(1) },
            Member { account: name(2), name: name(2) },
        ],
        vec![],
        "key".to_string(),
        "example.org".to_string(),
    )
    .unwrap();
    let id = dao.add_proposal(input(ProposalKind::Payout { amount: 40 }, 3), name(0), 0).unwrap();
    assert_eq!(dao.vote(id, Vote::Yes, name(0), 1), Ok(None));
    let p = dao.get_proposal(id).unwrap();
    assert_eq!((p.status(), p.vote_period_end()), (ProposalStatus::Delay, 11));
    // Votes are not taken in the grace period; finalizing after it pays.
    assert_eq!(dao.vote(id, Vote::No, name(1), 5), Err(DaoError::AlreadyFinalized));
    assert_eq!(
        dao.finalize(id, 12),
        Ok(Some(Transfer { target: name(3), amount: 40 }))
    );

    let id = dao.add_proposal(input(ProposalKind::Payout { amount: 41 }, 4), name(0), 0).unwrap();
    // Nobody votes in time; the late vote is dropped and the proposal fails.
    assert_eq!(dao.vote(id, Vote::Yes, name(0), 1_001), Ok(None));
    let p = dao.get_proposal(id).unwrap();
    assert_eq!((p.status(), p.vote_yes(), p.votes().len()), (ProposalStatus::Fail, 0, 0));
}

#[test]
fn calls_on_a_missing_proposal_fail() {
    let mut dao = dao_of(2);
    assert_eq!(dao.vote(0, Vote::Yes, name(0), 0), Err(DaoError::NotFound));
    assert_eq!(dao.finalize(0, 0), Err(DaoError::NotFound));
    assert_eq!(dao.get_proposal(0), Err(DaoError::NotFound));
    dao.add_proposal(input(ProposalKind::RemoveCouncil, 1), name(0), 0).unwrap();
    assert_eq!(dao.vote(1, Vote::Yes, name(0), 0), Err(DaoError::NotFound));
    assert_eq!(dao.finalize(u64::MAX, 0), Err(DaoError::NotFound));
    assert_eq!(dao.get_proposal(1), Err(DaoError::NotFound));
    assert!(dao.get_proposal(0).is_ok());
}

#[test]
fn every_error_has_its_words() {
    assert_eq!(DaoError::DescriptionTooLong.reason(), "Description length is too long");
    assert_eq!(
        DaoError::InvalidPolicy.reason(),
        "Policy must be a sorted table whose last item is a ratio of at least 1/2"
    );
    assert_eq!(DaoError::NotFound.reason(), "No proposal with such id");
    assert_eq!(DaoError::AlreadyFinalized.reason(), "Proposal already finalized");
    assert_eq!(DaoError::AlreadyVoted.reason(), "Already voted");
    assert_eq!(
        DaoError::Undecided.reason(),
        "voting period has not expired and no majority vote yet"
    );
    assert_eq!(
        DaoError::UndefinedThreshold.reason(),
        "The policy does not answer for this proposal"
    );
    assert_eq!(DaoError::Overflow.reason(), "A deadline does not fit in 64 bits");
}

#[test]
fn tallies_stay_within_a_council_that_keeps_its_size() {
    let mut dao = dao_of(4);
    let id = dao.add_proposal(input(ProposalKind::Payout { amount: 1 }, 5), name(0), 0).unwrap();
    let choices = [Vote::No, Vote::Yes, Vote::No, Vote::Yes];
    for (voter, choice) in choices.iter().enumerate() {
        let open = dao.get_proposal(id).unwrap().status() == ProposalStatus::Vote;
        let r = dao.vote(id, *choice, name(voter), 1);
        assert_eq!(r.is_ok(), open);
        let p = dao.get_proposal(id).unwrap();
        assert!(p.vote_yes() + p.vote_no() <= 4);
        assert_eq!(p.vote_yes() + p.vote_no(), p.votes().len() as u64);
        if p.status() == ProposalStatus::Vote {
            assert!(p.vote_yes() + p.vote_no() < 4);
        }
    }
    // Two No of four do not reach the ceiling of three; the third ballot of
    // each kind cannot come, so the vote of the fourth member decides.
    let p = dao.get_proposal(id).unwrap();
    assert_eq!((p.vote_yes(), p.vote_no(), p.status()), (2, 2, ProposalStatus::Fail));
}

#[test]
fn the_deadline_moves_once_and_only_into_delay() {
    let policy = vec![
        PolicyItem { max_amount: 100, votes: NumOrRatio::Number(2) },
        PolicyItem { max_amount: 1_000, votes: NumOrRatio::Ratio(1, 1) },
    ];
    let mut dao = FediDAO::restore(
        1_000,
        10,
        policy,
        (0..4).map(|id| Member { account: name(id), name: name(id) }).collect(),
        vec![],
        "key".to_string(),
        "example.org".to_string(),
    )
    .unwrap();
    let id = dao.add_proposal(input(ProposalKind::Payout { amount: 1 }, 5), name(0), 995).unwrap();
    let other = dao.add_proposal(input(ProposalKind::RemoveCouncil, 5), name(0), 995).unwrap();
    let mut seen = vec![dao.get_proposal(id).unwrap().vote_period_end()];
    dao.vote(id, Vote::Yes, name(0), 1_000).unwrap();
    seen.push(dao.get_proposal(id).unwrap().vote_period_end());
    dao.vote(id, Vote::Yes, name(1), 1_990).unwrap();
    seen.push(dao.get_proposal(id).unwrap().vote_period_end());
    assert_eq!(dao.get_proposal(id).unwrap().status(), ProposalStatus::Delay);
    assert!(dao.vote(id, Vote::Yes, name(2), 1_991).is_err());
    seen.push(dao.get_proposal(id).unwrap().vote_period_end());
    dao.join_dao(String::new(), name(4), name(4));
    dao.vote(other, Vote::Yes, name(0), 1_992).unwrap();
    seen.push(dao.get_proposal(id).unwrap().vote_period_end());
    dao.finalize(id, 2_001).unwrap();
    seen.push(dao.get_proposal(id).unwrap().vote_period_end());
    assert_eq!(seen, vec![1_995, 1_995, 2_000, 2_000, 2_000, 2_000]);
    assert_eq!(dao.get_proposal(other).unwrap().vote_period_end(), 1_995);
}

#[test]
fn restore_checks_the_policy_the_seats_and_the_proposals() {
    let seat = |id: usize| Member { account: name(id), name: name(id) };
    let half = || vec![PolicyItem { max_amount: 0, votes: NumOrRatio::Ratio(1, 2) }];
    let build = |policy: Vec<PolicyItem>, council: Vec<Member>, proposals: Vec<Proposal>| {
        FediDAO::restore(5, 6, policy, council, proposals, "k".to_string(), "d".to_string())
    };
    let p = Proposal::new(name(0), input(ProposalKind::RemoveCouncil, 1), 0, 5).unwrap();
    let dao = build(half(), vec![seat(0), seat(1)], vec![p.clone()]).unwrap();
    assert_eq!(dao.get_vote_period(), 5);
    assert_eq!(dao.get_grace_period(), 6);
    assert_eq!(dao.get_council(), vec![name(0), name(1)]);
    assert_eq!(dao.get_proposal(0), Ok(p.clone()));
    assert!(build(vec![], vec![seat(0)], vec![]).is_none());
    assert!(build(half(), vec![seat(0), seat(1), seat(0)], vec![]).is_none());
    assert!(build(half(), vec![], vec![]).is_some());
}

#[test]
fn an_empty_council_decides_with_the_first_vote() {
    let mut dao = dao_of(0);
    let id = dao.add_proposal(input(ProposalKind::Payout { amount: 3 }, 1), name(0), 0).unwrap();
    // Nobody sits on the council, so the ceiling is zero votes.
    assert_eq!(
        dao.vote(id, Vote::No, name(0), 1),
        Ok(Some(Transfer { target: name(1), amount: 3 }))
    );
    let p = dao.get_proposal(id).unwrap();
    assert_eq!((p.status(), p.vote_yes(), p.vote_no()), (ProposalStatus::Success, 0, 1));
}

/// A council of three under a policy whose first tier is a ratio with
/// denominator zero, adopted by a vote.
fn dao_with_undefined_tier() -> FediDAO {
    let mut dao = dao_of(3);
    let table = vec![
        PolicyItem { max_amount: 100, votes: NumOrRatio::Ratio(1, 0) },
        PolicyItem { max_amount: 1_000, votes: NumOrRatio::Ratio(1, 2) },
    ];
    let id = dao
        .add_proposal(input(ProposalKind::ChangePolicy { policy: table.clone() }, 0), name(0), 0)
        .unwrap();
    assert_eq!(dao.vote(id, Vote::Yes, name(0), 1), Ok(None));
    assert_eq!(dao.vote(id, Vote::Yes, name(1), 1), Ok(None));
    assert_eq!(dao.get_proposal(id).unwrap().status(), ProposalStatus::Success);
    assert_eq!(dao.get_policy(), &table);
    assert!(dao.is_well_formed());
    dao
}

#[test]
fn a_table_with_an_undefined_tier_before_the_last_is_admitted() {
    let dao = dao_with_undefined_tier();
    assert_eq!(dao.get_num_proposals(), 1);
}

#[test]
fn a_vote_under_an_undefined_tier_is_refused_and_nothing_changes() {
    let mut dao = dao_with_undefined_tier();
    let id = dao.add_proposal(input(ProposalKind::Payout { amount: 99 }, 4), name(0), 0).unwrap();
    let before = dao.get_proposal(id).unwrap();
    assert_eq!(dao.vote(id, Vote::Yes, name(0), 1), Err(DaoError::UndefinedThreshold));
    assert_eq!(dao.vote(id, Vote::No, name(1), 1_000), Err(DaoError::UndefinedThreshold));
    // A late vote finalizes, and finalizing asks the same tier.
    assert_eq!(dao.vote(id, Vote::Yes, name(0), 1_001), Err(DaoError::UndefinedThreshold));
    assert_eq!(dao.finalize(id, 1), Err(DaoError::UndefinedThreshold));
    assert_eq!(dao.finalize(id, 1_001), Err(DaoError::UndefinedThreshold));
    assert_eq!(dao.get_proposal(id).unwrap(), before);
    assert_eq!(dao.get_council(), vec![name(0), name(1), name(2)]);
}

#[test]
fn proposals_that_other_tiers_decide_go_on_under_an_undefined_tier() {
    let mut dao = dao_with_undefined_tier();
    let id = dao.add_proposal(input(ProposalKind::Payout { amount: 100 }, 4), name(0), 0).unwrap();
    assert_eq!(dao.vote(id, Vote::Yes, name(0), 1), Ok(None));
    assert_eq!(
        dao.vote(id, Vote::Yes, name(1), 1),
        Ok(Some(Transfer { target: name(4), amount: 100 }))
    );
    let id = dao.add_proposal(input(ProposalKind::RemoveCouncil, 2), name(0), 0).unwrap();
    assert_eq!(dao.vote(id, Vote::Yes, name(0), 1), Ok(None));
    assert_eq!(dao.vote(id, Vote::Yes, name(1), 1), Ok(None));
    assert_eq!(dao.get_council(), vec![name(0), name(1)]);
}

#[test]
fn a_proposal_filed_before_members_join_is_voted_on_as_any_other() {
    let mut dao = dao_of(0);
    let id = dao.add_proposal(input(ProposalKind::Payout { amount: 3 }, 4), name(0), 0).unwrap();
    for member in 0..3 {
        dao.join_dao(String::new(), name(member), name(member));
    }
    assert_eq!(dao.vote(id, Vote::Yes, name(0), 1), Ok(None));
    let p = dao.get_proposal(id).unwrap();
    assert_eq!((p.status(), p.vote_yes() + p.vote_no()), (ProposalStatus::Vote, 1));
    assert_eq!(
        dao.vote(id, Vote::Yes, name(1), 1),
        Ok(Some(Transfer { target: name(4), amount: 3 }))
    );
    let p = dao.get_proposal(id).unwrap();
    assert!(p.vote_yes() + p.vote_no() <= 3);
}
