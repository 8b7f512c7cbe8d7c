use fedi_dao::{answers, check_policy, vote_requirement, NumOrRatio, PolicyItem};

fn tiers() -> Vec<PolicyItem> {
    vec![
        PolicyItem { max_amount: 100, votes: NumOrRatio::Number(2) },
        PolicyItem { max_amount: 1_000, votes: NumOrRatio::Ratio(2, 3) },
        PolicyItem { max_amount: 1_000_000, votes: NumOrRatio::Ratio(1, 1) },
    ]
}

#[test]
fn as_ratio_tells_the_two_forms_apart() {
    assert_eq!(NumOrRatio::Number(4).as_ratio(), None);
    assert_eq!(NumOrRatio::Ratio(3, 7).as_ratio(), Some((3, 7)));
    assert_eq!(NumOrRatio::Ratio(0, 1).as_ratio(), Some((0, 1)));
}

#[test]
fn a_number_is_taken_as_it_is_even_above_the_council() {
    let item = PolicyItem { max_amount: 10, votes: NumOrRatio::Number(5) };
    assert_eq!(item.num_votes(3), 5);
    assert_eq!(item.num_votes(0), 5);
    assert_eq!(item.num_votes(100), 5);
}

#[test]
fn a_ratio_asks_for_one_more_than_its_share() {
    let half = PolicyItem { max_amount: 0, votes: NumOrRatio::Ratio(1, 2) };
    assert_eq!(half.num_votes(0), 0);
    assert_eq!(half.num_votes(1), 1);
    assert_eq!(half.num_votes(2), 2);
    assert_eq!(half.num_votes(3), 2);
    assert_eq!(half.num_votes(4), 3);
    assert_eq!(half.num_votes(10), 6);
    let two_thirds = PolicyItem { max_amount: 0, votes: NumOrRatio::Ratio(2, 3) };
    assert_eq!(two_thirds.num_votes(10), 7);
    assert_eq!(two_thirds.num_votes(9), 7);
    let none = PolicyItem { max_amount: 0, votes: NumOrRatio::Ratio(0, 5) };
    assert_eq!(none.num_votes(10), 1);
}

#[test]
fn a_ratio_is_capped_at_the_council_size() {
    let all = PolicyItem { max_amount: 0, votes: NumOrRatio::Ratio(1, 1) };
    assert_eq!(all.num_votes(3), 3);
    let more = PolicyItem { max_amount: 0, votes: NumOrRatio::Ratio(7, 2) };
    assert_eq!(more.num_votes(4), 4);
}

#[test]
fn a_ratio_of_huge_numbers_does_not_overflow() {
    let huge = PolicyItem { max_amount: 0, votes: NumOrRatio::Ratio(u64::MAX, 1) };
    assert_eq!(huge.num_votes(u64::MAX), u64::MAX);
    let even = PolicyItem { max_amount: 0, votes: NumOrRatio::Ratio(u64::MAX, u64::MAX) };
    assert_eq!(even.num_votes(u64::MAX), u64::MAX);
    let half = PolicyItem { max_amount: 0, votes: NumOrRatio::Ratio(u64::MAX / 2, u64::MAX) };
    assert_eq!(half.num_votes(u64::MAX), u64::MAX / 2 + 1);
}

#[test]
fn the_first_tier_above_the_amount_decides() {
    let policy = tiers();
    assert_eq!(vote_requirement(&policy, 9, Some(0)), 2);
    assert_eq!(vote_requirement(&policy, 9, Some(99)), 2);
    // A limit is exclusive: an amount that equals it falls to the next tier.
    assert_eq!(vote_requirement(&policy, 9, Some(100)), 7);
    assert_eq!(vote_requirement(&policy, 9, Some(999)), 7);
    assert_eq!(vote_requirement(&policy, 9, Some(1_000)), 9);
    assert_eq!(vote_requirement(&policy, 9, Some(999_999)), 9);
}

#[test]
fn the_last_tier_decides_where_no_tier_is_above_and_where_there_is_no_amount() {
    let policy = tiers();
    assert_eq!(vote_requirement(&policy, 9, Some(1_000_000)), 9);
    assert_eq!(vote_requirement(&policy, 9, Some(u128::MAX)), 9);
    assert_eq!(vote_requirement(&policy, 9, None), 9);
    let single = vec![PolicyItem { max_amount: 0, votes: NumOrRatio::Ratio(1, 2) }];
    assert_eq!(vote_requirement(&single, 5, Some(0)), 3);
    assert_eq!(vote_requirement(&single, 5, Some(7)), 3);
    assert_eq!(vote_requirement(&single, 5, None), 3);
}

#[test]
fn the_ceiling_never_exceeds_the_council() {
    let policies = vec![
        vec![PolicyItem { max_amount: 0, votes: NumOrRatio::Ratio(1, 2) }],
        vec![PolicyItem { max_amount: 0, votes: NumOrRatio::Ratio(5, 2) }],
        tiers(),
    ];
    for policy in policies {
        assert!(check_policy(&policy));
        for council in 0..40u64 {
            assert!(vote_requirement(&policy, council, None) <= council);
        }
    }
}

#[test]
fn an_acceptable_policy_is_sorted_and_ends_in_a_majority_ratio() {
    assert!(check_policy(&tiers()));
    assert!(check_policy(&[PolicyItem { max_amount: 0, votes: NumOrRatio::Ratio(1, 2) }]));
    assert!(check_policy(&[PolicyItem { max_amount: 0, votes: NumOrRatio::Ratio(2, 4) }]));
    assert!(check_policy(&[
        PolicyItem { max_amount: 1, votes: NumOrRatio::Ratio(0, 1) },
        PolicyItem { max_amount: 2, votes: NumOrRatio::Ratio(3, 2) },
    ]));
}

#[test]
fn an_empty_policy_is_not_acceptable() {
    assert!(!check_policy(&[]));
}

#[test]
fn limits_must_strictly_increase() {
    assert!(!check_policy(&[
        PolicyItem { max_amount: 100, votes: NumOrRatio::Number(5) },
        PolicyItem { max_amount: 5, votes: NumOrRatio::Ratio(1, 2) },
    ]));
    assert!(!check_policy(&[
        PolicyItem { max_amount: 100, votes: NumOrRatio::Number(5) },
        PolicyItem { max_amount: 100, votes: NumOrRatio::Ratio(1, 2) },
    ]));
    assert!(!check_policy(&[
        PolicyItem { max_amount: 1, votes: NumOrRatio::Number(5) },
        PolicyItem { max_amount: 3, votes: NumOrRatio::Number(5) },
        PolicyItem { max_amount: 2, votes: NumOrRatio::Ratio(1, 2) },
    ]));
}

#[test]
fn the_last_tier_must_be_a_ratio_of_at_least_one_half() {
    assert!(!check_policy(&[PolicyItem { max_amount: 0, votes: NumOrRatio::Number(1) }]));
    assert!(!check_policy(&[PolicyItem { max_amount: 0, votes: NumOrRatio::Ratio(1, 3) }]));
    assert!(!check_policy(&[PolicyItem { max_amount: 0, votes: NumOrRatio::Ratio(0, 1) }]));
    assert!(!check_policy(&[
        PolicyItem { max_amount: 0, votes: NumOrRatio::Ratio(1, 1) },
        PolicyItem { max_amount: 9, votes: NumOrRatio::Ratio(49, 100) },
    ]));
    assert!(check_policy(&[PolicyItem {
        max_amount: 0,
        votes: NumOrRatio::Ratio(u64::MAX, u64::MAX),
    }]));
}

#[test]
fn only_the_last_tier_must_have_a_denominator() {
    assert!(!check_policy(&[PolicyItem { max_amount: 0, votes: NumOrRatio::Ratio(1, 0) }]));
    assert!(!check_policy(&[
        PolicyItem { max_amount: 0, votes: NumOrRatio::Ratio(1, 2) },
        PolicyItem { max_amount: 9, votes: NumOrRatio::Ratio(0, 0) },
    ]));
    assert!(check_policy(&[
        PolicyItem { max_amount: 0, votes: NumOrRatio::Ratio(1, 0) },
        PolicyItem { max_amount: 9, votes: NumOrRatio::Ratio(1, 2) },
    ]));
    assert!(check_policy(&[
        PolicyItem { max_amount: 100, votes: NumOrRatio::Ratio(1, 0) },
        PolicyItem { max_amount: 1_000, votes: NumOrRatio::Ratio(1, 2) },
    ]));
}

#[test]
fn a_policy_answers_where_the_deciding_and_the_last_tier_are_defined() {
    let policy = vec![
        PolicyItem { max_amount: 100, votes: NumOrRatio::Ratio(1, 0) },
        PolicyItem { max_amount: 1_000, votes: NumOrRatio::Number(3) },
        PolicyItem { max_amount: 10_000, votes: NumOrRatio::Ratio(1, 2) },
    ];
    assert!(!answers(&policy, Some(0)));
    assert!(!answers(&policy, Some(99)));
    assert!(answers(&policy, Some(100)));
    assert!(answers(&policy, Some(5_000)));
    assert!(answers(&policy, Some(u128::MAX)));
    assert!(answers(&policy, None));
    assert!(!answers(&[], None));
    assert!(!answers(&[], Some(1)));
    let open_ended = vec![
        PolicyItem { max_amount: 100, votes: NumOrRatio::Number(1) },
        PolicyItem { max_amount: 1_000, votes: NumOrRatio::Ratio(1, 0) },
    ];
    assert!(!answers(&open_ended, Some(1)));
    assert!(!answers(&open_ended, None));
}
