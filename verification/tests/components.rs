use stake::distributor::distribute;
use stake::{LeaderboardEntry, Payout};

fn board3() -> Vec<LeaderboardEntry> {
    vec![
        LeaderboardEntry { user: 1, score: 90 },
        LeaderboardEntry { user: 2, score: 80 },
        LeaderboardEntry { user: 3, score: 70 },
    ]
}

#[test]
fn distributor_splits_fifty_thirty_twenty() {
    let (payouts, remaining) = distribute(100, &board3());
    assert_eq!(
        payouts,
        vec![
            Payout { user: 1, amount: 50 },
            Payout { user: 2, amount: 30 },
            Payout { user: 3, amount: 20 },
        ]
    );
    assert_eq!(remaining, 0);
}

#[test]
fn distributor_floors_each_share_independently() {
    let (payouts, remaining) = distribute(101, &board3());
    assert_eq!(payouts[0].amount, 50);
    assert_eq!(payouts[1].amount, 30);
    assert_eq!(payouts[2].amount, 20);
    assert_eq!(remaining, 0);
}

#[test]
fn distributor_smallest_unit_pays_zero_shares() {
    let (payouts, remaining) = distribute(1, &board3());
    assert_eq!(
        payouts,
        vec![
            Payout { user: 1, amount: 0 },
            Payout { user: 2, amount: 0 },
            Payout { user: 3, amount: 0 },
        ]
    );
    assert_eq!(remaining, 0);
}

#[test]
fn distributor_fewer_slots_fewer_payouts() {
    let board = vec![LeaderboardEntry { user: 8, score: 5 }];
    let (payouts, remaining) = distribute(100, &board);
    assert_eq!(payouts, vec![Payout { user: 8, amount: 50 }]);
    assert_eq!(remaining, 0);
}

#[test]
fn distributor_empty_board_or_pool_skips() {
    let (payouts, remaining) = distribute(100, &vec![]);
    assert!(payouts.is_empty());
    assert_eq!(remaining, 100);
    let (payouts, remaining) = distribute(0, &board3());
    assert!(payouts.is_empty());
    assert_eq!(remaining, 0);
}

#[test]
fn distributor_saturates_wide_product() {
    let board = vec![LeaderboardEntry { user: 1, score: 9 }];
    let (payouts, _) = distribute(u128::MAX, &board);
    assert_eq!(payouts[0].amount, u128::MAX / 100);
}
