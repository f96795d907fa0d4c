use stake::state::StakeState;
use stake::{Operation, Payout, StakeError, TIER_FIVE, TIER_ONE, TIER_TEN};

const DURATION: u64 = 1_000_000;

fn fresh() -> StakeState {
    StakeState::new(0, DURATION)
}

fn stake(state: &mut StakeState, principal: u64, amount: u128, now: u64) {
    let r = state.execute_operation(Some(principal), Operation::Stake { amount }, now);
    assert!(r.is_ok());
}

fn submit(state: &mut StakeState, principal: u64, score: u64, now: u64) {
    let r = state.execute_operation(Some(principal), Operation::SubmitScore { score }, now);
    assert!(r.is_ok());
}

#[test]
fn stake_invalid_amount_rejected() {
    let mut state = fresh();
    let r = state.execute_operation(Some(1), Operation::Stake { amount: 7 }, 5);
    assert_eq!(r, Err(StakeError::InvalidAmount));
    assert_eq!(state.pool_balance(), 0);
    assert_eq!(state.get_stake(1), None);
    assert_eq!(state.epoch_start(), 0);
}

#[test]
fn stake_records_and_fills_pool() {
    let mut state = fresh();
    stake(&mut state, 1, TIER_ONE, 5);
    let info = state.get_stake(1).unwrap();
    assert_eq!(info.amount, TIER_ONE);
    assert_eq!(info.timestamp, 5);
    assert_eq!(info.expiry, 5 + DURATION);
    assert_eq!(state.pool_balance(), TIER_ONE);
}

#[test]
fn stake_accepts_each_tier() {
    let mut state = fresh();
    stake(&mut state, 1, TIER_ONE, 1);
    stake(&mut state, 2, TIER_FIVE, 2);
    stake(&mut state, 3, TIER_TEN, 3);
    assert_eq!(state.pool_balance(), TIER_ONE + TIER_FIVE + TIER_TEN);
}

#[test]
fn restake_overwrites_but_pool_accumulates() {
    let mut state = fresh();
    stake(&mut state, 1, TIER_ONE, 5);
    stake(&mut state, 1, TIER_FIVE, 9);
    let info = state.get_stake(1).unwrap();
    assert_eq!(info.amount, TIER_FIVE);
    assert_eq!(info.timestamp, 9);
    assert_eq!(info.expiry, 9 + DURATION);
    assert_eq!(state.pool_balance(), TIER_ONE + TIER_FIVE);
}

#[test]
fn stake_expiry_saturates() {
    let mut state = fresh();
    stake(&mut state, 1, TIER_ONE, u64::MAX - 10);
    assert_eq!(state.get_stake(1).unwrap().expiry, u64::MAX);
}

#[test]
fn submit_score_unstaked_rejected() {
    let mut state = fresh();
    let r = state.execute_operation(Some(1), Operation::SubmitScore { score: 42 }, 5);
    assert_eq!(r, Err(StakeError::NotStaked));
    assert!(state.leaderboard().is_empty());
}

#[test]
fn submit_scores_stay_sorted_and_bounded() {
    let mut state = fresh();
    stake(&mut state, 1, TIER_ONE, 1);
    stake(&mut state, 2, TIER_ONE, 1);
    stake(&mut state, 3, TIER_ONE, 1);
    submit(&mut state, 1, 40, 2);
    submit(&mut state, 2, 90, 3);
    submit(&mut state, 3, 60, 4);
    let board = state.leaderboard();
    let scores: Vec<u64> = board.iter().map(|e| e.score).collect();
    assert_eq!(scores, vec![90, 60, 40]);
    assert!(board.len() <= 10);
}

#[test]
fn submit_equal_scores_keep_submission_order() {
    let mut state = fresh();
    stake(&mut state, 1, TIER_ONE, 1);
    stake(&mut state, 2, TIER_ONE, 1);
    submit(&mut state, 1, 50, 2);
    submit(&mut state, 2, 50, 3);
    let board = state.leaderboard();
    assert_eq!(board[0].user, 1);
    assert_eq!(board[1].user, 2);
}

#[test]
fn leaderboard_evicts_lowest_of_eleven() {
    let mut state = fresh();
    let mut p: u64 = 1;
    while p <= 11 {
        stake(&mut state, p, TIER_ONE, 1);
        p += 1;
    }
    let mut p: u64 = 1;
    while p <= 11 {
        submit(&mut state, p, p, 2);
        p += 1;
    }
    let board = state.leaderboard();
    assert_eq!(board.len(), 10);
    let scores: Vec<u64> = board.iter().map(|e| e.score).collect();
    assert_eq!(scores, vec![11, 10, 9, 8, 7, 6, 5, 4, 3, 2]);
    assert!(board.iter().all(|e| e.user != 1));
}

#[test]
fn distribute_before_epoch_end_is_noop() {
    let mut state = fresh();
    stake(&mut state, 1, TIER_ONE, 5);
    submit(&mut state, 1, 42, 6);
    let r = state.execute_operation(None, Operation::Distribute, DURATION - 1);
    assert_eq!(r, Ok(vec![]));
    assert_eq!(state.pool_balance(), TIER_ONE);
    assert_eq!(state.leaderboard().len(), 1);
    assert_eq!(state.get_stake(1).unwrap().amount, TIER_ONE);
    assert_eq!(state.epoch_start(), 0);
}

#[test]
fn distribute_settles_and_resets() {
    let mut state = fresh();
    stake(&mut state, 1, TIER_ONE, 5);
    stake(&mut state, 2, TIER_ONE, 6);
    submit(&mut state, 1, 90, 7);
    submit(&mut state, 2, 80, 8);
    let now = DURATION + 3;
    assert!(state.is_epoch_elapsed(now));
    let payouts = state.execute_operation(None, Operation::Distribute, now).unwrap();
    let pool = 2 * TIER_ONE;
    assert_eq!(
        payouts,
        vec![
            Payout { user: 1, amount: pool * 50 / 100 },
            Payout { user: 2, amount: pool * 30 / 100 },
        ]
    );
    assert_eq!(state.pool_balance(), 0);
    assert!(state.leaderboard().is_empty());
    assert_eq!(state.get_stake(1), None);
    assert_eq!(state.get_stake(2), None);
    assert_eq!(state.epoch_start(), now);
}

#[test]
fn distribute_twice_second_is_noop() {
    let mut state = fresh();
    stake(&mut state, 1, TIER_ONE, 5);
    submit(&mut state, 1, 90, 6);
    let now = DURATION + 3;
    let first = state.execute_operation(None, Operation::Distribute, now).unwrap();
    assert_eq!(first.len(), 1);
    let second = state.execute_operation(None, Operation::Distribute, now).unwrap();
    assert_eq!(second, vec![]);
    assert_eq!(state.pool_balance(), 0);
    assert_eq!(state.epoch_start(), now);
    assert!(state.leaderboard().is_empty());
}

#[test]
fn distribute_elapsed_with_empty_board_never_rolls() {
    let mut state = fresh();
    stake(&mut state, 1, TIER_ONE, 5);
    let now = DURATION + 3;
    let r = state.execute_operation(None, Operation::Distribute, now).unwrap();
    assert_eq!(r, vec![]);
    assert_eq!(state.pool_balance(), TIER_ONE);
    assert_eq!(state.epoch_start(), 0);
    submit(&mut state, 1, 12, now);
    let payouts = state.execute_operation(None, Operation::Distribute, now).unwrap();
    assert_eq!(payouts.len(), 1);
    assert_eq!(state.epoch_start(), now);
}

#[test]
fn add_balance_independent_of_everything_else() {
    let mut state = fresh();
    let r = state.execute_operation(Some(9), Operation::AddBalance { amount: 250 }, 1);
    assert_eq!(r, Ok(vec![]));
    stake(&mut state, 1, TIER_ONE, 2);
    let r = state.execute_operation(Some(9), Operation::AddBalance { amount: 50 }, 3);
    assert_eq!(r, Ok(vec![]));
    submit(&mut state, 1, 33, 4);
    assert_eq!(state.discretionary_balance(9), Some(300));
    assert_eq!(state.pool_balance(), TIER_ONE);
    assert_eq!(state.leaderboard().len(), 1);
    assert_eq!(state.get_stake(1).unwrap().amount, TIER_ONE);
    assert_eq!(state.get_stake(9), None);
    let now = DURATION + 1;
    let payouts = state.execute_operation(None, Operation::Distribute, now).unwrap();
    assert_eq!(payouts.len(), 1);
    assert_eq!(state.discretionary_balance(9), Some(300));
}

#[test]
fn add_balance_saturates() {
    let mut state = fresh();
    let r = state.execute_operation(Some(4), Operation::AddBalance { amount: u128::MAX }, 1);
    assert!(r.is_ok());
    let r = state.execute_operation(Some(4), Operation::AddBalance { amount: u128::MAX }, 2);
    assert!(r.is_ok());
    assert_eq!(state.discretionary_balance(4), Some(u128::MAX));
}

#[test]
fn missing_principal_rejected() {
    let mut state = fresh();
    let r = state.execute_operation(None, Operation::Stake { amount: TIER_ONE }, 1);
    assert_eq!(r, Err(StakeError::MissingPrincipal));
    let r = state.execute_operation(None, Operation::SubmitScore { score: 3 }, 1);
    assert_eq!(r, Err(StakeError::MissingPrincipal));
    let r = state.execute_operation(None, Operation::AddBalance { amount: 5 }, 1);
    assert_eq!(r, Err(StakeError::MissingPrincipal));
    assert_eq!(state.pool_balance(), 0);
    assert_eq!(state.discretionary_balance(0), None);
}
