//! The engine's state and its transition function. `spec_execute` is the
//! mathematical meaning of one operation; `StakeState::execute_operation` is
//! the executable engine, proved to follow it exactly. A rejected operation
//! commits nothing.

use vstd::prelude::*;
use crate::account::AccountMap;
use crate::distributor::{distribute, spec_payouts};
use crate::leaderboard::{sorted_desc, spec_submit, Leaderboard, LEADERBOARD_CAPACITY};
use crate::{
    is_valid_tier, valid_tier, LeaderboardEntry, Money, Operation, Payout, Principal, StakeError,
    StakeInfo, TimeDelta, Timestamp,
};

verus! {

/// The mathematical model of the whole engine state.
#[verifier::ext_equal]
pub ghost struct StateView {
    /// One stake record per staked principal.
    pub stakers: Map<Principal, StakeInfo>,
    /// The discretionary balance ledger, independent of staking.
    pub balances: Map<Principal, Money>,
    /// The pooled stake funds awaiting distribution.
    pub pool_balance: Money,
    /// When the current epoch began.
    pub epoch_start: Timestamp,
    /// The fixed epoch length, set once at genesis.
    pub epoch_duration: TimeDelta,
    /// The ranked score submissions.
    pub leaderboard: Seq<LeaderboardEntry>,
}

impl StateView {
    /// The model-level invariant: the board is ranked and within capacity.
    pub open spec fn wf(self) -> bool {
        sorted_desc(self.leaderboard) && self.leaderboard.len() <= LEADERBOARD_CAPACITY
    }
}

/// Whether the current epoch is over at `now`; the end saturates on
/// timestamp overflow.
pub open spec fn epoch_elapsed(s: StateView, now: Timestamp) -> bool {
    now >= s.epoch_start.saturating_add(s.epoch_duration)
}

/// What one operation does: the new state, and either the emitted payout
/// instructions or the error that rejected the operation. An error leaves
/// the state untouched.
pub open spec fn spec_execute(
    s: StateView,
    signer: Option<Principal>,
    op: Operation,
    now: Timestamp,
) -> (StateView, Result<Seq<Payout>, StakeError>) {
    match op {
        Operation::Stake { amount } => match signer {
            None => (s, Err(StakeError::MissingPrincipal)),
            Some(p) => if !valid_tier(amount) {
                (s, Err(StakeError::InvalidAmount))
            } else {
                let record = StakeInfo {
                    amount,
                    timestamp: now,
                    expiry: now.saturating_add(s.epoch_duration),
                };
                (
                    StateView {
                        stakers: s.stakers.insert(p, record),
                        pool_balance: s.pool_balance.saturating_add(amount),
                        ..s
                    },
                    Ok(Seq::empty()),
                )
            },
        },
        Operation::SubmitScore { score } => match signer {
            None => (s, Err(StakeError::MissingPrincipal)),
            Some(p) => if !s.stakers.contains_key(p) {
                (s, Err(StakeError::NotStaked))
            } else {
                (
                    StateView {
                        leaderboard: spec_submit(
                            s.leaderboard,
                            LeaderboardEntry { user: p, score },
                        ),
                        ..s
                    },
                    Ok(Seq::empty()),
                )
            },
        },
        Operation::Distribute => if epoch_elapsed(s, now) && s.leaderboard.len() > 0
            && s.pool_balance > 0 {
            (
                StateView {
                    stakers: Map::empty(),
                    pool_balance: 0,
                    epoch_start: now,
                    leaderboard: Seq::empty(),
                    ..s
                },
                Ok(spec_payouts(s.pool_balance, s.leaderboard)),
            )
        } else {
            (s, Ok(Seq::empty()))
        },
        Operation::AddBalance { amount } => match signer {
            None => (s, Err(StakeError::MissingPrincipal)),
            Some(p) => {
                let current = if s.balances.contains_key(p) {
                    s.balances[p]
                } else {
                    0
                };
                (
                    StateView { balances: s.balances.insert(p, current.saturating_add(amount)), ..s },
                    Ok(Seq::empty()),
                )
            },
        },
    }
}

/// A stake whose amount lies outside the fixed tier set is rejected with
/// `InvalidAmount` and leaves the state unchanged.
pub proof fn lemma_stake_rejects_invalid(s: StateView, p: Principal, amount: Money, now: Timestamp)
    requires
        !valid_tier(amount),
    ensures
        spec_execute(s, Some(p), Operation::Stake { amount }, now).0 == s,
        spec_execute(s, Some(p), Operation::Stake { amount }, now).1 == Result::<
            Seq<Payout>,
            StakeError,
        >::Err(StakeError::InvalidAmount),
{
}

/// A valid stake at time `now` writes exactly one record for the principal —
/// amount, placement time, and expiry one epoch later — and grows the pool
/// by exactly the staked amount, saturating; nothing else moves.
pub proof fn lemma_stake_records(s: StateView, p: Principal, amount: Money, now: Timestamp)
    requires
        valid_tier(amount),
    ensures
        ({
            let (s1, r) = spec_execute(s, Some(p), Operation::Stake { amount }, now);
            &&& s1.stakers == s.stakers.insert(
                p,
                StakeInfo { amount, timestamp: now, expiry: now.saturating_add(s.epoch_duration) },
            )
            &&& s1.pool_balance == s.pool_balance.saturating_add(amount)
            &&& s1.balances == s.balances
            &&& s1.epoch_start == s.epoch_start
            &&& s1.epoch_duration == s.epoch_duration
            &&& s1.leaderboard == s.leaderboard
            &&& r == Result::<Seq<Payout>, StakeError>::Ok(Seq::<Payout>::empty())
        }),
{
}

/// Re-staking overwrites rather than accumulates: after two valid stakes by
/// the same principal, exactly the second record survives, while the pool
/// holds both contributions (each added saturating).
pub proof fn lemma_restake_overwrites(
    s: StateView,
    p: Principal,
    first_amount: Money,
    second_amount: Money,
    first_now: Timestamp,
    second_now: Timestamp,
)
    requires
        valid_tier(first_amount),
        valid_tier(second_amount),
    ensures
        ({
            let s1 = spec_execute(s, Some(p), Operation::Stake { amount: first_amount }, first_now).0;
            let s2 = spec_execute(
                s1,
                Some(p),
                Operation::Stake { amount: second_amount },
                second_now,
            ).0;
            &&& s2.stakers == s.stakers.insert(
                p,
                StakeInfo {
                    amount: second_amount,
                    timestamp: second_now,
                    expiry: second_now.saturating_add(s.epoch_duration),
                },
            )
            &&& s2.stakers[p].amount == second_amount
            &&& s2.pool_balance == s.pool_balance.saturating_add(first_amount).saturating_add(
                second_amount,
            )
        }),
{
    let s1 = spec_execute(s, Some(p), Operation::Stake { amount: first_amount }, first_now).0;
    let s2 = spec_execute(s1, Some(p), Operation::Stake { amount: second_amount }, second_now).0;
    assert(s2.stakers =~= s.stakers.insert(
        p,
        StakeInfo {
            amount: second_amount,
            timestamp: second_now,
            expiry: second_now.saturating_add(s.epoch_duration),
        },
    ));
}

/// A score submission by an unstaked principal is rejected with `NotStaked`
/// and changes nothing; by a staked principal it lands on the board by
/// stable descending rank, and the board stays ranked and within capacity.
pub proof fn lemma_submit_gated_and_ranked(s: StateView, p: Principal, score: u64, now: Timestamp)
    requires
        s.wf(),
    ensures
        !s.stakers.contains_key(p) ==> spec_execute(s, Some(p), Operation::SubmitScore { score }, now)
            == (s, Result::<Seq<Payout>, StakeError>::Err(StakeError::NotStaked)),
        s.stakers.contains_key(p) ==> ({
            let (s1, r) = spec_execute(s, Some(p), Operation::SubmitScore { score }, now);
            &&& s1.leaderboard == spec_submit(s.leaderboard, LeaderboardEntry { user: p, score })
            &&& sorted_desc(s1.leaderboard)
            &&& s1.leaderboard.len() <= LEADERBOARD_CAPACITY
            &&& s1.stakers == s.stakers
            &&& s1.balances == s.balances
            &&& s1.pool_balance == s.pool_balance
            &&& s1.epoch_start == s.epoch_start
            &&& r == Result::<Seq<Payout>, StakeError>::Ok(Seq::<Payout>::empty())
        }),
{
    if s.stakers.contains_key(p) {
        crate::leaderboard::lemma_submit_ranked(s.leaderboard, LeaderboardEntry { user: p, score });
    }
}

/// Before the epoch end, `Distribute` is a silent no-op: the state is
/// unchanged and no payout is emitted.
pub proof fn lemma_distribute_before_epoch(s: StateView, signer: Option<Principal>, now: Timestamp)
    requires
        !epoch_elapsed(s, now),
    ensures
        spec_execute(s, signer, Operation::Distribute, now) == (s, Result::<
            Seq<Payout>,
            StakeError,
        >::Ok(Seq::<Payout>::empty())),
{
}

/// Once the epoch has elapsed with a non-empty board and a non-empty pool,
/// `Distribute` settles: it emits the 50/30/20 payouts for the occupied
/// paying slots (even when every floored share is zero — the reset predicate
/// tests the balance, not the shares), zeroes the pool, clears all stakes
/// and the board, rolls the epoch to `now`, and leaves the discretionary
/// ledger alone.
pub proof fn lemma_distribute_settles(s: StateView, signer: Option<Principal>, now: Timestamp)
    requires
        epoch_elapsed(s, now),
        s.leaderboard.len() > 0,
        s.pool_balance > 0,
    ensures
        spec_execute(s, signer, Operation::Distribute, now) == (
            StateView {
                stakers: Map::<Principal, StakeInfo>::empty(),
                balances: s.balances,
                pool_balance: 0,
                epoch_start: now,
                epoch_duration: s.epoch_duration,
                leaderboard: Seq::<LeaderboardEntry>::empty(),
            },
            Result::<Seq<Payout>, StakeError>::Ok(spec_payouts(s.pool_balance, s.leaderboard)),
        ),
{
}

/// Right after a settling distribution, a second `Distribute` — at any later
/// time, by anyone — is a no-op: the board was just cleared, so there is
/// nothing left to pay.
pub proof fn lemma_distribute_idempotent(
    s: StateView,
    signer: Option<Principal>,
    now: Timestamp,
    second_signer: Option<Principal>,
    second_now: Timestamp,
)
    requires
        epoch_elapsed(s, now),
        s.leaderboard.len() > 0,
        s.pool_balance > 0,
    ensures
        ({
            let s1 = spec_execute(s, signer, Operation::Distribute, now).0;
            spec_execute(s1, second_signer, Operation::Distribute, second_now) == (s1, Result::<
                Seq<Payout>,
                StakeError,
            >::Ok(Seq::<Payout>::empty()))
        }),
{
}

/// `AddBalance` touches only the discretionary ledger: stake records, the
/// pool, the epoch window and the leaderboard come out exactly as they went
/// in, while the principal's ledger entry grows by the amount, saturating.
pub proof fn lemma_add_balance_independent(s: StateView, p: Principal, amount: Money, now: Timestamp)
    ensures
        ({
            let (s1, r) = spec_execute(s, Some(p), Operation::AddBalance { amount }, now);
            &&& s1.stakers == s.stakers
            &&& s1.pool_balance == s.pool_balance
            &&& s1.epoch_start == s.epoch_start
            &&& s1.epoch_duration == s.epoch_duration
            &&& s1.leaderboard == s.leaderboard
            &&& s1.balances == s.balances.insert(
                p,
                (if s.balances.contains_key(p) {
                    s.balances[p]
                } else {
                    0
                }).saturating_add(amount),
            )
            &&& r == Result::<Seq<Payout>, StakeError>::Ok(Seq::<Payout>::empty())
        }),
{
}

/// Conversely, no operation but `AddBalance` ever reads or writes the
/// discretionary ledger, so interleaving `AddBalance` with the staking,
/// leaderboard and distribution operations changes neither side's outcome.
pub proof fn lemma_balances_untouched_otherwise(
    s: StateView,
    signer: Option<Principal>,
    op: Operation,
    now: Timestamp,
)
    requires
        !(op matches Operation::AddBalance { .. }),
    ensures
        spec_execute(s, signer, op, now).0.balances == s.balances,
{
}

/// The engine's state: stake records, the discretionary ledger, the pooled
/// balance, the epoch window, and the leaderboard.
pub struct StakeState {
    stakers: AccountMap<StakeInfo>,
    balances: AccountMap<Money>,
    pool_balance: Money,
    epoch_start: Timestamp,
    epoch_duration: TimeDelta,
    leaderboard: Leaderboard,
}

impl View for StakeState {
    type V = StateView;

    closed spec fn view(&self) -> StateView {
        StateView {
            stakers: self.stakers@,
            balances: self.balances@,
            pool_balance: self.pool_balance,
            epoch_start: self.epoch_start,
            epoch_duration: self.epoch_duration,
            leaderboard: self.leaderboard@,
        }
    }
}

impl StakeState {
    /// The storage invariant: duplicate-free ledgers and a well-formed board.
    pub closed spec fn wf(&self) -> bool {
        self.stakers.wf() && self.balances.wf() && self.leaderboard.wf()
    }

    /// The genesis state: empty ledgers, an empty pool and board, and the
    /// epoch window opened at `now` with the fixed `epoch_duration`.
    pub fn new(now: Timestamp, epoch_duration: TimeDelta) -> (r: Self)
        ensures
            r.wf(),
            r@ == (StateView {
                stakers: Map::<Principal, StakeInfo>::empty(),
                balances: Map::<Principal, Money>::empty(),
                pool_balance: 0,
                epoch_start: now,
                epoch_duration,
                leaderboard: Seq::<LeaderboardEntry>::empty(),
            }),
    {
        StakeState {
            stakers: AccountMap::new(),
            balances: AccountMap::new(),
            pool_balance: 0,
            epoch_start: now,
            epoch_duration,
            leaderboard: Leaderboard::new(),
        }
    }

    /// Apply one operation at logical time `now` on behalf of `signer`,
    /// exactly as `spec_execute` says: the state moves to the specified new
    /// state, and the result carries the specified payouts or error.
    pub fn execute_operation(
        &mut self,
        signer: Option<Principal>,
        operation: Operation,
        now: Timestamp,
    ) -> (r: Result<Vec<Payout>, StakeError>)
        requires
            old(self).wf(),
        ensures
            final(self).wf(),
            final(self)@ == spec_execute(old(self)@, signer, operation, now).0,
            match (r, spec_execute(old(self)@, signer, operation, now).1) {
                (Ok(v), Ok(sv)) => v@ == sv,
                (Err(e), Err(se)) => e == se,
                _ => false,
            },
    {
        match operation {
            Operation::Stake { amount } => {
                let p = match signer {
                    Some(p) => p,
                    None => {
                        return Err(StakeError::MissingPrincipal);
                    },
                };
                if !is_valid_tier(amount) {
                    return Err(StakeError::InvalidAmount);
                }
                let expiry = now.saturating_add(self.epoch_duration);
                self.stakers.insert(p, StakeInfo { amount, timestamp: now, expiry });
                self.pool_balance = self.pool_balance.saturating_add(amount);
                Ok(Vec::new())
            },
            Operation::SubmitScore { score } => {
                let p = match signer {
                    Some(p) => p,
                    None => {
                        return Err(StakeError::MissingPrincipal);
                    },
                };
                if self.stakers.get(p).is_none() {
                    return Err(StakeError::NotStaked);
                }
                self.leaderboard.submit(LeaderboardEntry { user: p, score });
                Ok(Vec::new())
            },
            Operation::Distribute => {
                let end = self.epoch_start.saturating_add(self.epoch_duration);
                if now >= end && self.leaderboard.len() > 0 && self.pool_balance > 0 {
                    let (payouts, remaining) = distribute(self.pool_balance, self.leaderboard.top());
                    self.pool_balance = remaining;
                    self.epoch_start = now;
                    self.leaderboard.clear();
                    self.stakers.clear();
                    Ok(payouts)
                } else {
                    Ok(Vec::new())
                }
            },
            Operation::AddBalance { amount } => {
                let p = match signer {
                    Some(p) => p,
                    None => {
                        return Err(StakeError::MissingPrincipal);
                    },
                };
                let current = match self.balances.get(p) {
                    Some(v) => v,
                    None => 0,
                };
                self.balances.insert(p, current.saturating_add(amount));
                Ok(Vec::new())
            },
        }
    }

    /// The pooled stake funds of committed state.
    pub fn pool_balance(&self) -> (r: Money)
        ensures
            r == self@.pool_balance,
    {
        self.pool_balance
    }

    /// When the current epoch began.
    pub fn epoch_start(&self) -> (r: Timestamp)
        ensures
            r == self@.epoch_start,
    {
        self.epoch_start
    }

    /// The fixed epoch length.
    pub fn epoch_duration(&self) -> (r: TimeDelta)
        ensures
            r == self@.epoch_duration,
    {
        self.epoch_duration
    }

    /// Whether the current epoch is over at `now`.
    pub fn is_epoch_elapsed(&self, now: Timestamp) -> (r: bool)
        ensures
            r == epoch_elapsed(self@, now),
    {
        now >= self.epoch_start.saturating_add(self.epoch_duration)
    }

    /// A principal's current stake record, if any.
    pub fn get_stake(&self, principal: Principal) -> (r: Option<StakeInfo>)
        requires
            self.wf(),
        ensures
            match r {
                Some(info) => self@.stakers.contains_key(principal) && self@.stakers[principal]
                    == info,
                None => !self@.stakers.contains_key(principal),
            },
    {
        self.stakers.get(principal)
    }

    /// A principal's discretionary balance, if it ever deposited one.
    pub fn discretionary_balance(&self, principal: Principal) -> (r: Option<Money>)
        requires
            self.wf(),
        ensures
            match r {
                Some(v) => self@.balances.contains_key(principal) && self@.balances[principal]
                    == v,
                None => !self@.balances.contains_key(principal),
            },
    {
        self.balances.get(principal)
    }

    /// The ranked leaderboard of committed state.
    pub fn leaderboard(&self) -> (r: &Vec<LeaderboardEntry>)
        ensures
            r@ == self@.leaderboard,
    {
        self.leaderboard.top()
    }
}

} // verus!
