//! A deterministic staking-pool and leaderboard reward engine.
//!
//! Participants lock funds in one of three fixed tiers, compete on a bounded
//! leaderboard by submitting scores, and receive a proportional payout from
//! the pooled funds once a fixed-length epoch has elapsed. The whole engine
//! is a sequential state-transition function: given the same ordered inputs
//! it produces the same state on every run. Monetary values are fixed-point
//! integers with saturating arithmetic, so the transition function is total.

use vstd::prelude::*;

pub mod account;
pub mod distributor;
pub mod leaderboard;
pub mod state;

verus! {

/// Marker for the application's external interface: ties the operation and
/// response types together for the hosting runtime.
pub struct StakeAbi;

/// A fixed-point monetary value, counted in the smallest representable unit.
pub type Money = u128;

/// A logical timestamp in microseconds.
pub type Timestamp = u64;

/// A length of logical time in microseconds.
pub type TimeDelta = u64;

/// An authenticated participant identity, opaque beyond equality.
pub type Principal = u64;

/// Smallest-unit count of one whole token.
pub const ATTOS_PER_TOKEN: u128 = 1_000_000_000_000_000_000;

/// The fixed, closed set of permitted stake amounts: one token.
pub const TIER_ONE: u128 = ATTOS_PER_TOKEN;

/// The fixed, closed set of permitted stake amounts: five tokens.
pub const TIER_FIVE: u128 = 5 * ATTOS_PER_TOKEN;

/// The fixed, closed set of permitted stake amounts: ten tokens.
pub const TIER_TEN: u128 = 10 * ATTOS_PER_TOKEN;

/// One stake record, kept per principal and overwritten on re-staking.
#[derive(Clone, Copy, Debug, PartialEq, Eq, Structural)]
pub struct StakeInfo {
    pub amount: Money,
    pub timestamp: Timestamp,
    pub expiry: Timestamp,
}

/// One score submission as ranked on the leaderboard.
#[derive(Clone, Copy, Debug, PartialEq, Eq, Structural)]
pub struct LeaderboardEntry {
    pub user: Principal,
    pub score: u64,
}

/// One payout instruction emitted by a distribution; the actual transfer is
/// the hosting runtime's concern.
#[derive(Clone, Copy, Debug, PartialEq, Eq, Structural)]
pub struct Payout {
    pub user: Principal,
    pub amount: Money,
}

/// The public surface of the engine: one operation at a time.
#[derive(Clone, Copy, Debug, PartialEq, Eq, Structural)]
pub enum Operation {
    Stake { amount: Money },
    SubmitScore { score: u64 },
    Distribute,
    AddBalance { amount: Money },
}

/// Why an operation was rejected; a rejection commits nothing.
#[derive(Clone, Copy, Debug, PartialEq, Eq, Structural)]
pub enum StakeError {
    /// The stake amount is not one of the fixed tiers.
    InvalidAmount,
    /// The principal has no current stake record.
    NotStaked,
    /// The operation needs an authenticated principal and none was supplied.
    MissingPrincipal,
}

/// Membership in the fixed tier set.
pub open spec fn valid_tier(amount: Money) -> bool {
    amount == TIER_ONE || amount == TIER_FIVE || amount == TIER_TEN
}

/// Runtime membership test against the fixed tier set.
pub fn is_valid_tier(amount: Money) -> (r: bool)
    ensures
        r == valid_tier(amount),
{
    amount == TIER_ONE || amount == TIER_FIVE || amount == TIER_TEN
}

/// Multiplication that clamps to the largest representable value.
pub open spec fn spec_saturating_mul(a: u128, b: u128) -> u128 {
    if a * b > u128::MAX {
        u128::MAX
    } else {
        (a * b) as u128
    }
}

/// Runtime saturating multiplication on monetary values.
pub fn saturating_mul_money(a: u128, b: u128) -> (r: u128)
    ensures
        r == spec_saturating_mul(a, b),
{
    match a.checked_mul(b) {
        Some(v) => v,
        None => u128::MAX,
    }
}

} // verus!
