//! Reward distribution: the fixed 50/30/20 split of the pooled balance over
//! the top three leaderboard slots, in integer fixed-point arithmetic. Each
//! share is floored independently; the rounding residue stays unpaid.

use vstd::prelude::*;
use crate::{saturating_mul_money, spec_saturating_mul, LeaderboardEntry, Money, Payout};

verus! {

/// How many leaderboard slots are paid.
pub const PAYOUT_SLOTS: usize = 3;

/// The percentage paid to each slot, from first place down.
pub open spec fn payout_percent(rank: int) -> u128 {
    if rank == 0 {
        50
    } else if rank == 1 {
        30
    } else {
        20
    }
}

/// One slot's share: the balance times its percentage, with a saturating
/// wide product, then floored to whole smallest units.
pub open spec fn spec_share(balance: Money, percent: u128) -> Money {
    spec_saturating_mul(balance, percent) / 100
}

/// The payout instructions a distribution emits: none when there is nothing
/// to rank or nothing to pay, otherwise one per occupied paying slot.
pub open spec fn spec_payouts(balance: Money, board: Seq<LeaderboardEntry>) -> Seq<Payout> {
    if board.len() == 0 || balance == 0 {
        Seq::empty()
    } else {
        Seq::new(
            if board.len() < PAYOUT_SLOTS { board.len() } else { PAYOUT_SLOTS as nat },
            |i: int| Payout { user: board[i].user, amount: spec_share(balance, payout_percent(i)) },
        )
    }
}

/// Compute the payouts and the pool balance that remains. An empty board or
/// an empty pool skips the distribution: no payouts, balance unchanged.
/// Otherwise every occupied paying slot gets its floored share — even a share
/// of zero — and the returned balance is zero.
pub fn distribute(balance: Money, board: &Vec<LeaderboardEntry>) -> (r: (Vec<Payout>, Money))
    ensures
        r.0@ == spec_payouts(balance, board@),
        r.1 == if board@.len() == 0 || balance == 0 {
            balance
        } else {
            0u128
        },
{
    let mut payouts: Vec<Payout> = Vec::new();
    if board.len() == 0 || balance == 0 {
        proof {
            assert(payouts@ =~= spec_payouts(balance, board@));
        }
        return (payouts, balance);
    }
    payouts.push(Payout { user: board[0].user, amount: saturating_mul_money(balance, 50) / 100 });
    if board.len() > 1 {
        payouts.push(
            Payout { user: board[1].user, amount: saturating_mul_money(balance, 30) / 100 },
        );
    }
    if board.len() > 2 {
        payouts.push(
            Payout { user: board[2].user, amount: saturating_mul_money(balance, 20) / 100 },
        );
    }
    proof {
        assert(payouts@ =~= spec_payouts(balance, board@));
    }
    (payouts, 0)
}

} // verus!
