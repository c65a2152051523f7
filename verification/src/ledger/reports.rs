//! What the views of a ledger report: a holder's position, an account's
//! pending deposit, and the previews of a swap and of a first deposit.

use vstd::prelude::*;
use crate::curve::{
    first_shares, matched_amounts, matched_shares, owed_fee, POOL_SHARE_SCALE, PRECISION, swap_fee,
    swap_raw_output,
};
use crate::ledger::{AccountId, PairView};

verus! {

/// A holder, its shares and the fees it is owed.
pub ghost struct LpInfoView {
    pub account: AccountId,
    pub shares: nat,
    pub fees_a: nat,
    pub fees_b: nat,
}

/// A holder's shares, the fees it is owed, and its part of the pool.
pub ghost struct LpPositionInfoView {
    pub shares: nat,
    pub fees_a: nat,
    pub fees_b: nat,
    pub pool_share: nat,
}

/// An account's pending balances and what matching them now would give.
pub ghost struct PendingInfoView {
    pub pending_a: nat,
    pub pending_b: nat,
    pub estimated_shares: nat,
    pub estimated_excess_b: nat,
}

impl PairView {
    /// What `get_lp_info` reports of the holder at place `i`.
    pub open spec fn lp_info_at(self, i: int) -> LpInfoView {
        LpInfoView {
            account: self.lps[i].account,
            shares: self.lps[i].shares,
            fees_a: owed_fee(self.fee_per_share_a, self.lps[i].entry_index_a, self.lps[i].shares),
            fees_b: owed_fee(self.fee_per_share_b, self.lps[i].entry_index_b, self.lps[i].shares),
        }
    }

    /// The part of all shares that `account` holds, scaled by
    /// `POOL_SHARE_SCALE`.
    pub open spec fn pool_share(self, account: AccountId) -> nat {
        if self.total_shares() == 0 {
            0
        } else {
            self.shares_of(account) * (POOL_SHARE_SCALE as nat) / self.total_shares()
        }
    }

    /// The shares that matching the pending balances of `account` would
    /// mint now, zero where it would be refused.
    pub open spec fn estimated_shares(self, account: AccountId) -> nat {
        let pending_a = self.pending_a_of(account);
        let pending_b = self.pending_b_of(account);
        let (used_a, used_b) = matched_amounts(pending_a, pending_b, self.reserve_a, self.reserve_b);
        if pending_a == 0 || pending_b == 0 {
            0
        } else if self.reserve_a == 0 || self.reserve_b == 0 {
            first_shares(pending_a, pending_b)
        } else if used_a == 0 || used_b == 0 {
            0
        } else {
            matched_shares(used_a, used_b, self.total_shares(), self.reserve_a, self.reserve_b)
        }
    }

    /// The part of the pending balance of asset B of `account` that
    /// matching would leave over.
    pub open spec fn estimated_excess_b(self, account: AccountId) -> nat {
        let pending_a = self.pending_a_of(account);
        let pending_b = self.pending_b_of(account);
        let (used_a, used_b) = matched_amounts(pending_a, pending_b, self.reserve_a, self.reserve_b);
        if pending_a == 0 || pending_b == 0 || self.reserve_a == 0 || self.reserve_b == 0 || used_a
            == 0 || used_b == 0 {
            0
        } else {
            (pending_b - used_b) as nat
        }
    }

    /// The reserve that a swap pays into.
    pub open spec fn reserve_in(self, a_to_b: bool) -> nat {
        if a_to_b {
            self.reserve_a
        } else {
            self.reserve_b
        }
    }

    /// The reserve that a swap pays out of.
    pub open spec fn reserve_out(self, a_to_b: bool) -> nat {
        if a_to_b {
            self.reserve_b
        } else {
            self.reserve_a
        }
    }

    /// What a swap of `input` would hand the caller, and its fee; both
    /// zero where the raw output is zero or not less than the reserve.
    pub open spec fn quote_swap(self, input: nat, a_to_b: bool) -> (nat, nat) {
        let raw = swap_raw_output(input, self.reserve_in(a_to_b), self.reserve_out(a_to_b));
        let fee = swap_fee(raw, self.fee_percent as nat);
        if input == 0 || raw == 0 || raw >= self.reserve_out(a_to_b) {
            (0, 0)
        } else {
            ((raw - fee) as nat, fee)
        }
    }

    /// The raw output that leaves `desired_output` after the fee.
    pub open spec fn raw_output_for(self, desired_output: nat) -> nat {
        desired_output * 100 / ((100 - self.fee_percent) as nat)
    }

    /// The input that a swap needs for the caller to receive
    /// `desired_output`, and the fee of that swap; both zero where the pool
    /// cannot pay that much.
    pub open spec fn quote_swap_reverse(self, desired_output: nat, a_to_b: bool) -> (nat, nat) {
        let raw = self.raw_output_for(desired_output);
        if self.reserve_a == 0 || self.reserve_b == 0 || desired_output == 0 || raw
            >= self.reserve_out(a_to_b) {
            (0, 0)
        } else {
            (
                self.reserve_in(a_to_b) * raw / ((self.reserve_out(a_to_b) - raw) as nat) + 1,
                swap_fee(raw, self.fee_percent as nat),
            )
        }
    }

    /// What a swap of `amount` would hand the caller, with no test of the
    /// raw output; zero where a reserve or the amount is zero.
    pub open spec fn swap_quote_unchecked(self, amount: nat, a_to_b: bool) -> nat {
        let raw = swap_raw_output(amount, self.reserve_in(a_to_b), self.reserve_out(a_to_b));
        if self.reserve_a == 0 || self.reserve_b == 0 || amount == 0 {
            0
        } else {
            (raw - swap_fee(raw, self.fee_percent as nat)) as nat
        }
    }

    /// The shares that a first deposit of the two amounts would mint; zero
    /// where the pool is not empty.
    pub open spec fn preview_first_liquidity(self, amount_a: nat, amount_b: nat) -> nat {
        if self.reserve_a > 0 || self.reserve_b > 0 {
            0
        } else {
            first_shares(amount_a, amount_b)
        }
    }
}

/// The price that a first deposit of the two amounts sets: B per A, scaled
/// by `PRECISION`.
pub open spec fn first_price(amount_a: nat, amount_b: nat) -> nat {
    if amount_a == 0 {
        0
    } else {
        amount_b * (PRECISION as nat) / amount_a
    }
}

} // verus!
