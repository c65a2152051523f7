//! What a pair is configured with, and what it holds as a whole.

use vstd::prelude::*;
use crate::error::DexError;
use crate::ledger::PairView;
use crate::pair::{Amounts, Pair, PairInfo};

verus! {

impl Pair {
    /// Switches the pair on or off.
    pub fn set_pair_active(&mut self, is_active: bool)
        requires
            old(self).wf(),
        ensures
            final(self).wf(),
            final(self)@ == (PairView { active: is_active, ..old(self)@ }),
    {
        self.active = is_active;
    }

    /// Sets the fee rate, which is between one and ten percent.
    pub fn set_pair_fee(&mut self, fee_percent: u64) -> (r: Result<(), DexError>)
        requires
            old(self).wf(),
        ensures
            final(self).wf(),
            match r {
                Ok(_) => 1 <= fee_percent <= 10 && final(self)@ == (PairView {
                    fee_percent: fee_percent,
                    ..old(self)@
                }),
                Err(e) => e == DexError::InvalidFee && !(1 <= fee_percent <= 10) && final(self)@
                    == old(self)@,
            },
    {
        if fee_percent < 1 || fee_percent > 10 {
            return Err(DexError::InvalidFee);
        }
        self.fee_percent = fee_percent;
        Ok(())
    }

    /// Gives side A another token. Only while the reserve of A is zero.
    pub fn update_pair_token_a(&mut self, new_token_a: Vec<u8>, is_native: bool) -> (r: Result<
        (),
        DexError,
    >)
        requires
            old(self).wf(),
        ensures
            final(self).wf(),
            match r {
                Ok(_) => old(self)@.reserve_a == 0 && final(self)@ == (PairView {
                    token_a: new_token_a@,
                    token_a_is_native: is_native,
                    ..old(self)@
                }),
                Err(e) => e == DexError::PairNotEmpty && old(self)@.reserve_a > 0 && final(self)@
                    == old(self)@,
            },
    {
        if !self.reserve_a.is_zero() {
            return Err(DexError::PairNotEmpty);
        }
        self.token_a = new_token_a;
        self.token_a_is_native = is_native;
        Ok(())
    }

    /// Gives side B another token. Only while the reserve of B is zero.
    pub fn update_pair_token_b(&mut self, new_token_b: Vec<u8>, is_native: bool) -> (r: Result<
        (),
        DexError,
    >)
        requires
            old(self).wf(),
        ensures
            final(self).wf(),
            match r {
                Ok(_) => old(self)@.reserve_b == 0 && final(self)@ == (PairView {
                    token_b: new_token_b@,
                    token_b_is_native: is_native,
                    ..old(self)@
                }),
                Err(e) => e == DexError::PairNotEmpty && old(self)@.reserve_b > 0 && final(self)@
                    == old(self)@,
            },
    {
        if !self.reserve_b.is_zero() {
            return Err(DexError::PairNotEmpty);
        }
        self.token_b = new_token_b;
        self.token_b_is_native = is_native;
        Ok(())
    }

    /// What the pair is configured with, and its reserves.
    pub fn get_pair_info(&self) -> (r: PairInfo)
        ensures
            r.token_a@ == self@.token_a,
            r.token_b@ == self@.token_b,
            r.token_a_is_native == self@.token_a_is_native,
            r.token_b_is_native == self@.token_b_is_native,
            r.reserve_a@ == self@.reserve_a,
            r.reserve_b@ == self@.reserve_b,
            r.fee_percent == self@.fee_percent,
            r.active == self@.active,
            r.creator == self@.creator,
    {
        PairInfo {
            token_a: self.token_a.clone(),
            token_b: self.token_b.clone(),
            token_a_is_native: self.token_a_is_native,
            token_b_is_native: self.token_b_is_native,
            reserve_a: self.reserve_a.clone(),
            reserve_b: self.reserve_b.clone(),
            fee_percent: self.fee_percent,
            active: self.active,
            creator: self.creator,
        }
    }

    /// The two reserves.
    pub fn get_reserves(&self) -> (r: Amounts)
        ensures
            r.amount_a@ == self@.reserve_a,
            r.amount_b@ == self@.reserve_b,
    {
        Amounts { amount_a: self.reserve_a.clone(), amount_b: self.reserve_b.clone() }
    }

    /// The platform's shares and the holders' shares, in this order.
    pub fn get_total_shares(&self) -> (r: Amounts)
        ensures
            r.amount_a@ == self@.owner_shares,
            r.amount_b@ == self@.total_lp_shares,
    {
        Amounts { amount_a: self.owner_shares.clone(), amount_b: self.total_lp_shares.clone() }
    }

    /// The platform's unclaimed fees.
    pub fn get_owner_fees(&self) -> (r: Amounts)
        ensures
            r.amount_a@ == self@.owner_fees_a,
            r.amount_b@ == self@.owner_fees_b,
    {
        Amounts { amount_a: self.owner_fees_a.clone(), amount_b: self.owner_fees_b.clone() }
    }

    /// The two fee-per-share indexes.
    pub fn get_fee_indexes(&self) -> (r: Amounts)
        ensures
            r.amount_a@ == self@.fee_per_share_a,
            r.amount_b@ == self@.fee_per_share_b,
    {
        Amounts {
            amount_a: self.fee_per_share_a.clone(),
            amount_b: self.fee_per_share_b.clone(),
        }
    }

    /// Whether both reserves are zero.
    pub fn is_pool_empty(&self) -> (r: bool)
        ensures
            r == (self@.reserve_a == 0 && self@.reserve_b == 0),
    {
        self.reserve_a.is_zero() && self.reserve_b.is_zero()
    }

    /// Whether nothing is left in the pair, so that it can be deleted.
    pub fn can_delete_pair(&self) -> (r: bool)
        ensures
            r == self@.is_drained(),
    {
        self.reserve_a.is_zero() && self.reserve_b.is_zero() && self.lps.len() == 0
            && self.owner_shares.is_zero() && self.pending_user_count == 0
            && self.owner_fees_a.is_zero() && self.owner_fees_b.is_zero()
    }
}

} // verus!
