//! Share accounting and the fee-per-share indexes: minting and burning
//! shares, distributing a fee, and paying a holder the fees it is owed.

use vstd::prelude::*;
use crate::bignat::BigNat;
use crate::curve::{FeeSplit, index_increment_of, owed_fee_of, POOL_SHARE_SCALE, split_fee};
use crate::error::DexError;
use crate::ledger::{
    AccountId, lemma_sum_bound, lemma_sum_push, lemma_sum_remove, lemma_sum_update, PairView,
    ShareClass,
};
use crate::pair::{Amounts, LpInfo, LpPosition, LpPositionInfo, Pair};

verus! {

impl Pair {
    /// Pays `account` the fees it is owed on both sides: its entry indexes
    /// move to the current indexes, and the two amounts are handed out. An
    /// account without shares is owed nothing.
    pub fn claim_pending_fees_internal(&mut self, account: AccountId) -> (r: Amounts)
        requires
            old(self).wf(),
        ensures
            final(self).wf(),
            final(self)@ == old(self)@.settled(account),
            r.amount_a@ == old(self)@.owed_a(account),
            r.amount_b@ == old(self)@.owed_b(account),
    {
        match self.find_lp(account) {
            None => Amounts { amount_a: BigNat::zero(), amount_b: BigNat::zero() },
            Some(i) => {
                let owed_a: BigNat = owed_fee_of(
                    &self.fee_per_share_a,
                    &self.lps[i].entry_index_a,
                    &self.lps[i].shares,
                );
                let owed_b: BigNat = owed_fee_of(
                    &self.fee_per_share_b,
                    &self.lps[i].entry_index_b,
                    &self.lps[i].shares,
                );
                let position = LpPosition {
                    account,
                    shares: self.lps[i].shares.clone(),
                    entry_index_a: self.fee_per_share_a.clone(),
                    entry_index_b: self.fee_per_share_b.clone(),
                };
                proof {
                    lemma_sum_update(self@.lps, i as int, position@);
                }
                self.lps.set(i, position);
                proof {
                    assert(self@.lps =~= old(self)@.lps.update(i as int, position@));
                }
                Amounts { amount_a: owed_a, amount_b: owed_b }
            },
        }
    }

    /// Mints `shares` to `account`. An account that held none joins at the
    /// current fee-per-share indexes, so that it is owed nothing of what
    /// accrued before.
    pub fn add_lp_shares(&mut self, account: AccountId, shares: &BigNat)
        requires
            old(self).wf(),
        ensures
            final(self).wf(),
            final(self)@ == old(self)@.with_shares_added(account, shares@),
    {
        if shares.is_zero() {
            return ;
        }
        match self.find_lp(account) {
            Some(i) => {
                let position = LpPosition {
                    account,
                    shares: self.lps[i].shares.add(shares),
                    entry_index_a: self.lps[i].entry_index_a.clone(),
                    entry_index_b: self.lps[i].entry_index_b.clone(),
                };
                proof {
                    lemma_sum_update(self@.lps, i as int, position@);
                }
                self.lps.set(i, position);
                self.total_lp_shares = self.total_lp_shares.add(shares);
                proof {
                    assert(self@.lps =~= old(self)@.lps.update(i as int, position@));
                }
            },
            None => {
                let position = LpPosition {
                    account,
                    shares: shares.clone(),
                    entry_index_a: self.fee_per_share_a.clone(),
                    entry_index_b: self.fee_per_share_b.clone(),
                };
                proof {
                    lemma_sum_push(self@.lps, position@);
                }
                self.lps.push(position);
                self.total_lp_shares = self.total_lp_shares.add(shares);
                proof {
                    assert(self@.lps =~= old(self)@.lps.push(position@));
                }
            },
        }
    }

    /// Burns `shares` of `account`. An account left with none leaves, and
    /// its entry indexes with it.
    pub(super) fn remove_lp_shares(&mut self, account: AccountId, shares: &BigNat)
        requires
            old(self).wf(),
            0 < shares@ <= old(self)@.shares_of(account),
        ensures
            final(self).wf(),
            final(self)@ == old(self)@.with_shares_burned(account, shares@),
    {
        match self.find_lp(account) {
            None => {},
            Some(i) => {
                proof {
                    lemma_sum_bound(self@.lps, i as int);
                }
                if self.lps[i].shares.same(shares) {
                    proof {
                        lemma_sum_remove(self@.lps, i as int);
                    }
                    self.lps.remove(i);
                    self.total_lp_shares = self.total_lp_shares.sub(shares);
                    proof {
                        assert(self@.lps =~= old(self)@.lps.remove(i as int));
                    }
                } else {
                    let position = LpPosition {
                        account,
                        shares: self.lps[i].shares.sub(shares),
                        entry_index_a: self.lps[i].entry_index_a.clone(),
                        entry_index_b: self.lps[i].entry_index_b.clone(),
                    };
                    proof {
                        lemma_sum_update(self@.lps, i as int, position@);
                    }
                    self.lps.set(i, position);
                    self.total_lp_shares = self.total_lp_shares.sub(shares);
                    proof {
                        assert(self@.lps =~= old(self)@.lps.update(i as int, position@));
                    }
                }
            },
        }
    }

    /// The shares of a class: the platform's, or those of the account.
    pub fn class_shares(&self, class: ShareClass) -> (r: BigNat)
        requires
            self.wf(),
        ensures
            r@ == self@.class_shares(class),
    {
        match class {
            ShareClass::Platform => self.owner_shares.clone(),
            ShareClass::Lp(account) => self.shares_of(account),
        }
    }

    /// Mints `shares` to a class.
    pub fn mint_shares(&mut self, class: ShareClass, shares: &BigNat)
        requires
            old(self).wf(),
        ensures
            final(self).wf(),
            final(self)@ == old(self)@.mint_shares(class, shares@),
    {
        match class {
            ShareClass::Platform => {
                self.owner_shares = self.owner_shares.add(shares);
            },
            ShareClass::Lp(account) => {
                self.add_lp_shares(account, shares);
            },
        }
    }

    /// Burns `shares` of a class, which has to hold that many; more than
    /// none are to be burned.
    pub fn burn_shares(&mut self, class: ShareClass, shares: &BigNat) -> (r: Result<(), DexError>)
        requires
            old(self).wf(),
        ensures
            final(self).wf(),
            match r {
                Ok(_) => old(self)@.burn_shares(class, shares@) == Ok::<PairView, DexError>(
                    final(self)@,
                ),
                Err(e) => old(self)@.burn_shares(class, shares@) == Err::<PairView, DexError>(e)
                    && final(self)@ == old(self)@,
            },
    {
        let held: BigNat = self.class_shares(class);
        if shares.gt(&held) {
            return Err(DexError::InsufficientShares);
        }
        if shares.is_zero() {
            return Err(DexError::InvalidAmount);
        }
        match class {
            ShareClass::Platform => {
                self.owner_shares = self.owner_shares.sub(shares);
            },
            ShareClass::Lp(account) => {
                self.remove_lp_shares(account, shares);
            },
        }
        Ok(())
    }

    /// Distributes a fee on one side between the platform and the holders.
    /// Nothing happens where the fee is zero or nobody holds shares.
    pub fn distribute_fee(&mut self, fee: &BigNat, is_token_a: bool)
        requires
            old(self).wf(),
        ensures
            final(self).wf(),
            final(self)@ == old(self)@.with_fee(fee@, is_token_a),
    {
        if fee.is_zero() {
            return ;
        }
        let total_shares: BigNat = self.owner_shares.add(&self.total_lp_shares);
        if total_shares.is_zero() {
            return ;
        }
        let split: FeeSplit = split_fee(fee, &self.owner_shares, &self.total_lp_shares);
        let increment: BigNat = index_increment_of(&split.lp_portion, &self.total_lp_shares);
        if is_token_a {
            self.owner_fees_a = self.owner_fees_a.add(&split.owner_portion);
            self.fee_per_share_a = self.fee_per_share_a.add(&increment);
        } else {
            self.owner_fees_b = self.owner_fees_b.add(&split.owner_portion);
            self.fee_per_share_b = self.fee_per_share_b.add(&increment);
        }
    }

    /// The shares of `account`, zero where it holds none.
    pub fn shares_of(&self, account: AccountId) -> (r: BigNat)
        requires
            self.wf(),
        ensures
            r@ == self@.shares_of(account),
    {
        match self.find_lp(account) {
            Some(i) => self.lps[i].shares.clone(),
            None => BigNat::zero(),
        }
    }

    /// Whether `account` holds shares.
    pub fn is_lp(&self, account: AccountId) -> (r: bool)
        requires
            self.wf(),
        ensures
            r == self@.is_lp(account),
    {
        self.find_lp(account).is_some()
    }

    /// The number of holders.
    pub fn get_lp_count(&self) -> (r: usize)
        ensures
            r == self@.lps.len(),
    {
        self.lps.len()
    }

    /// The holders, in the order in which they joined.
    pub fn get_lp_list(&self) -> (r: Vec<AccountId>)
        ensures
            r@.len() == self@.lps.len(),
            forall|i: int| 0 <= i < r@.len() ==> r@[i] == self@.lps[i].account,
    {
        let mut out: Vec<AccountId> = Vec::new();
        let mut i: usize = 0;
        while i < self.lps.len()
            invariant
                i <= self.lps@.len(),
                out@.len() == i,
                forall|k: int| 0 <= k < i ==> out@[k] == self@.lps[k].account,
            decreases self.lps@.len() - i,
        {
            out.push(self.lps[i].account);
            i += 1;
        }
        out
    }

    /// The fees that `account` is owed and has not been paid.
    pub fn calculate_lp_pending_fees(&self, account: AccountId) -> (r: Amounts)
        requires
            self.wf(),
        ensures
            r.amount_a@ == self@.owed_a(account),
            r.amount_b@ == self@.owed_b(account),
    {
        match self.find_lp(account) {
            None => Amounts { amount_a: BigNat::zero(), amount_b: BigNat::zero() },
            Some(i) => Amounts {
                amount_a: owed_fee_of(
                    &self.fee_per_share_a,
                    &self.lps[i].entry_index_a,
                    &self.lps[i].shares,
                ),
                amount_b: owed_fee_of(
                    &self.fee_per_share_b,
                    &self.lps[i].entry_index_b,
                    &self.lps[i].shares,
                ),
            },
        }
    }

    /// The shares of `account` and the fees it is owed.
    pub fn get_lp_info(&self, account: AccountId) -> (r: LpInfo)
        requires
            self.wf(),
        ensures
            r.account == account,
            r.shares@ == self@.shares_of(account),
            r.fees_a@ == self@.owed_a(account),
            r.fees_b@ == self@.owed_b(account),
    {
        let fees: Amounts = self.calculate_lp_pending_fees(account);
        LpInfo {
            account,
            shares: self.shares_of(account),
            fees_a: fees.amount_a,
            fees_b: fees.amount_b,
        }
    }

    /// Every holder with its shares and the fees it is owed.
    pub fn get_all_lp_info(&self) -> (r: Vec<LpInfo>)
        ensures
            r@.len() == self@.lps.len(),
            forall|i: int| 0 <= i < r@.len() ==> (#[trigger] r@[i])@ == self@.lp_info_at(i),
    {
        let mut out: Vec<LpInfo> = Vec::new();
        let mut i: usize = 0;
        while i < self.lps.len()
            invariant
                i <= self.lps@.len(),
                out@.len() == i,
                forall|k: int| 0 <= k < i ==> (#[trigger] out@[k])@ == self@.lp_info_at(k),
            decreases self.lps@.len() - i,
        {
            let info = LpInfo {
                account: self.lps[i].account,
                shares: self.lps[i].shares.clone(),
                fees_a: owed_fee_of(
                    &self.fee_per_share_a,
                    &self.lps[i].entry_index_a,
                    &self.lps[i].shares,
                ),
                fees_b: owed_fee_of(
                    &self.fee_per_share_b,
                    &self.lps[i].entry_index_b,
                    &self.lps[i].shares,
                ),
            };
            out.push(info);
            i += 1;
        }
        out
    }

    /// The shares of `account`, the fees it is owed, and its part of the
    /// pool.
    pub fn get_lp_position(&self, account: AccountId) -> (r: LpPositionInfo)
        requires
            self.wf(),
        ensures
            r.shares@ == self@.shares_of(account),
            r.fees_a@ == self@.owed_a(account),
            r.fees_b@ == self@.owed_b(account),
            r.pool_share@ == self@.pool_share(account),
    {
        let shares: BigNat = self.shares_of(account);
        let total_shares: BigNat = self.owner_shares.add(&self.total_lp_shares);
        let fees: Amounts = self.calculate_lp_pending_fees(account);
        let pool_share: BigNat = if total_shares.is_zero() {
            BigNat::zero()
        } else {
            shares.mul(&BigNat::from_u64(POOL_SHARE_SCALE)).div(&total_shares)
        };
        LpPositionInfo { shares, fees_a: fees.amount_a, fees_b: fees.amount_b, pool_share }
    }
}

} // verus!
