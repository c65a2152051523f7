//! Deposits in two phases: an account deposits each asset on its own, and
//! later has its pending balances matched against the pool or hands them
//! back.

use vstd::prelude::*;
use crate::bignat::BigNat;
use crate::curve::{lemma_matched_amounts_within, MINIMUM_LIQUIDITY, Provision, provision};
use crate::error::DexError;
use crate::ledger::{AccountId, AmountsView, FinalizeReceiptView, PairView};
use crate::pair::{Amounts, FinalizeReceipt, Pair, PendingDeposit, PendingInfo};

verus! {

impl Pair {
    /// The pending balances of `account`.
    pub fn pending_of(&self, account: AccountId) -> (r: Amounts)
        requires
            self.wf(),
        ensures
            r.amount_a@ == self@.pending_a_of(account),
            r.amount_b@ == self@.pending_b_of(account),
    {
        match self.find_pending(account) {
            Some(i) => Amounts {
                amount_a: self.pendings[i].amount_a.clone(),
                amount_b: self.pendings[i].amount_b.clone(),
            },
            None => Amounts { amount_a: BigNat::zero(), amount_b: BigNat::zero() },
        }
    }

    /// Whether `account` has a pending balance of either asset.
    pub fn user_has_pending(&self, account: AccountId) -> (r: bool)
        requires
            self.wf(),
        ensures
            r == (self@.pending_a_of(account) > 0 || self@.pending_b_of(account) > 0),
    {
        let pending: Amounts = self.pending_of(account);
        !pending.amount_a.is_zero() || !pending.amount_b.is_zero()
    }

    /// The number of accounts with a pending balance.
    pub fn get_pending_user_count(&self) -> (r: u64)
        ensures
            r == self@.pending_user_count,
    {
        self.pending_user_count
    }

    /// The pending balances of `account`, and what matching them now would
    /// give.
    pub fn get_pending_deposits(&self, account: AccountId) -> (r: PendingInfo)
        requires
            self.wf(),
        ensures
            r.pending_a@ == self@.pending_a_of(account),
            r.pending_b@ == self@.pending_b_of(account),
            r.estimated_shares@ == self@.estimated_shares(account),
            r.estimated_excess_b@ == self@.estimated_excess_b(account),
    {
        let pending: Amounts = self.pending_of(account);
        let pending_a: BigNat = pending.amount_a;
        let pending_b: BigNat = pending.amount_b;
        let total_shares: BigNat = self.owner_shares.add(&self.total_lp_shares);
        if pending_a.is_zero() || pending_b.is_zero() {
            return PendingInfo {
                pending_a,
                pending_b,
                estimated_shares: BigNat::zero(),
                estimated_excess_b: BigNat::zero(),
            };
        }
        if self.reserve_a.is_zero() || self.reserve_b.is_zero() {
            let root: BigNat = pending_a.mul(&pending_b).sqrt();
            let floor: BigNat = BigNat::from_u64(MINIMUM_LIQUIDITY);
            let estimated_shares: BigNat = if root.gt(&floor) {
                root.sub(&floor)
            } else {
                BigNat::zero()
            };
            return PendingInfo {
                pending_a,
                pending_b,
                estimated_shares,
                estimated_excess_b: BigNat::zero(),
            };
        }
        let b_needed: BigNat = pending_a.mul(&self.reserve_b).div(&self.reserve_a);
        let (use_a, use_b, excess_b) = if b_needed.le(&pending_b) {
            let excess: BigNat = pending_b.sub(&b_needed);
            (pending_a.clone(), b_needed, excess)
        } else {
            (pending_b.mul(&self.reserve_a).div(&self.reserve_b), pending_b.clone(), BigNat::zero())
        };
        if use_a.is_zero() || use_b.is_zero() {
            return PendingInfo {
                pending_a,
                pending_b,
                estimated_shares: BigNat::zero(),
                estimated_excess_b: BigNat::zero(),
            };
        }
        let shares_a: BigNat = use_a.mul(&total_shares).div(&self.reserve_a);
        let shares_b: BigNat = use_b.mul(&total_shares).div(&self.reserve_b);
        let estimated_shares: BigNat = if shares_a.lt(&shares_b) {
            shares_a
        } else {
            shares_b
        };
        PendingInfo { pending_a, pending_b, estimated_shares, estimated_excess_b: excess_b }
    }

    /// Sets the pending balances of `account`, and counts the account in or
    /// out where it starts or ceases to have any.
    fn set_pending(&mut self, account: AccountId, amount_a: BigNat, amount_b: BigNat)
        requires
            old(self).wf(),
        ensures
            final(self).wf(),
            final(self)@ == old(self)@.with_pending(account, amount_a@, amount_b@),
    {
        let nothing: bool = amount_a.is_zero() && amount_b.is_zero();
        match self.find_pending(account) {
            Some(i) => {
                if nothing {
                    self.pendings.remove(i);
                    self.pending_user_count = self.pending_user_count - 1;
                    proof {
                        assert(self@.pendings =~= old(self)@.pendings.remove(i as int));
                    }
                } else {
                    let entry = PendingDeposit { account, amount_a, amount_b };
                    self.pendings.set(i, entry);
                    proof {
                        assert(self@.pendings =~= old(self)@.pendings.update(i as int, entry@));
                    }
                }
            },
            None => {
                if !nothing {
                    let entry = PendingDeposit { account, amount_a, amount_b };
                    self.pendings.push(entry);
                    let count: usize = self.pendings.len();
                    self.pending_user_count = count as u64;
                    proof {
                        assert(self@.pendings =~= old(self)@.pendings.push(entry@));
                    }
                }
            },
        }
    }

    /// Adds `amount` of one asset to the pending balance of `caller`.
    pub fn deposit_pending(&mut self, caller: AccountId, amount: &BigNat, is_token_a: bool) -> (r:
        Result<(), DexError>)
        requires
            old(self).wf(),
        ensures
            final(self).wf(),
            match r {
                Ok(_) => old(self)@.deposit_pending(caller, amount@, is_token_a) == Ok::<
                    PairView,
                    DexError,
                >(final(self)@),
                Err(e) => old(self)@.deposit_pending(caller, amount@, is_token_a) == Err::<
                    PairView,
                    DexError,
                >(e) && final(self)@ == old(self)@,
            },
    {
        if amount.is_zero() {
            return Err(DexError::InvalidAmount);
        }
        let pending: Amounts = self.pending_of(caller);
        if is_token_a {
            self.set_pending(caller, pending.amount_a.add(amount), pending.amount_b);
        } else {
            self.set_pending(caller, pending.amount_a, pending.amount_b.add(amount));
        }
        Ok(())
    }

    /// Adds `amount` of asset A to the pending balance of `caller`.
    pub fn deposit_pending_a(&mut self, caller: AccountId, amount: &BigNat) -> (r: Result<
        (),
        DexError,
    >)
        requires
            old(self).wf(),
        ensures
            final(self).wf(),
            match r {
                Ok(_) => old(self)@.deposit_pending(caller, amount@, true) == Ok::<
                    PairView,
                    DexError,
                >(final(self)@),
                Err(e) => old(self)@.deposit_pending(caller, amount@, true) == Err::<
                    PairView,
                    DexError,
                >(e) && final(self)@ == old(self)@,
            },
    {
        self.deposit_pending(caller, amount, true)
    }

    /// Adds `amount` of asset B to the pending balance of `caller`.
    pub fn deposit_pending_b(&mut self, caller: AccountId, amount: &BigNat) -> (r: Result<
        (),
        DexError,
    >)
        requires
            old(self).wf(),
        ensures
            final(self).wf(),
            match r {
                Ok(_) => old(self)@.deposit_pending(caller, amount@, false) == Ok::<
                    PairView,
                    DexError,
                >(final(self)@),
                Err(e) => old(self)@.deposit_pending(caller, amount@, false) == Err::<
                    PairView,
                    DexError,
                >(e) && final(self)@ == old(self)@,
            },
    {
        self.deposit_pending(caller, amount, false)
    }

    /// Matches the pending balances of `caller` against the pool and mints
    /// the shares they earn. What is not used stays pending.
    pub fn finalize_liquidity(&mut self, caller: AccountId, min_shares: &BigNat) -> (r: Result<
        FinalizeReceipt,
        DexError,
    >)
        requires
            old(self).wf(),
        ensures
            final(self).wf(),
            match r {
                Ok(receipt) => old(self)@.finalize_liquidity(caller, min_shares@) == Ok::<
                    (PairView, FinalizeReceiptView),
                    DexError,
                >((final(self)@, receipt@)),
                Err(e) => old(self)@.finalize_liquidity(caller, min_shares@) == Err::<
                    (PairView, FinalizeReceiptView),
                    DexError,
                >(e) && final(self)@ == old(self)@,
            },
    {
        if !self.active {
            return Err(DexError::PairInactive);
        }
        let pending: Amounts = self.pending_of(caller);
        let total_shares: BigNat = self.owner_shares.add(&self.total_lp_shares);
        let p: Provision = match provision(
            &pending.amount_a,
            &pending.amount_b,
            &self.reserve_a,
            &self.reserve_b,
            &total_shares,
            min_shares,
        ) {
            Ok(p) => p,
            Err(e) => {
                return Err(e);
            },
        };
        proof {
            if self@.reserve_a > 0 {
                lemma_matched_amounts_within(
                    pending.amount_a@,
                    pending.amount_b@,
                    self@.reserve_a,
                    self@.reserve_b,
                );
            }
        }
        let fees: Amounts = self.claim_pending_fees_internal(caller);
        self.set_pending(
            caller,
            pending.amount_a.sub(&p.used_a),
            pending.amount_b.sub(&p.used_b),
        );
        self.reserve_a = self.reserve_a.add(&p.used_a);
        self.reserve_b = self.reserve_b.add(&p.used_b);
        self.add_lp_shares(caller, &p.shares);
        Ok(
            FinalizeReceipt {
                shares: p.shares,
                used_a: p.used_a,
                used_b: p.used_b,
                fees_a: fees.amount_a,
                fees_b: fees.amount_b,
            },
        )
    }

    /// Hands back the pending balance of asset A of `caller`.
    pub fn withdraw_pending_a(&mut self, caller: AccountId) -> (r: Result<BigNat, DexError>)
        requires
            old(self).wf(),
        ensures
            final(self).wf(),
            match r {
                Ok(amount) => old(self)@.withdraw_pending(caller, true) == Ok::<
                    (PairView, nat),
                    DexError,
                >((final(self)@, amount@)),
                Err(e) => old(self)@.withdraw_pending(caller, true) == Err::<
                    (PairView, nat),
                    DexError,
                >(e) && final(self)@ == old(self)@,
            },
    {
        let pending: Amounts = self.pending_of(caller);
        if pending.amount_a.is_zero() {
            return Err(DexError::NothingToClaim);
        }
        self.set_pending(caller, BigNat::zero(), pending.amount_b);
        Ok(pending.amount_a)
    }

    /// Hands back the pending balance of asset B of `caller`.
    pub fn withdraw_pending_b(&mut self, caller: AccountId) -> (r: Result<BigNat, DexError>)
        requires
            old(self).wf(),
        ensures
            final(self).wf(),
            match r {
                Ok(amount) => old(self)@.withdraw_pending(caller, false) == Ok::<
                    (PairView, nat),
                    DexError,
                >((final(self)@, amount@)),
                Err(e) => old(self)@.withdraw_pending(caller, false) == Err::<
                    (PairView, nat),
                    DexError,
                >(e) && final(self)@ == old(self)@,
            },
    {
        let pending: Amounts = self.pending_of(caller);
        if pending.amount_b.is_zero() {
            return Err(DexError::NothingToClaim);
        }
        self.set_pending(caller, pending.amount_a, BigNat::zero());
        Ok(pending.amount_b)
    }

    /// Hands back both pending balances of `caller`.
    pub fn withdraw_pending_all(&mut self, caller: AccountId) -> (r: Result<Amounts, DexError>)
        requires
            old(self).wf(),
        ensures
            final(self).wf(),
            match r {
                Ok(amounts) => old(self)@.withdraw_pending_all(caller) == Ok::<
                    (PairView, AmountsView),
                    DexError,
                >((final(self)@, amounts@)),
                Err(e) => old(self)@.withdraw_pending_all(caller) == Err::<
                    (PairView, AmountsView),
                    DexError,
                >(e) && final(self)@ == old(self)@,
            },
    {
        let pending: Amounts = self.pending_of(caller);
        if pending.amount_a.is_zero() && pending.amount_b.is_zero() {
            return Err(DexError::NothingToClaim);
        }
        self.set_pending(caller, BigNat::zero(), BigNat::zero());
        Ok(pending)
    }
}

} // verus!
