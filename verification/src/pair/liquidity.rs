//! Deposits of both assets at once, burns, claims, and the platform's own
//! liquidity and fees.

use vstd::prelude::*;
use crate::bignat::BigNat;
use crate::curve::{
    lemma_matched_amounts_within, lemma_payout_within, MINIMUM_LIQUIDITY, payout_of, PRECISION,
    Provision, provision,
};
use crate::error::DexError;
use crate::ledger::{
    AccountId, AmountsView, first_price, lemma_lp_index, lemma_sum_bound, lp_index,
    MintReceiptView, PairView, RemoveReceiptView,
};
use crate::pair::{Amounts, MintReceipt, Pair, RemoveReceipt};

verus! {

impl Pair {
    /// Takes a deposit of both assets at once and mints the shares it earns.
    pub fn mint(
        &mut self,
        caller: AccountId,
        amount_a: &BigNat,
        amount_b: &BigNat,
        min_lp_shares: &BigNat,
    ) -> (r: Result<MintReceipt, DexError>)
        requires
            old(self).wf(),
        ensures
            final(self).wf(),
            match r {
                Ok(receipt) => old(self)@.mint(caller, amount_a@, amount_b@, min_lp_shares@)
                    == Ok::<(PairView, MintReceiptView), DexError>((final(self)@, receipt@)),
                Err(e) => old(self)@.mint(caller, amount_a@, amount_b@, min_lp_shares@) == Err::<
                    (PairView, MintReceiptView),
                    DexError,
                >(e) && final(self)@ == old(self)@,
            },
    {
        if !self.active {
            return Err(DexError::PairInactive);
        }
        let total_shares: BigNat = self.owner_shares.add(&self.total_lp_shares);
        let p: Provision = match provision(
            amount_a,
            amount_b,
            &self.reserve_a,
            &self.reserve_b,
            &total_shares,
            min_lp_shares,
        ) {
            Ok(p) => p,
            Err(e) => {
                return Err(e);
            },
        };
        proof {
            if self@.reserve_a > 0 {
                lemma_matched_amounts_within(
                    amount_a@,
                    amount_b@,
                    self@.reserve_a,
                    self@.reserve_b,
                );
            }
        }
        let fees: Amounts = self.claim_pending_fees_internal(caller);
        self.reserve_a = self.reserve_a.add(&p.used_a);
        self.reserve_b = self.reserve_b.add(&p.used_b);
        self.add_lp_shares(caller, &p.shares);
        let refund_a: BigNat = amount_a.sub(&p.used_a);
        let refund_b: BigNat = amount_b.sub(&p.used_b);
        Ok(
            MintReceipt {
                shares: p.shares,
                used_a: p.used_a,
                used_b: p.used_b,
                refund_a,
                refund_b,
                fees_a: fees.amount_a,
                fees_b: fees.amount_b,
            },
        )
    }

    /// Burns `shares_to_remove` of the shares of `caller` and pays out its
    /// part of both reserves, after the fees it is owed.
    pub fn remove_liquidity(&mut self, caller: AccountId, shares_to_remove: &BigNat) -> (r:
        Result<RemoveReceipt, DexError>)
        requires
            old(self).wf(),
        ensures
            final(self).wf(),
            match r {
                Ok(receipt) => old(self)@.remove_liquidity(caller, shares_to_remove@) == Ok::<
                    (PairView, RemoveReceiptView),
                    DexError,
                >((final(self)@, receipt@)),
                Err(e) => old(self)@.remove_liquidity(caller, shares_to_remove@) == Err::<
                    (PairView, RemoveReceiptView),
                    DexError,
                >(e) && final(self)@ == old(self)@,
            },
    {
        let lp_shares: BigNat = self.shares_of(caller);
        if shares_to_remove.gt(&lp_shares) {
            return Err(DexError::InsufficientShares);
        }
        if shares_to_remove.is_zero() {
            return Err(DexError::InvalidAmount);
        }
        let total_shares: BigNat = self.owner_shares.add(&self.total_lp_shares);
        let amount_a: BigNat = payout_of(shares_to_remove, &self.reserve_a, &total_shares);
        let amount_b: BigNat = payout_of(shares_to_remove, &self.reserve_b, &total_shares);
        if amount_a.is_zero() && amount_b.is_zero() {
            return Err(DexError::WithdrawalTooSmall);
        }
        proof {
            let i = lp_index(self@.lps, caller);
            lemma_sum_bound(self@.lps, i);
            lemma_payout_within(shares_to_remove@, self@.reserve_a, total_shares@);
            lemma_payout_within(shares_to_remove@, self@.reserve_b, total_shares@);
        }
        let fees: Amounts = self.claim_pending_fees_internal(caller);
        proof {
            lemma_lp_index(self@.lps, caller, lp_index(old(self)@.lps, caller));
        }
        self.remove_lp_shares(caller, shares_to_remove);
        self.reserve_a = self.reserve_a.sub(&amount_a);
        self.reserve_b = self.reserve_b.sub(&amount_b);
        Ok(RemoveReceipt { amount_a, amount_b, fees_a: fees.amount_a, fees_b: fees.amount_b })
    }

    /// Pays `caller`, a holder, the fees it is owed.
    pub fn claim_lp_fees(&mut self, caller: AccountId) -> (r: Result<Amounts, DexError>)
        requires
            old(self).wf(),
        ensures
            final(self).wf(),
            match r {
                Ok(amounts) => old(self)@.claim_lp_fees(caller) == Ok::<
                    (PairView, AmountsView),
                    DexError,
                >((final(self)@, amounts@)),
                Err(e) => old(self)@.claim_lp_fees(caller) == Err::<
                    (PairView, AmountsView),
                    DexError,
                >(e) && final(self)@ == old(self)@,
            },
    {
        if self.find_lp(caller).is_none() {
            return Err(DexError::NothingToClaim);
        }
        Ok(self.claim_pending_fees_internal(caller))
    }

    /// Takes the platform's deposit into a pair without holders and sets
    /// the platform's shares to the square root of the product of the
    /// reserves.
    pub fn owner_initialize_liquidity(&mut self, amount_a: &BigNat, amount_b: &BigNat) -> (r:
        Result<(), DexError>)
        requires
            old(self).wf(),
        ensures
            final(self).wf(),
            match r {
                Ok(_) => old(self)@.owner_initialize_liquidity(amount_a@, amount_b@) == Ok::<
                    PairView,
                    DexError,
                >(final(self)@),
                Err(e) => old(self)@.owner_initialize_liquidity(amount_a@, amount_b@) == Err::<
                    PairView,
                    DexError,
                >(e) && final(self)@ == old(self)@,
            },
    {
        if amount_a.is_zero() || amount_b.is_zero() {
            return Err(DexError::MissingAsset);
        }
        if !self.total_lp_shares.is_zero() {
            return Err(DexError::PairNotEmpty);
        }
        self.reserve_a = self.reserve_a.add(amount_a);
        self.reserve_b = self.reserve_b.add(amount_b);
        self.owner_shares = self.reserve_a.mul(&self.reserve_b).sqrt();
        Ok(())
    }

    /// Burns `shares_to_remove` of the platform's shares and pays out
    /// their part of both reserves.
    pub fn owner_remove_liquidity(&mut self, shares_to_remove: &BigNat) -> (r: Result<
        Amounts,
        DexError,
    >)
        requires
            old(self).wf(),
        ensures
            final(self).wf(),
            match r {
                Ok(amounts) => old(self)@.owner_remove_liquidity(shares_to_remove@) == Ok::<
                    (PairView, AmountsView),
                    DexError,
                >((final(self)@, amounts@)),
                Err(e) => old(self)@.owner_remove_liquidity(shares_to_remove@) == Err::<
                    (PairView, AmountsView),
                    DexError,
                >(e) && final(self)@ == old(self)@,
            },
    {
        if shares_to_remove.gt(&self.owner_shares) {
            return Err(DexError::InsufficientShares);
        }
        if shares_to_remove.is_zero() {
            return Err(DexError::InvalidAmount);
        }
        let total_shares: BigNat = self.owner_shares.add(&self.total_lp_shares);
        let amount_a: BigNat = payout_of(shares_to_remove, &self.reserve_a, &total_shares);
        let amount_b: BigNat = payout_of(shares_to_remove, &self.reserve_b, &total_shares);
        proof {
            lemma_payout_within(shares_to_remove@, self@.reserve_a, total_shares@);
            lemma_payout_within(shares_to_remove@, self@.reserve_b, total_shares@);
        }
        self.owner_shares = self.owner_shares.sub(shares_to_remove);
        self.reserve_a = self.reserve_a.sub(&amount_a);
        self.reserve_b = self.reserve_b.sub(&amount_b);
        Ok(Amounts { amount_a, amount_b })
    }

    /// Hands out the platform's fees and clears both accumulators.
    pub fn owner_claim_fees(&mut self) -> (r: Result<Amounts, DexError>)
        requires
            old(self).wf(),
        ensures
            final(self).wf(),
            match r {
                Ok(amounts) => old(self)@.owner_claim_fees() == Ok::<
                    (PairView, AmountsView),
                    DexError,
                >((final(self)@, amounts@)),
                Err(e) => old(self)@.owner_claim_fees() == Err::<(PairView, AmountsView), DexError>(
                    e,
                ) && final(self)@ == old(self)@,
            },
    {
        if self.owner_fees_a.is_zero() && self.owner_fees_b.is_zero() {
            return Err(DexError::NothingToClaim);
        }
        let amounts = Amounts {
            amount_a: self.owner_fees_a.clone(),
            amount_b: self.owner_fees_b.clone(),
        };
        self.owner_fees_a = BigNat::zero();
        self.owner_fees_b = BigNat::zero();
        Ok(amounts)
    }

    /// The shares that a first deposit of the two amounts would mint.
    pub fn preview_first_liquidity(&self, amount_a: &BigNat, amount_b: &BigNat) -> (r: BigNat)
        ensures
            r@ == self@.preview_first_liquidity(amount_a@, amount_b@),
    {
        if !self.reserve_a.is_zero() || !self.reserve_b.is_zero() {
            return BigNat::zero();
        }
        let root: BigNat = amount_a.mul(amount_b).sqrt();
        let floor: BigNat = BigNat::from_u64(MINIMUM_LIQUIDITY);
        if root.gt(&floor) {
            root.sub(&floor)
        } else {
            BigNat::zero()
        }
    }
}

/// The price that a first deposit of the two amounts sets.
pub fn preview_first_price(amount_a: &BigNat, amount_b: &BigNat) -> (r: BigNat)
    ensures
        r@ == first_price(amount_a@, amount_b@),
{
    if amount_a.is_zero() {
        return BigNat::zero();
    }
    amount_b.mul(&BigNat::from_u64(PRECISION)).div(amount_a)
}

} // verus!
