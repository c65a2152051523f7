//! The operations of the administrator: the settings of a pair, and the
//! platform's own liquidity and fees.

use vstd::prelude::*;
use crate::bignat::BigNat;
use crate::dex::{Dex, DexView, lemma_pair_replaced};
use crate::error::DexError;
use crate::ledger::{AccountId, AmountsView};
use crate::pair::{transfer_views, Amounts, Transfer};
use crate::payment::{extract_dual_payment, Payment, payment_views};

verus! {

impl Dex {
    /// Switches a pair on or off. Only the administrator may.
    pub fn set_pair_active(&mut self, caller: AccountId, pair_id: u64, is_active: bool) -> (r:
        Result<(), DexError>)
        requires
            old(self).wf(),
        ensures
            final(self).wf(),
            match r {
                Ok(receipt) => old(self)@.set_pair_active(caller, pair_id, is_active) == Ok::<
                    (DexView, ()),
                    DexError,
                >((final(self)@, ())),
                Err(e) => old(self)@.set_pair_active(caller, pair_id, is_active) == Err::<
                    (DexView, ()),
                    DexError,
                >(e) && final(self)@ == old(self)@,
            },
    {
        if caller != self.admin {
            return Err(DexError::Unauthorized);
        }
        let i: usize = match self.find_pair(pair_id) {
            Some(i) => i,
            None => {
                return Err(DexError::PairNotFound);
            },
        };
        self.pairs[i].set_pair_active(is_active);
        proof {
            lemma_pair_replaced(old(self)@, self@, pair_id, i as int);
        }
        Ok(())
    }

    /// Sets the fee rate of a pair. Only the administrator may.
    pub fn set_pair_fee(&mut self, caller: AccountId, pair_id: u64, fee_percent: u64) -> (r:
        Result<(), DexError>)
        requires
            old(self).wf(),
        ensures
            final(self).wf(),
            match r {
                Ok(receipt) => old(self)@.set_pair_fee(caller, pair_id, fee_percent) == Ok::<
                    (DexView, ()),
                    DexError,
                >((final(self)@, ())),
                Err(e) => old(self)@.set_pair_fee(caller, pair_id, fee_percent) == Err::<
                    (DexView, ()),
                    DexError,
                >(e) && final(self)@ == old(self)@,
            },
    {
        if caller != self.admin {
            return Err(DexError::Unauthorized);
        }
        let i: usize = match self.find_pair(pair_id) {
            Some(i) => i,
            None => {
                return Err(DexError::PairNotFound);
            },
        };
        let r = self.pairs[i].set_pair_fee(fee_percent);
        proof {
            lemma_pair_replaced(old(self)@, self@, pair_id, i as int);
        }
        r
    }

    /// Gives side A of a pair another token, while the reserve of that side
    /// is zero. Only the administrator may.
    pub fn update_pair_token_a(
        &mut self,
        caller: AccountId,
        pair_id: u64,
        new_token_a: Vec<u8>,
        is_native: bool,
    ) -> (r: Result<(), DexError>)
        requires
            old(self).wf(),
        ensures
            final(self).wf(),
            match r {
                Ok(_) => old(self)@.update_pair_token(
                    caller,
                    pair_id,
                    true,
                    new_token_a@,
                    is_native,
                ) == Ok::<(DexView, ()), DexError>((final(self)@, ())),
                Err(e) => old(self)@.update_pair_token(
                    caller,
                    pair_id,
                    true,
                    new_token_a@,
                    is_native,
                ) == Err::<(DexView, ()), DexError>(e) && final(self)@ == old(self)@,
            },
    {
        if caller != self.admin {
            return Err(DexError::Unauthorized);
        }
        let i: usize = match self.find_pair(pair_id) {
            Some(i) => i,
            None => {
                return Err(DexError::PairNotFound);
            },
        };
        let r = self.pairs[i].update_pair_token_a(new_token_a, is_native);
        proof {
            lemma_pair_replaced(old(self)@, self@, pair_id, i as int);
        }
        r
    }

    /// Gives side B of a pair another token, while the reserve of that side
    /// is zero. Only the administrator may.
    pub fn update_pair_token_b(
        &mut self,
        caller: AccountId,
        pair_id: u64,
        new_token_b: Vec<u8>,
        is_native: bool,
    ) -> (r: Result<(), DexError>)
        requires
            old(self).wf(),
        ensures
            final(self).wf(),
            match r {
                Ok(_) => old(self)@.update_pair_token(
                    caller,
                    pair_id,
                    false,
                    new_token_b@,
                    is_native,
                ) == Ok::<(DexView, ()), DexError>((final(self)@, ())),
                Err(e) => old(self)@.update_pair_token(
                    caller,
                    pair_id,
                    false,
                    new_token_b@,
                    is_native,
                ) == Err::<(DexView, ()), DexError>(e) && final(self)@ == old(self)@,
            },
    {
        if caller != self.admin {
            return Err(DexError::Unauthorized);
        }
        let i: usize = match self.find_pair(pair_id) {
            Some(i) => i,
            None => {
                return Err(DexError::PairNotFound);
            },
        };
        let r = self.pairs[i].update_pair_token_b(new_token_b, is_native);
        proof {
            lemma_pair_replaced(old(self)@, self@, pair_id, i as int);
        }
        r
    }

    /// Takes the platform's deposit that a call brought for both sides of
    /// a pair without holders. Only the administrator may.
    pub fn owner_initialize_liquidity(
        &mut self,
        caller: AccountId,
        pair_id: u64,
        native_amount: &BigNat,
        payments: &Vec<Payment>,
    ) -> (r: Result<(), DexError>)
        requires
            old(self).wf(),
        ensures
            final(self).wf(),
            match r {
                Ok(_) => old(self)@.owner_initialize_liquidity(
                    caller,
                    pair_id,
                    native_amount@,
                    payment_views(payments@),
                ) == Ok::<(DexView, ()), DexError>((final(self)@, ())),
                Err(e) => old(self)@.owner_initialize_liquidity(
                    caller,
                    pair_id,
                    native_amount@,
                    payment_views(payments@),
                ) == Err::<(DexView, ()), DexError>(e) && final(self)@ == old(self)@,
            },
    {
        if caller != self.admin {
            return Err(DexError::Unauthorized);
        }
        let i: usize = match self.find_pair(pair_id) {
            Some(i) => i,
            None => {
                return Err(DexError::PairNotFound);
            },
        };
        let info = self.pairs[i].get_pair_info();
        let sent: Amounts = extract_dual_payment(
            &info.token_a,
            &info.token_b,
            info.token_a_is_native,
            info.token_b_is_native,
            native_amount,
            payments,
        );
        let r = self.pairs[i].owner_initialize_liquidity(&sent.amount_a, &sent.amount_b);
        proof {
            lemma_pair_replaced(old(self)@, self@, pair_id, i as int);
        }
        r
    }

    /// Burns `shares_to_remove` of the platform's shares in a pair and pays out
    /// their part of both reserves to the administrator. Only the administrator
    /// may.
    pub fn owner_remove_liquidity(
        &mut self,
        caller: AccountId,
        pair_id: u64,
        shares_to_remove: &BigNat,
    ) -> (r: Result<(Amounts, Vec<Transfer>), DexError>)
        requires
            old(self).wf(),
        ensures
            final(self).wf(),
            match r {
                Ok((receipt, transfers)) => old(self)@.owner_remove_liquidity(
                    caller,
                    pair_id,
                    shares_to_remove@,
                ) == Ok::<(DexView, AmountsView), DexError>((final(self)@, receipt@))
                    && transfer_views(transfers@) == old(self)@.pair(pair_id).transfers(
                    caller,
                    receipt@.amount_a,
                    receipt@.amount_b,
                ),
                Err(e) => old(self)@.owner_remove_liquidity(
                    caller,
                    pair_id,
                    shares_to_remove@,
                ) == Err::<(DexView, AmountsView), DexError>(e) && final(self)@ == old(self)@,
            },
    {
        if caller != self.admin {
            return Err(DexError::Unauthorized);
        }
        let i: usize = match self.find_pair(pair_id) {
            Some(i) => i,
            None => {
                return Err(DexError::PairNotFound);
            },
        };
        let r = self.pairs[i].owner_remove_liquidity(shares_to_remove);
        proof {
            lemma_pair_replaced(old(self)@, self@, pair_id, i as int);
        }
        match r {
            Ok(receipt) => {
                let transfers: Vec<Transfer> = self.pairs[i].transfers(
                    caller,
                    &receipt.amount_a,
                    &receipt.amount_b,
                );
                Ok((receipt, transfers))
            },
            Err(e) => Err(e),
        }
    }

    /// Hands out the platform's fees of a pair to the administrator. Only the
    /// administrator may.
    pub fn owner_claim_fees(
        &mut self,
        caller: AccountId,
        pair_id: u64,
    ) -> (r: Result<(Amounts, Vec<Transfer>), DexError>)
        requires
            old(self).wf(),
        ensures
            final(self).wf(),
            match r {
                Ok((receipt, transfers)) => old(self)@.owner_claim_fees(
                    caller,
                    pair_id,
                ) == Ok::<(DexView, AmountsView), DexError>((final(self)@, receipt@))
                    && transfer_views(transfers@) == old(self)@.pair(pair_id).transfers(
                    caller,
                    receipt@.amount_a,
                    receipt@.amount_b,
                ),
                Err(e) => old(self)@.owner_claim_fees(
                    caller,
                    pair_id,
                ) == Err::<(DexView, AmountsView), DexError>(e) && final(self)@ == old(self)@,
            },
    {
        if caller != self.admin {
            return Err(DexError::Unauthorized);
        }
        let i: usize = match self.find_pair(pair_id) {
            Some(i) => i,
            None => {
                return Err(DexError::PairNotFound);
            },
        };
        let r = self.pairs[i].owner_claim_fees();
        proof {
            lemma_pair_replaced(old(self)@, self@, pair_id, i as int);
        }
        match r {
            Ok(receipt) => {
                let transfers: Vec<Transfer> = self.pairs[i].transfers(
                    caller,
                    &receipt.amount_a,
                    &receipt.amount_b,
                );
                Ok((receipt, transfers))
            },
            Err(e) => Err(e),
        }
    }
}

} // verus!
