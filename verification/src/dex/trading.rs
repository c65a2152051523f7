//! The operations that any account may address to a pair: swaps, deposits,
//! burns and claims.

use vstd::prelude::*;
use crate::bignat::BigNat;
use crate::curve::{SwapQuote, SwapQuoteView};
use crate::dex::{Dex, DexView, lemma_pair_replaced};
use crate::error::DexError;
use crate::ledger::{
    AccountId, AmountsView, FinalizeReceiptView, MintReceiptView, RemoveReceiptView,
};
use crate::pair::{
    transfer_views, Amounts, FinalizeReceipt, MintReceipt, RemoveReceipt, Transfer,
};
use crate::payment::{extract_dual_payment, Payment, payment_views, same_bytes};

verus! {

impl Dex {
    /// Swaps `payment` of `token`, the token of side A, for asset B, which goes to
    /// `caller`.
    pub fn swap_a_to_b(
        &mut self,
        pair_id: u64,
        caller: AccountId,
        token: &Vec<u8>,
        payment: &BigNat,
        min_output: &BigNat,
    ) -> (r: Result<(SwapQuote, Vec<Transfer>), DexError>)
        requires
            old(self).wf(),
        ensures
            final(self).wf(),
            match r {
                Ok((receipt, transfers)) => old(self)@.swap(
                    pair_id,
                    true,
                    Some(token@),
                    payment@,
                    min_output@,
                ) == Ok::<(DexView, SwapQuoteView), DexError>((final(self)@, receipt@))
                    && transfer_views(transfers@) == old(self)@.pair(pair_id).swap_transfers(
                    caller,
                    true,
                    receipt@,
                ),
                Err(e) => old(self)@.swap(
                    pair_id,
                    true,
                    Some(token@),
                    payment@,
                    min_output@,
                ) == Err::<(DexView, SwapQuoteView), DexError>(e) && final(self)@ == old(self)@,
            },
    {
        let i: usize = match self.find_pair(pair_id) {
            Some(i) => i,
            None => {
                return Err(DexError::PairNotFound);
            },
        };
        if !self.pairs[i].is_active() {
            return Err(DexError::PairInactive);
        }
        let info = self.pairs[i].get_pair_info();
        if info.token_a_is_native || !same_bytes(token, &info.token_a) {
            return Err(DexError::InvalidAmount);
        }
        let r = self.pairs[i].swap(true, payment, min_output);
        proof {
            lemma_pair_replaced(old(self)@, self@, pair_id, i as int);
        }
        match r {
            Ok(receipt) => {
                let transfers: Vec<Transfer> = self.pairs[i].swap_transfers(
                    caller,
                    true,
                    &receipt,
                );
                Ok((receipt, transfers))
            },
            Err(e) => Err(e),
        }
    }

    /// Swaps `payment` of `token`, the token of side B, for asset A, which goes to
    /// `caller`.
    pub fn swap_b_to_a(
        &mut self,
        pair_id: u64,
        caller: AccountId,
        token: &Vec<u8>,
        payment: &BigNat,
        min_output: &BigNat,
    ) -> (r: Result<(SwapQuote, Vec<Transfer>), DexError>)
        requires
            old(self).wf(),
        ensures
            final(self).wf(),
            match r {
                Ok((receipt, transfers)) => old(self)@.swap(
                    pair_id,
                    false,
                    Some(token@),
                    payment@,
                    min_output@,
                ) == Ok::<(DexView, SwapQuoteView), DexError>((final(self)@, receipt@))
                    && transfer_views(transfers@) == old(self)@.pair(pair_id).swap_transfers(
                    caller,
                    false,
                    receipt@,
                ),
                Err(e) => old(self)@.swap(
                    pair_id,
                    false,
                    Some(token@),
                    payment@,
                    min_output@,
                ) == Err::<(DexView, SwapQuoteView), DexError>(e) && final(self)@ == old(self)@,
            },
    {
        let i: usize = match self.find_pair(pair_id) {
            Some(i) => i,
            None => {
                return Err(DexError::PairNotFound);
            },
        };
        if !self.pairs[i].is_active() {
            return Err(DexError::PairInactive);
        }
        let info = self.pairs[i].get_pair_info();
        if info.token_b_is_native || !same_bytes(token, &info.token_b) {
            return Err(DexError::InvalidAmount);
        }
        let r = self.pairs[i].swap(false, payment, min_output);
        proof {
            lemma_pair_replaced(old(self)@, self@, pair_id, i as int);
        }
        match r {
            Ok(receipt) => {
                let transfers: Vec<Transfer> = self.pairs[i].swap_transfers(
                    caller,
                    false,
                    &receipt,
                );
                Ok((receipt, transfers))
            },
            Err(e) => Err(e),
        }
    }

    /// Swaps `payment` of the native coin, the asset of side A, for asset B, which
    /// goes to `caller`.
    pub fn swap_klv_to_b(
        &mut self,
        pair_id: u64,
        caller: AccountId,
        payment: &BigNat,
        min_output: &BigNat,
    ) -> (r: Result<(SwapQuote, Vec<Transfer>), DexError>)
        requires
            old(self).wf(),
        ensures
            final(self).wf(),
            match r {
                Ok((receipt, transfers)) => old(self)@.swap(
                    pair_id,
                    true,
                    None::<Seq<u8>>,
                    payment@,
                    min_output@,
                ) == Ok::<(DexView, SwapQuoteView), DexError>((final(self)@, receipt@))
                    && transfer_views(transfers@) == old(self)@.pair(pair_id).swap_transfers(
                    caller,
                    true,
                    receipt@,
                ),
                Err(e) => old(self)@.swap(
                    pair_id,
                    true,
                    None::<Seq<u8>>,
                    payment@,
                    min_output@,
                ) == Err::<(DexView, SwapQuoteView), DexError>(e) && final(self)@ == old(self)@,
            },
    {
        let i: usize = match self.find_pair(pair_id) {
            Some(i) => i,
            None => {
                return Err(DexError::PairNotFound);
            },
        };
        if !self.pairs[i].is_active() {
            return Err(DexError::PairInactive);
        }
        let info = self.pairs[i].get_pair_info();
        if !info.token_a_is_native {
            return Err(DexError::InvalidAmount);
        }
        let r = self.pairs[i].swap(true, payment, min_output);
        proof {
            lemma_pair_replaced(old(self)@, self@, pair_id, i as int);
        }
        match r {
            Ok(receipt) => {
                let transfers: Vec<Transfer> = self.pairs[i].swap_transfers(
                    caller,
                    true,
                    &receipt,
                );
                Ok((receipt, transfers))
            },
            Err(e) => Err(e),
        }
    }

    /// Swaps `payment` of the native coin, the asset of side B, for asset A, which
    /// goes to `caller`.
    pub fn swap_klv_to_a(
        &mut self,
        pair_id: u64,
        caller: AccountId,
        payment: &BigNat,
        min_output: &BigNat,
    ) -> (r: Result<(SwapQuote, Vec<Transfer>), DexError>)
        requires
            old(self).wf(),
        ensures
            final(self).wf(),
            match r {
                Ok((receipt, transfers)) => old(self)@.swap(
                    pair_id,
                    false,
                    None::<Seq<u8>>,
                    payment@,
                    min_output@,
                ) == Ok::<(DexView, SwapQuoteView), DexError>((final(self)@, receipt@))
                    && transfer_views(transfers@) == old(self)@.pair(pair_id).swap_transfers(
                    caller,
                    false,
                    receipt@,
                ),
                Err(e) => old(self)@.swap(
                    pair_id,
                    false,
                    None::<Seq<u8>>,
                    payment@,
                    min_output@,
                ) == Err::<(DexView, SwapQuoteView), DexError>(e) && final(self)@ == old(self)@,
            },
    {
        let i: usize = match self.find_pair(pair_id) {
            Some(i) => i,
            None => {
                return Err(DexError::PairNotFound);
            },
        };
        if !self.pairs[i].is_active() {
            return Err(DexError::PairInactive);
        }
        let info = self.pairs[i].get_pair_info();
        if !info.token_b_is_native {
            return Err(DexError::InvalidAmount);
        }
        let r = self.pairs[i].swap(false, payment, min_output);
        proof {
            lemma_pair_replaced(old(self)@, self@, pair_id, i as int);
        }
        match r {
            Ok(receipt) => {
                let transfers: Vec<Transfer> = self.pairs[i].swap_transfers(
                    caller,
                    false,
                    &receipt,
                );
                Ok((receipt, transfers))
            },
            Err(e) => Err(e),
        }
    }

    /// Takes the deposit that a call brought for both sides of a pair and mints the
    /// shares it earns.
    pub fn mint(
        &mut self,
        pair_id: u64,
        caller: AccountId,
        native_amount: &BigNat,
        payments: &Vec<Payment>,
        min_lp_shares: &BigNat,
    ) -> (r: Result<(MintReceipt, Vec<Transfer>), DexError>)
        requires
            old(self).wf(),
        ensures
            final(self).wf(),
            match r {
                Ok((receipt, transfers)) => old(self)@.mint(
                    pair_id,
                    caller,
                    native_amount@,
                    payment_views(payments@),
                    min_lp_shares@,
                ) == Ok::<(DexView, MintReceiptView), DexError>((final(self)@, receipt@))
                    && transfer_views(transfers@) == old(self)@.pair(pair_id).mint_transfers(
                    caller,
                    receipt@,
                ),
                Err(e) => old(self)@.mint(
                    pair_id,
                    caller,
                    native_amount@,
                    payment_views(payments@),
                    min_lp_shares@,
                ) == Err::<(DexView, MintReceiptView), DexError>(e) && final(self)@ == old(self)@,
            },
    {
        let i: usize = match self.find_pair(pair_id) {
            Some(i) => i,
            None => {
                return Err(DexError::PairNotFound);
            },
        };
        let info = self.pairs[i].get_pair_info();
        let sent: Amounts = extract_dual_payment(
            &info.token_a,
            &info.token_b,
            info.token_a_is_native,
            info.token_b_is_native,
            native_amount,
            payments,
        );
        let r = self.pairs[i].mint(caller, &sent.amount_a, &sent.amount_b, min_lp_shares);
        proof {
            lemma_pair_replaced(old(self)@, self@, pair_id, i as int);
        }
        match r {
            Ok(receipt) => {
                let transfers: Vec<Transfer> = self.pairs[i].mint_transfers(
                    caller,
                    &receipt,
                );
                Ok((receipt, transfers))
            },
            Err(e) => Err(e),
        }
    }

    /// Adds `amount` of `token`, the token of side A, to the pending balance of `caller`.
    pub fn deposit_pending_a(
        &mut self,
        pair_id: u64,
        caller: AccountId,
        token: &Vec<u8>,
        amount: &BigNat,
    ) -> (r: Result<(), DexError>)
        requires
            old(self).wf(),
        ensures
            final(self).wf(),
            match r {
                Ok(_) => old(self)@.deposit_pending(pair_id, caller, true, Some(token@), amount@)
                    == Ok::<(DexView, ()), DexError>((final(self)@, ())),
                Err(e) => old(self)@.deposit_pending(pair_id, caller, true, Some(token@), amount@)
                    == Err::<(DexView, ()), DexError>(e) && final(self)@ == old(self)@,
            },
    {
        let i: usize = match self.find_pair(pair_id) {
            Some(i) => i,
            None => {
                return Err(DexError::PairNotFound);
            },
        };
        let info = self.pairs[i].get_pair_info();
        if info.token_a_is_native || !same_bytes(token, &info.token_a) {
            return Err(DexError::InvalidAmount);
        }
        let r = self.pairs[i].deposit_pending(caller, amount, true);
        proof {
            lemma_pair_replaced(old(self)@, self@, pair_id, i as int);
        }
        r
    }

    /// Adds `amount` of the native coin, the asset of side A, to the pending balance of `caller`.
    pub fn deposit_pending_a_klv(&mut self, pair_id: u64, caller: AccountId, amount: &BigNat) -> (r:
        Result<(), DexError>)
        requires
            old(self).wf(),
        ensures
            final(self).wf(),
            match r {
                Ok(_) => old(self)@.deposit_pending(pair_id, caller, true, None::<Seq<u8>>, amount@)
                    == Ok::<(DexView, ()), DexError>((final(self)@, ())),
                Err(e) => old(self)@.deposit_pending(pair_id, caller, true, None::<Seq<u8>>, amount@)
                    == Err::<(DexView, ()), DexError>(e) && final(self)@ == old(self)@,
            },
    {
        let i: usize = match self.find_pair(pair_id) {
            Some(i) => i,
            None => {
                return Err(DexError::PairNotFound);
            },
        };
        let info = self.pairs[i].get_pair_info();
        if !info.token_a_is_native {
            return Err(DexError::InvalidAmount);
        }
        let r = self.pairs[i].deposit_pending(caller, amount, true);
        proof {
            lemma_pair_replaced(old(self)@, self@, pair_id, i as int);
        }
        r
    }

    /// Adds `amount` of `token`, the token of side B, to the pending balance of `caller`.
    pub fn deposit_pending_b(
        &mut self,
        pair_id: u64,
        caller: AccountId,
        token: &Vec<u8>,
        amount: &BigNat,
    ) -> (r: Result<(), DexError>)
        requires
            old(self).wf(),
        ensures
            final(self).wf(),
            match r {
                Ok(_) => old(self)@.deposit_pending(pair_id, caller, false, Some(token@), amount@)
                    == Ok::<(DexView, ()), DexError>((final(self)@, ())),
                Err(e) => old(self)@.deposit_pending(pair_id, caller, false, Some(token@), amount@)
                    == Err::<(DexView, ()), DexError>(e) && final(self)@ == old(self)@,
            },
    {
        let i: usize = match self.find_pair(pair_id) {
            Some(i) => i,
            None => {
                return Err(DexError::PairNotFound);
            },
        };
        let info = self.pairs[i].get_pair_info();
        if info.token_b_is_native || !same_bytes(token, &info.token_b) {
            return Err(DexError::InvalidAmount);
        }
        let r = self.pairs[i].deposit_pending(caller, amount, false);
        proof {
            lemma_pair_replaced(old(self)@, self@, pair_id, i as int);
        }
        r
    }

    /// Adds `amount` of the native coin, the asset of side B, to the pending balance of `caller`.
    pub fn deposit_pending_b_klv(&mut self, pair_id: u64, caller: AccountId, amount: &BigNat) -> (r:
        Result<(), DexError>)
        requires
            old(self).wf(),
        ensures
            final(self).wf(),
            match r {
                Ok(_) => old(self)@.deposit_pending(pair_id, caller, false, None::<Seq<u8>>, amount@)
                    == Ok::<(DexView, ()), DexError>((final(self)@, ())),
                Err(e) => old(self)@.deposit_pending(pair_id, caller, false, None::<Seq<u8>>, amount@)
                    == Err::<(DexView, ()), DexError>(e) && final(self)@ == old(self)@,
            },
    {
        let i: usize = match self.find_pair(pair_id) {
            Some(i) => i,
            None => {
                return Err(DexError::PairNotFound);
            },
        };
        let info = self.pairs[i].get_pair_info();
        if !info.token_b_is_native {
            return Err(DexError::InvalidAmount);
        }
        let r = self.pairs[i].deposit_pending(caller, amount, false);
        proof {
            lemma_pair_replaced(old(self)@, self@, pair_id, i as int);
        }
        r
    }

    /// Matches the pending balances of `caller` on a pair against the pool and mints
    /// the shares they earn.
    pub fn finalize_liquidity(
        &mut self,
        pair_id: u64,
        caller: AccountId,
        min_shares: &BigNat,
    ) -> (r: Result<(FinalizeReceipt, Vec<Transfer>), DexError>)
        requires
            old(self).wf(),
        ensures
            final(self).wf(),
            match r {
                Ok((receipt, transfers)) => old(self)@.finalize_liquidity(
                    pair_id,
                    caller,
                    min_shares@,
                ) == Ok::<(DexView, FinalizeReceiptView), DexError>((final(self)@, receipt@))
                    && transfer_views(transfers@) == old(self)@.pair(pair_id).finalize_transfers(
                    caller,
                    receipt@,
                ),
                Err(e) => old(self)@.finalize_liquidity(
                    pair_id,
                    caller,
                    min_shares@,
                ) == Err::<(DexView, FinalizeReceiptView), DexError>(e) && final(self)@ == old(self)@,
            },
    {
        let i: usize = match self.find_pair(pair_id) {
            Some(i) => i,
            None => {
                return Err(DexError::PairNotFound);
            },
        };
        let r = self.pairs[i].finalize_liquidity(caller, min_shares);
        proof {
            lemma_pair_replaced(old(self)@, self@, pair_id, i as int);
        }
        match r {
            Ok(receipt) => {
                let transfers: Vec<Transfer> = self.pairs[i].finalize_transfers(
                    caller,
                    &receipt,
                );
                Ok((receipt, transfers))
            },
            Err(e) => Err(e),
        }
    }

    /// Hands back the pending balance of asset A of `caller` on a pair.
    pub fn withdraw_pending_a(
        &mut self,
        pair_id: u64,
        caller: AccountId,
    ) -> (r: Result<(BigNat, Vec<Transfer>), DexError>)
        requires
            old(self).wf(),
        ensures
            final(self).wf(),
            match r {
                Ok((receipt, transfers)) => old(self)@.withdraw_pending(
                    pair_id,
                    caller,
                    true,
                ) == Ok::<(DexView, nat), DexError>((final(self)@, receipt@))
                    && transfer_views(transfers@) == old(self)@.pair(pair_id).transfers(
                    caller,
                    receipt@,
                    0,
                ),
                Err(e) => old(self)@.withdraw_pending(
                    pair_id,
                    caller,
                    true,
                ) == Err::<(DexView, nat), DexError>(e) && final(self)@ == old(self)@,
            },
    {
        let i: usize = match self.find_pair(pair_id) {
            Some(i) => i,
            None => {
                return Err(DexError::PairNotFound);
            },
        };
        let r = self.pairs[i].withdraw_pending_a(caller);
        proof {
            lemma_pair_replaced(old(self)@, self@, pair_id, i as int);
        }
        match r {
            Ok(receipt) => {
                let transfers: Vec<Transfer> = self.pairs[i].transfers(
                    caller,
                    &receipt,
                    &BigNat::zero(),
                );
                Ok((receipt, transfers))
            },
            Err(e) => Err(e),
        }
    }

    /// Hands back the pending balance of asset B of `caller` on a pair.
    pub fn withdraw_pending_b(
        &mut self,
        pair_id: u64,
        caller: AccountId,
    ) -> (r: Result<(BigNat, Vec<Transfer>), DexError>)
        requires
            old(self).wf(),
        ensures
            final(self).wf(),
            match r {
                Ok((receipt, transfers)) => old(self)@.withdraw_pending(
                    pair_id,
                    caller,
                    false,
                ) == Ok::<(DexView, nat), DexError>((final(self)@, receipt@))
                    && transfer_views(transfers@) == old(self)@.pair(pair_id).transfers(
                    caller,
                    0,
                    receipt@,
                ),
                Err(e) => old(self)@.withdraw_pending(
                    pair_id,
                    caller,
                    false,
                ) == Err::<(DexView, nat), DexError>(e) && final(self)@ == old(self)@,
            },
    {
        let i: usize = match self.find_pair(pair_id) {
            Some(i) => i,
            None => {
                return Err(DexError::PairNotFound);
            },
        };
        let r = self.pairs[i].withdraw_pending_b(caller);
        proof {
            lemma_pair_replaced(old(self)@, self@, pair_id, i as int);
        }
        match r {
            Ok(receipt) => {
                let transfers: Vec<Transfer> = self.pairs[i].transfers(
                    caller,
                    &BigNat::zero(),
                    &receipt,
                );
                Ok((receipt, transfers))
            },
            Err(e) => Err(e),
        }
    }

    /// Hands back both pending balances of `caller` on a pair.
    pub fn withdraw_pending_all(
        &mut self,
        pair_id: u64,
        caller: AccountId,
    ) -> (r: Result<(Amounts, Vec<Transfer>), DexError>)
        requires
            old(self).wf(),
        ensures
            final(self).wf(),
            match r {
                Ok((receipt, transfers)) => old(self)@.withdraw_pending_all(
                    pair_id,
                    caller,
                ) == Ok::<(DexView, AmountsView), DexError>((final(self)@, receipt@))
                    && transfer_views(transfers@) == old(self)@.pair(pair_id).transfers(
                    caller,
                    receipt@.amount_a,
                    receipt@.amount_b,
                ),
                Err(e) => old(self)@.withdraw_pending_all(
                    pair_id,
                    caller,
                ) == Err::<(DexView, AmountsView), DexError>(e) && final(self)@ == old(self)@,
            },
    {
        let i: usize = match self.find_pair(pair_id) {
            Some(i) => i,
            None => {
                return Err(DexError::PairNotFound);
            },
        };
        let r = self.pairs[i].withdraw_pending_all(caller);
        proof {
            lemma_pair_replaced(old(self)@, self@, pair_id, i as int);
        }
        match r {
            Ok(receipt) => {
                let transfers: Vec<Transfer> = self.pairs[i].transfers(
                    caller,
                    &receipt.amount_a,
                    &receipt.amount_b,
                );
                Ok((receipt, transfers))
            },
            Err(e) => Err(e),
        }
    }

    /// Burns `shares_to_remove` of the shares of `caller` in a pair and pays out its
    /// part of both reserves, after the fees it is owed.
    pub fn remove_liquidity(
        &mut self,
        pair_id: u64,
        caller: AccountId,
        shares_to_remove: &BigNat,
    ) -> (r: Result<(RemoveReceipt, Vec<Transfer>), DexError>)
        requires
            old(self).wf(),
        ensures
            final(self).wf(),
            match r {
                Ok((receipt, transfers)) => old(self)@.remove_liquidity(
                    pair_id,
                    caller,
                    shares_to_remove@,
                ) == Ok::<(DexView, RemoveReceiptView), DexError>((final(self)@, receipt@))
                    && transfer_views(transfers@) == old(self)@.pair(pair_id).remove_transfers(
                    caller,
                    receipt@,
                ),
                Err(e) => old(self)@.remove_liquidity(
                    pair_id,
                    caller,
                    shares_to_remove@,
                ) == Err::<(DexView, RemoveReceiptView), DexError>(e) && final(self)@ == old(self)@,
            },
    {
        let i: usize = match self.find_pair(pair_id) {
            Some(i) => i,
            None => {
                return Err(DexError::PairNotFound);
            },
        };
        let r = self.pairs[i].remove_liquidity(caller, shares_to_remove);
        proof {
            lemma_pair_replaced(old(self)@, self@, pair_id, i as int);
        }
        match r {
            Ok(receipt) => {
                let transfers: Vec<Transfer> = self.pairs[i].remove_transfers(
                    caller,
                    &receipt,
                );
                Ok((receipt, transfers))
            },
            Err(e) => Err(e),
        }
    }

    /// Pays `caller`, a holder of a pair, the fees it is owed.
    pub fn claim_lp_fees(
        &mut self,
        pair_id: u64,
        caller: AccountId,
    ) -> (r: Result<(Amounts, Vec<Transfer>), DexError>)
        requires
            old(self).wf(),
        ensures
            final(self).wf(),
            match r {
                Ok((receipt, transfers)) => old(self)@.claim_lp_fees(
                    pair_id,
                    caller,
                ) == Ok::<(DexView, AmountsView), DexError>((final(self)@, receipt@))
                    && transfer_views(transfers@) == old(self)@.pair(pair_id).transfers(
                    caller,
                    receipt@.amount_a,
                    receipt@.amount_b,
                ),
                Err(e) => old(self)@.claim_lp_fees(
                    pair_id,
                    caller,
                ) == Err::<(DexView, AmountsView), DexError>(e) && final(self)@ == old(self)@,
            },
    {
        let i: usize = match self.find_pair(pair_id) {
            Some(i) => i,
            None => {
                return Err(DexError::PairNotFound);
            },
        };
        let r = self.pairs[i].claim_lp_fees(caller);
        proof {
            lemma_pair_replaced(old(self)@, self@, pair_id, i as int);
        }
        match r {
            Ok(receipt) => {
                let transfers: Vec<Transfer> = self.pairs[i].transfers(
                    caller,
                    &receipt.amount_a,
                    &receipt.amount_b,
                );
                Ok((receipt, transfers))
            },
            Err(e) => Err(e),
        }
    }
}

} // verus!
