//! Swaps along the constant product of the reserves, and their previews.

use vstd::prelude::*;
use crate::bignat::BigNat;
use crate::curve::{lemma_fee_within, quote, SwapQuote, SwapQuoteView};
use crate::error::DexError;
use crate::ledger::PairView;
use crate::pair::Pair;

verus! {

impl Pair {
    /// Swaps `payment` of one asset for the other, along the constant
    /// product of the reserves.
    pub fn swap(&mut self, a_to_b: bool, payment: &BigNat, min_output: &BigNat) -> (r: Result<
        SwapQuote,
        DexError,
    >)
        requires
            old(self).wf(),
        ensures
            final(self).wf(),
            match r {
                Ok(q) => old(self)@.swap(a_to_b, payment@, min_output@) == Ok::<
                    (PairView, SwapQuoteView),
                    DexError,
                >((final(self)@, q@)),
                Err(e) => old(self)@.swap(a_to_b, payment@, min_output@) == Err::<
                    (PairView, SwapQuoteView),
                    DexError,
                >(e) && final(self)@ == old(self)@,
            },
    {
        if !self.active {
            return Err(DexError::PairInactive);
        }
        let quoted = if a_to_b {
            quote(payment, &self.reserve_a, &self.reserve_b, self.fee_percent, min_output)
        } else {
            quote(payment, &self.reserve_b, &self.reserve_a, self.fee_percent, min_output)
        };
        let q: SwapQuote = match quoted {
            Ok(q) => q,
            Err(e) => {
                return Err(e);
            },
        };
        if a_to_b {
            self.reserve_a = self.reserve_a.add(payment);
            self.reserve_b = self.reserve_b.sub(&q.raw_output);
        } else {
            self.reserve_b = self.reserve_b.add(payment);
            self.reserve_a = self.reserve_a.sub(&q.raw_output);
        }
        self.distribute_fee(&q.fee, !a_to_b);
        Ok(q)
    }

    /// Swaps `payment` of asset A for asset B.
    pub fn swap_a_to_b(&mut self, payment: &BigNat, min_output: &BigNat) -> (r: Result<
        SwapQuote,
        DexError,
    >)
        requires
            old(self).wf(),
        ensures
            final(self).wf(),
            match r {
                Ok(q) => old(self)@.swap(true, payment@, min_output@) == Ok::<
                    (PairView, SwapQuoteView),
                    DexError,
                >((final(self)@, q@)),
                Err(e) => old(self)@.swap(true, payment@, min_output@) == Err::<
                    (PairView, SwapQuoteView),
                    DexError,
                >(e) && final(self)@ == old(self)@,
            },
    {
        self.swap(true, payment, min_output)
    }

    /// Swaps `payment` of asset B for asset A.
    pub fn swap_b_to_a(&mut self, payment: &BigNat, min_output: &BigNat) -> (r: Result<
        SwapQuote,
        DexError,
    >)
        requires
            old(self).wf(),
        ensures
            final(self).wf(),
            match r {
                Ok(q) => old(self)@.swap(false, payment@, min_output@) == Ok::<
                    (PairView, SwapQuoteView),
                    DexError,
                >((final(self)@, q@)),
                Err(e) => old(self)@.swap(false, payment@, min_output@) == Err::<
                    (PairView, SwapQuoteView),
                    DexError,
                >(e) && final(self)@ == old(self)@,
            },
    {
        self.swap(false, payment, min_output)
    }

    /// What a swap of `input_amount` would hand the caller, and its fee.
    pub fn quote_swap(&self, input_amount: &BigNat, is_a_to_b: bool) -> (r: (BigNat, BigNat))
        requires
            self.wf(),
        ensures
            (r.0@, r.1@) == self@.quote_swap(input_amount@, is_a_to_b),
    {
        if self.reserve_a.is_zero() || self.reserve_b.is_zero() || input_amount.is_zero() {
            proof {
                assert(0 * self@.reserve_out(is_a_to_b) == 0);
            }
            return (BigNat::zero(), BigNat::zero());
        }
        let (reserve_in, reserve_out) = if is_a_to_b {
            (&self.reserve_a, &self.reserve_b)
        } else {
            (&self.reserve_b, &self.reserve_a)
        };
        let output: BigNat = input_amount.mul(reserve_out).div(&reserve_in.add(input_amount));
        if output.is_zero() || output.ge(reserve_out) {
            return (BigNat::zero(), BigNat::zero());
        }
        let fee: BigNat = output.mul(&BigNat::from_u64(self.fee_percent)).div(
            &BigNat::from_u64(100),
        );
        proof {
            lemma_fee_within(output@, self.fee_percent as nat);
        }
        let user_gets: BigNat = output.sub(&fee);
        (user_gets, fee)
    }

    /// The input that a swap needs for the caller to receive
    /// `desired_output`, and the fee of that swap.
    pub fn quote_swap_reverse(&self, desired_output: &BigNat, is_a_to_b: bool) -> (r: (
        BigNat,
        BigNat,
    ))
        requires
            self.wf(),
        ensures
            (r.0@, r.1@) == self@.quote_swap_reverse(desired_output@, is_a_to_b),
    {
        if self.reserve_a.is_zero() || self.reserve_b.is_zero() || desired_output.is_zero() {
            return (BigNat::zero(), BigNat::zero());
        }
        let (reserve_in, reserve_out) = if is_a_to_b {
            (&self.reserve_a, &self.reserve_b)
        } else {
            (&self.reserve_b, &self.reserve_a)
        };
        let output_raw: BigNat = desired_output.mul(&BigNat::from_u64(100)).div(
            &BigNat::from_u64(100 - self.fee_percent),
        );
        if output_raw.ge(reserve_out) {
            return (BigNat::zero(), BigNat::zero());
        }
        let required_input: BigNat = reserve_in.mul(&output_raw).div(
            &reserve_out.sub(&output_raw),
        );
        let fee: BigNat = output_raw.mul(&BigNat::from_u64(self.fee_percent)).div(
            &BigNat::from_u64(100),
        );
        (required_input.add(&BigNat::from_u64(1)), fee)
    }

    /// What a swap of `amount` would hand the caller, with no test of the
    /// raw output.
    pub fn get_swap_quote(&self, amount: &BigNat, a_to_b: bool) -> (r: BigNat)
        requires
            self.wf(),
        ensures
            r@ == self@.swap_quote_unchecked(amount@, a_to_b),
    {
        if self.reserve_a.is_zero() || self.reserve_b.is_zero() || amount.is_zero() {
            return BigNat::zero();
        }
        let output: BigNat = if a_to_b {
            amount.mul(&self.reserve_b).div(&self.reserve_a.add(amount))
        } else {
            amount.mul(&self.reserve_a).div(&self.reserve_b.add(amount))
        };
        let fee: BigNat = output.mul(&BigNat::from_u64(self.fee_percent)).div(
            &BigNat::from_u64(100),
        );
        proof {
            lemma_fee_within(output@, self.fee_percent as nat);
        }
        output.sub(&fee)
    }
}

} // verus!
