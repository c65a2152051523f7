//! The operations on a ledger: for each, the ledger it leaves and what it
//! hands out, or why it is refused. An operation that is refused leaves the
//! ledger as it was.

use vstd::prelude::*;
use crate::bignat::sqrt_floor;
use crate::curve::{payout, provision_spec, quote_spec, SwapQuoteView};
use crate::error::DexError;
use crate::ledger::{AccountId, PairView};
use crate::payment::native_token_name;

verus! {

/// Two amounts, one of each asset of a pair.
pub ghost struct AmountsView {
    pub amount_a: nat,
    pub amount_b: nat,
}

/// What a mint did.
pub ghost struct MintReceiptView {
    pub shares: nat,
    pub used_a: nat,
    pub used_b: nat,
    pub refund_a: nat,
    pub refund_b: nat,
    pub fees_a: nat,
    pub fees_b: nat,
}

/// What the matching of a pending deposit did.
pub ghost struct FinalizeReceiptView {
    pub shares: nat,
    pub used_a: nat,
    pub used_b: nat,
    pub fees_a: nat,
    pub fees_b: nat,
}

/// What a holder's burn paid out.
pub ghost struct RemoveReceiptView {
    pub amount_a: nat,
    pub amount_b: nat,
    pub fees_a: nat,
    pub fees_b: nat,
}

/// What is wrong with a request for a new pair, if anything: the two tokens
/// are the same, the fee rate is not between one and ten percent, both
/// sides are said to be native, or a side that is said not to be native
/// bears the native coin's name.
pub open spec fn pair_request_error(
    token_a: Seq<u8>,
    token_b: Seq<u8>,
    token_a_is_native: bool,
    token_b_is_native: bool,
    fee_percent: u64,
) -> Option<DexError> {
    if token_a == token_b {
        Some(DexError::InvalidAssets)
    } else if fee_percent < 1 || fee_percent > 10 {
        Some(DexError::InvalidFee)
    } else if token_a_is_native && token_b_is_native {
        Some(DexError::InvalidAssets)
    } else if !token_a_is_native && token_a == native_token_name() {
        Some(DexError::InvalidAssets)
    } else if !token_b_is_native && token_b == native_token_name() {
        Some(DexError::InvalidAssets)
    } else {
        None
    }
}

impl PairView {
    /// The ledger of a pair that was just created: active, and empty.
    pub open spec fn fresh(
        id: u64,
        token_a: Seq<u8>,
        token_b: Seq<u8>,
        token_a_is_native: bool,
        token_b_is_native: bool,
        fee_percent: u64,
        creator: Option<AccountId>,
    ) -> PairView {
        PairView {
            id: id,
            token_a: token_a,
            token_b: token_b,
            token_a_is_native: token_a_is_native,
            token_b_is_native: token_b_is_native,
            creator: creator,
            reserve_a: 0,
            reserve_b: 0,
            fee_percent: fee_percent,
            active: true,
            owner_shares: 0,
            total_lp_shares: 0,
            lps: Seq::empty(),
            fee_per_share_a: 0,
            fee_per_share_b: 0,
            owner_fees_a: 0,
            owner_fees_b: 0,
            pendings: Seq::empty(),
            pending_user_count: 0,
        }
    }

    /// A swap of `payment` of one asset for the other: the ledger it leaves
    /// and its three amounts, or why it is refused. The input reserve grows
    /// by the payment, the output reserve shrinks by the raw output, and the
    /// fee, which is in the output asset, is distributed.
    pub open spec fn swap(self, a_to_b: bool, payment: nat, min_output: nat) -> Result<
        (PairView, SwapQuoteView),
        DexError,
    > {
        let reserve_in = if a_to_b {
            self.reserve_a
        } else {
            self.reserve_b
        };
        let reserve_out = if a_to_b {
            self.reserve_b
        } else {
            self.reserve_a
        };
        if !self.active {
            Err(DexError::PairInactive)
        } else {
            match quote_spec(payment, reserve_in, reserve_out, self.fee_percent as nat, min_output) {
                Err(e) => Err(e),
                Ok(q) => {
                    let moved = if a_to_b {
                        PairView {
                            reserve_a: self.reserve_a + payment,
                            reserve_b: (self.reserve_b - q.raw_output) as nat,
                            ..self
                        }
                    } else {
                        PairView {
                            reserve_b: self.reserve_b + payment,
                            reserve_a: (self.reserve_a - q.raw_output) as nat,
                            ..self
                        }
                    };
                    Ok((moved.with_fee(q.fee, !a_to_b), q))
                },
            }
        }
    }

    /// A deposit of both assets at once: the caller is first paid the fees
    /// it is owed, then the used amounts go into the reserves and the
    /// shares are minted; what was not used is refunded.
    pub open spec fn mint(
        self,
        caller: AccountId,
        amount_a: nat,
        amount_b: nat,
        min_shares: nat,
    ) -> Result<(PairView, MintReceiptView), DexError> {
        if !self.active {
            Err(DexError::PairInactive)
        } else {
            match provision_spec(
                amount_a,
                amount_b,
                self.reserve_a,
                self.reserve_b,
                self.total_shares(),
                min_shares,
            ) {
                Err(e) => Err(e),
                Ok(p) => Ok(
                    (
                        self.settled(caller).funded(p.used_a, p.used_b).with_shares_added(
                            caller,
                            p.shares,
                        ),
                        MintReceiptView {
                            shares: p.shares,
                            used_a: p.used_a,
                            used_b: p.used_b,
                            refund_a: (amount_a - p.used_a) as nat,
                            refund_b: (amount_b - p.used_b) as nat,
                            fees_a: self.owed_a(caller),
                            fees_b: self.owed_b(caller),
                        },
                    ),
                ),
            }
        }
    }

    /// A deposit of one asset into the caller's pending balance.
    pub open spec fn deposit_pending(self, caller: AccountId, amount: nat, is_token_a: bool)
        -> Result<PairView, DexError> {
        if amount == 0 {
            Err(DexError::InvalidAmount)
        } else if is_token_a {
            Ok(
                self.with_pending(
                    caller,
                    self.pending_a_of(caller) + amount,
                    self.pending_b_of(caller),
                ),
            )
        } else {
            Ok(
                self.with_pending(
                    caller,
                    self.pending_a_of(caller),
                    self.pending_b_of(caller) + amount,
                ),
            )
        }
    }

    /// The matching of the caller's pending balances against the pool: as a
    /// mint of the two balances, but what is not used stays pending.
    pub open spec fn finalize_liquidity(self, caller: AccountId, min_shares: nat) -> Result<
        (PairView, FinalizeReceiptView),
        DexError,
    > {
        let pending_a = self.pending_a_of(caller);
        let pending_b = self.pending_b_of(caller);
        if !self.active {
            Err(DexError::PairInactive)
        } else {
            match provision_spec(
                pending_a,
                pending_b,
                self.reserve_a,
                self.reserve_b,
                self.total_shares(),
                min_shares,
            ) {
                Err(e) => Err(e),
                Ok(p) => Ok(
                    (
                        self.settled(caller).with_pending(
                            caller,
                            (pending_a - p.used_a) as nat,
                            (pending_b - p.used_b) as nat,
                        ).funded(p.used_a, p.used_b).with_shares_added(caller, p.shares),
                        FinalizeReceiptView {
                            shares: p.shares,
                            used_a: p.used_a,
                            used_b: p.used_b,
                            fees_a: self.owed_a(caller),
                            fees_b: self.owed_b(caller),
                        },
                    ),
                ),
            }
        }
    }

    /// The withdrawal of the caller's pending balance of one asset.
    pub open spec fn withdraw_pending(self, caller: AccountId, is_token_a: bool) -> Result<
        (PairView, nat),
        DexError,
    > {
        let pending_a = self.pending_a_of(caller);
        let pending_b = self.pending_b_of(caller);
        if is_token_a {
            if pending_a == 0 {
                Err(DexError::NothingToClaim)
            } else {
                Ok((self.with_pending(caller, 0, pending_b), pending_a))
            }
        } else {
            if pending_b == 0 {
                Err(DexError::NothingToClaim)
            } else {
                Ok((self.with_pending(caller, pending_a, 0), pending_b))
            }
        }
    }

    /// The withdrawal of both pending balances of the caller.
    pub open spec fn withdraw_pending_all(self, caller: AccountId) -> Result<
        (PairView, AmountsView),
        DexError,
    > {
        let pending_a = self.pending_a_of(caller);
        let pending_b = self.pending_b_of(caller);
        if pending_a == 0 && pending_b == 0 {
            Err(DexError::NothingToClaim)
        } else {
            Ok(
                (
                    self.with_pending(caller, 0, 0),
                    AmountsView { amount_a: pending_a, amount_b: pending_b },
                ),
            )
        }
    }

    /// A holder's burn of `shares`: the caller is first paid the fees it is
    /// owed, then its part of both reserves.
    pub open spec fn remove_liquidity(self, caller: AccountId, shares: nat) -> Result<
        (PairView, RemoveReceiptView),
        DexError,
    > {
        let amount_a = payout(shares, self.reserve_a, self.total_shares());
        let amount_b = payout(shares, self.reserve_b, self.total_shares());
        if shares > self.shares_of(caller) {
            Err(DexError::InsufficientShares)
        } else if shares == 0 {
            Err(DexError::InvalidAmount)
        } else if amount_a == 0 && amount_b == 0 {
            Err(DexError::WithdrawalTooSmall)
        } else {
            Ok(
                (
                    self.settled(caller).with_shares_burned(caller, shares).drawn(
                        amount_a,
                        amount_b,
                    ),
                    RemoveReceiptView {
                        amount_a: amount_a,
                        amount_b: amount_b,
                        fees_a: self.owed_a(caller),
                        fees_b: self.owed_b(caller),
                    },
                ),
            )
        }
    }

    /// A holder's claim of the fees it is owed.
    pub open spec fn claim_lp_fees(self, caller: AccountId) -> Result<
        (PairView, AmountsView),
        DexError,
    > {
        if !self.is_lp(caller) {
            Err(DexError::NothingToClaim)
        } else {
            Ok(
                (
                    self.settled(caller),
                    AmountsView { amount_a: self.owed_a(caller), amount_b: self.owed_b(caller) },
                ),
            )
        }
    }

    /// The platform's deposit into a pair that has no holders: both amounts
    /// go into the reserves, and the platform's shares become the square
    /// root of the product of the reserves.
    pub open spec fn owner_initialize_liquidity(self, amount_a: nat, amount_b: nat) -> Result<
        PairView,
        DexError,
    > {
        if amount_a == 0 || amount_b == 0 {
            Err(DexError::MissingAsset)
        } else if self.total_lp_shares > 0 {
            Err(DexError::PairNotEmpty)
        } else {
            Ok(
                PairView {
                    owner_shares: sqrt_floor(
                        (self.reserve_a + amount_a) * (self.reserve_b + amount_b),
                    ),
                    ..self.funded(amount_a, amount_b)
                },
            )
        }
    }

    /// The platform's burn of `shares` of its own.
    pub open spec fn owner_remove_liquidity(self, shares: nat) -> Result<
        (PairView, AmountsView),
        DexError,
    > {
        let amount_a = payout(shares, self.reserve_a, self.total_shares());
        let amount_b = payout(shares, self.reserve_b, self.total_shares());
        if shares > self.owner_shares {
            Err(DexError::InsufficientShares)
        } else if shares == 0 {
            Err(DexError::InvalidAmount)
        } else {
            Ok(
                (
                    PairView {
                        owner_shares: (self.owner_shares - shares) as nat,
                        ..self.drawn(amount_a, amount_b)
                    },
                    AmountsView { amount_a: amount_a, amount_b: amount_b },
                ),
            )
        }
    }

    /// The platform's claim of its fees: both accumulators are cleared.
    pub open spec fn owner_claim_fees(self) -> Result<(PairView, AmountsView), DexError> {
        if self.owner_fees_a == 0 && self.owner_fees_b == 0 {
            Err(DexError::NothingToClaim)
        } else {
            Ok(
                (
                    PairView { owner_fees_a: 0, owner_fees_b: 0, ..self },
                    AmountsView { amount_a: self.owner_fees_a, amount_b: self.owner_fees_b },
                ),
            )
        }
    }
}

} // verus!
