//! What the operations and views of a pair hand out.

use vstd::prelude::*;
use crate::bignat::BigNat;
use crate::ledger::{
    AccountId, FinalizeReceiptView, LpInfoView, LpPositionInfoView, MintReceiptView,
    PendingInfoView, RemoveReceiptView,
};

verus! {

/// What a mint did.
#[derive(Debug)]
pub struct MintReceipt {
    /// The shares minted to the caller.
    pub shares: BigNat,
    /// The amount of asset A that went into the reserve.
    pub used_a: BigNat,
    /// The amount of asset B that went into the reserve.
    pub used_b: BigNat,
    /// The amount of asset A to send back.
    pub refund_a: BigNat,
    /// The amount of asset B to send back.
    pub refund_b: BigNat,
    /// The fee in asset A that the caller was owed and is to be sent.
    pub fees_a: BigNat,
    /// The fee in asset B that the caller was owed and is to be sent.
    pub fees_b: BigNat,
}

impl View for MintReceipt {
    type V = MintReceiptView;

    open spec fn view(&self) -> MintReceiptView {
        MintReceiptView {
            shares: self.shares@,
            used_a: self.used_a@,
            used_b: self.used_b@,
            refund_a: self.refund_a@,
            refund_b: self.refund_b@,
            fees_a: self.fees_a@,
            fees_b: self.fees_b@,
        }
    }
}

/// What the matching of a pending deposit did.
#[derive(Debug)]
pub struct FinalizeReceipt {
    /// The shares minted to the caller.
    pub shares: BigNat,
    /// The amount of asset A that went from pending into the reserve.
    pub used_a: BigNat,
    /// The amount of asset B that went from pending into the reserve.
    pub used_b: BigNat,
    /// The fee in asset A that the caller was owed and is to be sent.
    pub fees_a: BigNat,
    /// The fee in asset B that the caller was owed and is to be sent.
    pub fees_b: BigNat,
}

impl View for FinalizeReceipt {
    type V = FinalizeReceiptView;

    open spec fn view(&self) -> FinalizeReceiptView {
        FinalizeReceiptView {
            shares: self.shares@,
            used_a: self.used_a@,
            used_b: self.used_b@,
            fees_a: self.fees_a@,
            fees_b: self.fees_b@,
        }
    }
}

/// What a holder's burn paid out.
#[derive(Debug)]
pub struct RemoveReceipt {
    /// The caller's part of the reserve of asset A.
    pub amount_a: BigNat,
    /// The caller's part of the reserve of asset B.
    pub amount_b: BigNat,
    /// The fee in asset A that the caller was owed and is to be sent.
    pub fees_a: BigNat,
    /// The fee in asset B that the caller was owed and is to be sent.
    pub fees_b: BigNat,
}

impl View for RemoveReceipt {
    type V = RemoveReceiptView;

    open spec fn view(&self) -> RemoveReceiptView {
        RemoveReceiptView {
            amount_a: self.amount_a@,
            amount_b: self.amount_b@,
            fees_a: self.fees_a@,
            fees_b: self.fees_b@,
        }
    }
}

/// A holder, its shares and the fees it is owed.
#[derive(Debug)]
pub struct LpInfo {
    pub account: AccountId,
    pub shares: BigNat,
    pub fees_a: BigNat,
    pub fees_b: BigNat,
}

impl View for LpInfo {
    type V = LpInfoView;

    open spec fn view(&self) -> LpInfoView {
        LpInfoView {
            account: self.account,
            shares: self.shares@,
            fees_a: self.fees_a@,
            fees_b: self.fees_b@,
        }
    }
}

/// A holder's shares, the fees it is owed, and its part of the pool.
#[derive(Debug)]
pub struct LpPositionInfo {
    pub shares: BigNat,
    pub fees_a: BigNat,
    pub fees_b: BigNat,
    pub pool_share: BigNat,
}

impl View for LpPositionInfo {
    type V = LpPositionInfoView;

    open spec fn view(&self) -> LpPositionInfoView {
        LpPositionInfoView {
            shares: self.shares@,
            fees_a: self.fees_a@,
            fees_b: self.fees_b@,
            pool_share: self.pool_share@,
        }
    }
}

/// An account's pending balances and what matching them now would give.
#[derive(Debug)]
pub struct PendingInfo {
    pub pending_a: BigNat,
    pub pending_b: BigNat,
    pub estimated_shares: BigNat,
    pub estimated_excess_b: BigNat,
}

impl View for PendingInfo {
    type V = PendingInfoView;

    open spec fn view(&self) -> PendingInfoView {
        PendingInfoView {
            pending_a: self.pending_a@,
            pending_b: self.pending_b@,
            estimated_shares: self.estimated_shares@,
            estimated_excess_b: self.estimated_excess_b@,
        }
    }
}

/// What a pair is configured with, and its reserves.
#[derive(Debug)]
pub struct PairInfo {
    pub token_a: Vec<u8>,
    pub token_b: Vec<u8>,
    pub token_a_is_native: bool,
    pub token_b_is_native: bool,
    pub reserve_a: BigNat,
    pub reserve_b: BigNat,
    pub fee_percent: u64,
    pub active: bool,
    pub creator: Option<AccountId>,
}

} // verus!
