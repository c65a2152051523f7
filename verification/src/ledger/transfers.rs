//! What an operation sends out: which amounts of which asset go to which
//! account, and in which order.

use vstd::prelude::*;
use crate::curve::SwapQuoteView;
use crate::ledger::{AccountId, FinalizeReceiptView, MintReceiptView, PairView, RemoveReceiptView};

verus! {

/// An amount of an asset that is to be sent to an account.
pub ghost struct TransferView {
    pub to: AccountId,
    pub token: Seq<u8>,
    pub is_native: bool,
    pub amount: nat,
}

impl PairView {
    /// The transfers that send an amount of each asset of the pair to an
    /// account: asset A first, and none of an amount of zero.
    pub open spec fn transfers(self, to: AccountId, amount_a: nat, amount_b: nat) -> Seq<
        TransferView,
    > {
        let of_a = if amount_a > 0 {
            seq![
                TransferView {
                    to: to,
                    token: self.token_a,
                    is_native: self.token_a_is_native,
                    amount: amount_a,
                },
            ]
        } else {
            Seq::empty()
        };
        let of_b = if amount_b > 0 {
            seq![
                TransferView {
                    to: to,
                    token: self.token_b,
                    is_native: self.token_b_is_native,
                    amount: amount_b,
                },
            ]
        } else {
            Seq::empty()
        };
        of_a + of_b
    }

    /// What a swap sends out: to the caller, what is left of the raw
    /// output after the fee, in the asset of the output side.
    pub open spec fn swap_transfers(self, caller: AccountId, a_to_b: bool, quote: SwapQuoteView)
        -> Seq<TransferView> {
        if a_to_b {
            self.transfers(caller, 0, quote.user_amount)
        } else {
            self.transfers(caller, quote.user_amount, 0)
        }
    }

    /// What a mint sends out: to the caller, first the fees it was owed,
    /// then what was not used of its deposit.
    pub open spec fn mint_transfers(self, caller: AccountId, receipt: MintReceiptView) -> Seq<
        TransferView,
    > {
        self.transfers(caller, receipt.fees_a, receipt.fees_b) + self.transfers(
            caller,
            receipt.refund_a,
            receipt.refund_b,
        )
    }

    /// What the matching of a pending deposit sends out: to the caller, the
    /// fees it was owed.
    pub open spec fn finalize_transfers(self, caller: AccountId, receipt: FinalizeReceiptView)
        -> Seq<TransferView> {
        self.transfers(caller, receipt.fees_a, receipt.fees_b)
    }

    /// What a holder's burn sends out: to the caller, first the fees it
    /// was owed, then its part of the reserves.
    pub open spec fn remove_transfers(self, caller: AccountId, receipt: RemoveReceiptView) -> Seq<
        TransferView,
    > {
        self.transfers(caller, receipt.fees_a, receipt.fees_b) + self.transfers(
            caller,
            receipt.amount_a,
            receipt.amount_b,
        )
    }
}

} // verus!
