//! What an operation sends out, for a host to send.

use vstd::prelude::*;
use crate::bignat::BigNat;
use crate::curve::SwapQuote;
use crate::ledger::{AccountId, TransferView};
use crate::pair::{FinalizeReceipt, MintReceipt, Pair, RemoveReceipt};

verus! {

/// An amount of an asset that is to be sent to an account.
#[derive(Debug)]
pub struct Transfer {
    /// The account that receives.
    pub to: AccountId,
    /// The token of the asset.
    pub token: Vec<u8>,
    /// Whether the asset is the native coin.
    pub is_native: bool,
    /// The amount, which is not zero.
    pub amount: BigNat,
}

impl View for Transfer {
    type V = TransferView;

    open spec fn view(&self) -> TransferView {
        TransferView {
            to: self.to,
            token: self.token@,
            is_native: self.is_native,
            amount: self.amount@,
        }
    }
}

/// The transfers as the model sees them.
pub open spec fn transfer_views(s: Seq<Transfer>) -> Seq<TransferView> {
    Seq::new(s.len(), |i: int| s[i]@)
}

impl Pair {
    /// Adds to `out` the transfers that send an amount of each asset of the
    /// pair to an account.
    fn push_transfers(
        &self,
        out: &mut Vec<Transfer>,
        to: AccountId,
        amount_a: &BigNat,
        amount_b: &BigNat,
    )
        ensures
            transfer_views(final(out)@) == transfer_views(old(out)@) + self@.transfers(
                to,
                amount_a@,
                amount_b@,
            ),
    {
        if !amount_a.is_zero() {
            out.push(
                Transfer {
                    to,
                    token: self.token_a.clone(),
                    is_native: self.token_a_is_native,
                    amount: amount_a.clone(),
                },
            );
        }
        if !amount_b.is_zero() {
            out.push(
                Transfer {
                    to,
                    token: self.token_b.clone(),
                    is_native: self.token_b_is_native,
                    amount: amount_b.clone(),
                },
            );
        }
        proof {
            assert(transfer_views(out@) =~= transfer_views(old(out)@) + self@.transfers(
                to,
                amount_a@,
                amount_b@,
            ));
        }
    }

    /// The transfers that send an amount of each asset of the pair to an
    /// account: asset A first, and none of an amount of zero.
    pub fn transfers(&self, to: AccountId, amount_a: &BigNat, amount_b: &BigNat) -> (r: Vec<
        Transfer,
    >)
        ensures
            transfer_views(r@) == self@.transfers(to, amount_a@, amount_b@),
    {
        let mut out: Vec<Transfer> = Vec::new();
        self.push_transfers(&mut out, to, amount_a, amount_b);
        proof {
            assert(transfer_views(Seq::<Transfer>::empty()) =~= Seq::<TransferView>::empty());
            assert(Seq::<TransferView>::empty() + self@.transfers(to, amount_a@, amount_b@)
                =~= self@.transfers(to, amount_a@, amount_b@));
        }
        out
    }

    /// What a swap sends out.
    pub fn swap_transfers(&self, caller: AccountId, a_to_b: bool, quote: &SwapQuote) -> (r: Vec<
        Transfer,
    >)
        ensures
            transfer_views(r@) == self@.swap_transfers(caller, a_to_b, quote@),
    {
        if a_to_b {
            self.transfers(caller, &BigNat::zero(), &quote.user_amount)
        } else {
            self.transfers(caller, &quote.user_amount, &BigNat::zero())
        }
    }

    /// What a mint sends out.
    pub fn mint_transfers(&self, caller: AccountId, receipt: &MintReceipt) -> (r: Vec<Transfer>)
        ensures
            transfer_views(r@) == self@.mint_transfers(caller, receipt@),
    {
        let mut out: Vec<Transfer> = self.transfers(caller, &receipt.fees_a, &receipt.fees_b);
        self.push_transfers(&mut out, caller, &receipt.refund_a, &receipt.refund_b);
        out
    }

    /// What the matching of a pending deposit sends out.
    pub fn finalize_transfers(&self, caller: AccountId, receipt: &FinalizeReceipt) -> (r: Vec<
        Transfer,
    >)
        ensures
            transfer_views(r@) == self@.finalize_transfers(caller, receipt@),
    {
        self.transfers(caller, &receipt.fees_a, &receipt.fees_b)
    }

    /// What a holder's burn sends out.
    pub fn remove_transfers(&self, caller: AccountId, receipt: &RemoveReceipt) -> (r: Vec<
        Transfer,
    >)
        ensures
            transfer_views(r@) == self@.remove_transfers(caller, receipt@),
    {
        let mut out: Vec<Transfer> = self.transfers(caller, &receipt.fees_a, &receipt.fees_b);
        self.push_transfers(&mut out, caller, &receipt.amount_a, &receipt.amount_b);
        out
    }
}

} // verus!
