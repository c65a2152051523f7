//! The model of the registry, and what each operation makes of it.

use vstd::prelude::*;
use crate::curve::SwapQuoteView;
use crate::error::DexError;
use crate::ledger::{
    AccountId, AmountsView, FinalizeReceiptView, MintReceiptView, pair_request_error, PairView,
    RemoveReceiptView,
};
use crate::payment::{dual_payment, PaymentView};

verus! {

/// The model of the registry.
pub ghost struct DexView {
    pub admin: AccountId,
    pub next_pair_id: u64,
    pub pairs: Seq<PairView>,
}

impl DexView {
    /// The invariant of the registry: every pair keeps its own invariant,
    /// no identifier is used twice, and every identifier in use is below
    /// the next one to be given out, which is at least one.
    pub open spec fn wf(self) -> bool {
        &&& self.next_pair_id >= 1
        &&& forall|i: int| 0 <= i < self.pairs.len() ==> (#[trigger] self.pairs[i]).wf()
        &&& forall|i: int|
            0 <= i < self.pairs.len() ==> (#[trigger] self.pairs[i]).id < self.next_pair_id
        &&& forall|i: int, j: int|
            0 <= i < j < self.pairs.len() ==> (#[trigger] self.pairs[i]).id
                != (#[trigger] self.pairs[j]).id
    }

    /// Whether a pair has the identifier.
    pub open spec fn has_pair(self, pair_id: u64) -> bool {
        exists|i: int| 0 <= i < self.pairs.len() && (#[trigger] self.pairs[i]).id == pair_id
    }

    /// Where the pair with the identifier stands.
    pub open spec fn pair_index(self, pair_id: u64) -> int {
        choose|i: int| 0 <= i < self.pairs.len() && (#[trigger] self.pairs[i]).id == pair_id
    }

    /// The pair with the identifier.
    pub open spec fn pair(self, pair_id: u64) -> PairView {
        self.pairs[self.pair_index(pair_id)]
    }

    /// The registry with the pair of the identifier replaced.
    pub open spec fn with_pair(self, pair_id: u64, pair: PairView) -> DexView {
        DexView { pairs: self.pairs.update(self.pair_index(pair_id), pair), ..self }
    }

    /// What an operation on one pair makes of the registry: the pair is
    /// replaced by the one that the operation leaves, and a pair that does
    /// not exist is `PairNotFound`.
    pub open spec fn on_pair<R>(self, pair_id: u64, outcome: Result<(PairView, R), DexError>)
        -> Result<(DexView, R), DexError> {
        if !self.has_pair(pair_id) {
            Err(DexError::PairNotFound)
        } else {
            match outcome {
                Ok((pair, receipt)) => Ok((self.with_pair(pair_id, pair), receipt)),
                Err(e) => Err(e),
            }
        }
    }

    /// What an operation of the administrator on one pair makes of the
    /// registry. Any other caller is `Unauthorized`.
    pub open spec fn on_pair_as_admin<R>(
        self,
        caller: AccountId,
        pair_id: u64,
        outcome: Result<(PairView, R), DexError>,
    ) -> Result<(DexView, R), DexError> {
        if caller != self.admin {
            Err(DexError::Unauthorized)
        } else {
            self.on_pair(pair_id, outcome)
        }
    }
}

/// Whether a payment is of the asset of one side of a pair: the native
/// coin (`None`) for a side that is native, the side's token otherwise.
pub open spec fn side_accepts(pair: PairView, side_a: bool, token: Option<Seq<u8>>) -> bool {
    let native = if side_a {
        pair.token_a_is_native
    } else {
        pair.token_b_is_native
    };
    let side_token = if side_a {
        pair.token_a
    } else {
        pair.token_b
    };
    match token {
        None => native,
        Some(t) => !native && t == side_token,
    }
}

/// The account that counts as the creator of a pair: the one on record,
/// or the administrator where none is.
pub open spec fn creator_or_admin(pair: PairView, admin: AccountId) -> AccountId {
    match pair.creator {
        Some(creator) => creator,
        None => admin,
    }
}

/// The identifiers of the pairs of which `creator` counts as the creator,
/// in the order of the registry.
pub open spec fn ids_by_creator(pairs: Seq<PairView>, admin: AccountId, creator: AccountId) -> Seq<
    u64,
>
    decreases pairs.len(),
{
    if pairs.len() == 0 {
        Seq::empty()
    } else if creator_or_admin(pairs.last(), admin) == creator {
        ids_by_creator(pairs.drop_last(), admin, creator).push(pairs.last().id)
    } else {
        ids_by_creator(pairs.drop_last(), admin, creator)
    }
}

/// The identifiers of the pairs that trade the two tokens, in either
/// order of sides, in the order of the registry.
pub open spec fn ids_by_tokens(pairs: Seq<PairView>, token_a: Seq<u8>, token_b: Seq<u8>) -> Seq<
    u64,
>
    decreases pairs.len(),
{
    if pairs.len() == 0 {
        Seq::empty()
    } else if (pairs.last().token_a == token_a && pairs.last().token_b == token_b) || (
    pairs.last().token_a == token_b && pairs.last().token_b == token_a) {
        ids_by_tokens(pairs.drop_last(), token_a, token_b).push(pairs.last().id)
    } else {
        ids_by_tokens(pairs.drop_last(), token_a, token_b)
    }
}

impl DexView {
    /// The creation of a pair: it gets the next identifier and stands last
    /// in the registry.
    pub open spec fn create_pair(
        self,
        caller: AccountId,
        token_a: Seq<u8>,
        token_b: Seq<u8>,
        token_a_is_native: bool,
        token_b_is_native: bool,
        fee_percent: u64,
    ) -> Result<(DexView, u64), DexError> {
        match pair_request_error(
            token_a,
            token_b,
            token_a_is_native,
            token_b_is_native,
            fee_percent,
        ) {
            Some(e) => Err(e),
            None => Ok(
                (
                    DexView {
                        next_pair_id: (self.next_pair_id + 1) as u64,
                        pairs: self.pairs.push(
                            PairView::fresh(
                                self.next_pair_id,
                                token_a,
                                token_b,
                                token_a_is_native,
                                token_b_is_native,
                                fee_percent,
                                Some(caller),
                            ),
                        ),
                        ..self
                    },
                    self.next_pair_id,
                ),
            ),
        }
    }

    /// The deletion of a pair by its creator or the administrator, once
    /// nothing is left in it.
    pub open spec fn delete_pair(self, caller: AccountId, pair_id: u64) -> Result<
        DexView,
        DexError,
    > {
        if !self.has_pair(pair_id) {
            Err(DexError::PairNotFound)
        } else if caller != creator_or_admin(self.pair(pair_id), self.admin) && caller
            != self.admin {
            Err(DexError::Unauthorized)
        } else if !self.pair(pair_id).is_drained() {
            Err(DexError::PairNotEmpty)
        } else {
            Ok(DexView { pairs: self.pairs.remove(self.pair_index(pair_id)), ..self })
        }
    }

    /// The administrator's switching of a pair.
    pub open spec fn set_pair_active(self, caller: AccountId, pair_id: u64, is_active: bool)
        -> Result<(DexView, ()), DexError> {
        self.on_pair_as_admin(
            caller,
            pair_id,
            Ok((PairView { active: is_active, ..self.pair(pair_id) }, ())),
        )
    }

    /// The administrator's setting of a pair's fee rate.
    pub open spec fn set_pair_fee(self, caller: AccountId, pair_id: u64, fee_percent: u64)
        -> Result<(DexView, ()), DexError> {
        self.on_pair_as_admin(
            caller,
            pair_id,
            if 1 <= fee_percent <= 10 {
                Ok((PairView { fee_percent: fee_percent, ..self.pair(pair_id) }, ()))
            } else {
                Err(DexError::InvalidFee)
            },
        )
    }

    /// The administrator's change of the token of one side of a pair whose
    /// reserve of that side is zero.
    pub open spec fn update_pair_token(
        self,
        caller: AccountId,
        pair_id: u64,
        side_a: bool,
        new_token: Seq<u8>,
        is_native: bool,
    ) -> Result<(DexView, ()), DexError> {
        let pair = self.pair(pair_id);
        self.on_pair_as_admin(
            caller,
            pair_id,
            if side_a {
                if pair.reserve_a > 0 {
                    Err(DexError::PairNotEmpty)
                } else {
                    Ok((PairView { token_a: new_token, token_a_is_native: is_native, ..pair }, ()))
                }
            } else {
                if pair.reserve_b > 0 {
                    Err(DexError::PairNotEmpty)
                } else {
                    Ok((PairView { token_b: new_token, token_b_is_native: is_native, ..pair }, ()))
                }
            },
        )
    }

    /// A swap on a pair, paid with the native coin (`None`) or a token. The
    /// payment has to be of the asset of the input side.
    pub open spec fn swap(
        self,
        pair_id: u64,
        a_to_b: bool,
        token: Option<Seq<u8>>,
        payment: nat,
        min_output: nat,
    ) -> Result<(DexView, SwapQuoteView), DexError> {
        let pair = self.pair(pair_id);
        self.on_pair(
            pair_id,
            if !pair.active {
                Err(DexError::PairInactive)
            } else if !side_accepts(pair, a_to_b, token) {
                Err(DexError::InvalidAmount)
            } else {
                pair.swap(a_to_b, payment, min_output)
            },
        )
    }

    /// A mint on a pair with what a call brought: the native amount and
    /// the token payments.
    pub open spec fn mint(
        self,
        pair_id: u64,
        caller: AccountId,
        native_amount: nat,
        payments: Seq<PaymentView>,
        min_lp_shares: nat,
    ) -> Result<(DexView, MintReceiptView), DexError> {
        let pair = self.pair(pair_id);
        let sent = dual_payment(
            pair.token_a,
            pair.token_b,
            pair.token_a_is_native,
            pair.token_b_is_native,
            native_amount,
            payments,
        );
        self.on_pair(pair_id, pair.mint(caller, sent.amount_a, sent.amount_b, min_lp_shares))
    }

    /// A deposit into a caller's pending balance of one side, paid with the
    /// native coin (`None`) or a token.
    pub open spec fn deposit_pending(
        self,
        pair_id: u64,
        caller: AccountId,
        side_a: bool,
        token: Option<Seq<u8>>,
        amount: nat,
    ) -> Result<(DexView, ()), DexError> {
        let pair = self.pair(pair_id);
        self.on_pair(
            pair_id,
            if !side_accepts(pair, side_a, token) {
                Err(DexError::InvalidAmount)
            } else {
                match pair.deposit_pending(caller, amount, side_a) {
                    Ok(after) => Ok((after, ())),
                    Err(e) => Err(e),
                }
            },
        )
    }

    /// The matching of a caller's pending balances on a pair.
    pub open spec fn finalize_liquidity(self, pair_id: u64, caller: AccountId, min_shares: nat)
        -> Result<(DexView, FinalizeReceiptView), DexError> {
        self.on_pair(pair_id, self.pair(pair_id).finalize_liquidity(caller, min_shares))
    }

    /// The withdrawal of a caller's pending balance of one side of a pair.
    pub open spec fn withdraw_pending(self, pair_id: u64, caller: AccountId, side_a: bool)
        -> Result<(DexView, nat), DexError> {
        self.on_pair(pair_id, self.pair(pair_id).withdraw_pending(caller, side_a))
    }

    /// The withdrawal of both pending balances of a caller on a pair.
    pub open spec fn withdraw_pending_all(self, pair_id: u64, caller: AccountId) -> Result<
        (DexView, AmountsView),
        DexError,
    > {
        self.on_pair(pair_id, self.pair(pair_id).withdraw_pending_all(caller))
    }

    /// A holder's burn of shares of a pair.
    pub open spec fn remove_liquidity(self, pair_id: u64, caller: AccountId, shares: nat)
        -> Result<(DexView, RemoveReceiptView), DexError> {
        self.on_pair(pair_id, self.pair(pair_id).remove_liquidity(caller, shares))
    }

    /// A holder's claim of the fees it is owed on a pair.
    pub open spec fn claim_lp_fees(self, pair_id: u64, caller: AccountId) -> Result<
        (DexView, AmountsView),
        DexError,
    > {
        self.on_pair(pair_id, self.pair(pair_id).claim_lp_fees(caller))
    }

    /// The platform's deposit into a pair with what a call brought.
    pub open spec fn owner_initialize_liquidity(
        self,
        caller: AccountId,
        pair_id: u64,
        native_amount: nat,
        payments: Seq<PaymentView>,
    ) -> Result<(DexView, ()), DexError> {
        let pair = self.pair(pair_id);
        let sent = dual_payment(
            pair.token_a,
            pair.token_b,
            pair.token_a_is_native,
            pair.token_b_is_native,
            native_amount,
            payments,
        );
        self.on_pair_as_admin(
            caller,
            pair_id,
            match pair.owner_initialize_liquidity(sent.amount_a, sent.amount_b) {
                Ok(after) => Ok((after, ())),
                Err(e) => Err(e),
            },
        )
    }

    /// The administrator's burn of the platform's shares of a pair.
    pub open spec fn owner_remove_liquidity(self, caller: AccountId, pair_id: u64, shares: nat)
        -> Result<(DexView, AmountsView), DexError> {
        self.on_pair_as_admin(
            caller,
            pair_id,
            self.pair(pair_id).owner_remove_liquidity(shares),
        )
    }

    /// The administrator's claim of the platform's fees of a pair.
    pub open spec fn owner_claim_fees(self, caller: AccountId, pair_id: u64) -> Result<
        (DexView, AmountsView),
        DexError,
    > {
        self.on_pair_as_admin(caller, pair_id, self.pair(pair_id).owner_claim_fees())
    }
}

} // verus!
