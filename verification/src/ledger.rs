//! The mathematical model of one pair's ledger: its reserves, the shares of
//! its holders, the fee-per-share indexes and the pending deposits, as a
//! value of natural numbers and sequences, with the invariant that every
//! operation of the engine keeps.
//!
//! The steps of which the operations are made stand in `transitions`, the
//! operations themselves in `operations`, what they send out in
//! `transfers`, and what the views report in `reports`.

use vstd::prelude::*;
use crate::curve::owed_fee;

mod operations;
mod reports;
mod transfers;
mod transitions;

pub use operations::{
    pair_request_error, AmountsView, FinalizeReceiptView, MintReceiptView, RemoveReceiptView,
};
pub use reports::{first_price, LpInfoView, LpPositionInfoView, PendingInfoView};
pub use transfers::TransferView;

verus! {

/// The identifier of an account.
pub type AccountId = u64;

/// Who holds shares of a pair. The platform and the holders share the
/// reserves, and a fee is split between the two classes by the rule of the
/// class: the platform is credited its portion at once, the holders' portion
/// raises the fee-per-share index.
#[derive(Clone, Copy, Debug, PartialEq, Eq, Structural)]
pub enum ShareClass {
    /// The platform, whose shares are tied to no account.
    Platform,
    /// The account that holds a position.
    Lp(AccountId),
}

/// One holder's position: the shares held and, for each side, the value of
/// the fee-per-share index up to which the holder has been paid.
pub ghost struct LpView {
    pub account: AccountId,
    pub shares: nat,
    pub entry_index_a: nat,
    pub entry_index_b: nat,
}

/// What one account has deposited and not yet matched or withdrawn.
pub ghost struct PendingView {
    pub account: AccountId,
    pub amount_a: nat,
    pub amount_b: nat,
}

/// The ledger of one pair.
pub ghost struct PairView {
    pub id: u64,
    pub token_a: Seq<u8>,
    pub token_b: Seq<u8>,
    pub token_a_is_native: bool,
    pub token_b_is_native: bool,
    pub creator: Option<AccountId>,
    pub reserve_a: nat,
    pub reserve_b: nat,
    pub fee_percent: u64,
    pub active: bool,
    pub owner_shares: nat,
    pub total_lp_shares: nat,
    pub lps: Seq<LpView>,
    pub fee_per_share_a: nat,
    pub fee_per_share_b: nat,
    pub owner_fees_a: nat,
    pub owner_fees_b: nat,
    pub pendings: Seq<PendingView>,
    pub pending_user_count: nat,
}

/// The sum of the shares of all positions.
pub open spec fn sum_shares(lps: Seq<LpView>) -> nat
    decreases lps.len(),
{
    if lps.len() == 0 {
        0
    } else {
        sum_shares(lps.drop_last()) + lps.last().shares
    }
}

/// Whether `account` holds a position.
pub open spec fn has_lp(lps: Seq<LpView>, account: AccountId) -> bool {
    exists|i: int| 0 <= i < lps.len() && #[trigger] lps[i].account == account
}

/// Where the position of `account` stands.
pub open spec fn lp_index(lps: Seq<LpView>, account: AccountId) -> int {
    choose|i: int| 0 <= i < lps.len() && #[trigger] lps[i].account == account
}

/// No account holds two positions.
pub open spec fn lps_distinct(lps: Seq<LpView>) -> bool {
    forall|i: int, j: int|
        0 <= i < j < lps.len() ==> #[trigger] lps[i].account != #[trigger] lps[j].account
}

/// Whether `account` has a pending deposit.
pub open spec fn has_pending(pendings: Seq<PendingView>, account: AccountId) -> bool {
    exists|i: int| 0 <= i < pendings.len() && #[trigger] pendings[i].account == account
}

/// Where the pending deposit of `account` stands.
pub open spec fn pending_index(pendings: Seq<PendingView>, account: AccountId) -> int {
    choose|i: int| 0 <= i < pendings.len() && #[trigger] pendings[i].account == account
}

/// No account has two pending deposits.
pub open spec fn pendings_distinct(pendings: Seq<PendingView>) -> bool {
    forall|i: int, j: int|
        0 <= i < j < pendings.len() ==> #[trigger] pendings[i].account
            != #[trigger] pendings[j].account
}

impl PairView {
    /// The invariant of a ledger.
    pub open spec fn wf(self) -> bool {
        &&& 1 <= self.fee_percent <= 10
        &&& (self.reserve_a == 0 <==> self.reserve_b == 0)
        &&& lps_distinct(self.lps)
        &&& forall|i: int| 0 <= i < self.lps.len() ==> (#[trigger] self.lps[i]).shares > 0
        &&& sum_shares(self.lps) == self.total_lp_shares
        &&& forall|i: int|
            0 <= i < self.lps.len() ==> (#[trigger] self.lps[i]).entry_index_a
                <= self.fee_per_share_a
        &&& forall|i: int|
            0 <= i < self.lps.len() ==> (#[trigger] self.lps[i]).entry_index_b
                <= self.fee_per_share_b
        &&& pendings_distinct(self.pendings)
        &&& forall|i: int|
            0 <= i < self.pendings.len() ==> (#[trigger] self.pendings[i]).amount_a > 0
                || self.pendings[i].amount_b > 0
        &&& self.pending_user_count == self.pendings.len()
    }

    /// All shares, the platform's and the holders'.
    pub open spec fn total_shares(self) -> nat {
        self.owner_shares + self.total_lp_shares
    }

    /// Whether `account` holds shares.
    pub open spec fn is_lp(self, account: AccountId) -> bool {
        has_lp(self.lps, account)
    }

    /// The position of `account`, which holds shares.
    pub open spec fn position(self, account: AccountId) -> LpView {
        self.lps[lp_index(self.lps, account)]
    }

    /// The shares of `account`, zero where it holds none.
    pub open spec fn shares_of(self, account: AccountId) -> nat {
        if self.is_lp(account) {
            self.position(account).shares
        } else {
            0
        }
    }

    /// The shares of a class: the platform's, or those of the account.
    pub open spec fn class_shares(self, class: ShareClass) -> nat {
        match class {
            ShareClass::Platform => self.owner_shares,
            ShareClass::Lp(account) => self.shares_of(account),
        }
    }

    /// The fee in asset A that `account` is owed and has not been paid.
    pub open spec fn owed_a(self, account: AccountId) -> nat {
        if self.is_lp(account) {
            owed_fee(
                self.fee_per_share_a,
                self.position(account).entry_index_a,
                self.position(account).shares,
            )
        } else {
            0
        }
    }

    /// The fee in asset B that `account` is owed and has not been paid.
    pub open spec fn owed_b(self, account: AccountId) -> nat {
        if self.is_lp(account) {
            owed_fee(
                self.fee_per_share_b,
                self.position(account).entry_index_b,
                self.position(account).shares,
            )
        } else {
            0
        }
    }

    /// The pending amount of asset A of `account`.
    pub open spec fn pending_a_of(self, account: AccountId) -> nat {
        if has_pending(self.pendings, account) {
            self.pendings[pending_index(self.pendings, account)].amount_a
        } else {
            0
        }
    }

    /// The pending amount of asset B of `account`.
    pub open spec fn pending_b_of(self, account: AccountId) -> nat {
        if has_pending(self.pendings, account) {
            self.pendings[pending_index(self.pendings, account)].amount_b
        } else {
            0
        }
    }
}

/// In a sequence without doubles, the position of an account is the one
/// place where it stands.
pub proof fn lemma_lp_index(lps: Seq<LpView>, account: AccountId, i: int)
    requires
        lps_distinct(lps),
        0 <= i < lps.len(),
        lps[i].account == account,
    ensures
        has_lp(lps, account),
        lp_index(lps, account) == i,
{
    let j = lp_index(lps, account);
    assert(0 <= j < lps.len() && lps[j].account == account);
    if j < i {
        assert(lps[j].account != lps[i].account);
    }
    if i < j {
        assert(lps[i].account != lps[j].account);
    }
}

/// In a sequence without doubles, the pending deposit of an account is the
/// one place where it stands.
pub proof fn lemma_pending_index(pendings: Seq<PendingView>, account: AccountId, i: int)
    requires
        pendings_distinct(pendings),
        0 <= i < pendings.len(),
        pendings[i].account == account,
    ensures
        has_pending(pendings, account),
        pending_index(pendings, account) == i,
{
    let j = pending_index(pendings, account);
    assert(0 <= j < pendings.len() && pendings[j].account == account);
    if j < i {
        assert(pendings[j].account != pendings[i].account);
    }
    if i < j {
        assert(pendings[i].account != pendings[j].account);
    }
}

/// A position put last adds its shares to the sum.
pub proof fn lemma_sum_push(lps: Seq<LpView>, x: LpView)
    ensures
        sum_shares(lps.push(x)) == sum_shares(lps) + x.shares,
{
    assert(lps.push(x).drop_last() =~= lps);
}

/// A position replaced changes the sum by the difference of the shares.
pub proof fn lemma_sum_update(lps: Seq<LpView>, i: int, x: LpView)
    requires
        0 <= i < lps.len(),
    ensures
        sum_shares(lps.update(i, x)) + lps[i].shares == sum_shares(lps) + x.shares,
    decreases lps.len(),
{
    if i == lps.len() - 1 {
        assert(lps.update(i, x).drop_last() =~= lps.drop_last());
    } else {
        lemma_sum_update(lps.drop_last(), i, x);
        assert(lps.update(i, x).drop_last() =~= lps.drop_last().update(i, x));
    }
}

/// A position taken out takes its shares from the sum.
pub proof fn lemma_sum_remove(lps: Seq<LpView>, i: int)
    requires
        0 <= i < lps.len(),
    ensures
        sum_shares(lps.remove(i)) + lps[i].shares == sum_shares(lps),
    decreases lps.len(),
{
    if i == lps.len() - 1 {
        assert(lps.remove(i) =~= lps.drop_last());
    } else {
        lemma_sum_remove(lps.drop_last(), i);
        assert(lps.remove(i).drop_last() =~= lps.drop_last().remove(i));
        assert(lps.remove(i).last() == lps.last());
    }
}

/// No position holds more than all positions together.
pub proof fn lemma_sum_bound(lps: Seq<LpView>, i: int)
    requires
        0 <= i < lps.len(),
    ensures
        lps[i].shares <= sum_shares(lps),
    decreases lps.len(),
{
    if i < lps.len() - 1 {
        lemma_sum_bound(lps.drop_last(), i);
    }
}

} // verus!
