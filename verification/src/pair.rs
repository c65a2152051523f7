//! One trading pair: its ledger in executable form, and the operations that
//! change it. Every operation states, over the model of the ledger, the
//! state it leaves and what it hands out, and keeps the ledger's invariant.
//! An operation that is refused leaves the ledger as it was.

use vstd::prelude::*;
use crate::bignat::BigNat;
use crate::error::DexError;
use crate::ledger::{
    AccountId, AmountsView, has_pending, lemma_lp_index, lemma_pending_index, lp_index, LpView,
    pair_request_error, PairView, pending_index, PendingView,
};
use crate::payment::{is_native_token_name, same_bytes};

mod liquidity;
mod parts;
mod pending;
mod receipts;
mod settings;
mod shares;
mod swap;
mod transfers;

pub use liquidity::preview_first_price;
pub use parts::PairParts;
pub use transfers::{transfer_views, Transfer};
pub use receipts::{
    FinalizeReceipt, LpInfo, LpPositionInfo, MintReceipt, PairInfo, PendingInfo, RemoveReceipt,
};

verus! {

/// One holder's position.
#[derive(Debug)]
pub struct LpPosition {
    pub account: AccountId,
    pub shares: BigNat,
    pub entry_index_a: BigNat,
    pub entry_index_b: BigNat,
}

impl View for LpPosition {
    type V = LpView;

    open spec fn view(&self) -> LpView {
        LpView {
            account: self.account,
            shares: self.shares@,
            entry_index_a: self.entry_index_a@,
            entry_index_b: self.entry_index_b@,
        }
    }
}

/// What one account has deposited and not yet matched or withdrawn.
#[derive(Debug)]
pub struct PendingDeposit {
    pub account: AccountId,
    pub amount_a: BigNat,
    pub amount_b: BigNat,
}

impl View for PendingDeposit {
    type V = PendingView;

    open spec fn view(&self) -> PendingView {
        PendingView { account: self.account, amount_a: self.amount_a@, amount_b: self.amount_b@ }
    }
}

/// The positions as the model sees them.
pub open spec fn lp_views(s: Seq<LpPosition>) -> Seq<LpView> {
    Seq::new(s.len(), |i: int| s[i]@)
}

/// The pending deposits as the model sees them.
pub open spec fn pending_views(s: Seq<PendingDeposit>) -> Seq<PendingView> {
    Seq::new(s.len(), |i: int| s[i]@)
}

/// Two amounts, one of each asset of a pair.
#[derive(Debug)]
pub struct Amounts {
    pub amount_a: BigNat,
    pub amount_b: BigNat,
}

impl View for Amounts {
    type V = AmountsView;

    open spec fn view(&self) -> AmountsView {
        AmountsView { amount_a: self.amount_a@, amount_b: self.amount_b@ }
    }
}

/// One trading pair.
#[derive(Debug)]
pub struct Pair {
    id: u64,
    token_a: Vec<u8>,
    token_b: Vec<u8>,
    token_a_is_native: bool,
    token_b_is_native: bool,
    creator: Option<AccountId>,
    reserve_a: BigNat,
    reserve_b: BigNat,
    fee_percent: u64,
    active: bool,
    owner_shares: BigNat,
    total_lp_shares: BigNat,
    lps: Vec<LpPosition>,
    fee_per_share_a: BigNat,
    fee_per_share_b: BigNat,
    owner_fees_a: BigNat,
    owner_fees_b: BigNat,
    pendings: Vec<PendingDeposit>,
    pending_user_count: u64,
}

impl View for Pair {
    type V = PairView;

    closed spec fn view(&self) -> PairView {
        PairView {
            id: self.id,
            token_a: self.token_a@,
            token_b: self.token_b@,
            token_a_is_native: self.token_a_is_native,
            token_b_is_native: self.token_b_is_native,
            creator: self.creator,
            reserve_a: self.reserve_a@,
            reserve_b: self.reserve_b@,
            fee_percent: self.fee_percent,
            active: self.active,
            owner_shares: self.owner_shares@,
            total_lp_shares: self.total_lp_shares@,
            lps: lp_views(self.lps@),
            fee_per_share_a: self.fee_per_share_a@,
            fee_per_share_b: self.fee_per_share_b@,
            owner_fees_a: self.owner_fees_a@,
            owner_fees_b: self.owner_fees_b@,
            pendings: pending_views(self.pendings@),
            pending_user_count: self.pending_user_count as nat,
        }
    }
}

impl Pair {
    /// The invariant of the pair: that of its ledger.
    pub open spec fn wf(&self) -> bool {
        self@.wf()
    }

    /// A new pair, active and empty, or what is wrong with the request.
    pub fn new(
        id: u64,
        token_a: Vec<u8>,
        token_b: Vec<u8>,
        token_a_is_native: bool,
        token_b_is_native: bool,
        fee_percent: u64,
        creator: Option<AccountId>,
    ) -> (r: Result<Pair, DexError>)
        ensures
            match r {
                Ok(pair) => pair.wf() && pair_request_error(
                    token_a@,
                    token_b@,
                    token_a_is_native,
                    token_b_is_native,
                    fee_percent,
                ) is None && pair@ == PairView::fresh(
                    id,
                    token_a@,
                    token_b@,
                    token_a_is_native,
                    token_b_is_native,
                    fee_percent,
                    creator,
                ),
                Err(e) => pair_request_error(
                    token_a@,
                    token_b@,
                    token_a_is_native,
                    token_b_is_native,
                    fee_percent,
                ) == Some(e),
            },
    {
        if same_bytes(&token_a, &token_b) {
            return Err(DexError::InvalidAssets);
        }
        if fee_percent < 1 || fee_percent > 10 {
            return Err(DexError::InvalidFee);
        }
        if token_a_is_native && token_b_is_native {
            return Err(DexError::InvalidAssets);
        }
        if !token_a_is_native && is_native_token_name(&token_a) {
            return Err(DexError::InvalidAssets);
        }
        if !token_b_is_native && is_native_token_name(&token_b) {
            return Err(DexError::InvalidAssets);
        }
        let pair = Pair {
            id,
            token_a,
            token_b,
            token_a_is_native,
            token_b_is_native,
            creator,
            reserve_a: BigNat::zero(),
            reserve_b: BigNat::zero(),
            fee_percent,
            active: true,
            owner_shares: BigNat::zero(),
            total_lp_shares: BigNat::zero(),
            lps: Vec::new(),
            fee_per_share_a: BigNat::zero(),
            fee_per_share_b: BigNat::zero(),
            owner_fees_a: BigNat::zero(),
            owner_fees_b: BigNat::zero(),
            pendings: Vec::new(),
            pending_user_count: 0,
        };
        proof {
            assert(pair@.lps =~= Seq::<LpView>::empty());
            assert(pair@.pendings =~= Seq::<PendingView>::empty());
        }
        Ok(pair)
    }

    /// The identifier of the pair.
    pub fn id(&self) -> (r: u64)
        ensures
            r == self@.id,
    {
        self.id
    }

    /// The account that created the pair, where it is on record.
    pub fn creator(&self) -> (r: Option<AccountId>)
        ensures
            r == self@.creator,
    {
        self.creator
    }

    /// Whether the pair takes swaps and deposits.
    pub fn is_active(&self) -> (r: bool)
        ensures
            r == self@.active,
    {
        self.active
    }

    /// Where the position of `account` stands, if it holds one.
    fn find_lp(&self, account: AccountId) -> (r: Option<usize>)
        requires
            self.wf(),
        ensures
            match r {
                Some(i) => i < self.lps@.len() && self@.is_lp(account) && lp_index(
                    self@.lps,
                    account,
                ) == i,
                None => !self@.is_lp(account),
            },
    {
        let mut i: usize = 0;
        while i < self.lps.len()
            invariant
                self.wf(),
                i <= self.lps@.len(),
                forall|k: int| 0 <= k < i ==> (#[trigger] lp_views(self.lps@)[k]).account != account,
            decreases self.lps@.len() - i,
        {
            if self.lps[i].account == account {
                proof {
                    lemma_lp_index(self@.lps, account, i as int);
                }
                return Some(i);
            }
            i += 1;
        }
        None
    }

    /// Where the pending deposit of `account` stands, if it has one.
    fn find_pending(&self, account: AccountId) -> (r: Option<usize>)
        requires
            self.wf(),
        ensures
            match r {
                Some(i) => i < self.pendings@.len() && has_pending(self@.pendings, account)
                    && pending_index(self@.pendings, account) == i,
                None => !has_pending(self@.pendings, account),
            },
    {
        let mut i: usize = 0;
        while i < self.pendings.len()
            invariant
                self.wf(),
                i <= self.pendings@.len(),
                forall|k: int|
                    0 <= k < i ==> (#[trigger] pending_views(self.pendings@)[k]).account
                        != account,
            decreases self.pendings@.len() - i,
        {
            if self.pendings[i].account == account {
                proof {
                    lemma_pending_index(self@.pendings, account, i as int);
                }
                return Some(i);
            }
            i += 1;
        }
        None
    }
}

} // verus!
