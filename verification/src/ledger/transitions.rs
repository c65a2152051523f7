//! The steps of which the operations on a ledger are made: paying a holder
//! up, minting and burning shares, distributing a fee, setting a pending
//! balance, and moving amounts into and out of the reserves.

use vstd::prelude::*;
use crate::curve::{index_increment, lp_portion, owner_portion};
use crate::error::DexError;
use crate::ledger::{
    AccountId, has_pending, lp_index, LpView, PairView, pending_index, PendingView, ShareClass,
};

verus! {

impl PairView {
    /// The ledger after `account` has been paid the fees it is owed: its
    /// entry indexes stand at the current indexes.
    pub open spec fn settled(self, account: AccountId) -> PairView {
        if self.is_lp(account) {
            let i = lp_index(self.lps, account);
            PairView {
                lps: self.lps.update(
                    i,
                    LpView {
                        entry_index_a: self.fee_per_share_a,
                        entry_index_b: self.fee_per_share_b,
                        ..self.lps[i]
                    },
                ),
                ..self
            }
        } else {
            self
        }
    }

    /// The ledger after `shares` have been minted to `account`. An account
    /// that held none joins at the current indexes.
    pub open spec fn with_shares_added(self, account: AccountId, shares: nat) -> PairView {
        if shares == 0 {
            self
        } else if self.is_lp(account) {
            let i = lp_index(self.lps, account);
            PairView {
                lps: self.lps.update(
                    i,
                    LpView { shares: self.lps[i].shares + shares, ..self.lps[i] },
                ),
                total_lp_shares: self.total_lp_shares + shares,
                ..self
            }
        } else {
            PairView {
                lps: self.lps.push(
                    LpView {
                        account: account,
                        shares: shares,
                        entry_index_a: self.fee_per_share_a,
                        entry_index_b: self.fee_per_share_b,
                    },
                ),
                total_lp_shares: self.total_lp_shares + shares,
                ..self
            }
        }
    }

    /// The ledger after `shares` of `account` have been burned. An account
    /// left with none leaves.
    pub open spec fn with_shares_burned(self, account: AccountId, shares: nat) -> PairView {
        let i = lp_index(self.lps, account);
        if !self.is_lp(account) || shares > self.lps[i].shares {
            self
        } else if shares == self.lps[i].shares {
            PairView {
                lps: self.lps.remove(i),
                total_lp_shares: (self.total_lp_shares - shares) as nat,
                ..self
            }
        } else {
            PairView {
                lps: self.lps.update(
                    i,
                    LpView { shares: (self.lps[i].shares - shares) as nat, ..self.lps[i] },
                ),
                total_lp_shares: (self.total_lp_shares - shares) as nat,
                ..self
            }
        }
    }

    /// The ledger after `shares` have been minted to a class.
    pub open spec fn mint_shares(self, class: ShareClass, shares: nat) -> PairView {
        match class {
            ShareClass::Platform => PairView { owner_shares: self.owner_shares + shares, ..self },
            ShareClass::Lp(account) => self.with_shares_added(account, shares),
        }
    }

    /// The burn of `shares` of a class, which has to hold that many, and
    /// more than none are to be burned.
    pub open spec fn burn_shares(self, class: ShareClass, shares: nat) -> Result<
        PairView,
        DexError,
    > {
        if shares > self.class_shares(class) {
            Err(DexError::InsufficientShares)
        } else if shares == 0 {
            Err(DexError::InvalidAmount)
        } else {
            Ok(
                match class {
                    ShareClass::Platform => PairView {
                        owner_shares: (self.owner_shares - shares) as nat,
                        ..self
                    },
                    ShareClass::Lp(account) => self.with_shares_burned(account, shares),
                },
            )
        }
    }

    /// The ledger after a fee on one side has been distributed: the platform
    /// is credited its portion, and the holders' portion raises the index of
    /// that side, where there are holders.
    pub open spec fn with_fee(self, fee: nat, is_token_a: bool) -> PairView {
        let owner = owner_portion(fee, self.owner_shares, self.total_lp_shares);
        let increment = index_increment(
            lp_portion(fee, self.owner_shares, self.total_lp_shares),
            self.total_lp_shares,
        );
        if fee == 0 || self.total_shares() == 0 {
            self
        } else if is_token_a {
            PairView {
                owner_fees_a: self.owner_fees_a + owner,
                fee_per_share_a: self.fee_per_share_a + increment,
                ..self
            }
        } else {
            PairView {
                owner_fees_b: self.owner_fees_b + owner,
                fee_per_share_b: self.fee_per_share_b + increment,
                ..self
            }
        }
    }

    /// The ledger with the pending amounts of `account` set to the two
    /// given. An account with nothing pending is not listed.
    pub open spec fn with_pending(self, account: AccountId, amount_a: nat, amount_b: nat)
        -> PairView {
        let i = pending_index(self.pendings, account);
        let entry = PendingView { account: account, amount_a: amount_a, amount_b: amount_b };
        if has_pending(self.pendings, account) {
            if amount_a == 0 && amount_b == 0 {
                PairView {
                    pendings: self.pendings.remove(i),
                    pending_user_count: (self.pending_user_count - 1) as nat,
                    ..self
                }
            } else {
                PairView { pendings: self.pendings.update(i, entry), ..self }
            }
        } else {
            if amount_a == 0 && amount_b == 0 {
                self
            } else {
                PairView {
                    pendings: self.pendings.push(entry),
                    pending_user_count: self.pending_user_count + 1,
                    ..self
                }
            }
        }
    }

    /// The ledger with `amount_a` and `amount_b` added to the reserves.
    pub open spec fn funded(self, amount_a: nat, amount_b: nat) -> PairView {
        PairView {
            reserve_a: self.reserve_a + amount_a,
            reserve_b: self.reserve_b + amount_b,
            ..self
        }
    }

    /// The ledger with `amount_a` and `amount_b` taken from the reserves.
    pub open spec fn drawn(self, amount_a: nat, amount_b: nat) -> PairView {
        PairView {
            reserve_a: (self.reserve_a - amount_a) as nat,
            reserve_b: (self.reserve_b - amount_b) as nat,
            ..self
        }
    }

    /// Whether nothing is left in the pair: no reserves, no shares, no
    /// pending deposits and no fees of the platform.
    pub open spec fn is_drained(self) -> bool {
        &&& self.reserve_a == 0
        &&& self.reserve_b == 0
        &&& self.lps.len() == 0
        &&& self.owner_shares == 0
        &&& self.pending_user_count == 0
        &&& self.owner_fees_a == 0
        &&& self.owner_fees_b == 0
    }
}

} // verus!
