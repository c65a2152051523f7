//! A pair as plain values, for a host that keeps it in a storage of its
//! own between two operations.

use vstd::prelude::*;
use crate::bignat::BigNat;
use crate::ledger::{
    AccountId, lps_distinct, LpView, PairView, pendings_distinct, PendingView, sum_shares,
};
use crate::pair::{lp_views, LpPosition, Pair, pending_views, PendingDeposit};

verus! {

/// Everything that a pair holds, as plain values: what a host keeps in its
/// own storage between two operations.
#[derive(Debug)]
pub struct PairParts {
    pub id: u64,
    pub token_a: Vec<u8>,
    pub token_b: Vec<u8>,
    pub token_a_is_native: bool,
    pub token_b_is_native: bool,
    pub creator: Option<AccountId>,
    pub reserve_a: BigNat,
    pub reserve_b: BigNat,
    pub fee_percent: u64,
    pub active: bool,
    pub owner_shares: BigNat,
    pub total_lp_shares: BigNat,
    pub lps: Vec<LpPosition>,
    pub fee_per_share_a: BigNat,
    pub fee_per_share_b: BigNat,
    pub owner_fees_a: BigNat,
    pub owner_fees_b: BigNat,
    pub pendings: Vec<PendingDeposit>,
    pub pending_user_count: u64,
}

impl View for PairParts {
    type V = PairView;

    open spec fn view(&self) -> PairView {
        PairView {
            id: self.id,
            token_a: self.token_a@,
            token_b: self.token_b@,
            token_a_is_native: self.token_a_is_native,
            token_b_is_native: self.token_b_is_native,
            creator: self.creator,
            reserve_a: self.reserve_a@,
            reserve_b: self.reserve_b@,
            fee_percent: self.fee_percent,
            active: self.active,
            owner_shares: self.owner_shares@,
            total_lp_shares: self.total_lp_shares@,
            lps: lp_views(self.lps@),
            fee_per_share_a: self.fee_per_share_a@,
            fee_per_share_b: self.fee_per_share_b@,
            owner_fees_a: self.owner_fees_a@,
            owner_fees_b: self.owner_fees_b@,
            pendings: pending_views(self.pendings@),
            pending_user_count: self.pending_user_count as nat,
        }
    }
}

/// Whether the positions are what the invariant asks of them: no account
/// twice, no position without shares, no entry index above the current
/// index, and `total` the sum of all shares.
fn positions_valid(
    lps: &Vec<LpPosition>,
    total: &BigNat,
    fee_per_share_a: &BigNat,
    fee_per_share_b: &BigNat,
) -> (r: bool)
    ensures
        r == ({
            let views = lp_views(lps@);
            &&& lps_distinct(views)
            &&& forall|i: int| 0 <= i < views.len() ==> (#[trigger] views[i]).shares > 0
            &&& sum_shares(views) == total@
            &&& forall|i: int|
                0 <= i < views.len() ==> (#[trigger] views[i]).entry_index_a <= fee_per_share_a@
            &&& forall|i: int|
                0 <= i < views.len() ==> (#[trigger] views[i]).entry_index_b <= fee_per_share_b@
        }),
{
    let ghost views: Seq<LpView> = lp_views(lps@);
    let mut sum: BigNat = BigNat::zero();
    let mut i: usize = 0;
    proof {
        assert(views.take(0) =~= Seq::<LpView>::empty());
    }
    while i < lps.len()
        invariant
            i <= lps@.len(),
            views == lp_views(lps@),
            sum@ == sum_shares(views.take(i as int)),
            lps_distinct(views.take(i as int)),
            forall|k: int| 0 <= k < i ==> (#[trigger] views[k]).shares > 0,
            forall|k: int| 0 <= k < i ==> (#[trigger] views[k]).entry_index_a <= fee_per_share_a@,
            forall|k: int| 0 <= k < i ==> (#[trigger] views[k]).entry_index_b <= fee_per_share_b@,
        decreases lps@.len() - i,
    {
        if lps[i].shares.is_zero() || lps[i].entry_index_a.gt(fee_per_share_a)
            || lps[i].entry_index_b.gt(fee_per_share_b) {
            proof {
                assert(views[i as int] == lps@[i as int]@);
            }
            return false;
        }
        let mut j: usize = 0;
        while j < i
            invariant
                j <= i,
                i < lps@.len(),
                views == lp_views(lps@),
                forall|k: int| 0 <= k < j ==> (#[trigger] views[k]).account != views[i as int].account,
            decreases i - j,
        {
            if lps[j].account == lps[i].account {
                proof {
                    assert(views[j as int].account == views[i as int].account);
                }
                return false;
            }
            j += 1;
        }
        proof {
            assert(views.take(i as int + 1).drop_last() =~= views.take(i as int));
            assert forall|k: int, l: int| 0 <= k < l < i + 1 implies (#[trigger] views.take(
                i as int + 1,
            )[k]).account != (#[trigger] views.take(i as int + 1)[l]).account by {
                if l < i {
                    assert(views.take(i as int)[k].account != views.take(i as int)[l].account);
                } else {
                    assert(views[k].account != views[i as int].account);
                }
            }
        }
        sum = sum.add(&lps[i].shares);
        i += 1;
    }
    proof {
        assert(views.take(i as int) =~= views);
    }
    sum.same(total)
}

/// Whether the pending deposits are what the invariant asks of them: no
/// account twice, and none without a balance.
fn pendings_valid(pendings: &Vec<PendingDeposit>) -> (r: bool)
    ensures
        r == ({
            let views = pending_views(pendings@);
            &&& pendings_distinct(views)
            &&& forall|i: int|
                0 <= i < views.len() ==> (#[trigger] views[i]).amount_a > 0 || views[i].amount_b
                    > 0
        }),
{
    let ghost views: Seq<PendingView> = pending_views(pendings@);
    let mut i: usize = 0;
    while i < pendings.len()
        invariant
            i <= pendings@.len(),
            views == pending_views(pendings@),
            forall|k: int, l: int|
                0 <= k < l < i ==> (#[trigger] views[k]).account != (#[trigger] views[l]).account,
            forall|k: int|
                0 <= k < i ==> (#[trigger] views[k]).amount_a > 0 || views[k].amount_b > 0,
        decreases pendings@.len() - i,
    {
        if pendings[i].amount_a.is_zero() && pendings[i].amount_b.is_zero() {
            proof {
                assert(views[i as int] == pendings@[i as int]@);
            }
            return false;
        }
        let mut j: usize = 0;
        while j < i
            invariant
                j <= i,
                i < pendings@.len(),
                views == pending_views(pendings@),
                forall|k: int| 0 <= k < j ==> (#[trigger] views[k]).account != views[i as int].account,
            decreases i - j,
        {
            if pendings[j].account == pendings[i].account {
                proof {
                    assert(views[j as int].account == views[i as int].account);
                }
                return false;
            }
            j += 1;
        }
        i += 1;
    }
    true
}

impl Pair {
    /// The pair that the parts describe, where they keep the invariant of
    /// a ledger.
    pub fn restore(parts: PairParts) -> (r: Option<Pair>)
        ensures
            match r {
                Some(pair) => parts@.wf() && pair.wf() && pair@ == parts@,
                None => !parts@.wf(),
            },
    {
        if parts.fee_percent < 1 || parts.fee_percent > 10 {
            return None;
        }
        if parts.reserve_a.is_zero() != parts.reserve_b.is_zero() {
            return None;
        }
        if !positions_valid(
            &parts.lps,
            &parts.total_lp_shares,
            &parts.fee_per_share_a,
            &parts.fee_per_share_b,
        ) {
            return None;
        }
        if !pendings_valid(&parts.pendings) {
            return None;
        }
        if parts.pendings.len() as u64 != parts.pending_user_count {
            return None;
        }
        Some(
            Pair {
                id: parts.id,
                token_a: parts.token_a,
                token_b: parts.token_b,
                token_a_is_native: parts.token_a_is_native,
                token_b_is_native: parts.token_b_is_native,
                creator: parts.creator,
                reserve_a: parts.reserve_a,
                reserve_b: parts.reserve_b,
                fee_percent: parts.fee_percent,
                active: parts.active,
                owner_shares: parts.owner_shares,
                total_lp_shares: parts.total_lp_shares,
                lps: parts.lps,
                fee_per_share_a: parts.fee_per_share_a,
                fee_per_share_b: parts.fee_per_share_b,
                owner_fees_a: parts.owner_fees_a,
                owner_fees_b: parts.owner_fees_b,
                pendings: parts.pendings,
                pending_user_count: parts.pending_user_count,
            },
        )
    }

    /// Everything that the pair holds, as plain values.
    pub fn into_parts(self) -> (r: PairParts)
        ensures
            r@ == self@,
    {
        PairParts {
            id: self.id,
            token_a: self.token_a,
            token_b: self.token_b,
            token_a_is_native: self.token_a_is_native,
            token_b_is_native: self.token_b_is_native,
            creator: self.creator,
            reserve_a: self.reserve_a,
            reserve_b: self.reserve_b,
            fee_percent: self.fee_percent,
            active: self.active,
            owner_shares: self.owner_shares,
            total_lp_shares: self.total_lp_shares,
            lps: self.lps,
            fee_per_share_a: self.fee_per_share_a,
            fee_per_share_b: self.fee_per_share_b,
            owner_fees_a: self.owner_fees_a,
            owner_fees_b: self.owner_fees_b,
            pendings: self.pendings,
            pending_user_count: self.pending_user_count,
        }
    }
}

} // verus!
