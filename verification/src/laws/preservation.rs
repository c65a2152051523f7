//! The invariant of the ledger, and that every operation keeps it.

use vstd::prelude::*;
use crate::curve::{lemma_payout_within, provision_spec, quote_spec};
use crate::laws::{law_fee_distribution, law_pending_keeps_invariant, law_provision_within_offer};
use crate::ledger::{
    AccountId, lemma_lp_index, lemma_sum_bound, lemma_sum_push, lemma_sum_remove, lemma_sum_update,
    lp_index, LpView, PairView, ShareClass, sum_shares,
};

verus! {

/// In a ledger that keeps its invariant, the total of the holders' shares
/// is the sum of the shares of all positions, and no holder has more
/// shares than that total.
pub proof fn law_total_is_sum_of_shares(pair: PairView, account: AccountId)
    requires
        pair.wf(),
    ensures
        pair.total_lp_shares == sum_shares(pair.lps),
        pair.shares_of(account) <= pair.total_lp_shares,
        pair.total_shares() == pair.class_shares(ShareClass::Platform) + sum_shares(pair.lps),
        pair.class_shares(ShareClass::Lp(account)) <= pair.total_shares(),
        pair.class_shares(ShareClass::Platform) <= pair.total_shares(),
{
    if pair.is_lp(account) {
        lemma_sum_bound(pair.lps, lp_index(pair.lps, account));
    }
}

/// In a ledger that keeps its invariant, the entry indexes of every holder
/// are at most the current fee-per-share indexes.
pub proof fn law_entry_index_at_most_current(pair: PairView, account: AccountId)
    requires
        pair.wf(),
        pair.is_lp(account),
    ensures
        pair.position(account).entry_index_a <= pair.fee_per_share_a,
        pair.position(account).entry_index_b <= pair.fee_per_share_b,
{
    let i = lp_index(pair.lps, account);
    assert(pair.lps[i].entry_index_a <= pair.fee_per_share_a);
    assert(pair.lps[i].entry_index_b <= pair.fee_per_share_b);
}

/// Minting shares to a class and burning shares of a class keep the
/// invariant, and change the shares of the class and the total of all
/// shares by the shares minted or burned.
pub proof fn law_class_shares_keep_invariant(pair: PairView, class: ShareClass, shares: nat)
    requires
        pair.wf(),
    ensures
        pair.mint_shares(class, shares).wf(),
        pair.mint_shares(class, shares).class_shares(class) == pair.class_shares(class) + shares,
        pair.mint_shares(class, shares).total_shares() == pair.total_shares() + shares,
        pair.burn_shares(class, shares) is Ok <==> 0 < shares <= pair.class_shares(class),
        pair.burn_shares(class, shares) is Ok ==> ({
            let after = pair.burn_shares(class, shares)->Ok_0;
            &&& after.wf()
            &&& after.class_shares(class) == pair.class_shares(class) - shares
            &&& after.total_shares() == pair.total_shares() - shares
        }),
{
    match class {
        ShareClass::Platform => {},
        ShareClass::Lp(account) => {
            law_mint_shares_keeps_invariant(pair, account, shares);
            if 0 < shares <= pair.shares_of(account) {
                law_burn_shares_keeps_invariant(pair, account, shares);
            }
        },
    }
}

/// Paying a holder the fees it is owed keeps the invariant, leaves its
/// shares as they were, and leaves it owed nothing.
pub proof fn law_settle_keeps_invariant(pair: PairView, account: AccountId)
    requires
        pair.wf(),
    ensures
        pair.settled(account).wf(),
        pair.settled(account).is_lp(account) == pair.is_lp(account),
        pair.settled(account).shares_of(account) == pair.shares_of(account),
        pair.settled(account).owed_a(account) == 0,
        pair.settled(account).owed_b(account) == 0,
{
    let after = pair.settled(account);
    if pair.is_lp(account) {
        let i = lp_index(pair.lps, account);
        let position = LpView {
            entry_index_a: pair.fee_per_share_a,
            entry_index_b: pair.fee_per_share_b,
            ..pair.lps[i]
        };
        assert(after.lps =~= pair.lps.update(i, position));
        lemma_sum_update(pair.lps, i, position);
        assert forall|k: int, j: int| 0 <= k < j < after.lps.len() implies (
        #[trigger] after.lps[k]).account != (#[trigger] after.lps[j]).account by {
            assert(pair.lps[k].account != pair.lps[j].account);
        }
        assert forall|k: int| 0 <= k < after.lps.len() implies (#[trigger] after.lps[k]).shares
            > 0 by {
            assert(pair.lps[k].shares > 0);
        }
        assert forall|k: int| 0 <= k < after.lps.len() implies (
        #[trigger] after.lps[k]).entry_index_a <= after.fee_per_share_a by {
            if k != i {
                assert(pair.lps[k].entry_index_a <= pair.fee_per_share_a);
            }
        }
        assert forall|k: int| 0 <= k < after.lps.len() implies (
        #[trigger] after.lps[k]).entry_index_b <= after.fee_per_share_b by {
            if k != i {
                assert(pair.lps[k].entry_index_b <= pair.fee_per_share_b);
            }
        }
        lemma_lp_index(after.lps, account, i);
    } else {
        assert(after == pair);
    }
}

/// Minting shares to an account keeps the invariant and adds the shares
/// to those of the account and to the total.
pub proof fn law_mint_shares_keeps_invariant(pair: PairView, account: AccountId, shares: nat)
    requires
        pair.wf(),
    ensures
        pair.with_shares_added(account, shares).wf(),
        pair.with_shares_added(account, shares).shares_of(account) == pair.shares_of(account)
            + shares,
        pair.with_shares_added(account, shares).total_lp_shares == pair.total_lp_shares + shares,
{
    let after = pair.with_shares_added(account, shares);
    if shares == 0 {
    } else if pair.is_lp(account) {
        let i = lp_index(pair.lps, account);
        let position = LpView { shares: pair.lps[i].shares + shares, ..pair.lps[i] };
        assert(after.lps =~= pair.lps.update(i, position));
        lemma_sum_update(pair.lps, i, position);
        assert forall|k: int, j: int| 0 <= k < j < after.lps.len() implies (
        #[trigger] after.lps[k]).account != (#[trigger] after.lps[j]).account by {
            assert(pair.lps[k].account != pair.lps[j].account);
        }
        assert forall|k: int| 0 <= k < after.lps.len() implies (#[trigger] after.lps[k]).shares
            > 0 by {
            assert(pair.lps[k].shares > 0);
        }
        assert forall|k: int| 0 <= k < after.lps.len() implies (
        #[trigger] after.lps[k]).entry_index_a <= after.fee_per_share_a by {
            assert(pair.lps[k].entry_index_a <= pair.fee_per_share_a);
        }
        assert forall|k: int| 0 <= k < after.lps.len() implies (
        #[trigger] after.lps[k]).entry_index_b <= after.fee_per_share_b by {
            assert(pair.lps[k].entry_index_b <= pair.fee_per_share_b);
        }
        lemma_lp_index(after.lps, account, i);
    } else {
        let position = LpView {
            account: account,
            shares: shares,
            entry_index_a: pair.fee_per_share_a,
            entry_index_b: pair.fee_per_share_b,
        };
        assert(after.lps =~= pair.lps.push(position));
        lemma_sum_push(pair.lps, position);
        assert forall|k: int, j: int| 0 <= k < j < after.lps.len() implies (
        #[trigger] after.lps[k]).account != (#[trigger] after.lps[j]).account by {
            if j < pair.lps.len() {
                assert(pair.lps[k].account != pair.lps[j].account);
            } else {
                assert(pair.lps[k].account != account);
            }
        }
        assert forall|k: int| 0 <= k < after.lps.len() implies (#[trigger] after.lps[k]).shares
            > 0 by {
            if k < pair.lps.len() {
                assert(pair.lps[k].shares > 0);
            }
        }
        assert forall|k: int| 0 <= k < after.lps.len() implies (
        #[trigger] after.lps[k]).entry_index_a <= after.fee_per_share_a by {
            if k < pair.lps.len() {
                assert(pair.lps[k].entry_index_a <= pair.fee_per_share_a);
            }
        }
        assert forall|k: int| 0 <= k < after.lps.len() implies (
        #[trigger] after.lps[k]).entry_index_b <= after.fee_per_share_b by {
            if k < pair.lps.len() {
                assert(pair.lps[k].entry_index_b <= pair.fee_per_share_b);
            }
        }
        lemma_lp_index(after.lps, account, pair.lps.len() as int);
    }
}

/// Burning shares that an account holds keeps the invariant and takes the
/// shares from those of the account and from the total.
pub proof fn law_burn_shares_keeps_invariant(pair: PairView, account: AccountId, shares: nat)
    requires
        pair.wf(),
        shares <= pair.shares_of(account),
    ensures
        pair.with_shares_burned(account, shares).wf(),
        pair.with_shares_burned(account, shares).shares_of(account) == pair.shares_of(account)
            - shares,
        pair.with_shares_burned(account, shares).total_lp_shares == pair.total_lp_shares
            - shares,
{
    let after = pair.with_shares_burned(account, shares);
    if pair.is_lp(account) {
        let i = lp_index(pair.lps, account);
        lemma_sum_bound(pair.lps, i);
        assert(pair.lps[i].shares > 0);
        if shares == pair.lps[i].shares {
            assert(after.lps =~= pair.lps.remove(i));
            lemma_sum_remove(pair.lps, i);
            assert forall|k: int| 0 <= k < after.lps.len() implies (
            #[trigger] after.lps[k]).account != account by {
                if k < i {
                    assert(pair.lps[k].account != pair.lps[i].account);
                } else {
                    assert(pair.lps[i].account != pair.lps[k + 1].account);
                }
            }
            assert forall|k: int, j: int| 0 <= k < j < after.lps.len() implies (
            #[trigger] after.lps[k]).account != (#[trigger] after.lps[j]).account by {
                let kk = if k < i {
                    k
                } else {
                    k + 1
                };
                let jj = if j < i {
                    j
                } else {
                    j + 1
                };
                assert(pair.lps[kk].account != pair.lps[jj].account);
            }
            assert forall|k: int| 0 <= k < after.lps.len() implies (#[trigger] after.lps[k]).shares
                > 0 && after.lps[k].entry_index_a <= after.fee_per_share_a
                && after.lps[k].entry_index_b <= after.fee_per_share_b by {
                let kk = if k < i {
                    k
                } else {
                    k + 1
                };
                assert(pair.lps[kk].shares > 0);
                assert(pair.lps[kk].entry_index_a <= pair.fee_per_share_a);
                assert(pair.lps[kk].entry_index_b <= pair.fee_per_share_b);
            }
        } else {
            let position = LpView { shares: (pair.lps[i].shares - shares) as nat, ..pair.lps[i] };
            assert(after.lps =~= pair.lps.update(i, position));
            lemma_sum_update(pair.lps, i, position);
            assert forall|k: int, j: int| 0 <= k < j < after.lps.len() implies (
            #[trigger] after.lps[k]).account != (#[trigger] after.lps[j]).account by {
                assert(pair.lps[k].account != pair.lps[j].account);
            }
            assert forall|k: int| 0 <= k < after.lps.len() implies (#[trigger] after.lps[k]).shares
                > 0 && after.lps[k].entry_index_a <= after.fee_per_share_a
                && after.lps[k].entry_index_b <= after.fee_per_share_b by {
                assert(pair.lps[k].shares > 0);
                assert(pair.lps[k].entry_index_a <= pair.fee_per_share_a);
                assert(pair.lps[k].entry_index_b <= pair.fee_per_share_b);
            }
            lemma_lp_index(after.lps, account, i);
        }
    }
}

/// A swap keeps the invariant and leaves every share where it was.
pub proof fn law_swap_keeps_invariant(
    pair: PairView,
    a_to_b: bool,
    payment: nat,
    min_output: nat,
)
    requires
        pair.wf(),
        pair.swap(a_to_b, payment, min_output) is Ok,
    ensures
        pair.swap(a_to_b, payment, min_output)->Ok_0.0.wf(),
        pair.swap(a_to_b, payment, min_output)->Ok_0.0.lps == pair.lps,
        pair.swap(a_to_b, payment, min_output)->Ok_0.0.total_lp_shares == pair.total_lp_shares,
        pair.swap(a_to_b, payment, min_output)->Ok_0.0.owner_shares == pair.owner_shares,
{
    let q = quote_spec(
        payment,
        pair.reserve_in(a_to_b),
        pair.reserve_out(a_to_b),
        pair.fee_percent as nat,
        min_output,
    )->Ok_0;
    let moved = if a_to_b {
        PairView {
            reserve_a: pair.reserve_a + payment,
            reserve_b: (pair.reserve_b - q.raw_output) as nat,
            ..pair
        }
    } else {
        PairView {
            reserve_b: pair.reserve_b + payment,
            reserve_a: (pair.reserve_a - q.raw_output) as nat,
            ..pair
        }
    };
    assert(moved.wf());
    law_fee_distribution(moved, q.fee, !a_to_b);
}

/// A mint keeps the invariant, adds the minted shares to those of the
/// caller and to the total, and takes in exactly what it does not refund.
pub proof fn law_mint_keeps_invariant(
    pair: PairView,
    caller: AccountId,
    amount_a: nat,
    amount_b: nat,
    min_shares: nat,
)
    requires
        pair.wf(),
        pair.mint(caller, amount_a, amount_b, min_shares) is Ok,
    ensures
        ({
            let (after, receipt) = pair.mint(caller, amount_a, amount_b, min_shares)->Ok_0;
            &&& after.wf()
            &&& after.shares_of(caller) == pair.shares_of(caller) + receipt.shares
            &&& after.total_lp_shares == pair.total_lp_shares + receipt.shares
            &&& after.reserve_a == pair.reserve_a + receipt.used_a
            &&& after.reserve_b == pair.reserve_b + receipt.used_b
            &&& receipt.used_a + receipt.refund_a == amount_a
            &&& receipt.used_b + receipt.refund_b == amount_b
            &&& receipt.shares >= min_shares
            &&& receipt.shares > 0
        }),
{
    let p = provision_spec(
        amount_a,
        amount_b,
        pair.reserve_a,
        pair.reserve_b,
        pair.total_shares(),
        min_shares,
    )->Ok_0;
    law_provision_within_offer(
        amount_a,
        amount_b,
        pair.reserve_a,
        pair.reserve_b,
        pair.total_shares(),
        min_shares,
    );
    law_settle_keeps_invariant(pair, caller);
    let funded = pair.settled(caller).funded(p.used_a, p.used_b);
    assert(funded.wf());
    assert(funded.shares_of(caller) == pair.shares_of(caller));
    law_mint_shares_keeps_invariant(funded, caller, p.shares);
}

/// Matching a pending deposit keeps the invariant, adds the minted shares
/// to those of the caller, and moves the used amounts from the caller's
/// pending balances into the reserves.
pub proof fn law_finalize_keeps_invariant(pair: PairView, caller: AccountId, min_shares: nat)
    requires
        pair.wf(),
        pair.finalize_liquidity(caller, min_shares) is Ok,
    ensures
        ({
            let (after, receipt) = pair.finalize_liquidity(caller, min_shares)->Ok_0;
            &&& after.wf()
            &&& after.shares_of(caller) == pair.shares_of(caller) + receipt.shares
            &&& after.total_lp_shares == pair.total_lp_shares + receipt.shares
            &&& after.reserve_a == pair.reserve_a + receipt.used_a
            &&& after.reserve_b == pair.reserve_b + receipt.used_b
            &&& after.pending_a_of(caller) + receipt.used_a == pair.pending_a_of(caller)
            &&& after.pending_b_of(caller) + receipt.used_b == pair.pending_b_of(caller)
        }),
{
    let pending_a = pair.pending_a_of(caller);
    let pending_b = pair.pending_b_of(caller);
    let p = provision_spec(
        pending_a,
        pending_b,
        pair.reserve_a,
        pair.reserve_b,
        pair.total_shares(),
        min_shares,
    )->Ok_0;
    law_provision_within_offer(
        pending_a,
        pending_b,
        pair.reserve_a,
        pair.reserve_b,
        pair.total_shares(),
        min_shares,
    );
    law_settle_keeps_invariant(pair, caller);
    let settled = pair.settled(caller);
    assert(settled.pendings == pair.pendings);
    law_pending_keeps_invariant(
        settled,
        caller,
        (pending_a - p.used_a) as nat,
        (pending_b - p.used_b) as nat,
    );
    let moved = settled.with_pending(
        caller,
        (pending_a - p.used_a) as nat,
        (pending_b - p.used_b) as nat,
    );
    assert(moved.lps == settled.lps);
    let funded = moved.funded(p.used_a, p.used_b);
    assert(funded.wf());
    assert(funded.shares_of(caller) == pair.shares_of(caller));
    law_mint_shares_keeps_invariant(funded, caller, p.shares);
    let after = funded.with_shares_added(caller, p.shares);
    assert(after.pendings == moved.pendings);
}

/// A holder's burn keeps the invariant, takes the burned shares from those
/// of the caller and from the total, and pays out of the reserves no more
/// than is in them.
pub proof fn law_remove_liquidity_keeps_invariant(pair: PairView, caller: AccountId, shares: nat)
    requires
        pair.wf(),
        pair.remove_liquidity(caller, shares) is Ok,
    ensures
        ({
            let (after, receipt) = pair.remove_liquidity(caller, shares)->Ok_0;
            &&& after.wf()
            &&& after.shares_of(caller) == pair.shares_of(caller) - shares
            &&& after.total_lp_shares == pair.total_lp_shares - shares
            &&& after.reserve_a + receipt.amount_a == pair.reserve_a
            &&& after.reserve_b + receipt.amount_b == pair.reserve_b
        }),
{
    law_total_is_sum_of_shares(pair, caller);
    lemma_payout_within(shares, pair.reserve_a, pair.total_shares());
    lemma_payout_within(shares, pair.reserve_b, pair.total_shares());
    law_settle_keeps_invariant(pair, caller);
    law_burn_shares_keeps_invariant(pair.settled(caller), caller, shares);
}

/// A holder's claim keeps the invariant and leaves the holder owed
/// nothing.
pub proof fn law_claim_keeps_invariant(pair: PairView, caller: AccountId)
    requires
        pair.wf(),
        pair.claim_lp_fees(caller) is Ok,
    ensures
        pair.claim_lp_fees(caller)->Ok_0.0.wf(),
        pair.claim_lp_fees(caller)->Ok_0.0.owed_a(caller) == 0,
        pair.claim_lp_fees(caller)->Ok_0.0.owed_b(caller) == 0,
{
    law_settle_keeps_invariant(pair, caller);
}

/// The platform's deposit, burn and claim keep the invariant.
pub proof fn law_owner_operations_keep_invariant(
    pair: PairView,
    amount_a: nat,
    amount_b: nat,
    shares: nat,
)
    requires
        pair.wf(),
    ensures
        pair.owner_initialize_liquidity(amount_a, amount_b) is Ok ==> pair.owner_initialize_liquidity(
            amount_a,
            amount_b,
        )->Ok_0.wf(),
        pair.owner_remove_liquidity(shares) is Ok ==> pair.owner_remove_liquidity(
            shares,
        )->Ok_0.0.wf(),
        pair.owner_claim_fees() is Ok ==> pair.owner_claim_fees()->Ok_0.0.wf(),
{
    if pair.owner_remove_liquidity(shares) is Ok {
        lemma_payout_within(shares, pair.reserve_a, pair.total_shares());
        lemma_payout_within(shares, pair.reserve_b, pair.total_shares());
    }
}

} // verus!
