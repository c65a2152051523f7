//! What holds of pending deposits.

use vstd::prelude::*;
use crate::error::DexError;
use crate::ledger::{
    AccountId, has_pending, lemma_pending_index, PairView, pending_index, PendingView,
};

verus! {

/// Setting the pending balances of an account keeps the invariant.
pub proof fn law_pending_keeps_invariant(
    pair: PairView,
    account: AccountId,
    amount_a: nat,
    amount_b: nat,
)
    requires
        pair.wf(),
    ensures
        pair.with_pending(account, amount_a, amount_b).wf(),
        pair.with_pending(account, amount_a, amount_b).pending_a_of(account) == amount_a,
        pair.with_pending(account, amount_a, amount_b).pending_b_of(account) == amount_b,
{
    let after = pair.with_pending(account, amount_a, amount_b);
    let entry = PendingView { account: account, amount_a: amount_a, amount_b: amount_b };
    if has_pending(pair.pendings, account) {
        let i = pending_index(pair.pendings, account);
        if amount_a == 0 && amount_b == 0 {
            assert(after.pendings =~= pair.pendings.remove(i));
            assert forall|k: int| 0 <= k < after.pendings.len() implies (
            #[trigger] after.pendings[k]).account != account by {
                if k < i {
                    assert(pair.pendings[k].account != pair.pendings[i].account);
                } else {
                    assert(after.pendings[k] == pair.pendings[k + 1]);
                    assert(pair.pendings[i].account != pair.pendings[k + 1].account);
                }
            }
            assert forall|k: int, j: int| 0 <= k < j < after.pendings.len() implies (
            #[trigger] after.pendings[k]).account != (#[trigger] after.pendings[j]).account by {
                let kk = if k < i {
                    k
                } else {
                    k + 1
                };
                let jj = if j < i {
                    j
                } else {
                    j + 1
                };
                assert(pair.pendings[kk].account != pair.pendings[jj].account);
            }
            assert forall|k: int| 0 <= k < after.pendings.len() implies (
            #[trigger] after.pendings[k]).amount_a > 0 || after.pendings[k].amount_b > 0 by {
                let kk = if k < i {
                    k
                } else {
                    k + 1
                };
                assert(pair.pendings[kk].amount_a > 0 || pair.pendings[kk].amount_b > 0);
            }
        } else {
            assert(after.pendings =~= pair.pendings.update(i, entry));
            assert forall|k: int, j: int| 0 <= k < j < after.pendings.len() implies (
            #[trigger] after.pendings[k]).account != (#[trigger] after.pendings[j]).account by {
                assert(pair.pendings[k].account != pair.pendings[j].account);
            }
            assert forall|k: int| 0 <= k < after.pendings.len() implies (
            #[trigger] after.pendings[k]).amount_a > 0 || after.pendings[k].amount_b > 0 by {
                if k != i {
                    assert(pair.pendings[k].amount_a > 0 || pair.pendings[k].amount_b > 0);
                }
            }
            lemma_pending_index(after.pendings, account, i);
        }
    } else {
        if !(amount_a == 0 && amount_b == 0) {
            assert(after.pendings =~= pair.pendings.push(entry));
            assert forall|k: int, j: int| 0 <= k < j < after.pendings.len() implies (
            #[trigger] after.pendings[k]).account != (#[trigger] after.pendings[j]).account by {
                if j < pair.pendings.len() {
                    assert(pair.pendings[k].account != pair.pendings[j].account);
                } else {
                    assert(pair.pendings[k].account != account);
                }
            }
            assert forall|k: int| 0 <= k < after.pendings.len() implies (
            #[trigger] after.pendings[k]).amount_a > 0 || after.pendings[k].amount_b > 0 by {
                if k < pair.pendings.len() {
                    assert(pair.pendings[k].amount_a > 0 || pair.pendings[k].amount_b > 0);
                }
            }
            lemma_pending_index(after.pendings, account, pair.pendings.len() as int);
        }
    }
}

/// Depositing an amount of asset A for an account that has none pending
/// and then withdrawing its pending A hands back that amount and leaves
/// the ledger as it was before the deposit.
pub proof fn law_deposit_then_withdraw_a(pair: PairView, caller: AccountId, amount: nat)
    requires
        pair.wf(),
        amount > 0,
        pair.pending_a_of(caller) == 0,
    ensures
        pair.deposit_pending(caller, amount, true) is Ok,
        pair.deposit_pending(caller, amount, true)->Ok_0.withdraw_pending(caller, true) == Ok::<
            (PairView, nat),
            DexError,
        >((pair, amount)),
{
    let pending_b = pair.pending_b_of(caller);
    let mid = pair.deposit_pending(caller, amount, true)->Ok_0;
    law_pending_keeps_invariant(pair, caller, amount, pending_b);
    assert(mid == pair.with_pending(caller, amount, pending_b));
    let back = mid.with_pending(caller, 0, pending_b);
    if has_pending(pair.pendings, caller) {
        let i = pending_index(pair.pendings, caller);
        assert(pair.pendings[i].amount_a > 0 || pair.pendings[i].amount_b > 0);
        lemma_pending_index(mid.pendings, caller, i);
        assert(back.pendings =~= pair.pendings);
    } else {
        lemma_pending_index(mid.pendings, caller, pair.pendings.len() as int);
        assert(back.pendings =~= pair.pendings);
    }
}

/// Depositing an amount of asset B for an account that has none pending
/// and then withdrawing its pending B hands back that amount and leaves
/// the ledger as it was before the deposit.
pub proof fn law_deposit_then_withdraw_b(pair: PairView, caller: AccountId, amount: nat)
    requires
        pair.wf(),
        amount > 0,
        pair.pending_b_of(caller) == 0,
    ensures
        pair.deposit_pending(caller, amount, false) is Ok,
        pair.deposit_pending(caller, amount, false)->Ok_0.withdraw_pending(caller, false) == Ok::<
            (PairView, nat),
            DexError,
        >((pair, amount)),
{
    let pending_a = pair.pending_a_of(caller);
    let mid = pair.deposit_pending(caller, amount, false)->Ok_0;
    law_pending_keeps_invariant(pair, caller, pending_a, amount);
    assert(mid == pair.with_pending(caller, pending_a, amount));
    let back = mid.with_pending(caller, pending_a, 0);
    if has_pending(pair.pendings, caller) {
        let i = pending_index(pair.pendings, caller);
        assert(pair.pendings[i].amount_a > 0 || pair.pendings[i].amount_b > 0);
        lemma_pending_index(mid.pendings, caller, i);
        assert(back.pendings =~= pair.pendings);
    } else {
        lemma_pending_index(mid.pendings, caller, pair.pendings.len() as int);
        assert(back.pendings =~= pair.pendings);
    }
}

/// Whatever an account had pending, depositing an amount of one asset and
/// then withdrawing its pending balance of that asset hands back the
/// amount together with what was pending of it before, leaves the other
/// pending balance as it was, and leaves the reserves, the shares, the
/// indexes and the platform's fees untouched.
pub proof fn law_deposit_then_withdraw_pays_all_pending(
    pair: PairView,
    caller: AccountId,
    amount: nat,
    is_token_a: bool,
)
    requires
        pair.wf(),
        amount > 0,
    ensures
        pair.deposit_pending(caller, amount, is_token_a) is Ok,
        pair.deposit_pending(caller, amount, is_token_a)->Ok_0.withdraw_pending(
            caller,
            is_token_a,
        ) is Ok,
        ({
            let (after, paid) = pair.deposit_pending(
                caller,
                amount,
                is_token_a,
            )->Ok_0.withdraw_pending(caller, is_token_a)->Ok_0;
            &&& paid == amount + if is_token_a {
                pair.pending_a_of(caller)
            } else {
                pair.pending_b_of(caller)
            }
            &&& after.wf()
            &&& after.pending_a_of(caller) == if is_token_a {
                0
            } else {
                pair.pending_a_of(caller)
            }
            &&& after.pending_b_of(caller) == if is_token_a {
                pair.pending_b_of(caller)
            } else {
                0
            }
            &&& after.reserve_a == pair.reserve_a
            &&& after.reserve_b == pair.reserve_b
            &&& after.owner_shares == pair.owner_shares
            &&& after.total_lp_shares == pair.total_lp_shares
            &&& after.lps == pair.lps
            &&& after.fee_per_share_a == pair.fee_per_share_a
            &&& after.fee_per_share_b == pair.fee_per_share_b
            &&& after.owner_fees_a == pair.owner_fees_a
            &&& after.owner_fees_b == pair.owner_fees_b
        }),
{
    let pending_a = pair.pending_a_of(caller);
    let pending_b = pair.pending_b_of(caller);
    if is_token_a {
        law_pending_keeps_invariant(pair, caller, pending_a + amount, pending_b);
        let mid = pair.with_pending(caller, pending_a + amount, pending_b);
        law_pending_keeps_invariant(mid, caller, 0, pending_b);
    } else {
        law_pending_keeps_invariant(pair, caller, pending_a, pending_b + amount);
        let mid = pair.with_pending(caller, pending_a, pending_b + amount);
        law_pending_keeps_invariant(mid, caller, pending_a, 0);
    }
}

} // verus!
