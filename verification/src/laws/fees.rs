//! What holds of the distribution of a fee and of what holders are owed.

use vstd::prelude::*;
use crate::curve::{
    index_increment, lemma_owner_portion_within, lp_portion, owed_fee, owner_portion, PRECISION,
};
use crate::laws::law_total_is_sum_of_shares;
use crate::ledger::{AccountId, lp_index, PairView};

verus! {

/// Distributing a fee never lowers a fee-per-share index, credits the
/// platform no more than the fee, and keeps the invariant.
pub proof fn law_fee_distribution(pair: PairView, fee: nat, is_token_a: bool)
    requires
        pair.wf(),
    ensures
        pair.with_fee(fee, is_token_a).wf(),
        pair.with_fee(fee, is_token_a).fee_per_share_a >= pair.fee_per_share_a,
        pair.with_fee(fee, is_token_a).fee_per_share_b >= pair.fee_per_share_b,
        pair.with_fee(fee, is_token_a).owner_fees_a + pair.with_fee(fee, is_token_a).owner_fees_b
            <= pair.owner_fees_a + pair.owner_fees_b + fee,
        owner_portion(fee, pair.owner_shares, pair.total_lp_shares) + lp_portion(
            fee,
            pair.owner_shares,
            pair.total_lp_shares,
        ) == fee,
{
    lemma_owner_portion_within(fee, pair.owner_shares, pair.total_lp_shares);
    let after = pair.with_fee(fee, is_token_a);
    assert(after.lps == pair.lps);
    assert forall|i: int| 0 <= i < after.lps.len() implies (#[trigger] after.lps[i]).entry_index_a
        <= after.fee_per_share_a by {
        assert(pair.lps[i].entry_index_a <= pair.fee_per_share_a);
    }
    assert forall|i: int| 0 <= i < after.lps.len() implies (#[trigger] after.lps[i]).entry_index_b
        <= after.fee_per_share_b by {
        assert(pair.lps[i].entry_index_b <= pair.fee_per_share_b);
    }
}

/// Of a portion spread over the holders' shares, a holder that was paid up
/// before is owed no more than its proportional part, rounded down, and,
/// where it holds no more than `PRECISION` shares, no less than that part
/// less one.
pub proof fn law_owed_within_one_of_part(
    portion: nat,
    shares: nat,
    total_lp_shares: nat,
    entry_index: nat,
)
    requires
        0 < shares <= total_lp_shares,
    ensures
        ({
            let owed = owed_fee(
                entry_index + index_increment(portion, total_lp_shares),
                entry_index,
                shares,
            );
            let part = portion * shares / total_lp_shares;
            &&& owed <= part
            &&& shares <= PRECISION ==> part <= owed + 1
        }),
{
    let p: nat = PRECISION as nat;
    let t = total_lp_shares;
    let increment = index_increment(portion, t);
    let owed = owed_fee(entry_index + increment, entry_index, shares);
    let part = portion * shares / t;
    assert(increment == portion * p / t);
    assert(owed == increment * shares / p) by {
        if increment == 0 {
            assert(0 * shares / p == 0) by (nonlinear_arith)
                requires
                    p > 0,
            ;
        } else {
            assert(((entry_index + increment - entry_index) as nat) == increment);
        }
    }
    assert(increment * t <= portion * p) by (nonlinear_arith)
        requires
            t > 0,
            increment == portion * p / t,
    ;
    assert(owed * p <= increment * shares) by (nonlinear_arith)
        requires
            p > 0,
            owed == increment * shares / p,
    ;
    assert(owed * t <= portion * shares) by (nonlinear_arith)
        requires
            p > 0,
            owed * p <= increment * shares,
            increment * t <= portion * p,
    ;
    assert(owed <= part) by (nonlinear_arith)
        requires
            t > 0,
            owed * t <= portion * shares,
            part == portion * shares / t,
    ;
    if shares <= p {
        assert((increment + 1) * t > portion * p) by (nonlinear_arith)
            requires
                t > 0,
                increment == portion * p / t,
        ;
        assert((owed + 1) * p > increment * shares) by (nonlinear_arith)
            requires
                p > 0,
                owed == increment * shares / p,
        ;
        assert(portion * shares < (owed + 2) * t) by (nonlinear_arith)
            requires
                p > 0,
                t > 0,
                0 < shares <= p,
                (increment + 1) * t > portion * p,
                (owed + 1) * p > increment * shares,
        ;
        assert(part <= owed + 1) by (nonlinear_arith)
            requires
                t > 0,
                portion * shares < (owed + 2) * t,
                part == portion * shares / t,
        ;
    }
}

/// After a fee was distributed, a holder that was paid up before is owed
/// its proportional part of the holders' portion on that side, within the
/// bounds of `law_owed_within_one_of_part`, and nothing more on the other
/// side.
pub proof fn law_fee_reaches_a_settled_holder(
    pair: PairView,
    account: AccountId,
    fee: nat,
    is_token_a: bool,
)
    requires
        pair.wf(),
        pair.is_lp(account),
        pair.owed_a(account) == 0,
        pair.owed_b(account) == 0,
        pair.position(account).entry_index_a == pair.fee_per_share_a,
        pair.position(account).entry_index_b == pair.fee_per_share_b,
        fee > 0,
    ensures
        ({
            let after = pair.with_fee(fee, is_token_a);
            let portion = lp_portion(fee, pair.owner_shares, pair.total_lp_shares);
            let part = portion * pair.shares_of(account) / pair.total_lp_shares;
            let owed = if is_token_a {
                after.owed_a(account)
            } else {
                after.owed_b(account)
            };
            let other = if is_token_a {
                after.owed_b(account)
            } else {
                after.owed_a(account)
            };
            &&& other == 0
            &&& owed <= part
            &&& pair.shares_of(account) <= PRECISION ==> part <= owed + 1
        }),
{
    let shares = pair.shares_of(account);
    let portion = lp_portion(fee, pair.owner_shares, pair.total_lp_shares);
    law_total_is_sum_of_shares(pair, account);
    assert(pair.lps[lp_index(pair.lps, account)].shares > 0);
    if is_token_a {
        law_owed_within_one_of_part(portion, shares, pair.total_lp_shares, pair.fee_per_share_a);
    } else {
        law_owed_within_one_of_part(portion, shares, pair.total_lp_shares, pair.fee_per_share_b);
    }
}

} // verus!
