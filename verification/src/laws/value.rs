//! What holds of the reserves and of the value of a share across a swap, a
//! deposit and a burn.

use vstd::prelude::*;
use crate::curve::{
    lemma_fee_within, lemma_matched_amounts_within, lemma_payout_within, payout, provision_spec,
    quote_spec, swap_raw_output,
};
use crate::laws::{
    law_mint_keeps_invariant, law_remove_liquidity_keeps_invariant, law_total_is_sum_of_shares,
};
use crate::ledger::{AccountId, PairView};

verus! {

/// A swap never lowers the product of the two reserves.
pub proof fn law_swap_product_never_falls(
    pair: PairView,
    a_to_b: bool,
    payment: nat,
    min_output: nat,
)
    requires
        pair.swap(a_to_b, payment, min_output) is Ok,
    ensures
        pair.swap(a_to_b, payment, min_output)->Ok_0.0.reserve_a * pair.swap(
            a_to_b,
            payment,
            min_output,
        )->Ok_0.0.reserve_b >= pair.reserve_a * pair.reserve_b,
{
    let reserve_in = pair.reserve_in(a_to_b);
    let reserve_out = pair.reserve_out(a_to_b);
    let raw = swap_raw_output(payment, reserve_in, reserve_out);
    let after = pair.swap(a_to_b, payment, min_output)->Ok_0.0;
    assert(quote_spec(payment, reserve_in, reserve_out, pair.fee_percent as nat, min_output) is Ok);
    assert(payment > 0 && raw < reserve_out);
    assert((reserve_in + payment) * (reserve_out - raw) >= reserve_in * reserve_out)
        by (nonlinear_arith)
        requires
            payment > 0,
            raw == payment * reserve_out / (reserve_in + payment),
            raw < reserve_out,
    ;
    if a_to_b {
        assert(after.reserve_a == reserve_in + payment);
        assert(after.reserve_b == reserve_out - raw);
    } else {
        assert(after.reserve_b == reserve_in + payment);
        assert(after.reserve_a == reserve_out - raw);
        assert((reserve_in + payment) * (reserve_out - raw) == (reserve_out - raw) * (reserve_in
            + payment)) by (nonlinear_arith);
        assert(reserve_in * reserve_out == reserve_out * reserve_in) by (nonlinear_arith);
    }
}

/// A swap moves the payment into one reserve and the raw output out of
/// the other; the raw output is what the caller receives and the fee
/// together, and the caller receives something.
pub proof fn law_swap_moves_what_it_quotes(
    pair: PairView,
    a_to_b: bool,
    payment: nat,
    min_output: nat,
)
    requires
        pair.wf(),
        pair.swap(a_to_b, payment, min_output) is Ok,
    ensures
        ({
            let (after, amounts) = pair.swap(a_to_b, payment, min_output)->Ok_0;
            &&& after.reserve_in(a_to_b) == pair.reserve_in(a_to_b) + payment
            &&& after.reserve_out(a_to_b) + amounts.raw_output == pair.reserve_out(a_to_b)
            &&& amounts.user_amount + amounts.fee == amounts.raw_output
            &&& amounts.user_amount >= min_output
            &&& amounts.user_amount > 0
            &&& after.reserve_out(a_to_b) > 0
        }),
{
    let raw = swap_raw_output(payment, pair.reserve_in(a_to_b), pair.reserve_out(a_to_b));
    lemma_fee_within(raw, pair.fee_percent as nat);
}

/// A deposit that is taken uses no more than was offered, uses some of
/// both assets and mints at least the minimum asked for, which is more
/// than nothing.
pub proof fn law_provision_within_offer(
    amount_a: nat,
    amount_b: nat,
    reserve_a: nat,
    reserve_b: nat,
    total_shares: nat,
    min_shares: nat,
)
    requires
        reserve_a == 0 <==> reserve_b == 0,
        provision_spec(amount_a, amount_b, reserve_a, reserve_b, total_shares, min_shares) is Ok,
    ensures
        ({
            let p = provision_spec(
                amount_a,
                amount_b,
                reserve_a,
                reserve_b,
                total_shares,
                min_shares,
            )->Ok_0;
            &&& 0 < p.used_a <= amount_a
            &&& 0 < p.used_b <= amount_b
            &&& p.shares > 0
            &&& p.shares >= min_shares
            &&& (p.used_a == amount_a || p.used_b == amount_b)
        }),
{
    if reserve_a > 0 {
        lemma_matched_amounts_within(amount_a, amount_b, reserve_a, reserve_b);
    }
}

/// A mint into a pool that has shares does not dilute them: each reserve
/// per share is afterwards no less than before.
pub proof fn law_mint_does_not_dilute(
    pair: PairView,
    caller: AccountId,
    amount_a: nat,
    amount_b: nat,
    min_shares: nat,
)
    requires
        pair.wf(),
        pair.reserve_a > 0,
        pair.mint(caller, amount_a, amount_b, min_shares) is Ok,
    ensures
        ({
            let after = pair.mint(caller, amount_a, amount_b, min_shares)->Ok_0.0;
            &&& after.reserve_a * pair.total_shares() >= pair.reserve_a * after.total_shares()
            &&& after.reserve_b * pair.total_shares() >= pair.reserve_b * after.total_shares()
        }),
{
    let (after, receipt) = pair.mint(caller, amount_a, amount_b, min_shares)->Ok_0;
    law_mint_keeps_invariant(pair, caller, amount_a, amount_b, min_shares);
    let t = pair.total_shares();
    let s = receipt.shares;
    let ra = pair.reserve_a;
    let rb = pair.reserve_b;
    let ua = receipt.used_a;
    let ub = receipt.used_b;
    assert(after.owner_shares == pair.owner_shares);
    assert(after.total_shares() == t + s);
    assert(s <= ua * t / ra && s <= ub * t / rb);
    assert((ra + ua) * t >= ra * (t + s)) by (nonlinear_arith)
        requires
            ra > 0,
            s <= ua * t / ra,
    ;
    assert((rb + ub) * t >= rb * (t + s)) by (nonlinear_arith)
        requires
            rb > 0,
            s <= ub * t / rb,
    ;
}

/// A holder's burn does not dilute the shares that stay: each reserve per
/// share is afterwards no less than before.
pub proof fn law_burn_does_not_dilute(pair: PairView, caller: AccountId, shares: nat)
    requires
        pair.wf(),
        pair.remove_liquidity(caller, shares) is Ok,
    ensures
        ({
            let after = pair.remove_liquidity(caller, shares)->Ok_0.0;
            &&& after.reserve_a * pair.total_shares() >= pair.reserve_a * after.total_shares()
            &&& after.reserve_b * pair.total_shares() >= pair.reserve_b * after.total_shares()
        }),
{
    let (after, receipt) = pair.remove_liquidity(caller, shares)->Ok_0;
    law_remove_liquidity_keeps_invariant(pair, caller, shares);
    law_total_is_sum_of_shares(pair, caller);
    let t = pair.total_shares();
    let ra = pair.reserve_a;
    let rb = pair.reserve_b;
    let pa = payout(shares, ra, t);
    let pb = payout(shares, rb, t);
    lemma_payout_within(shares, ra, t);
    lemma_payout_within(shares, rb, t);
    assert(after.owner_shares == pair.owner_shares);
    assert(after.total_shares() == t - shares);
    assert((ra - pa) * t >= ra * (t - shares)) by (nonlinear_arith)
        requires
            t > 0,
            shares <= t,
            pa <= ra,
            pa == shares * ra / t,
    ;
    assert((rb - pb) * t >= rb * (t - shares)) by (nonlinear_arith)
        requires
            t > 0,
            shares <= t,
            pb <= rb,
            pb == shares * rb / t,
    ;
}

} // verus!
