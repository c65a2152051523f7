//! The formulas of the market maker: the constant-product quote, the matching
//! of a deposit to the pool's ratio, the shares it earns, the payout of a
//! burn, the split of a fee and the fee owed to a holder.
//!
//! Each formula is a spec function over natural numbers, and beside it stands
//! the executable function that computes it. Every division rounds down.

use vstd::prelude::*;
use crate::bignat::{BigNat, sqrt_floor};
use crate::error::DexError;

verus! {

/// The scale of the fee-per-share index, `10^12`.
pub const PRECISION: u64 = 1_000_000_000_000;

/// The shares that the first deposit into an empty pool never receives.
pub const MINIMUM_LIQUIDITY: u64 = 1000;

/// The scale of a holder's part of the pool as `get_lp_position` reports it.
pub const POOL_SHARE_SCALE: u64 = 100_000_000;

/// What a swap of `input` takes out of the pool before the fee.
pub open spec fn swap_raw_output(input: nat, reserve_in: nat, reserve_out: nat) -> nat {
    if reserve_in + input == 0 {
        0
    } else {
        input * reserve_out / (reserve_in + input)
    }
}

/// The fee on a raw output, at a rate in percent.
pub open spec fn swap_fee(raw_output: nat, fee_percent: nat) -> nat {
    raw_output * fee_percent / 100
}

/// A fee at a rate of at most a hundred percent is at most the output.
pub proof fn lemma_fee_within(raw_output: nat, fee_percent: nat)
    requires
        fee_percent <= 100,
    ensures
        swap_fee(raw_output, fee_percent) <= raw_output,
{
    let fee = raw_output * fee_percent / 100;
    assert(fee <= raw_output) by (nonlinear_arith)
        requires
            fee_percent <= 100,
            fee == raw_output * fee_percent / 100,
    ;
}

/// The three amounts of a swap.
pub ghost struct SwapQuoteView {
    pub raw_output: nat,
    pub fee: nat,
    pub user_amount: nat,
}

/// The three amounts of a swap.
#[derive(Debug)]
pub struct SwapQuote {
    /// What leaves the reserve.
    pub raw_output: BigNat,
    /// The part of it that is kept as fee.
    pub fee: BigNat,
    /// The part of it that goes to the caller.
    pub user_amount: BigNat,
}

impl View for SwapQuote {
    type V = SwapQuoteView;

    open spec fn view(&self) -> SwapQuoteView {
        SwapQuoteView {
            raw_output: self.raw_output@,
            fee: self.fee@,
            user_amount: self.user_amount@,
        }
    }
}

/// The quote for a swap of `input`, or the reason why there is none.
pub open spec fn quote_spec(
    input: nat,
    reserve_in: nat,
    reserve_out: nat,
    fee_percent: nat,
    min_output: nat,
) -> Result<SwapQuoteView, DexError> {
    let raw = swap_raw_output(input, reserve_in, reserve_out);
    let fee = swap_fee(raw, fee_percent);
    if input == 0 {
        Err(DexError::InvalidAmount)
    } else if raw == 0 || raw >= reserve_out {
        Err(DexError::InvalidOutput)
    } else if raw <= fee {
        Err(DexError::OutputTooSmall)
    } else if raw - fee < min_output {
        Err(DexError::SlippageExceeded)
    } else {
        Ok(SwapQuoteView { raw_output: raw, fee: fee, user_amount: (raw - fee) as nat })
    }
}

/// Computes `quote_spec`.
pub fn quote(
    input: &BigNat,
    reserve_in: &BigNat,
    reserve_out: &BigNat,
    fee_percent: u64,
    min_output: &BigNat,
) -> (r: Result<SwapQuote, DexError>)
    ensures
        match r {
            Ok(q) => quote_spec(input@, reserve_in@, reserve_out@, fee_percent as nat, min_output@)
                == Ok::<SwapQuoteView, DexError>(q@),
            Err(e) => quote_spec(
                input@,
                reserve_in@,
                reserve_out@,
                fee_percent as nat,
                min_output@,
            ) == Err::<SwapQuoteView, DexError>(e),
        },
{
    if input.is_zero() {
        return Err(DexError::InvalidAmount);
    }
    let raw: BigNat = input.mul(reserve_out).div(&reserve_in.add(input));
    if raw.is_zero() || raw.ge(reserve_out) {
        return Err(DexError::InvalidOutput);
    }
    let fee: BigNat = raw.mul(&BigNat::from_u64(fee_percent)).div(&BigNat::from_u64(100));
    if raw.le(&fee) {
        return Err(DexError::OutputTooSmall);
    }
    let user_amount: BigNat = raw.sub(&fee);
    if user_amount.lt(min_output) {
        return Err(DexError::SlippageExceeded);
    }
    Ok(SwapQuote { raw_output: raw, fee, user_amount })
}

/// The shares of the first deposit into an empty pool: the square root of
/// the product of the two amounts, less the locked minimum.
pub open spec fn first_shares(amount_a: nat, amount_b: nat) -> nat {
    let root = sqrt_floor(amount_a * amount_b);
    if root > MINIMUM_LIQUIDITY {
        (root - MINIMUM_LIQUIDITY) as nat
    } else {
        0
    }
}

/// The part of `amount` that matches `other_amount` at the pool's ratio.
pub open spec fn ratio_match(amount: nat, reserve_of_it: nat, reserve_of_other: nat) -> nat {
    if reserve_of_it == 0 {
        0
    } else {
        amount * reserve_of_other / reserve_of_it
    }
}

/// The amounts of a deposit that a pool with reserves takes: all of A and
/// the matching B where that much B is there, else all of B and the
/// matching A.
pub open spec fn matched_amounts(
    amount_a: nat,
    amount_b: nat,
    reserve_a: nat,
    reserve_b: nat,
) -> (nat, nat) {
    let optimal_b = ratio_match(amount_a, reserve_a, reserve_b);
    if optimal_b <= amount_b {
        (amount_a, optimal_b)
    } else {
        (ratio_match(amount_b, reserve_b, reserve_a), amount_b)
    }
}

/// The shares that the used amounts earn in a pool with reserves: the
/// smaller of the two proportions.
pub open spec fn matched_shares(
    used_a: nat,
    used_b: nat,
    total_shares: nat,
    reserve_a: nat,
    reserve_b: nat,
) -> nat {
    let from_a = ratio_match(used_a, reserve_a, total_shares);
    let from_b = ratio_match(used_b, reserve_b, total_shares);
    if from_a < from_b {
        from_a
    } else {
        from_b
    }
}

/// What a deposit puts into the pool and what it earns.
pub ghost struct ProvisionView {
    pub shares: nat,
    pub used_a: nat,
    pub used_b: nat,
}

/// What a deposit puts into the pool and what it earns.
#[derive(Debug)]
pub struct Provision {
    /// The shares to mint.
    pub shares: BigNat,
    /// The amount of asset A that goes into the reserve.
    pub used_a: BigNat,
    /// The amount of asset B that goes into the reserve.
    pub used_b: BigNat,
}

impl View for Provision {
    type V = ProvisionView;

    open spec fn view(&self) -> ProvisionView {
        ProvisionView { shares: self.shares@, used_a: self.used_a@, used_b: self.used_b@ }
    }
}

/// What a deposit of the two amounts puts into a pool and earns, or why
/// it is refused. Both reserves are zero, or neither is.
pub open spec fn provision_spec(
    amount_a: nat,
    amount_b: nat,
    reserve_a: nat,
    reserve_b: nat,
    total_shares: nat,
    min_shares: nat,
) -> Result<ProvisionView, DexError> {
    if amount_a == 0 || amount_b == 0 {
        Err(DexError::MissingAsset)
    } else if reserve_a == 0 && reserve_b == 0 {
        let shares = first_shares(amount_a, amount_b);
        if shares == 0 {
            Err(DexError::InitialLiquidityTooSmall)
        } else if shares < min_shares {
            Err(DexError::SlippageExceeded)
        } else {
            Ok(ProvisionView { shares: shares, used_a: amount_a, used_b: amount_b })
        }
    } else {
        let (used_a, used_b) = matched_amounts(amount_a, amount_b, reserve_a, reserve_b);
        let shares = matched_shares(used_a, used_b, total_shares, reserve_a, reserve_b);
        if used_a == 0 || used_b == 0 {
            Err(DexError::AmountsTooSmallToMatch)
        } else if shares < min_shares {
            Err(DexError::SlippageExceeded)
        } else if shares == 0 {
            Err(DexError::AmountsTooSmallToMatch)
        } else {
            Ok(ProvisionView { shares: shares, used_a: used_a, used_b: used_b })
        }
    }
}

/// A deposit never uses more than was offered.
pub proof fn lemma_matched_amounts_within(
    amount_a: nat,
    amount_b: nat,
    reserve_a: nat,
    reserve_b: nat,
)
    requires
        reserve_a > 0,
        reserve_b > 0,
    ensures
        matched_amounts(amount_a, amount_b, reserve_a, reserve_b).0 <= amount_a,
        matched_amounts(amount_a, amount_b, reserve_a, reserve_b).1 <= amount_b,
{
    let optimal_b = amount_a * reserve_b / reserve_a;
    let optimal_a = amount_b * reserve_a / reserve_b;
    if optimal_b > amount_b {
        assert(optimal_a <= amount_a) by (nonlinear_arith)
            requires
                reserve_a > 0,
                reserve_b > 0,
                optimal_b == amount_a * reserve_b / reserve_a,
                optimal_a == amount_b * reserve_a / reserve_b,
                optimal_b > amount_b,
        ;
    }
}

/// Computes `provision_spec`.
pub fn provision(
    amount_a: &BigNat,
    amount_b: &BigNat,
    reserve_a: &BigNat,
    reserve_b: &BigNat,
    total_shares: &BigNat,
    min_shares: &BigNat,
) -> (r: Result<Provision, DexError>)
    requires
        reserve_a@ == 0 <==> reserve_b@ == 0,
    ensures
        match r {
            Ok(p) => provision_spec(
                amount_a@,
                amount_b@,
                reserve_a@,
                reserve_b@,
                total_shares@,
                min_shares@,
            ) == Ok::<ProvisionView, DexError>(p@),
            Err(e) => provision_spec(
                amount_a@,
                amount_b@,
                reserve_a@,
                reserve_b@,
                total_shares@,
                min_shares@,
            ) == Err::<ProvisionView, DexError>(e),
        },
{
    if amount_a.is_zero() || amount_b.is_zero() {
        return Err(DexError::MissingAsset);
    }
    if reserve_a.is_zero() && reserve_b.is_zero() {
        let root: BigNat = amount_a.mul(amount_b).sqrt();
        let floor: BigNat = BigNat::from_u64(MINIMUM_LIQUIDITY);
        if root.le(&floor) {
            return Err(DexError::InitialLiquidityTooSmall);
        }
        let shares: BigNat = root.sub(&floor);
        if shares.lt(min_shares) {
            return Err(DexError::SlippageExceeded);
        }
        Ok(Provision { shares, used_a: amount_a.clone(), used_b: amount_b.clone() })
    } else {
        let optimal_b: BigNat = amount_a.mul(reserve_b).div(reserve_a);
        let (used_a, used_b) = if optimal_b.le(amount_b) {
            (amount_a.clone(), optimal_b)
        } else {
            (amount_b.mul(reserve_a).div(reserve_b), amount_b.clone())
        };
        if used_a.is_zero() || used_b.is_zero() {
            return Err(DexError::AmountsTooSmallToMatch);
        }
        let from_a: BigNat = used_a.mul(total_shares).div(reserve_a);
        let from_b: BigNat = used_b.mul(total_shares).div(reserve_b);
        let shares: BigNat = if from_a.lt(&from_b) {
            from_a
        } else {
            from_b
        };
        if shares.lt(min_shares) {
            return Err(DexError::SlippageExceeded);
        }
        if shares.is_zero() {
            return Err(DexError::AmountsTooSmallToMatch);
        }
        Ok(Provision { shares, used_a, used_b })
    }
}

/// What burning `shares` out of `total_shares` pays from `reserve`.
pub open spec fn payout(shares: nat, reserve: nat, total_shares: nat) -> nat {
    if total_shares == 0 {
        0
    } else {
        shares * reserve / total_shares
    }
}

/// Computes `payout`.
pub fn payout_of(shares: &BigNat, reserve: &BigNat, total_shares: &BigNat) -> (r: BigNat)
    ensures
        r@ == payout(shares@, reserve@, total_shares@),
{
    if total_shares.is_zero() {
        BigNat::zero()
    } else {
        shares.mul(reserve).div(total_shares)
    }
}

/// A burn of no more than all shares pays no more than the reserve, and
/// less than the reserve where some shares stay.
pub proof fn lemma_payout_within(shares: nat, reserve: nat, total_shares: nat)
    requires
        shares <= total_shares,
    ensures
        payout(shares, reserve, total_shares) <= reserve,
        shares < total_shares && reserve > 0 ==> payout(shares, reserve, total_shares) < reserve,
        shares == total_shares && total_shares > 0 ==> payout(shares, reserve, total_shares)
            == reserve,
{
    if total_shares > 0 {
        let p = shares * reserve / total_shares;
        assert(p <= reserve) by (nonlinear_arith)
            requires
                shares <= total_shares,
                total_shares > 0,
                p == shares * reserve / total_shares,
        ;
        if shares < total_shares && reserve > 0 {
            assert(p < reserve) by (nonlinear_arith)
                requires
                    shares < total_shares,
                    reserve > 0,
                    p == shares * reserve / total_shares,
            ;
        }
        if shares == total_shares {
            assert(p == reserve) by (nonlinear_arith)
                requires
                    total_shares > 0,
                    p == total_shares * reserve / total_shares,
            ;
        }
    }
}

/// The platform's part of the pool, scaled by `PRECISION`.
pub open spec fn owner_percentage(owner_shares: nat, total_lp_shares: nat) -> nat {
    if owner_shares + total_lp_shares == 0 {
        0
    } else {
        owner_shares * (PRECISION as nat) / (owner_shares + total_lp_shares)
    }
}

/// The platform's portion of a fee: a tenth of it, and of the other nine
/// tenths the platform's own part of the pool.
pub open spec fn owner_portion(fee: nat, owner_shares: nat, total_lp_shares: nat) -> nat {
    fee * (9 * owner_percentage(owner_shares, total_lp_shares) + (PRECISION as nat)) / (10
        * (PRECISION as nat))
}

/// The holders' portion of a fee: what the platform's portion leaves.
pub open spec fn lp_portion(fee: nat, owner_shares: nat, total_lp_shares: nat) -> nat {
    (fee - owner_portion(fee, owner_shares, total_lp_shares)) as nat
}

/// By how much a holders' portion raises the fee-per-share index.
pub open spec fn index_increment(portion: nat, total_lp_shares: nat) -> nat {
    if total_lp_shares == 0 {
        0
    } else {
        portion * (PRECISION as nat) / total_lp_shares
    }
}

/// The platform's portion is never more than the fee.
pub proof fn lemma_owner_portion_within(fee: nat, owner_shares: nat, total_lp_shares: nat)
    ensures
        owner_portion(fee, owner_shares, total_lp_shares) <= fee,
        owner_portion(fee, owner_shares, total_lp_shares) + lp_portion(
            fee,
            owner_shares,
            total_lp_shares,
        ) == fee,
{
    let pct = owner_percentage(owner_shares, total_lp_shares);
    let total = owner_shares + total_lp_shares;
    if total > 0 {
        assert(pct <= PRECISION) by (nonlinear_arith)
            requires
                total > 0,
                owner_shares <= total,
                pct == owner_shares * 1_000_000_000_000 / total,
                PRECISION == 1_000_000_000_000,
        ;
    }
    let numerator = 9 * pct + PRECISION;
    let portion = fee * numerator / 10_000_000_000_000;
    assert(portion <= fee) by (nonlinear_arith)
        requires
            numerator <= 10_000_000_000_000,
            portion == fee * numerator / 10_000_000_000_000,
    ;
}

/// The two portions of a fee.
#[derive(Debug)]
pub struct FeeSplit {
    /// What the platform is credited.
    pub owner_portion: BigNat,
    /// What is spread over the holders' shares.
    pub lp_portion: BigNat,
}

/// Splits a fee between the platform and the holders.
pub fn split_fee(fee: &BigNat, owner_shares: &BigNat, total_lp_shares: &BigNat) -> (r: FeeSplit)
    ensures
        r.owner_portion@ == owner_portion(fee@, owner_shares@, total_lp_shares@),
        r.lp_portion@ == lp_portion(fee@, owner_shares@, total_lp_shares@),
        r.owner_portion@ + r.lp_portion@ == fee@,
{
    let precision: BigNat = BigNat::from_u64(PRECISION);
    let total_shares: BigNat = owner_shares.add(total_lp_shares);
    let pct: BigNat = if total_shares.is_zero() {
        BigNat::zero()
    } else {
        owner_shares.mul(&precision).div(&total_shares)
    };
    let numerator: BigNat = BigNat::from_u64(9).mul(&pct).add(&precision);
    let denominator: BigNat = BigNat::from_u64(10).mul(&precision);
    let owner: BigNat = fee.mul(&numerator).div(&denominator);
    proof {
        lemma_owner_portion_within(fee@, owner_shares@, total_lp_shares@);
    }
    let lp: BigNat = fee.sub(&owner);
    FeeSplit { owner_portion: owner, lp_portion: lp }
}

/// Computes `index_increment`.
pub fn index_increment_of(portion: &BigNat, total_lp_shares: &BigNat) -> (r: BigNat)
    ensures
        r@ == index_increment(portion@, total_lp_shares@),
{
    if total_lp_shares.is_zero() {
        BigNat::zero()
    } else {
        portion.mul(&BigNat::from_u64(PRECISION)).div(total_lp_shares)
    }
}

/// The fee that a holder of `shares` is owed on one side, the index having
/// moved from `entry_index` to `fee_per_share`.
pub open spec fn owed_fee(fee_per_share: nat, entry_index: nat, shares: nat) -> nat {
    if fee_per_share > entry_index {
        ((fee_per_share - entry_index) as nat) * shares / (PRECISION as nat)
    } else {
        0
    }
}

/// Computes `owed_fee`.
pub fn owed_fee_of(fee_per_share: &BigNat, entry_index: &BigNat, shares: &BigNat) -> (r: BigNat)
    ensures
        r@ == owed_fee(fee_per_share@, entry_index@, shares@),
{
    if fee_per_share.gt(entry_index) {
        let r: BigNat = fee_per_share.sub(entry_index).mul(shares).div(
            &BigNat::from_u64(PRECISION),
        );
        r
    } else {
        BigNat::zero()
    }
}

} // verus!
