use digiko_dex::pair::preview_first_price;
use digiko_dex::{BigNat, DexError, LpPosition, Pair, PairParts, PendingDeposit, ShareClass};

const ALICE: u64 = 11;
const BOB: u64 = 22;
const CAROL: u64 = 33;

fn n(v: u128) -> BigNat {
    BigNat::from_u128(v)
}

fn v(x: &BigNat) -> u128 {
    x.to_u128().unwrap()
}

fn new_pair(fee_percent: u64) -> Pair {
    Pair::new(
        1,
        b"TKA-0001".to_vec(),
        b"TKB-0002".to_vec(),
        false,
        false,
        fee_percent,
        Some(ALICE),
    )
    .unwrap()
}

fn reserves(pair: &Pair) -> (u128, u128) {
    let r = pair.get_reserves();
    (v(&r.amount_a), v(&r.amount_b))
}

fn shares(pair: &Pair) -> (u128, u128) {
    let r = pair.get_total_shares();
    (v(&r.amount_a), v(&r.amount_b))
}

fn owner_fees(pair: &Pair) -> (u128, u128) {
    let r = pair.get_owner_fees();
    (v(&r.amount_a), v(&r.amount_b))
}

fn indexes(pair: &Pair) -> (u128, u128) {
    let r = pair.get_fee_indexes();
    (v(&r.amount_a), v(&r.amount_b))
}

fn sum_of_positions(pair: &Pair) -> u128 {
    pair.get_all_lp_info().iter().map(|info| v(&info.shares)).sum()
}

/// A pool of 100000 of each asset that ALICE provided, at one percent.
fn seeded_pair() -> Pair {
    let mut pair = new_pair(1);
    pair.mint(ALICE, &n(100_000), &n(100_000), &n(0)).unwrap();
    pair
}

/// A pool with reserves two to one that ALICE provided, at one percent.
fn two_to_one_pair() -> Pair {
    let mut pair = new_pair(1);
    pair.mint(ALICE, &n(200_000), &n(100_000), &n(0)).unwrap();
    pair
}

#[test]
fn new_pair_is_active_and_empty() {
    let pair = new_pair(3);
    assert_eq!(pair.id(), 1);
    assert_eq!(pair.creator(), Some(ALICE));
    assert!(pair.is_active());
    assert!(pair.is_pool_empty());
    assert!(pair.can_delete_pair());
    assert_eq!(reserves(&pair), (0, 0));
    assert_eq!(shares(&pair), (0, 0));
    assert_eq!(pair.get_lp_count(), 0);
    assert_eq!(pair.get_pending_user_count(), 0);
    let info = pair.get_pair_info();
    assert_eq!(info.token_a, b"TKA-0001".to_vec());
    assert_eq!(info.token_b, b"TKB-0002".to_vec());
    assert!(!info.token_a_is_native);
    assert!(!info.token_b_is_native);
    assert_eq!(info.fee_percent, 3);
    assert!(info.active);
    assert_eq!(info.creator, Some(ALICE));
}

#[test]
fn new_pair_refuses_equal_tokens() {
    let r = Pair::new(1, b"TKA-0001".to_vec(), b"TKA-0001".to_vec(), false, false, 1, Some(ALICE));
    assert_eq!(r.unwrap_err(), DexError::InvalidAssets);
}

#[test]
fn new_pair_refuses_a_fee_out_of_range() {
    for fee in [0u64, 11, 100] {
        let r = Pair::new(1, b"TKA-0001".to_vec(), b"TKB-0002".to_vec(), false, false, fee, Some(ALICE));
        assert_eq!(r.unwrap_err(), DexError::InvalidFee);
    }
    for fee in [1u64, 10] {
        assert!(
            Pair::new(1, b"TKA-0001".to_vec(), b"TKB-0002".to_vec(), false, false, fee, Some(ALICE))
                .is_ok()
        );
    }
}

#[test]
fn new_pair_refuses_two_native_sides() {
    let r = Pair::new(1, b"KLV".to_vec(), b"TKB-0002".to_vec(), true, true, 1, Some(ALICE));
    assert_eq!(r.unwrap_err(), DexError::InvalidAssets);
}

#[test]
fn new_pair_refuses_the_native_name_on_a_token_side() {
    let a = Pair::new(1, b"KLV".to_vec(), b"TKB-0002".to_vec(), false, false, 1, Some(ALICE));
    assert_eq!(a.unwrap_err(), DexError::InvalidAssets);
    let b = Pair::new(1, b"TKA-0001".to_vec(), b"KLV".to_vec(), false, false, 1, Some(ALICE));
    assert_eq!(b.unwrap_err(), DexError::InvalidAssets);
    assert!(Pair::new(1, b"KLV".to_vec(), b"TKB-0002".to_vec(), true, false, 1, Some(ALICE)).is_ok());
    assert!(Pair::new(1, b"TKA-0001".to_vec(), b"KLV".to_vec(), false, true, 1, Some(ALICE)).is_ok());
}

#[test]
fn first_mint_of_a_thousand_each_is_too_small() {
    let mut pair = new_pair(1);
    let r = pair.mint(ALICE, &n(1000), &n(1000), &n(0));
    assert_eq!(r.unwrap_err(), DexError::InitialLiquidityTooSmall);
    assert!(pair.is_pool_empty());
    assert_eq!(pair.get_lp_count(), 0);
}

#[test]
fn first_mint_then_swap() {
    let mut pair = new_pair(1);
    let receipt = pair.mint(ALICE, &n(100_000), &n(100_000), &n(0)).unwrap();
    assert_eq!(v(&receipt.shares), 99_000);
    assert_eq!(v(&receipt.used_a), 100_000);
    assert_eq!(v(&receipt.used_b), 100_000);
    assert_eq!(v(&receipt.refund_a), 0);
    assert_eq!(v(&receipt.refund_b), 0);
    assert_eq!(v(&receipt.fees_a), 0);
    assert_eq!(v(&receipt.fees_b), 0);
    assert_eq!(reserves(&pair), (100_000, 100_000));
    assert_eq!(shares(&pair), (0, 99_000));
    assert!(pair.is_lp(ALICE));
    assert_eq!(v(&pair.shares_of(ALICE)), 99_000);

    let q = pair.swap_a_to_b(&n(10_000), &n(0)).unwrap();
    assert_eq!(v(&q.raw_output), 9090);
    assert_eq!(v(&q.fee), 90);
    assert_eq!(v(&q.user_amount), 9000);
    assert_eq!(reserves(&pair), (110_000, 90_910));
    assert_eq!(owner_fees(&pair), (0, 9));
    assert_eq!(indexes(&pair), (0, 818_181_818));
    assert_eq!(shares(&pair), (0, 99_000));
}

#[test]
fn swap_b_to_a_mirrors_swap_a_to_b() {
    let mut pair = seeded_pair();
    let q = pair.swap_b_to_a(&n(10_000), &n(9000)).unwrap();
    assert_eq!(v(&q.user_amount), 9000);
    assert_eq!(reserves(&pair), (90_910, 110_000));
    assert_eq!(owner_fees(&pair), (9, 0));
    assert_eq!(indexes(&pair), (818_181_818, 0));
}

#[test]
fn swap_never_lowers_the_product_of_the_reserves() {
    let mut pair = seeded_pair();
    let mut product: u128 = 100_000 * 100_000;
    for (a_to_b, payment) in
        [(true, 10_000u128), (false, 3), (true, 77_777), (false, 250_000), (true, 2), (false, 1)]
    {
        if pair.swap(a_to_b, &n(payment), &n(0)).is_ok() {
            let (a, b) = reserves(&pair);
            assert!(a * b >= product);
            product = a * b;
        }
    }
    assert!(product > 100_000 * 100_000);
}

#[test]
fn swap_on_an_inactive_pair_is_refused() {
    let mut pair = seeded_pair();
    pair.set_pair_active(false);
    assert!(!pair.is_active());
    assert_eq!(pair.swap_a_to_b(&n(10_000), &n(0)).unwrap_err(), DexError::PairInactive);
    assert_eq!(reserves(&pair), (100_000, 100_000));
    pair.set_pair_active(true);
    assert!(pair.swap_a_to_b(&n(10_000), &n(0)).is_ok());
}

#[test]
fn swap_of_nothing_is_refused() {
    let mut pair = seeded_pair();
    assert_eq!(pair.swap_a_to_b(&n(0), &n(0)).unwrap_err(), DexError::InvalidAmount);
}

#[test]
fn swap_on_an_empty_pool_is_refused() {
    let mut pair = new_pair(1);
    assert_eq!(pair.swap_a_to_b(&n(10), &n(0)).unwrap_err(), DexError::InvalidOutput);
    assert_eq!(pair.swap_b_to_a(&n(10), &n(0)).unwrap_err(), DexError::InvalidOutput);
}

#[test]
fn swap_that_rounds_to_nothing_is_refused() {
    let mut pair = seeded_pair();
    assert_eq!(pair.swap_a_to_b(&n(1), &n(0)).unwrap_err(), DexError::InvalidOutput);
    assert_eq!(reserves(&pair), (100_000, 100_000));
}

#[test]
fn swap_below_the_minimum_output_is_refused() {
    let mut pair = seeded_pair();
    assert_eq!(pair.swap_a_to_b(&n(10_000), &n(9001)).unwrap_err(), DexError::SlippageExceeded);
    assert_eq!(reserves(&pair), (100_000, 100_000));
    assert_eq!(owner_fees(&pair), (0, 0));
    assert!(pair.swap_a_to_b(&n(10_000), &n(9000)).is_ok());
}

#[test]
fn set_pair_fee_takes_one_to_ten() {
    let mut pair = seeded_pair();
    assert_eq!(pair.set_pair_fee(0).unwrap_err(), DexError::InvalidFee);
    assert_eq!(pair.set_pair_fee(11).unwrap_err(), DexError::InvalidFee);
    assert_eq!(pair.get_pair_info().fee_percent, 1);
    pair.set_pair_fee(10).unwrap();
    assert_eq!(pair.get_pair_info().fee_percent, 10);
    let q = pair.swap_a_to_b(&n(10_000), &n(0)).unwrap();
    assert_eq!(v(&q.fee), 909);
    assert_eq!(v(&q.user_amount), 8181);
}

#[test]
fn two_equal_holders_share_a_fee_equally() {
    let mut pair = seeded_pair();
    let second = pair.mint(BOB, &n(100_000), &n(100_000), &n(99_000)).unwrap();
    assert_eq!(v(&second.shares), 99_000);
    assert_eq!(shares(&pair), (0, 198_000));
    assert_eq!(reserves(&pair), (200_000, 200_000));

    let q = pair.swap_a_to_b(&n(20_000), &n(0)).unwrap();
    assert_eq!(v(&q.raw_output), 18_181);
    assert_eq!(v(&q.fee), 181);
    assert_eq!(owner_fees(&pair), (0, 18));
    let for_holders: u128 = 181 - 18;
    assert_eq!(indexes(&pair), (0, 823_232_323));

    let alice = pair.claim_lp_fees(ALICE).unwrap();
    let bob = pair.claim_lp_fees(BOB).unwrap();
    assert_eq!(v(&alice.amount_a), 0);
    assert_eq!(v(&bob.amount_a), 0);
    assert_eq!(v(&alice.amount_b), 81);
    assert_eq!(v(&bob.amount_b), 81);
    assert!(2 * v(&alice.amount_b) <= for_holders);
    assert!(for_holders <= 2 * (v(&alice.amount_b) + 1));

    let again = pair.claim_lp_fees(ALICE).unwrap();
    assert_eq!((v(&again.amount_a), v(&again.amount_b)), (0, 0));
}

#[test]
fn skewed_mint_refunds_the_excess_of_b() {
    let mut pair = two_to_one_pair();
    assert_eq!(shares(&pair), (0, 140_421));
    let receipt = pair.mint(BOB, &n(50_000), &n(50_000), &n(0)).unwrap();
    assert_eq!(v(&receipt.used_a), 50_000);
    assert_eq!(v(&receipt.used_b), 25_000);
    assert_eq!(v(&receipt.refund_a), 0);
    assert_eq!(v(&receipt.refund_b), 25_000);
    assert_eq!(v(&receipt.shares), 35_105);
    assert_eq!(reserves(&pair), (250_000, 125_000));
    assert_eq!(shares(&pair), (0, 175_526));
    assert_eq!(v(&pair.shares_of(BOB)), 35_105);
}

#[test]
fn skewed_mint_refunds_the_excess_of_a() {
    let mut pair = two_to_one_pair();
    let receipt = pair.mint(BOB, &n(50_000), &n(10_000), &n(0)).unwrap();
    assert_eq!(v(&receipt.used_a), 20_000);
    assert_eq!(v(&receipt.used_b), 10_000);
    assert_eq!(v(&receipt.refund_a), 30_000);
    assert_eq!(v(&receipt.refund_b), 0);
    assert_eq!(v(&receipt.shares), 14_042);
    assert_eq!(reserves(&pair), (220_000, 110_000));
}

#[test]
fn mint_without_one_asset_is_refused() {
    let mut pair = seeded_pair();
    assert_eq!(pair.mint(BOB, &n(0), &n(5), &n(0)).unwrap_err(), DexError::MissingAsset);
    assert_eq!(pair.mint(BOB, &n(5), &n(0), &n(0)).unwrap_err(), DexError::MissingAsset);
    assert!(!pair.is_lp(BOB));
}

#[test]
fn mint_too_small_to_match_is_refused() {
    let mut pair = two_to_one_pair();
    assert_eq!(pair.mint(BOB, &n(1), &n(1), &n(0)).unwrap_err(), DexError::AmountsTooSmallToMatch);
    assert_eq!(reserves(&pair), (200_000, 100_000));
}

#[test]
fn mint_below_the_minimum_shares_is_refused() {
    let mut pair = two_to_one_pair();
    assert_eq!(
        pair.mint(BOB, &n(50_000), &n(50_000), &n(35_106)).unwrap_err(),
        DexError::SlippageExceeded
    );
    assert_eq!(reserves(&pair), (200_000, 100_000));
    assert!(!pair.is_lp(BOB));
}

#[test]
fn mint_on_an_inactive_pair_is_refused() {
    let mut pair = seeded_pair();
    pair.set_pair_active(false);
    assert_eq!(
        pair.mint(BOB, &n(100_000), &n(100_000), &n(0)).unwrap_err(),
        DexError::PairInactive
    );
}

#[test]
fn mint_pays_the_fees_owed_before_it_adds_shares() {
    let mut pair = seeded_pair();
    pair.swap_a_to_b(&n(10_000), &n(0)).unwrap();
    let owed = pair.calculate_lp_pending_fees(ALICE);
    assert_eq!((v(&owed.amount_a), v(&owed.amount_b)), (0, 80));
    let receipt = pair.mint(ALICE, &n(11_000), &n(9091), &n(0)).unwrap();
    assert_eq!(v(&receipt.fees_a), 0);
    assert_eq!(v(&receipt.fees_b), 80);
    let after = pair.calculate_lp_pending_fees(ALICE);
    assert_eq!((v(&after.amount_a), v(&after.amount_b)), (0, 0));
    assert_eq!(v(&pair.shares_of(ALICE)), 99_000 + v(&receipt.shares));
}

#[test]
fn newcomer_is_owed_nothing_of_earlier_fees() {
    let mut pair = seeded_pair();
    pair.swap_a_to_b(&n(10_000), &n(0)).unwrap();
    pair.mint(BOB, &n(11_000), &n(9091), &n(0)).unwrap();
    let bob = pair.calculate_lp_pending_fees(BOB);
    assert_eq!((v(&bob.amount_a), v(&bob.amount_b)), (0, 0));
    let alice = pair.calculate_lp_pending_fees(ALICE);
    assert_eq!((v(&alice.amount_a), v(&alice.amount_b)), (0, 80));
}

#[test]
fn total_is_the_sum_of_all_positions_after_every_operation() {
    let mut pair = seeded_pair();
    assert_eq!(sum_of_positions(&pair), shares(&pair).1);
    pair.mint(BOB, &n(40_000), &n(50_000), &n(0)).unwrap();
    assert_eq!(sum_of_positions(&pair), shares(&pair).1);
    pair.swap_a_to_b(&n(12_345), &n(0)).unwrap();
    assert_eq!(sum_of_positions(&pair), shares(&pair).1);
    pair.deposit_pending_a(CAROL, &n(5000)).unwrap();
    pair.deposit_pending_b(CAROL, &n(5000)).unwrap();
    pair.finalize_liquidity(CAROL, &n(0)).unwrap();
    assert_eq!(sum_of_positions(&pair), shares(&pair).1);
    pair.remove_liquidity(BOB, &n(1000)).unwrap();
    assert_eq!(sum_of_positions(&pair), shares(&pair).1);
    let all_of_alice = pair.shares_of(ALICE);
    pair.remove_liquidity(ALICE, &all_of_alice).unwrap();
    assert_eq!(sum_of_positions(&pair), shares(&pair).1);
    assert!(!pair.is_lp(ALICE));
    assert_eq!(pair.get_lp_list(), vec![BOB, CAROL]);
    pair.claim_lp_fees(BOB).unwrap();
    assert_eq!(sum_of_positions(&pair), shares(&pair).1);
}

#[test]
fn entry_indexes_never_pass_the_current_indexes() {
    let mut pair = seeded_pair();
    pair.swap_a_to_b(&n(10_000), &n(0)).unwrap();
    pair.mint(BOB, &n(11_000), &n(9091), &n(0)).unwrap();
    pair.swap_b_to_a(&n(20_000), &n(0)).unwrap();
    pair.claim_lp_fees(ALICE).unwrap();
    pair.swap_a_to_b(&n(5000), &n(0)).unwrap();
    let parts = pair.into_parts();
    assert_eq!(parts.lps.len(), 2);
    for position in parts.lps.iter() {
        assert!(position.entry_index_a.le(&parts.fee_per_share_a));
        assert!(position.entry_index_b.le(&parts.fee_per_share_b));
    }
    assert!(parts.lps[0].entry_index_a.same(&parts.fee_per_share_a));
    assert!(parts.lps[0].entry_index_b.lt(&parts.fee_per_share_b));
    assert!(parts.lps[1].entry_index_a.lt(&parts.fee_per_share_a));
    assert!(parts.lps[1].entry_index_b.lt(&parts.fee_per_share_b));
}

#[test]
fn deposit_then_withdraw_hands_back_the_deposit() {
    let mut pair = seeded_pair();
    pair.swap_a_to_b(&n(10_000), &n(0)).unwrap();
    let reserves_before = reserves(&pair);
    let shares_before = shares(&pair);
    pair.deposit_pending_a(BOB, &n(4321)).unwrap();
    assert_eq!(pair.get_pending_user_count(), 1);
    assert!(pair.user_has_pending(BOB));
    let back = pair.withdraw_pending_a(BOB).unwrap();
    assert_eq!(v(&back), 4321);
    assert_eq!(reserves(&pair), reserves_before);
    assert_eq!(shares(&pair), shares_before);
    assert_eq!(pair.get_pending_user_count(), 0);
    assert!(!pair.user_has_pending(BOB));
    assert!(!pair.is_lp(BOB));
}

#[test]
fn withdraw_hands_back_all_that_is_pending() {
    let mut pair = new_pair(1);
    pair.deposit_pending_a(BOB, &n(5)).unwrap();
    pair.deposit_pending_a(BOB, &n(3)).unwrap();
    assert_eq!(v(&pair.withdraw_pending_a(BOB).unwrap()), 8);
}

#[test]
fn pending_accounts_are_counted_once() {
    let mut pair = new_pair(1);
    pair.deposit_pending_a(BOB, &n(500)).unwrap();
    assert_eq!(pair.get_pending_user_count(), 1);
    pair.deposit_pending_b(BOB, &n(300)).unwrap();
    assert_eq!(pair.get_pending_user_count(), 1);
    pair.deposit_pending_b(CAROL, &n(1)).unwrap();
    assert_eq!(pair.get_pending_user_count(), 2);
    assert!(!pair.can_delete_pair());
    let pending = pair.pending_of(BOB);
    assert_eq!((v(&pending.amount_a), v(&pending.amount_b)), (500, 300));
    assert_eq!(v(&pair.withdraw_pending_a(BOB).unwrap()), 500);
    assert_eq!(pair.get_pending_user_count(), 2);
    assert_eq!(v(&pair.withdraw_pending_b(BOB).unwrap()), 300);
    assert_eq!(pair.get_pending_user_count(), 1);
    let all = pair.withdraw_pending_all(CAROL).unwrap();
    assert_eq!((v(&all.amount_a), v(&all.amount_b)), (0, 1));
    assert_eq!(pair.get_pending_user_count(), 0);
    assert!(pair.can_delete_pair());
}

#[test]
fn deposit_of_nothing_is_refused() {
    let mut pair = new_pair(1);
    assert_eq!(pair.deposit_pending_a(BOB, &n(0)).unwrap_err(), DexError::InvalidAmount);
    assert_eq!(pair.deposit_pending_b(BOB, &n(0)).unwrap_err(), DexError::InvalidAmount);
    assert_eq!(pair.get_pending_user_count(), 0);
}

#[test]
fn withdraw_of_nothing_is_refused() {
    let mut pair = new_pair(1);
    assert_eq!(pair.withdraw_pending_a(BOB).unwrap_err(), DexError::NothingToClaim);
    assert_eq!(pair.withdraw_pending_b(BOB).unwrap_err(), DexError::NothingToClaim);
    assert_eq!(pair.withdraw_pending_all(BOB).unwrap_err(), DexError::NothingToClaim);
    pair.deposit_pending_b(BOB, &n(9)).unwrap();
    assert_eq!(pair.withdraw_pending_a(BOB).unwrap_err(), DexError::NothingToClaim);
    assert_eq!(pair.get_pending_user_count(), 1);
}

#[test]
fn finalize_into_an_empty_pool_sets_the_ratio() {
    let mut pair = new_pair(1);
    pair.deposit_pending_a(BOB, &n(200_000)).unwrap();
    pair.deposit_pending_b(BOB, &n(100_000)).unwrap();
    let receipt = pair.finalize_liquidity(BOB, &n(140_421)).unwrap();
    assert_eq!(v(&receipt.shares), 140_421);
    assert_eq!(v(&receipt.used_a), 200_000);
    assert_eq!(v(&receipt.used_b), 100_000);
    assert_eq!(reserves(&pair), (200_000, 100_000));
    assert_eq!(pair.get_pending_user_count(), 0);
    assert!(!pair.user_has_pending(BOB));
    assert_eq!(v(&pair.shares_of(BOB)), 140_421);
}

#[test]
fn finalize_leaves_the_excess_pending() {
    let mut pair = two_to_one_pair();
    pair.deposit_pending_a(BOB, &n(50_000)).unwrap();
    pair.deposit_pending_b(BOB, &n(50_000)).unwrap();
    let info = pair.get_pending_deposits(BOB);
    assert_eq!(v(&info.pending_a), 50_000);
    assert_eq!(v(&info.pending_b), 50_000);
    assert_eq!(v(&info.estimated_shares), 35_105);
    assert_eq!(v(&info.estimated_excess_b), 25_000);
    let receipt = pair.finalize_liquidity(BOB, &n(0)).unwrap();
    assert_eq!(v(&receipt.shares), 35_105);
    assert_eq!(v(&receipt.used_a), 50_000);
    assert_eq!(v(&receipt.used_b), 25_000);
    assert_eq!(reserves(&pair), (250_000, 125_000));
    let pending = pair.pending_of(BOB);
    assert_eq!((v(&pending.amount_a), v(&pending.amount_b)), (0, 25_000));
    assert_eq!(pair.get_pending_user_count(), 1);
    assert_eq!(v(&pair.withdraw_pending_b(BOB).unwrap()), 25_000);
    assert_eq!(pair.get_pending_user_count(), 0);
}

#[test]
fn finalize_without_both_assets_is_refused() {
    let mut pair = two_to_one_pair();
    assert_eq!(pair.finalize_liquidity(BOB, &n(0)).unwrap_err(), DexError::MissingAsset);
    pair.deposit_pending_a(BOB, &n(50_000)).unwrap();
    assert_eq!(pair.finalize_liquidity(BOB, &n(0)).unwrap_err(), DexError::MissingAsset);
    let pending = pair.pending_of(BOB);
    assert_eq!((v(&pending.amount_a), v(&pending.amount_b)), (50_000, 0));
}

#[test]
fn finalize_refusals_leave_the_deposit_pending() {
    let mut pair = two_to_one_pair();
    pair.deposit_pending_a(BOB, &n(50_000)).unwrap();
    pair.deposit_pending_b(BOB, &n(50_000)).unwrap();
    assert_eq!(pair.finalize_liquidity(BOB, &n(35_106)).unwrap_err(), DexError::SlippageExceeded);
    pair.set_pair_active(false);
    assert_eq!(pair.finalize_liquidity(BOB, &n(0)).unwrap_err(), DexError::PairInactive);
    let pending = pair.pending_of(BOB);
    assert_eq!((v(&pending.amount_a), v(&pending.amount_b)), (50_000, 50_000));
    assert_eq!(reserves(&pair), (200_000, 100_000));

    let mut empty = new_pair(1);
    empty.deposit_pending_a(BOB, &n(1000)).unwrap();
    empty.deposit_pending_b(BOB, &n(1000)).unwrap();
    assert_eq!(
        empty.finalize_liquidity(BOB, &n(0)).unwrap_err(),
        DexError::InitialLiquidityTooSmall
    );
    let mut tiny = two_to_one_pair();
    tiny.deposit_pending_a(BOB, &n(1)).unwrap();
    tiny.deposit_pending_b(BOB, &n(1)).unwrap();
    assert_eq!(tiny.finalize_liquidity(BOB, &n(0)).unwrap_err(), DexError::AmountsTooSmallToMatch);
}

#[test]
fn estimates_of_a_pending_deposit() {
    let mut pair = new_pair(1);
    let none = pair.get_pending_deposits(BOB);
    assert_eq!(v(&none.estimated_shares), 0);
    pair.deposit_pending_a(BOB, &n(100_000)).unwrap();
    let half = pair.get_pending_deposits(BOB);
    assert_eq!((v(&half.pending_a), v(&half.pending_b)), (100_000, 0));
    assert_eq!((v(&half.estimated_shares), v(&half.estimated_excess_b)), (0, 0));
    pair.deposit_pending_b(BOB, &n(100_000)).unwrap();
    let both = pair.get_pending_deposits(BOB);
    assert_eq!((v(&both.estimated_shares), v(&both.estimated_excess_b)), (99_000, 0));

    let mut skewed = two_to_one_pair();
    skewed.deposit_pending_a(BOB, &n(50_000)).unwrap();
    skewed.deposit_pending_b(BOB, &n(10_000)).unwrap();
    let info = skewed.get_pending_deposits(BOB);
    assert_eq!((v(&info.estimated_shares), v(&info.estimated_excess_b)), (14_042, 0));
}

#[test]
fn remove_liquidity_pays_the_proportional_part() {
    let mut pair = seeded_pair();
    pair.swap_a_to_b(&n(10_000), &n(0)).unwrap();
    let receipt = pair.remove_liquidity(ALICE, &n(49_500)).unwrap();
    assert_eq!(v(&receipt.amount_a), 55_000);
    assert_eq!(v(&receipt.amount_b), 45_455);
    assert_eq!(v(&receipt.fees_a), 0);
    assert_eq!(v(&receipt.fees_b), 80);
    assert_eq!(reserves(&pair), (55_000, 45_455));
    assert_eq!(shares(&pair), (0, 49_500));
    assert_eq!(v(&pair.shares_of(ALICE)), 49_500);
    assert_eq!(pair.get_lp_count(), 1);
}

#[test]
fn remove_of_all_shares_drains_the_pool_and_the_holder_leaves() {
    let mut pair = seeded_pair();
    pair.swap_a_to_b(&n(10_000), &n(0)).unwrap();
    let receipt = pair.remove_liquidity(ALICE, &n(99_000)).unwrap();
    assert_eq!(v(&receipt.amount_a), 110_000);
    assert_eq!(v(&receipt.amount_b), 90_910);
    assert_eq!(reserves(&pair), (0, 0));
    assert_eq!(shares(&pair), (0, 0));
    assert!(!pair.is_lp(ALICE));
    assert_eq!(pair.get_lp_count(), 0);
    assert!(pair.is_pool_empty());
    assert!(!pair.can_delete_pair());
    pair.owner_claim_fees().unwrap();
    assert!(pair.can_delete_pair());
}

#[test]
fn remove_of_more_than_held_is_refused() {
    let mut pair = seeded_pair();
    assert_eq!(
        pair.remove_liquidity(ALICE, &n(99_001)).unwrap_err(),
        DexError::InsufficientShares
    );
    assert_eq!(pair.remove_liquidity(BOB, &n(1)).unwrap_err(), DexError::InsufficientShares);
    assert_eq!(v(&pair.shares_of(ALICE)), 99_000);
}

#[test]
fn remove_of_no_shares_is_refused() {
    let mut pair = seeded_pair();
    assert_eq!(pair.remove_liquidity(ALICE, &n(0)).unwrap_err(), DexError::InvalidAmount);
    assert_eq!(pair.remove_liquidity(BOB, &n(0)).unwrap_err(), DexError::InvalidAmount);
}

fn position(account: u64, shares: u128, entry_a: u128, entry_b: u128) -> LpPosition {
    LpPosition {
        account,
        shares: n(shares),
        entry_index_a: n(entry_a),
        entry_index_b: n(entry_b),
    }
}

fn parts_with(
    reserve: u128,
    total_lp_shares: u128,
    lps: Vec<LpPosition>,
    pendings: Vec<PendingDeposit>,
    pending_user_count: u64,
) -> PairParts {
    PairParts {
        id: 4,
        token_a: b"TKA-0001".to_vec(),
        token_b: b"TKB-0002".to_vec(),
        token_a_is_native: false,
        token_b_is_native: false,
        creator: Some(ALICE),
        reserve_a: n(reserve),
        reserve_b: n(reserve),
        fee_percent: 2,
        active: true,
        owner_shares: n(0),
        total_lp_shares: n(total_lp_shares),
        lps,
        fee_per_share_a: n(10),
        fee_per_share_b: n(20),
        owner_fees_a: n(0),
        owner_fees_b: n(0),
        pendings,
        pending_user_count,
    }
}

#[test]
fn remove_that_pays_nothing_is_refused() {
    let parts = parts_with(5, 1000, vec![position(ALICE, 1000, 10, 20)], vec![], 0);
    let mut pair = Pair::restore(parts).unwrap();
    assert_eq!(pair.remove_liquidity(ALICE, &n(1)).unwrap_err(), DexError::WithdrawalTooSmall);
    assert_eq!(v(&pair.shares_of(ALICE)), 1000);
    let receipt = pair.remove_liquidity(ALICE, &n(200)).unwrap();
    assert_eq!((v(&receipt.amount_a), v(&receipt.amount_b)), (1, 1));
}

#[test]
fn claim_by_an_account_without_shares_is_refused() {
    let mut pair = seeded_pair();
    assert_eq!(pair.claim_lp_fees(BOB).unwrap_err(), DexError::NothingToClaim);
}

#[test]
fn claim_pays_what_is_owed_once() {
    let mut pair = seeded_pair();
    pair.swap_a_to_b(&n(10_000), &n(0)).unwrap();
    pair.swap_b_to_a(&n(10_000), &n(0)).unwrap();
    let position = pair.get_lp_position(ALICE);
    assert_eq!(v(&position.shares), 99_000);
    assert_eq!(v(&position.pool_share), 100_000_000);
    let owed = pair.claim_lp_fees(ALICE).unwrap();
    assert_eq!(v(&owed.amount_a), v(&position.fees_a));
    assert_eq!(v(&owed.amount_b), v(&position.fees_b));
    assert!(v(&owed.amount_a) > 0);
    assert_eq!(v(&owed.amount_b), 80);
    let direct = pair.claim_pending_fees_internal(ALICE);
    assert_eq!((v(&direct.amount_a), v(&direct.amount_b)), (0, 0));
    let stranger = pair.claim_pending_fees_internal(BOB);
    assert_eq!((v(&stranger.amount_a), v(&stranger.amount_b)), (0, 0));
}

#[test]
fn lp_views_report_every_holder() {
    let mut pair = seeded_pair();
    pair.mint(BOB, &n(50_000), &n(50_000), &n(0)).unwrap();
    pair.swap_a_to_b(&n(30_000), &n(0)).unwrap();
    assert_eq!(pair.get_lp_list(), vec![ALICE, BOB]);
    assert_eq!(pair.get_lp_count(), 2);
    let all = pair.get_all_lp_info();
    assert_eq!(all.len(), 2);
    assert_eq!(all[0].account, ALICE);
    assert_eq!(all[1].account, BOB);
    assert_eq!(v(&all[0].shares), 99_000);
    assert_eq!(v(&all[1].shares), 49_500);
    let bob = pair.get_lp_info(BOB);
    assert_eq!(bob.account, BOB);
    assert_eq!(v(&bob.shares), 49_500);
    assert_eq!(v(&bob.fees_b), v(&all[1].fees_b));
    assert_eq!(v(&all[0].fees_b), 2 * v(&all[1].fees_b) + 1);
    let position = pair.get_lp_position(BOB);
    assert_eq!(v(&position.pool_share), 33_333_333);
    let nobody = pair.get_lp_position(CAROL);
    assert_eq!(v(&nobody.shares), 0);
    assert_eq!(v(&nobody.pool_share), 0);
}

#[test]
fn add_lp_shares_joins_at_the_current_indexes() {
    let mut pair = seeded_pair();
    pair.swap_a_to_b(&n(10_000), &n(0)).unwrap();
    pair.add_lp_shares(BOB, &n(1000));
    pair.add_lp_shares(BOB, &n(0));
    pair.add_lp_shares(CAROL, &n(0));
    assert_eq!(pair.get_lp_list(), vec![ALICE, BOB]);
    assert_eq!(shares(&pair), (0, 100_000));
    let owed = pair.calculate_lp_pending_fees(BOB);
    assert_eq!((v(&owed.amount_a), v(&owed.amount_b)), (0, 0));
    pair.add_lp_shares(BOB, &n(500));
    assert_eq!(v(&pair.shares_of(BOB)), 1500);
    assert_eq!(sum_of_positions(&pair), 100_500);
}

#[test]
fn distribute_fee_credits_the_platform_and_raises_the_index() {
    let mut pair = seeded_pair();
    pair.distribute_fee(&n(90), true);
    assert_eq!(owner_fees(&pair), (9, 0));
    assert_eq!(indexes(&pair), (818_181_818, 0));
    pair.distribute_fee(&n(0), false);
    assert_eq!(owner_fees(&pair), (9, 0));
    assert_eq!(indexes(&pair), (818_181_818, 0));
    pair.distribute_fee(&n(90), false);
    assert_eq!(owner_fees(&pair), (9, 9));
    assert_eq!(indexes(&pair), (818_181_818, 818_181_818));
}

#[test]
fn distribute_fee_without_any_shares_does_nothing() {
    let mut pair = new_pair(1);
    pair.distribute_fee(&n(90), true);
    assert_eq!(owner_fees(&pair), (0, 0));
    assert_eq!(indexes(&pair), (0, 0));
}

#[test]
fn platform_liquidity_takes_the_blended_portion() {
    let mut pair = new_pair(1);
    pair.owner_initialize_liquidity(&n(100_000), &n(100_000)).unwrap();
    assert_eq!(shares(&pair), (100_000, 0));
    assert_eq!(reserves(&pair), (100_000, 100_000));
    pair.distribute_fee(&n(1000), true);
    assert_eq!(owner_fees(&pair), (1000, 0));
    assert_eq!(indexes(&pair), (0, 0));

    pair.mint(BOB, &n(300_000), &n(300_000), &n(0)).unwrap();
    assert_eq!(shares(&pair), (100_000, 300_000));
    pair.distribute_fee(&n(1000), false);
    assert_eq!(owner_fees(&pair), (1000, 325));
    assert_eq!(indexes(&pair), (0, 2_250_000_000));
    let bob = pair.calculate_lp_pending_fees(BOB);
    assert_eq!(v(&bob.amount_b), 675);
}

#[test]
fn platform_liquidity_only_before_holders_join() {
    let mut pair = seeded_pair();
    assert_eq!(
        pair.owner_initialize_liquidity(&n(1000), &n(1000)).unwrap_err(),
        DexError::PairNotEmpty
    );
    let mut fresh = new_pair(1);
    assert_eq!(
        fresh.owner_initialize_liquidity(&n(0), &n(1000)).unwrap_err(),
        DexError::MissingAsset
    );
    assert_eq!(
        fresh.owner_initialize_liquidity(&n(1000), &n(0)).unwrap_err(),
        DexError::MissingAsset
    );
    fresh.owner_initialize_liquidity(&n(400), &n(900)).unwrap();
    assert_eq!(shares(&fresh), (600, 0));
    fresh.owner_initialize_liquidity(&n(400), &n(900)).unwrap();
    assert_eq!(shares(&fresh), (1200, 0));
    assert_eq!(reserves(&fresh), (800, 1800));
}

#[test]
fn platform_removes_its_liquidity() {
    let mut pair = new_pair(1);
    pair.owner_initialize_liquidity(&n(100_000), &n(100_000)).unwrap();
    pair.mint(BOB, &n(300_000), &n(300_000), &n(0)).unwrap();
    assert_eq!(pair.owner_remove_liquidity(&n(100_001)).unwrap_err(), DexError::InsufficientShares);
    assert_eq!(pair.owner_remove_liquidity(&n(0)).unwrap_err(), DexError::InvalidAmount);
    let out = pair.owner_remove_liquidity(&n(40_000)).unwrap();
    assert_eq!((v(&out.amount_a), v(&out.amount_b)), (40_000, 40_000));
    assert_eq!(shares(&pair), (60_000, 300_000));
    assert_eq!(reserves(&pair), (360_000, 360_000));
}

#[test]
fn platform_claims_its_fees() {
    let mut pair = seeded_pair();
    assert_eq!(pair.owner_claim_fees().unwrap_err(), DexError::NothingToClaim);
    pair.swap_a_to_b(&n(10_000), &n(0)).unwrap();
    let fees = pair.owner_claim_fees().unwrap();
    assert_eq!((v(&fees.amount_a), v(&fees.amount_b)), (0, 9));
    assert_eq!(owner_fees(&pair), (0, 0));
    assert_eq!(pair.owner_claim_fees().unwrap_err(), DexError::NothingToClaim);
}

#[test]
fn quote_swap_previews_a_swap() {
    let pair = seeded_pair();
    let (user_gets, fee) = pair.quote_swap(&n(10_000), true);
    assert_eq!((v(&user_gets), v(&fee)), (9000, 90));
    let (none, no_fee) = pair.quote_swap(&n(1), false);
    assert_eq!((v(&none), v(&no_fee)), (0, 0));
    let (zero, zero_fee) = pair.quote_swap(&n(0), true);
    assert_eq!((v(&zero), v(&zero_fee)), (0, 0));
    let empty = new_pair(1);
    let (a, b) = empty.quote_swap(&n(10_000), true);
    assert_eq!((v(&a), v(&b)), (0, 0));
}

#[test]
fn quote_swap_reverse_gives_an_input_that_suffices() {
    let mut pair = seeded_pair();
    pair.swap_a_to_b(&n(10_000), &n(0)).unwrap();
    let (input, fee) = pair.quote_swap_reverse(&n(9000), true);
    assert_eq!((v(&input), v(&fee)), (12_221, 90));
    let (too_much, no_fee) = pair.quote_swap_reverse(&n(90_910), true);
    assert_eq!((v(&too_much), v(&no_fee)), (0, 0));
    let (nothing, _) = pair.quote_swap_reverse(&n(0), true);
    assert_eq!(v(&nothing), 0);
    let q = pair.swap_a_to_b(&input, &n(9000)).unwrap();
    assert!(v(&q.user_amount) >= 9000);
}

#[test]
fn get_swap_quote_is_the_output_less_the_fee() {
    let pair = seeded_pair();
    assert_eq!(v(&pair.get_swap_quote(&n(10_000), true)), 9000);
    assert_eq!(v(&pair.get_swap_quote(&n(10_000), false)), 9000);
    assert_eq!(v(&pair.get_swap_quote(&n(0), true)), 0);
    assert_eq!(v(&new_pair(1).get_swap_quote(&n(10_000), true)), 0);
}

#[test]
fn preview_of_the_first_deposit() {
    let pair = new_pair(1);
    assert_eq!(v(&pair.preview_first_liquidity(&n(100_000), &n(100_000))), 99_000);
    assert_eq!(v(&pair.preview_first_liquidity(&n(1000), &n(1000))), 0);
    assert_eq!(v(&seeded_pair().preview_first_liquidity(&n(100_000), &n(100_000))), 0);
    assert_eq!(v(&preview_first_price(&n(2), &n(1))), 500_000_000_000);
    assert_eq!(v(&preview_first_price(&n(0), &n(1))), 0);
    assert_eq!(v(&preview_first_price(&n(3), &n(10))), 3_333_333_333_333);
}

#[test]
fn restore_gives_back_what_into_parts_took() {
    let mut pair = seeded_pair();
    pair.mint(BOB, &n(50_000), &n(50_000), &n(0)).unwrap();
    pair.swap_a_to_b(&n(30_000), &n(0)).unwrap();
    pair.deposit_pending_b(CAROL, &n(77)).unwrap();
    let reserves_before = reserves(&pair);
    let indexes_before = indexes(&pair);
    let restored = Pair::restore(pair.into_parts()).unwrap();
    assert_eq!(reserves(&restored), reserves_before);
    assert_eq!(indexes(&restored), indexes_before);
    assert_eq!(restored.get_lp_list(), vec![ALICE, BOB]);
    assert_eq!(restored.get_pending_user_count(), 1);
    assert_eq!(v(&restored.pending_of(CAROL).amount_b), 77);
}

#[test]
fn restore_refuses_what_breaks_the_invariant() {
    let good = || vec![position(ALICE, 600, 10, 20), position(BOB, 400, 0, 0)];
    assert!(Pair::restore(parts_with(5, 1000, good(), vec![], 0)).is_some());
    assert!(Pair::restore(parts_with(5, 999, good(), vec![], 0)).is_none());
    assert!(Pair::restore(parts_with(
        5,
        1000,
        vec![position(ALICE, 600, 10, 20), position(ALICE, 400, 0, 0)],
        vec![],
        0
    ))
    .is_none());
    assert!(Pair::restore(parts_with(
        5,
        600,
        vec![position(ALICE, 600, 10, 20), position(BOB, 0, 0, 0)],
        vec![],
        0
    ))
    .is_none());
    assert!(Pair::restore(parts_with(5, 600, vec![position(ALICE, 600, 11, 20)], vec![], 0))
        .is_none());
    assert!(Pair::restore(parts_with(5, 600, vec![position(ALICE, 600, 10, 21)], vec![], 0))
        .is_none());
    let pending = |a: u128, b: u128| PendingDeposit { account: CAROL, amount_a: n(a), amount_b: n(b) };
    assert!(Pair::restore(parts_with(5, 1000, good(), vec![pending(1, 0)], 1)).is_some());
    assert!(Pair::restore(parts_with(5, 1000, good(), vec![pending(1, 0)], 0)).is_none());
    assert!(Pair::restore(parts_with(5, 1000, good(), vec![pending(0, 0)], 1)).is_none());
    assert!(Pair::restore(parts_with(5, 1000, good(), vec![pending(1, 0), pending(0, 1)], 2))
        .is_none());
    let mut lopsided = parts_with(5, 1000, good(), vec![], 0);
    lopsided.reserve_b = n(0);
    assert!(Pair::restore(lopsided).is_none());
    let mut no_fee = parts_with(5, 1000, good(), vec![], 0);
    no_fee.fee_percent = 0;
    assert!(Pair::restore(no_fee).is_none());
}

#[test]
fn shares_of_both_classes_are_minted_and_burned() {
    let mut pair = seeded_pair();
    assert_eq!(v(&pair.class_shares(ShareClass::Platform)), 0);
    assert_eq!(v(&pair.class_shares(ShareClass::Lp(ALICE))), 99_000);
    assert_eq!(v(&pair.class_shares(ShareClass::Lp(BOB))), 0);
    pair.mint_shares(ShareClass::Platform, &n(500));
    pair.mint_shares(ShareClass::Lp(BOB), &n(1000));
    assert_eq!(shares(&pair), (500, 100_000));
    assert_eq!(sum_of_positions(&pair), 100_000);
    assert_eq!(
        pair.burn_shares(ShareClass::Platform, &n(501)).unwrap_err(),
        DexError::InsufficientShares
    );
    assert_eq!(
        pair.burn_shares(ShareClass::Lp(CAROL), &n(1)).unwrap_err(),
        DexError::InsufficientShares
    );
    assert_eq!(pair.burn_shares(ShareClass::Lp(BOB), &n(0)).unwrap_err(), DexError::InvalidAmount);
    pair.burn_shares(ShareClass::Platform, &n(200)).unwrap();
    pair.burn_shares(ShareClass::Lp(BOB), &n(1000)).unwrap();
    pair.burn_shares(ShareClass::Lp(ALICE), &n(9000)).unwrap();
    assert_eq!(shares(&pair), (300, 90_000));
    assert_eq!(pair.get_lp_list(), vec![ALICE]);
    assert_eq!(sum_of_positions(&pair), 90_000);
    assert_eq!(reserves(&pair), (100_000, 100_000));
}
