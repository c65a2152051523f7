use digiko_dex::{BigNat, Dex, DexError, LpPosition, PairParts, Payment, Transfer};

const ADMIN: u64 = 1;
const ALICE: u64 = 11;
const BOB: u64 = 22;

fn n(v: u128) -> BigNat {
    BigNat::from_u128(v)
}

fn v(x: &BigNat) -> u128 {
    x.to_u128().unwrap()
}

fn token(name: &str) -> Vec<u8> {
    name.as_bytes().to_vec()
}

fn pay(name: &str, amount: u128) -> Payment {
    Payment { token: token(name), amount: n(amount) }
}

/// A registry with one pair of two tokens, created by ALICE at one percent.
fn dex_with_token_pair() -> (Dex, u64) {
    let mut dex = Dex::new(ADMIN);
    let id = dex.create_pair(ALICE, token("TKA-0001"), token("TKB-0002"), false, false, 1).unwrap();
    (dex, id)
}

/// A registry with one pair whose side A is the native coin.
fn dex_with_native_pair() -> (Dex, u64) {
    let mut dex = Dex::new(ADMIN);
    let id = dex.create_pair(ALICE, token("KLV"), token("TKB-0002"), true, false, 1).unwrap();
    (dex, id)
}

fn seed(dex: &mut Dex, id: u64) {
    dex.mint(id, ALICE, &n(0), &vec![pay("TKA-0001", 100_000), pay("TKB-0002", 100_000)], &n(0))
        .unwrap();
}

fn reserves(dex: &Dex, id: u64) -> (u128, u128) {
    let r = dex.get_pair(id).unwrap().get_reserves();
    (v(&r.amount_a), v(&r.amount_b))
}

#[test]
fn new_registry_starts_at_one() {
    let dex = Dex::new(ADMIN);
    assert_eq!(dex.get_admin(), ADMIN);
    assert_eq!(dex.get_next_pair_id(), 1);
    assert_eq!(dex.get_registered_pairs(), Vec::<u64>::new());
    assert!(!dex.pair_exists(1));
    assert!(dex.get_pair(1).is_none());
}

#[test]
fn create_pair_gives_out_identifiers_in_order() {
    let mut dex = Dex::new(ADMIN);
    let first = dex.create_pair(ALICE, token("TKA-0001"), token("TKB-0002"), false, false, 1);
    let second = dex.create_pair(BOB, token("TKB-0002"), token("KLV"), false, true, 10);
    let again = dex.create_pair(BOB, token("TKA-0001"), token("TKB-0002"), false, false, 5);
    assert_eq!(first.unwrap(), 1);
    assert_eq!(second.unwrap(), 2);
    assert_eq!(again.unwrap(), 3);
    assert_eq!(dex.get_next_pair_id(), 4);
    assert_eq!(dex.get_registered_pairs(), vec![1, 2, 3]);
    assert_eq!(dex.get_all_pair_ids(), vec![1, 2, 3]);
    assert!(dex.pair_exists(2));
    assert!(!dex.pair_exists(4));
    assert_eq!(dex.get_pair(2).unwrap().creator(), Some(BOB));
    assert_eq!(dex.get_pair_creator(2), Some(BOB));
    assert_eq!(dex.get_pair_creator(9), None);
    assert_eq!(dex.get_pair(2).unwrap().get_pair_info().fee_percent, 10);
    assert!(dex.get_pair(2).unwrap().is_pool_empty());
}

#[test]
fn create_pair_refuses_a_bad_request() {
    let mut dex = Dex::new(ADMIN);
    assert_eq!(
        dex.create_pair(ALICE, token("TKA-0001"), token("TKA-0001"), false, false, 1).unwrap_err(),
        DexError::InvalidAssets
    );
    assert_eq!(
        dex.create_pair(ALICE, token("TKA-0001"), token("TKB-0002"), false, false, 11).unwrap_err(),
        DexError::InvalidFee
    );
    assert_eq!(
        dex.create_pair(ALICE, token("KLV"), token("TKB-0002"), false, false, 1).unwrap_err(),
        DexError::InvalidAssets
    );
    assert_eq!(dex.get_next_pair_id(), 1);
    assert_eq!(dex.get_registered_pairs(), Vec::<u64>::new());
}

#[test]
fn pairs_are_found_by_creator_and_by_tokens() {
    let mut dex = Dex::new(ADMIN);
    dex.create_pair(ALICE, token("TKA-0001"), token("TKB-0002"), false, false, 1).unwrap();
    dex.create_pair(BOB, token("TKB-0002"), token("TKA-0001"), false, false, 1).unwrap();
    dex.create_pair(ALICE, token("TKA-0001"), token("TKC-0003"), false, false, 1).unwrap();
    assert_eq!(dex.get_pairs_by_creator(ALICE), vec![1, 3]);
    assert_eq!(dex.get_pairs_by_creator(BOB), vec![2]);
    assert_eq!(dex.get_pairs_by_creator(ADMIN), Vec::<u64>::new());
    assert_eq!(dex.find_pairs_by_tokens(&token("TKA-0001"), &token("TKB-0002")), vec![1, 2]);
    assert_eq!(dex.find_pairs_by_tokens(&token("TKC-0003"), &token("TKA-0001")), vec![3]);
    assert_eq!(dex.find_pairs_by_tokens(&token("TKC-0003"), &token("TKB-0002")), Vec::<u64>::new());
}

#[test]
fn operations_on_a_missing_pair_are_refused() {
    let (mut dex, _) = dex_with_token_pair();
    let t = token("TKA-0001");
    assert_eq!(dex.swap_a_to_b(9, BOB, &t, &n(5), &n(0)).unwrap_err(), DexError::PairNotFound);
    assert_eq!(dex.swap_b_to_a(9, BOB, &t, &n(5), &n(0)).unwrap_err(), DexError::PairNotFound);
    assert_eq!(dex.swap_klv_to_b(9, BOB, &n(5), &n(0)).unwrap_err(), DexError::PairNotFound);
    assert_eq!(dex.swap_klv_to_a(9, BOB, &n(5), &n(0)).unwrap_err(), DexError::PairNotFound);
    assert_eq!(dex.mint(9, ALICE, &n(0), &vec![], &n(0)).unwrap_err(), DexError::PairNotFound);
    assert_eq!(dex.deposit_pending_a(9, ALICE, &t, &n(5)).unwrap_err(), DexError::PairNotFound);
    assert_eq!(dex.deposit_pending_b_klv(9, ALICE, &n(5)).unwrap_err(), DexError::PairNotFound);
    assert_eq!(dex.finalize_liquidity(9, ALICE, &n(0)).unwrap_err(), DexError::PairNotFound);
    assert_eq!(dex.withdraw_pending_a(9, ALICE).unwrap_err(), DexError::PairNotFound);
    assert_eq!(dex.withdraw_pending_b(9, ALICE).unwrap_err(), DexError::PairNotFound);
    assert_eq!(dex.withdraw_pending_all(9, ALICE).unwrap_err(), DexError::PairNotFound);
    assert_eq!(dex.remove_liquidity(9, ALICE, &n(1)).unwrap_err(), DexError::PairNotFound);
    assert_eq!(dex.claim_lp_fees(9, ALICE).unwrap_err(), DexError::PairNotFound);
    assert_eq!(dex.owner_remove_liquidity(ADMIN, 9, &n(1)).unwrap_err(), DexError::PairNotFound);
    assert_eq!(dex.owner_claim_fees(ADMIN, 9).unwrap_err(), DexError::PairNotFound);
    assert_eq!(dex.set_pair_active(ADMIN, 9, false).unwrap_err(), DexError::PairNotFound);
    assert_eq!(dex.set_pair_fee(ADMIN, 9, 2).unwrap_err(), DexError::PairNotFound);
    assert_eq!(dex.delete_pair(ADMIN, 9).unwrap_err(), DexError::PairNotFound);
}

#[test]
fn administration_is_for_the_administrator() {
    let (mut dex, id) = dex_with_token_pair();
    seed(&mut dex, id);
    assert_eq!(dex.set_pair_active(ALICE, id, false).unwrap_err(), DexError::Unauthorized);
    assert_eq!(dex.set_pair_fee(ALICE, id, 2).unwrap_err(), DexError::Unauthorized);
    assert_eq!(dex.owner_claim_fees(ALICE, id).unwrap_err(), DexError::Unauthorized);
    assert_eq!(dex.owner_remove_liquidity(ALICE, id, &n(1)).unwrap_err(), DexError::Unauthorized);
    assert_eq!(
        dex.owner_initialize_liquidity(ALICE, id, &n(0), &vec![]).unwrap_err(),
        DexError::Unauthorized
    );
    assert_eq!(dex.set_pair_active(ALICE, 9, false).unwrap_err(), DexError::Unauthorized);
    dex.set_pair_fee(ADMIN, id, 2).unwrap();
    assert_eq!(dex.get_pair(id).unwrap().get_pair_info().fee_percent, 2);
    assert_eq!(dex.set_pair_fee(ADMIN, id, 0).unwrap_err(), DexError::InvalidFee);
    dex.set_pair_active(ADMIN, id, false).unwrap();
    assert!(!dex.get_pair(id).unwrap().is_active());
}

#[test]
fn mint_takes_what_the_call_brought() {
    let (mut dex, id) = dex_with_token_pair();
    let receipt = dex
        .mint(
            id,
            ALICE,
            &n(77),
            &vec![pay("XYZ-9999", 5), pay("TKB-0002", 100_000), pay("TKA-0001", 100_000)],
            &n(0),
        )
        .unwrap().0;
    assert_eq!(v(&receipt.shares), 99_000);
    assert_eq!(reserves(&dex, id), (100_000, 100_000));
    assert_eq!(
        dex.mint(id, BOB, &n(0), &vec![pay("TKA-0001", 100_000)], &n(0)).unwrap_err(),
        DexError::MissingAsset
    );
    assert_eq!(dex.mint(id, BOB, &n(0), &vec![], &n(0)).unwrap_err(), DexError::MissingAsset);
}

#[test]
fn mint_with_the_native_coin() {
    let (mut dex, id) = dex_with_native_pair();
    let receipt =
        dex.mint(id, ALICE, &n(200_000), &vec![pay("TKB-0002", 100_000)], &n(0)).unwrap().0;
    assert_eq!(v(&receipt.shares), 140_421);
    assert_eq!(reserves(&dex, id), (200_000, 100_000));
}

#[test]
fn swap_takes_the_token_of_its_side_only() {
    let (mut dex, id) = dex_with_token_pair();
    seed(&mut dex, id);
    let a = token("TKA-0001");
    let b = token("TKB-0002");
    assert_eq!(dex.swap_a_to_b(id, BOB, &b, &n(10_000), &n(0)).unwrap_err(), DexError::InvalidAmount);
    assert_eq!(dex.swap_b_to_a(id, BOB, &a, &n(10_000), &n(0)).unwrap_err(), DexError::InvalidAmount);
    assert_eq!(dex.swap_klv_to_b(id, BOB, &n(10_000), &n(0)).unwrap_err(), DexError::InvalidAmount);
    assert_eq!(dex.swap_klv_to_a(id, BOB, &n(10_000), &n(0)).unwrap_err(), DexError::InvalidAmount);
    assert_eq!(reserves(&dex, id), (100_000, 100_000));
    let q = dex.swap_a_to_b(id, BOB, &a, &n(10_000), &n(0)).unwrap().0;
    assert_eq!(v(&q.user_amount), 9000);
    assert_eq!(reserves(&dex, id), (110_000, 90_910));
    let back = dex.swap_b_to_a(id, BOB, &b, &n(1000), &n(0)).unwrap().0;
    assert_eq!(v(&back.raw_output), 1196);
}

#[test]
fn swap_of_the_native_coin() {
    let (mut dex, id) = dex_with_native_pair();
    dex.mint(id, ALICE, &n(100_000), &vec![pay("TKB-0002", 100_000)], &n(0)).unwrap();
    assert_eq!(
        dex.swap_a_to_b(id, BOB, &token("KLV"), &n(10_000), &n(0)).unwrap_err(),
        DexError::InvalidAmount
    );
    assert_eq!(dex.swap_klv_to_a(id, BOB, &n(10_000), &n(0)).unwrap_err(), DexError::InvalidAmount);
    let q = dex.swap_klv_to_b(id, BOB, &n(10_000), &n(0)).unwrap().0;
    assert_eq!(v(&q.user_amount), 9000);
    assert_eq!(reserves(&dex, id), (110_000, 90_910));
}

#[test]
fn swap_on_an_inactive_pair_is_refused_before_the_asset_is_looked_at() {
    let (mut dex, id) = dex_with_token_pair();
    seed(&mut dex, id);
    dex.set_pair_active(ADMIN, id, false).unwrap();
    assert_eq!(
        dex.swap_a_to_b(id, BOB, &token("TKB-0002"), &n(10_000), &n(0)).unwrap_err(),
        DexError::PairInactive
    );
    assert_eq!(dex.swap_klv_to_b(id, BOB, &n(10_000), &n(0)).unwrap_err(), DexError::PairInactive);
}

#[test]
fn pending_deposits_through_the_registry() {
    let (mut dex, id) = dex_with_native_pair();
    dex.mint(id, ALICE, &n(200_000), &vec![pay("TKB-0002", 100_000)], &n(0)).unwrap();
    let b = token("TKB-0002");
    assert_eq!(
        dex.deposit_pending_a(id, BOB, &token("KLV"), &n(5)).unwrap_err(),
        DexError::InvalidAmount
    );
    assert_eq!(dex.deposit_pending_b_klv(id, BOB, &n(5)).unwrap_err(), DexError::InvalidAmount);
    assert_eq!(
        dex.deposit_pending_b(id, BOB, &token("TKA-0001"), &n(5)).unwrap_err(),
        DexError::InvalidAmount
    );
    assert_eq!(dex.deposit_pending_a_klv(id, BOB, &n(0)).unwrap_err(), DexError::InvalidAmount);
    dex.deposit_pending_a_klv(id, BOB, &n(50_000)).unwrap();
    dex.deposit_pending_b(id, BOB, &b, &n(50_000)).unwrap();
    assert_eq!(dex.get_pair(id).unwrap().get_pending_user_count(), 1);
    let receipt = dex.finalize_liquidity(id, BOB, &n(0)).unwrap().0;
    assert_eq!(v(&receipt.shares), 35_105);
    assert_eq!(v(&dex.withdraw_pending_b(id, BOB).unwrap().0), 25_000);
    assert_eq!(dex.withdraw_pending_a(id, BOB).unwrap_err(), DexError::NothingToClaim);
    assert_eq!(dex.withdraw_pending_all(id, BOB).unwrap_err(), DexError::NothingToClaim);
    dex.deposit_pending_a_klv(id, BOB, &n(3)).unwrap();
    let all = dex.withdraw_pending_all(id, BOB).unwrap().0;
    assert_eq!((v(&all.amount_a), v(&all.amount_b)), (3, 0));
}

#[test]
fn removal_and_claims_through_the_registry() {
    let (mut dex, id) = dex_with_token_pair();
    seed(&mut dex, id);
    dex.swap_a_to_b(id, BOB, &token("TKA-0001"), &n(10_000), &n(0)).unwrap();
    let owed = dex.claim_lp_fees(id, ALICE).unwrap().0;
    assert_eq!((v(&owed.amount_a), v(&owed.amount_b)), (0, 80));
    assert_eq!(dex.claim_lp_fees(id, BOB).unwrap_err(), DexError::NothingToClaim);
    let fees = dex.owner_claim_fees(ADMIN, id).unwrap().0;
    assert_eq!((v(&fees.amount_a), v(&fees.amount_b)), (0, 9));
    let receipt = dex.remove_liquidity(id, ALICE, &n(49_500)).unwrap().0;
    assert_eq!((v(&receipt.amount_a), v(&receipt.amount_b)), (55_000, 45_455));
    assert_eq!(
        dex.remove_liquidity(id, ALICE, &n(49_501)).unwrap_err(),
        DexError::InsufficientShares
    );
}

#[test]
fn platform_liquidity_through_the_registry() {
    let (mut dex, id) = dex_with_token_pair();
    dex.owner_initialize_liquidity(
        ADMIN,
        id,
        &n(0),
        &vec![pay("TKA-0001", 400), pay("TKB-0002", 900)],
    )
    .unwrap();
    let shares = dex.get_pair(id).unwrap().get_total_shares();
    assert_eq!((v(&shares.amount_a), v(&shares.amount_b)), (600, 0));
    let out = dex.owner_remove_liquidity(ADMIN, id, &n(300)).unwrap().0;
    assert_eq!((v(&out.amount_a), v(&out.amount_b)), (200, 450));
    assert_eq!(
        dex.owner_initialize_liquidity(ADMIN, id, &n(0), &vec![pay("TKA-0001", 400)]).unwrap_err(),
        DexError::MissingAsset
    );
}

#[test]
fn delete_pair_needs_an_empty_pair_and_its_creator_or_the_administrator() {
    let (mut dex, id) = dex_with_token_pair();
    assert_eq!(dex.delete_pair(BOB, id).unwrap_err(), DexError::Unauthorized);
    seed(&mut dex, id);
    assert_eq!(dex.delete_pair(ALICE, id).unwrap_err(), DexError::PairNotEmpty);
    dex.remove_liquidity(id, ALICE, &n(99_000)).unwrap();
    dex.deposit_pending_a(id, BOB, &token("TKA-0001"), &n(1)).unwrap();
    assert_eq!(dex.delete_pair(ADMIN, id).unwrap_err(), DexError::PairNotEmpty);
    dex.withdraw_pending_a(id, BOB).unwrap();
    dex.delete_pair(ALICE, id).unwrap();
    assert!(!dex.pair_exists(id));
    assert_eq!(dex.get_next_pair_id(), 2);
    let other = dex.create_pair(BOB, token("TKA-0001"), token("TKB-0002"), false, false, 1);
    assert_eq!(other.unwrap(), 2);
    dex.delete_pair(ADMIN, 2).unwrap();
    assert_eq!(dex.get_registered_pairs(), Vec::<u64>::new());
}

#[test]
fn one_pair_does_not_touch_another() {
    let mut dex = Dex::new(ADMIN);
    let first = dex.create_pair(ALICE, token("TKA-0001"), token("TKB-0002"), false, false, 1).unwrap();
    let second = dex.create_pair(ALICE, token("TKA-0001"), token("TKB-0002"), false, false, 1).unwrap();
    seed(&mut dex, first);
    seed(&mut dex, second);
    dex.swap_a_to_b(first, BOB, &token("TKA-0001"), &n(10_000), &n(0)).unwrap();
    assert_eq!(reserves(&dex, first), (110_000, 90_910));
    assert_eq!(reserves(&dex, second), (100_000, 100_000));
}

fn stored_pair(id: u64, total_lp_shares: u128) -> PairParts {
    PairParts {
        id,
        token_a: token("TKA-0001"),
        token_b: token("TKB-0002"),
        token_a_is_native: false,
        token_b_is_native: false,
        creator: Some(ALICE),
        reserve_a: n(110_000),
        reserve_b: n(90_910),
        fee_percent: 1,
        active: true,
        owner_shares: n(0),
        total_lp_shares: n(total_lp_shares),
        lps: vec![LpPosition {
            account: ALICE,
            shares: n(99_000),
            entry_index_a: n(0),
            entry_index_b: n(0),
        }],
        fee_per_share_a: n(0),
        fee_per_share_b: n(818_181_818),
        owner_fees_a: n(0),
        owner_fees_b: n(9),
        pendings: vec![],
        pending_user_count: 0,
    }
}

#[test]
fn a_host_keeps_a_pair_between_operations() {
    assert!(Dex::restore(ADMIN, 0).is_none());
    let mut dex = Dex::restore(ADMIN, 8).unwrap();
    assert_eq!(dex.get_next_pair_id(), 8);
    dex.insert_pair(stored_pair(5, 99_000)).unwrap();
    assert_eq!(dex.get_registered_pairs(), vec![5]);
    let owed = dex.claim_lp_fees(5, ALICE).unwrap().0;
    assert_eq!((v(&owed.amount_a), v(&owed.amount_b)), (0, 80));
    let parts = dex.take_pair(5).unwrap();
    assert_eq!(v(&parts.lps[0].entry_index_b), 818_181_818);
    assert_eq!(v(&parts.reserve_a), 110_000);
    assert!(!dex.pair_exists(5));
    assert!(dex.take_pair(5).is_none());
}

#[test]
fn a_host_cannot_insert_what_breaks_the_invariant() {
    let mut dex = Dex::restore(ADMIN, 8).unwrap();
    assert_eq!(dex.insert_pair(stored_pair(5, 98_999)).unwrap_err(), DexError::InvalidLedger);
    assert_eq!(dex.insert_pair(stored_pair(8, 99_000)).unwrap_err(), DexError::InvalidLedger);
    dex.insert_pair(stored_pair(5, 99_000)).unwrap();
    assert_eq!(dex.insert_pair(stored_pair(5, 99_000)).unwrap_err(), DexError::InvalidLedger);
    dex.insert_pair(stored_pair(7, 99_000)).unwrap();
    assert_eq!(dex.get_registered_pairs(), vec![5, 7]);
}

#[test]
fn a_pair_without_a_creator_on_record_counts_as_the_administrators() {
    let mut dex = Dex::restore(ADMIN, 8).unwrap();
    let mut old = stored_pair(3, 99_000);
    old.creator = None;
    dex.insert_pair(old).unwrap();
    dex.insert_pair(stored_pair(5, 99_000)).unwrap();
    assert_eq!(dex.get_pair(3).unwrap().creator(), None);
    assert_eq!(dex.get_pair_creator(3), Some(ADMIN));
    assert_eq!(dex.get_pairs_by_creator(ADMIN), vec![3]);
    assert_eq!(dex.get_pairs_by_creator(ALICE), vec![5]);
    assert_eq!(dex.delete_pair(ALICE, 3).unwrap_err(), DexError::Unauthorized);
    assert_eq!(dex.delete_pair(ADMIN, 3).unwrap_err(), DexError::PairNotEmpty);
}

#[test]
fn tokens_of_an_empty_side_can_be_changed() {
    let (mut dex, id) = dex_with_token_pair();
    assert_eq!(
        dex.update_pair_token_a(ALICE, id, token("TKC-0003"), false).unwrap_err(),
        DexError::Unauthorized
    );
    dex.update_pair_token_a(ADMIN, id, token("TKC-0003"), false).unwrap();
    dex.update_pair_token_b(ADMIN, id, token("KLV"), true).unwrap();
    let info = dex.get_pair(id).unwrap().get_pair_info();
    assert_eq!(info.token_a, token("TKC-0003"));
    assert_eq!(info.token_b, token("KLV"));
    assert!(info.token_b_is_native);
    dex.mint(id, ALICE, &n(100_000), &vec![pay("TKC-0003", 100_000)], &n(0)).unwrap();
    assert_eq!(
        dex.update_pair_token_a(ADMIN, id, token("TKA-0001"), false).unwrap_err(),
        DexError::PairNotEmpty
    );
    assert_eq!(
        dex.update_pair_token_b(ADMIN, id, token("TKB-0002"), false).unwrap_err(),
        DexError::PairNotEmpty
    );
    assert_eq!(
        dex.update_pair_token_b(ADMIN, 9, token("TKB-0002"), false).unwrap_err(),
        DexError::PairNotFound
    );
}

#[test]
fn views_of_a_pair_by_its_identifier() {
    let (mut dex, id) = dex_with_token_pair();
    assert!(dex.is_pool_empty(id));
    assert!(dex.can_delete_pair(id));
    assert!(!dex.is_pool_empty(9));
    assert!(!dex.can_delete_pair(9));
    assert_eq!(v(&dex.preview_first_liquidity(id, &n(100_000), &n(100_000))), 99_000);
    assert_eq!(v(&dex.preview_first_liquidity(9, &n(100_000), &n(100_000))), 0);
    seed(&mut dex, id);
    assert!(!dex.is_pool_empty(id));
    assert!(!dex.can_delete_pair(id));
    let (user_gets, fee) = dex.quote_swap(id, &n(10_000), true);
    assert_eq!((v(&user_gets), v(&fee)), (9000, 90));
    let (nothing, no_fee) = dex.quote_swap(9, &n(10_000), true);
    assert_eq!((v(&nothing), v(&no_fee)), (0, 0));
    let (input, reverse_fee) = dex.quote_swap_reverse(id, &n(9000), true);
    assert_eq!((v(&input), v(&reverse_fee)), (9999, 90));
    let (no_input, _) = dex.quote_swap_reverse(9, &n(9000), true);
    assert_eq!(v(&no_input), 0);
    assert_eq!(v(&dex.get_swap_quote(id, &n(10_000), false)), 9000);
    assert_eq!(v(&dex.get_swap_quote(9, &n(10_000), false)), 0);
}

fn sent(transfers: &[Transfer]) -> Vec<(u64, String, bool, u128)> {
    transfers
        .iter()
        .map(|t| (t.to, String::from_utf8(t.token.clone()).unwrap(), t.is_native, v(&t.amount)))
        .collect()
}

#[test]
fn swap_sends_the_output_to_the_caller() {
    let (mut dex, id) = dex_with_token_pair();
    seed(&mut dex, id);
    let (_, to_b) = dex.swap_a_to_b(id, BOB, &token("TKA-0001"), &n(10_000), &n(0)).unwrap();
    assert_eq!(sent(&to_b), vec![(BOB, "TKB-0002".to_string(), false, 9000)]);
    let (quote, to_a) = dex.swap_b_to_a(id, ALICE, &token("TKB-0002"), &n(1000), &n(0)).unwrap();
    assert_eq!(sent(&to_a), vec![(ALICE, "TKA-0001".to_string(), false, v(&quote.user_amount))]);
}

#[test]
fn swap_sends_the_native_coin_as_such() {
    let (mut dex, id) = dex_with_native_pair();
    dex.mint(id, ALICE, &n(100_000), &vec![pay("TKB-0002", 100_000)], &n(0)).unwrap();
    let (_, to_b) = dex.swap_klv_to_b(id, BOB, &n(10_000), &n(0)).unwrap();
    assert_eq!(sent(&to_b), vec![(BOB, "TKB-0002".to_string(), false, 9000)]);
    let (quote, to_a) = dex.swap_b_to_a(id, BOB, &token("TKB-0002"), &n(1000), &n(0)).unwrap();
    assert_eq!(sent(&to_a), vec![(BOB, "KLV".to_string(), true, v(&quote.user_amount))]);
}

#[test]
fn mint_sends_the_fees_owed_and_then_the_refund() {
    let (mut dex, id) = dex_with_token_pair();
    let (_, first) = dex
        .mint(id, ALICE, &n(0), &vec![pay("TKA-0001", 200_000), pay("TKB-0002", 100_000)], &n(0))
        .unwrap();
    assert_eq!(sent(&first), vec![]);
    dex.swap_a_to_b(id, BOB, &token("TKA-0001"), &n(20_000), &n(0)).unwrap();
    let owed = v(&dex.get_pair(id).unwrap().calculate_lp_pending_fees(ALICE).amount_b);
    assert!(owed > 0);
    let (receipt, again) = dex
        .mint(id, ALICE, &n(0), &vec![pay("TKA-0001", 1000), pay("TKB-0002", 50_000)], &n(0))
        .unwrap();
    assert_eq!(v(&receipt.refund_a), 0);
    assert!(v(&receipt.refund_b) > 0);
    assert_eq!(
        sent(&again),
        vec![
            (ALICE, "TKB-0002".to_string(), false, owed),
            (ALICE, "TKB-0002".to_string(), false, v(&receipt.refund_b)),
        ]
    );
}

#[test]
fn remove_liquidity_sends_the_fees_owed_and_then_both_parts() {
    let (mut dex, id) = dex_with_token_pair();
    seed(&mut dex, id);
    dex.swap_a_to_b(id, BOB, &token("TKA-0001"), &n(10_000), &n(0)).unwrap();
    let (_, transfers) = dex.remove_liquidity(id, ALICE, &n(49_500)).unwrap();
    assert_eq!(
        sent(&transfers),
        vec![
            (ALICE, "TKB-0002".to_string(), false, 80),
            (ALICE, "TKA-0001".to_string(), false, 55_000),
            (ALICE, "TKB-0002".to_string(), false, 45_455),
        ]
    );
}

#[test]
fn claims_and_withdrawals_send_what_they_hand_out() {
    let (mut dex, id) = dex_with_token_pair();
    seed(&mut dex, id);
    dex.swap_a_to_b(id, BOB, &token("TKA-0001"), &n(10_000), &n(0)).unwrap();
    let (_, claimed) = dex.claim_lp_fees(id, ALICE).unwrap();
    assert_eq!(sent(&claimed), vec![(ALICE, "TKB-0002".to_string(), false, 80)]);
    let (_, nothing) = dex.claim_lp_fees(id, ALICE).unwrap();
    assert_eq!(sent(&nothing), vec![]);
    let (_, platform) = dex.owner_claim_fees(ADMIN, id).unwrap();
    assert_eq!(sent(&platform), vec![(ADMIN, "TKB-0002".to_string(), false, 9)]);

    dex.deposit_pending_a(id, BOB, &token("TKA-0001"), &n(7)).unwrap();
    dex.deposit_pending_b(id, BOB, &token("TKB-0002"), &n(5)).unwrap();
    let (_, a) = dex.withdraw_pending_a(id, BOB).unwrap();
    assert_eq!(sent(&a), vec![(BOB, "TKA-0001".to_string(), false, 7)]);
    dex.deposit_pending_a(id, BOB, &token("TKA-0001"), &n(3)).unwrap();
    let (_, all) = dex.withdraw_pending_all(id, BOB).unwrap();
    assert_eq!(
        sent(&all),
        vec![(BOB, "TKA-0001".to_string(), false, 3), (BOB, "TKB-0002".to_string(), false, 5)]
    );
    dex.deposit_pending_b(id, BOB, &token("TKB-0002"), &n(4)).unwrap();
    let (_, b) = dex.withdraw_pending_b(id, BOB).unwrap();
    assert_eq!(sent(&b), vec![(BOB, "TKB-0002".to_string(), false, 4)]);
}

#[test]
fn finalize_sends_the_fees_owed() {
    let (mut dex, id) = dex_with_token_pair();
    seed(&mut dex, id);
    dex.swap_b_to_a(id, BOB, &token("TKB-0002"), &n(10_000), &n(0)).unwrap();
    dex.deposit_pending_a(id, ALICE, &token("TKA-0001"), &n(9091)).unwrap();
    dex.deposit_pending_b(id, ALICE, &token("TKB-0002"), &n(11_000)).unwrap();
    let (_, transfers) = dex.finalize_liquidity(id, ALICE, &n(0)).unwrap();
    assert_eq!(sent(&transfers), vec![(ALICE, "TKA-0001".to_string(), false, 80)]);
}

#[test]
fn platform_removal_sends_both_parts_to_the_administrator() {
    let (mut dex, id) = dex_with_token_pair();
    dex.owner_initialize_liquidity(
        ADMIN,
        id,
        &n(0),
        &vec![pay("TKA-0001", 400), pay("TKB-0002", 900)],
    )
    .unwrap();
    let (_, transfers) = dex.owner_remove_liquidity(ADMIN, id, &n(300)).unwrap();
    assert_eq!(
        sent(&transfers),
        vec![(ADMIN, "TKA-0001".to_string(), false, 200), (ADMIN, "TKB-0002".to_string(), false, 450)]
    );
}
