//! What holds of the ledger whatever is done to it, stated over the model
//! and proved.

mod fees;
mod pending;
mod preservation;
mod value;

pub use fees::{law_fee_distribution, law_fee_reaches_a_settled_holder, law_owed_within_one_of_part};
pub use pending::{
    law_deposit_then_withdraw_a, law_deposit_then_withdraw_b,
    law_deposit_then_withdraw_pays_all_pending, law_pending_keeps_invariant,
};
pub use preservation::{
    law_burn_shares_keeps_invariant, law_claim_keeps_invariant, law_class_shares_keep_invariant,
    law_entry_index_at_most_current, law_finalize_keeps_invariant, law_mint_keeps_invariant,
    law_mint_shares_keeps_invariant, law_owner_operations_keep_invariant,
    law_remove_liquidity_keeps_invariant, law_settle_keeps_invariant, law_swap_keeps_invariant,
    law_total_is_sum_of_shares,
};
pub use value::{
    law_burn_does_not_dilute, law_mint_does_not_dilute, law_provision_within_offer,
    law_swap_moves_what_it_quotes, law_swap_product_never_falls,
};
