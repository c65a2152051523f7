//! The assets that arrive with a call: the native coin and the ledger's
//! tokens, and which of them belong to a pair.

use vstd::prelude::*;
use crate::bignat::BigNat;
use crate::ledger::AmountsView;
use crate::pair::Amounts;

verus! {

/// The name under which the native coin goes: the bytes of `KLV`.
pub open spec fn native_token_name() -> Seq<u8> {
    seq![0x4bu8, 0x4cu8, 0x56u8]
}

/// Whether two byte strings are the same.
pub fn same_bytes(a: &Vec<u8>, b: &Vec<u8>) -> (r: bool)
    ensures
        r == (a@ == b@),
{
    if a.len() != b.len() {
        return false;
    }
    let mut i: usize = 0;
    while i < a.len()
        invariant
            i <= a@.len(),
            a@.len() == b@.len(),
            forall|k: int| 0 <= k < i ==> a@[k] == b@[k],
        decreases a@.len() - i,
    {
        if a[i] != b[i] {
            return false;
        }
        i += 1;
    }
    assert(a@ =~= b@);
    true
}

/// Whether `token` is the name of the native coin.
pub fn is_native_token_name(token: &Vec<u8>) -> (r: bool)
    ensures
        r == (token@ == native_token_name()),
{
    let r: bool = token.len() == 3 && token[0] == 0x4bu8 && token[1] == 0x4cu8 && token[2]
        == 0x56u8;
    proof {
        if r {
            assert(token@ =~= native_token_name());
        }
    }
    r
}

/// An amount of a token that arrived with a call.
#[derive(Debug)]
pub struct Payment {
    pub token: Vec<u8>,
    pub amount: BigNat,
}

/// An amount of a token that arrived with a call.
pub ghost struct PaymentView {
    pub token: Seq<u8>,
    pub amount: nat,
}

impl View for Payment {
    type V = PaymentView;

    open spec fn view(&self) -> PaymentView {
        PaymentView { token: self.token@, amount: self.amount@ }
    }
}

/// The payments as the model sees them.
pub open spec fn payment_views(s: Seq<Payment>) -> Seq<PaymentView> {
    Seq::new(s.len(), |i: int| s[i]@)
}

/// What a call brought of the two assets of a pair. The native amount
/// counts for the side that is native, for side A where both are. Then the
/// token payments are gone through in order: one of token A sets the amount
/// of A, one of token B that of B, so that the last one of each stands.
/// Payments of other tokens are passed over.
pub open spec fn dual_payment(
    token_a: Seq<u8>,
    token_b: Seq<u8>,
    token_a_is_native: bool,
    token_b_is_native: bool,
    native_amount: nat,
    payments: Seq<PaymentView>,
) -> AmountsView
    decreases payments.len(),
{
    if payments.len() == 0 {
        AmountsView {
            amount_a: if token_a_is_native {
                native_amount
            } else {
                0
            },
            amount_b: if !token_a_is_native && token_b_is_native {
                native_amount
            } else {
                0
            },
        }
    } else {
        let before = dual_payment(
            token_a,
            token_b,
            token_a_is_native,
            token_b_is_native,
            native_amount,
            payments.drop_last(),
        );
        let payment = payments.last();
        if payment.token == token_a {
            AmountsView { amount_a: payment.amount, ..before }
        } else if payment.token == token_b {
            AmountsView { amount_b: payment.amount, ..before }
        } else {
            before
        }
    }
}

/// Computes `dual_payment`.
pub fn extract_dual_payment(
    token_a: &Vec<u8>,
    token_b: &Vec<u8>,
    token_a_is_native: bool,
    token_b_is_native: bool,
    native_amount: &BigNat,
    payments: &Vec<Payment>,
) -> (r: Amounts)
    ensures
        r@ == dual_payment(
            token_a@,
            token_b@,
            token_a_is_native,
            token_b_is_native,
            native_amount@,
            payment_views(payments@),
        ),
{
    let mut amount_a: BigNat = BigNat::zero();
    let mut amount_b: BigNat = BigNat::zero();
    if token_a_is_native {
        amount_a = native_amount.clone();
    } else if token_b_is_native {
        amount_b = native_amount.clone();
    }
    let ghost all: Seq<PaymentView> = payment_views(payments@);
    let mut i: usize = 0;
    proof {
        assert(all.take(0) =~= Seq::<PaymentView>::empty());
    }
    while i < payments.len()
        invariant
            i <= payments@.len(),
            all == payment_views(payments@),
            (AmountsView { amount_a: amount_a@, amount_b: amount_b@ }) == dual_payment(
                token_a@,
                token_b@,
                token_a_is_native,
                token_b_is_native,
                native_amount@,
                all.take(i as int),
            ),
        decreases payments@.len() - i,
    {
        proof {
            assert(all.take(i as int + 1).drop_last() =~= all.take(i as int));
            assert(all.take(i as int + 1).last() == payments@[i as int]@);
        }
        if same_bytes(&payments[i].token, token_a) {
            amount_a = payments[i].amount.clone();
        } else if same_bytes(&payments[i].token, token_b) {
            amount_b = payments[i].amount.clone();
        }
        i += 1;
    }
    proof {
        assert(all.take(i as int) =~= all);
    }
    Amounts { amount_a, amount_b }
}

} // verus!
