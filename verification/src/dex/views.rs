//! What the registry reports of itself and of its pairs.

use vstd::prelude::*;
use crate::bignat::BigNat;
use crate::dex::{creator_or_admin, Dex, ids_by_creator, ids_by_tokens};
use crate::ledger::{AccountId, PairView};
use crate::pair::Pair;
use crate::payment::same_bytes;

verus! {

impl Dex {
    /// Whether a pair has the identifier.
    pub fn pair_exists(&self, pair_id: u64) -> (r: bool)
        requires
            self.wf(),
        ensures
            r == self@.has_pair(pair_id),
    {
        self.find_pair(pair_id).is_some()
    }

    /// The pair with the identifier, if there is one.
    pub fn get_pair(&self, pair_id: u64) -> (r: Option<&Pair>)
        requires
            self.wf(),
        ensures
            match r {
                Some(pair) => self@.has_pair(pair_id) && pair@ == self@.pair(pair_id) && pair.wf(),
                None => !self@.has_pair(pair_id),
            },
    {
        match self.find_pair(pair_id) {
            Some(i) => {
                assert(self@.pairs[i as int].wf());
                Some(&self.pairs[i])
            },
            None => None,
        }
    }

    /// The account that counts as the creator of a pair: the one on
    /// record, or the administrator where none is.
    pub fn get_pair_creator(&self, pair_id: u64) -> (r: Option<AccountId>)
        requires
            self.wf(),
        ensures
            match r {
                Some(creator) => self@.has_pair(pair_id) && creator == creator_or_admin(
                    self@.pair(pair_id),
                    self@.admin,
                ),
                None => !self@.has_pair(pair_id),
            },
    {
        match self.find_pair(pair_id) {
            Some(i) => Some(self.creator_of(i)),
            None => None,
        }
    }

    /// The administrator.
    pub fn get_admin(&self) -> (r: AccountId)
        ensures
            r == self@.admin,
    {
        self.admin
    }

    /// The identifier that the next pair will get.
    pub fn get_next_pair_id(&self) -> (r: u64)
        ensures
            r == self@.next_pair_id,
    {
        self.next_pair_id
    }

    /// The identifiers of all pairs, in the order of the registry.
    pub fn get_registered_pairs(&self) -> (r: Vec<u64>)
        ensures
            r@.len() == self@.pairs.len(),
            forall|i: int| 0 <= i < r@.len() ==> r@[i] == self@.pairs[i].id,
    {
        let mut out: Vec<u64> = Vec::new();
        let mut i: usize = 0;
        while i < self.pairs.len()
            invariant
                i <= self.pairs@.len(),
                out@.len() == i,
                forall|k: int| 0 <= k < i ==> out@[k] == self@.pairs[k].id,
            decreases self.pairs@.len() - i,
        {
            out.push(self.pairs[i].id());
            i += 1;
        }
        out
    }

    /// The identifiers of all pairs, in the order of the registry.
    pub fn get_all_pair_ids(&self) -> (r: Vec<u64>)
        ensures
            r@.len() == self@.pairs.len(),
            forall|i: int| 0 <= i < r@.len() ==> r@[i] == self@.pairs[i].id,
    {
        self.get_registered_pairs()
    }

    /// The identifiers of the pairs of which `creator` counts as the
    /// creator.
    pub fn get_pairs_by_creator(&self, creator: AccountId) -> (r: Vec<u64>)
        ensures
            r@ == ids_by_creator(self@.pairs, self@.admin, creator),
    {
        let mut out: Vec<u64> = Vec::new();
        let mut i: usize = 0;
        proof {
            assert(self@.pairs.take(0) =~= Seq::<PairView>::empty());
        }
        while i < self.pairs.len()
            invariant
                i <= self.pairs@.len(),
                out@ == ids_by_creator(self@.pairs.take(i as int), self@.admin, creator),
            decreases self.pairs@.len() - i,
        {
            proof {
                assert(self@.pairs.take(i as int + 1).drop_last() =~= self@.pairs.take(i as int));
            }
            if self.creator_of(i) == creator {
                out.push(self.pairs[i].id());
            }
            i += 1;
        }
        proof {
            assert(self@.pairs.take(i as int) =~= self@.pairs);
        }
        out
    }

    /// The identifiers of the pairs that trade the two tokens, in either
    /// order of sides.
    pub fn find_pairs_by_tokens(&self, token_a: &Vec<u8>, token_b: &Vec<u8>) -> (r: Vec<u64>)
        ensures
            r@ == ids_by_tokens(self@.pairs, token_a@, token_b@),
    {
        let mut out: Vec<u64> = Vec::new();
        let mut i: usize = 0;
        proof {
            assert(self@.pairs.take(0) =~= Seq::<PairView>::empty());
        }
        while i < self.pairs.len()
            invariant
                i <= self.pairs@.len(),
                out@ == ids_by_tokens(self@.pairs.take(i as int), token_a@, token_b@),
            decreases self.pairs@.len() - i,
        {
            proof {
                assert(self@.pairs.take(i as int + 1).drop_last() =~= self@.pairs.take(i as int));
            }
            let info = self.pairs[i].get_pair_info();
            let matches: bool = (same_bytes(&info.token_a, token_a) && same_bytes(
                &info.token_b,
                token_b,
            )) || (same_bytes(&info.token_a, token_b) && same_bytes(&info.token_b, token_a));
            if matches {
                out.push(self.pairs[i].id());
            }
            i += 1;
        }
        proof {
            assert(self@.pairs.take(i as int) =~= self@.pairs);
        }
        out
    }

    /// Whether the pair exists and both its reserves are zero.
    pub fn is_pool_empty(&self, pair_id: u64) -> (r: bool)
        requires
            self.wf(),
        ensures
            r == (self@.has_pair(pair_id) && self@.pair(pair_id).reserve_a == 0 && self@.pair(
                pair_id,
            ).reserve_b == 0),
    {
        match self.get_pair(pair_id) {
            Some(pair) => pair.is_pool_empty(),
            None => false,
        }
    }

    /// Whether the pair exists and nothing is left in it.
    pub fn can_delete_pair(&self, pair_id: u64) -> (r: bool)
        requires
            self.wf(),
        ensures
            r == (self@.has_pair(pair_id) && self@.pair(pair_id).is_drained()),
    {
        match self.get_pair(pair_id) {
            Some(pair) => pair.can_delete_pair(),
            None => false,
        }
    }

    /// The shares that a first deposit of the two amounts into the pair
    /// would mint; zero where the pair does not exist.
    pub fn preview_first_liquidity(&self, pair_id: u64, amount_a: &BigNat, amount_b: &BigNat) -> (r:
        BigNat)
        requires
            self.wf(),
        ensures
            r@ == if self@.has_pair(pair_id) {
                self@.pair(pair_id).preview_first_liquidity(amount_a@, amount_b@)
            } else {
                0
            },
    {
        match self.get_pair(pair_id) {
            Some(pair) => pair.preview_first_liquidity(amount_a, amount_b),
            None => BigNat::zero(),
        }
    }

    /// What a swap of `input_amount` on the pair would hand the caller, and
    /// its fee; both zero where the pair does not exist.
    pub fn quote_swap(&self, pair_id: u64, input_amount: &BigNat, is_a_to_b: bool) -> (r: (
        BigNat,
        BigNat,
    ))
        requires
            self.wf(),
        ensures
            (r.0@, r.1@) == if self@.has_pair(pair_id) {
                self@.pair(pair_id).quote_swap(input_amount@, is_a_to_b)
            } else {
                (0nat, 0nat)
            },
    {
        match self.get_pair(pair_id) {
            Some(pair) => pair.quote_swap(input_amount, is_a_to_b),
            None => (BigNat::zero(), BigNat::zero()),
        }
    }

    /// The input that a swap on the pair needs for the caller to receive
    /// `desired_output`, and the fee of that swap; both zero where the pair
    /// does not exist.
    pub fn quote_swap_reverse(&self, pair_id: u64, desired_output: &BigNat, is_a_to_b: bool) -> (r:
        (BigNat, BigNat))
        requires
            self.wf(),
        ensures
            (r.0@, r.1@) == if self@.has_pair(pair_id) {
                self@.pair(pair_id).quote_swap_reverse(desired_output@, is_a_to_b)
            } else {
                (0nat, 0nat)
            },
    {
        match self.get_pair(pair_id) {
            Some(pair) => pair.quote_swap_reverse(desired_output, is_a_to_b),
            None => (BigNat::zero(), BigNat::zero()),
        }
    }

    /// What a swap of `amount` on the pair would hand the caller, with no
    /// test of the raw output; zero where the pair does not exist.
    pub fn get_swap_quote(&self, pair_id: u64, amount: &BigNat, a_to_b: bool) -> (r: BigNat)
        requires
            self.wf(),
        ensures
            r@ == if self@.has_pair(pair_id) {
                self@.pair(pair_id).swap_quote_unchecked(amount@, a_to_b)
            } else {
                0
            },
    {
        match self.get_pair(pair_id) {
            Some(pair) => pair.get_swap_quote(amount, a_to_b),
            None => BigNat::zero(),
        }
    }
}

} // verus!
