//! The registry of pairs: which pairs exist, who may administer them, and
//! every operation of the engine addressed to a pair by its identifier.
//!
//! The model of the registry stands in `model`; the operations on a pair
//! stand in `trading`, those of the administrator in `admin`, and the views
//! in `views`.

use vstd::prelude::*;
use crate::error::DexError;
use crate::ledger::{AccountId, PairView};
use crate::pair::{Pair, PairParts};

mod admin;
mod model;
mod trading;
mod views;

pub use model::{creator_or_admin, ids_by_creator, ids_by_tokens, side_accepts, DexView};

verus! {

/// The pairs as the model sees them.
pub open spec fn pair_views(s: Seq<Pair>) -> Seq<PairView> {
    Seq::new(s.len(), |i: int| s[i]@)
}

/// In a registry, the pair of an identifier is the one place where the
/// identifier stands.
pub proof fn lemma_pair_index(dex: DexView, pair_id: u64, i: int)
    requires
        dex.wf(),
        0 <= i < dex.pairs.len(),
        dex.pairs[i].id == pair_id,
    ensures
        dex.has_pair(pair_id),
        dex.pair_index(pair_id) == i,
{
    let j = dex.pair_index(pair_id);
    assert(0 <= j < dex.pairs.len() && dex.pairs[j].id == pair_id);
    if j < i {
        assert(dex.pairs[j].id != dex.pairs[i].id);
    }
    if i < j {
        assert(dex.pairs[i].id != dex.pairs[j].id);
    }
}

/// Replacing one pair of a registry by a pair with the same identifier
/// that keeps its invariant keeps the registry's invariant.
pub proof fn lemma_pair_replaced(before: DexView, after: DexView, pair_id: u64, i: int)
    requires
        before.wf(),
        0 <= i < before.pairs.len(),
        before.pairs[i].id == pair_id,
        after.admin == before.admin,
        after.next_pair_id == before.next_pair_id,
        after.pairs.len() == before.pairs.len(),
        forall|k: int| 0 <= k < before.pairs.len() && k != i ==> after.pairs[k] == before.pairs[k],
        after.pairs[i].wf(),
        after.pairs[i].id == pair_id,
    ensures
        after.wf(),
        before.has_pair(pair_id),
        before.pair(pair_id) == before.pairs[i],
        after == before.with_pair(pair_id, after.pairs[i]),
        after.pairs[i] == before.pairs[i] ==> after == before,
{
    lemma_pair_index(before, pair_id, i);
    assert(after.pairs =~= before.pairs.update(i, after.pairs[i]));
    if after.pairs[i] == before.pairs[i] {
        assert(after.pairs =~= before.pairs);
    }
    assert forall|k: int| 0 <= k < after.pairs.len() implies (#[trigger] after.pairs[k]).wf() by {
        if k != i {
            assert(before.pairs[k].wf());
        }
    }
    assert forall|k: int| 0 <= k < after.pairs.len() implies (#[trigger] after.pairs[k]).id
        < after.next_pair_id by {
        assert(before.pairs[k].id < before.next_pair_id);
    }
    assert forall|k: int, j: int| 0 <= k < j < after.pairs.len() implies (
    #[trigger] after.pairs[k]).id != (#[trigger] after.pairs[j]).id by {
        assert(before.pairs[k].id != before.pairs[j].id);
    }
}

/// The registry of pairs.
#[derive(Debug)]
pub struct Dex {
    admin: AccountId,
    next_pair_id: u64,
    pairs: Vec<Pair>,
}

impl View for Dex {
    type V = DexView;

    closed spec fn view(&self) -> DexView {
        DexView {
            admin: self.admin,
            next_pair_id: self.next_pair_id,
            pairs: pair_views(self.pairs@),
        }
    }
}

impl Dex {
    /// The invariant of the registry.
    pub open spec fn wf(&self) -> bool {
        self@.wf()
    }

    /// A registry without pairs, administered by `admin`.
    pub fn new(admin: AccountId) -> (r: Dex)
        ensures
            r.wf(),
            r@ == (DexView { admin: admin, next_pair_id: 1, pairs: Seq::empty() }),
    {
        let dex = Dex { admin, next_pair_id: 1, pairs: Vec::new() };
        proof {
            assert(dex@.pairs =~= Seq::<PairView>::empty());
        }
        dex
    }

    /// A registry without pairs that gives out `next_pair_id` next, which
    /// is at least one.
    pub fn restore(admin: AccountId, next_pair_id: u64) -> (r: Option<Dex>)
        ensures
            match r {
                Some(dex) => next_pair_id >= 1 && dex.wf() && dex@ == (DexView {
                    admin: admin,
                    next_pair_id: next_pair_id,
                    pairs: Seq::empty(),
                }),
                None => next_pair_id == 0,
            },
    {
        if next_pair_id == 0 {
            return None;
        }
        let dex = Dex { admin, next_pair_id, pairs: Vec::new() };
        proof {
            assert(dex@.pairs =~= Seq::<PairView>::empty());
        }
        Some(dex)
    }

    /// Where the pair with the identifier stands, if there is one.
    fn find_pair(&self, pair_id: u64) -> (r: Option<usize>)
        requires
            self.wf(),
        ensures
            match r {
                Some(i) => i < self.pairs@.len() && self@.has_pair(pair_id) && self@.pair_index(
                    pair_id,
                ) == i,
                None => !self@.has_pair(pair_id),
            },
    {
        let mut i: usize = 0;
        while i < self.pairs.len()
            invariant
                self.wf(),
                i <= self.pairs@.len(),
                forall|k: int| 0 <= k < i ==> (#[trigger] pair_views(self.pairs@)[k]).id != pair_id,
            decreases self.pairs@.len() - i,
        {
            if self.pairs[i].id() == pair_id {
                proof {
                    lemma_pair_index(self@, pair_id, i as int);
                }
                return Some(i);
            }
            i += 1;
        }
        None
    }

    /// The account that counts as the creator of the pair at place `i`.
    fn creator_of(&self, i: usize) -> (r: AccountId)
        requires
            i < self.pairs@.len(),
        ensures
            r == creator_or_admin(self@.pairs[i as int], self@.admin),
    {
        match self.pairs[i].creator() {
            Some(creator) => creator,
            None => self.admin,
        }
    }

    /// Registers a new pair, created by `caller`, and returns its
    /// identifier.
    pub fn create_pair(
        &mut self,
        caller: AccountId,
        token_a: Vec<u8>,
        token_b: Vec<u8>,
        token_a_is_native: bool,
        token_b_is_native: bool,
        fee_percent: u64,
    ) -> (r: Result<u64, DexError>)
        requires
            old(self).wf(),
            old(self)@.next_pair_id < u64::MAX,
        ensures
            final(self).wf(),
            match r {
                Ok(pair_id) => old(self)@.create_pair(
                    caller,
                    token_a@,
                    token_b@,
                    token_a_is_native,
                    token_b_is_native,
                    fee_percent,
                ) == Ok::<(DexView, u64), DexError>((final(self)@, pair_id)),
                Err(e) => old(self)@.create_pair(
                    caller,
                    token_a@,
                    token_b@,
                    token_a_is_native,
                    token_b_is_native,
                    fee_percent,
                ) == Err::<(DexView, u64), DexError>(e) && final(self)@ == old(self)@,
            },
    {
        let pair_id: u64 = self.next_pair_id;
        let pair: Pair = match Pair::new(
            pair_id,
            token_a,
            token_b,
            token_a_is_native,
            token_b_is_native,
            fee_percent,
            Some(caller),
        ) {
            Ok(pair) => pair,
            Err(e) => {
                return Err(e);
            },
        };
        self.next_pair_id = pair_id + 1;
        self.pairs.push(pair);
        proof {
            assert(self@.pairs =~= old(self)@.pairs.push(pair@));
            assert forall|k: int| 0 <= k < self@.pairs.len() implies (#[trigger] self@.pairs[k]).wf()
                && self@.pairs[k].id < self@.next_pair_id by {
                if k < old(self)@.pairs.len() {
                    assert(old(self)@.pairs[k].wf());
                }
            }
            assert forall|k: int, j: int| 0 <= k < j < self@.pairs.len() implies (
            #[trigger] self@.pairs[k]).id != (#[trigger] self@.pairs[j]).id by {
                if j < old(self)@.pairs.len() {
                    assert(old(self)@.pairs[k].id != old(self)@.pairs[j].id);
                } else {
                    assert(old(self)@.pairs[k].id < old(self)@.next_pair_id);
                }
            }
        }
        Ok(pair_id)
    }

    /// Deletes a pair in which nothing is left. Only its creator and the
    /// administrator may.
    pub fn delete_pair(&mut self, caller: AccountId, pair_id: u64) -> (r: Result<(), DexError>)
        requires
            old(self).wf(),
        ensures
            final(self).wf(),
            match r {
                Ok(_) => old(self)@.delete_pair(caller, pair_id) == Ok::<DexView, DexError>(
                    final(self)@,
                ),
                Err(e) => old(self)@.delete_pair(caller, pair_id) == Err::<DexView, DexError>(e)
                    && final(self)@ == old(self)@,
            },
    {
        let i: usize = match self.find_pair(pair_id) {
            Some(i) => i,
            None => {
                return Err(DexError::PairNotFound);
            },
        };
        if caller != self.creator_of(i) && caller != self.admin {
            return Err(DexError::Unauthorized);
        }
        if !self.pairs[i].can_delete_pair() {
            return Err(DexError::PairNotEmpty);
        }
        self.pairs.remove(i);
        proof {
            assert(self@.pairs =~= old(self)@.pairs.remove(i as int));
            assert forall|k: int| 0 <= k < self@.pairs.len() implies (#[trigger] self@.pairs[k]).wf()
                && self@.pairs[k].id < self@.next_pair_id by {
                if k < i {
                    assert(old(self)@.pairs[k].wf());
                } else {
                    assert(old(self)@.pairs[k + 1].wf());
                }
            }
            assert forall|k: int, j: int| 0 <= k < j < self@.pairs.len() implies (
            #[trigger] self@.pairs[k]).id != (#[trigger] self@.pairs[j]).id by {
                let kk = if k < i {
                    k
                } else {
                    k + 1
                };
                let jj = if j < i {
                    j
                } else {
                    j + 1
                };
                assert(old(self)@.pairs[kk].id != old(self)@.pairs[jj].id);
            }
        }
        Ok(())
    }

    /// Puts a pair that a host kept as plain values into the registry. The
    /// values have to keep the invariant of a ledger, and the identifier
    /// has to be one that was given out and is not in the registry.
    pub fn insert_pair(&mut self, parts: PairParts) -> (r: Result<(), DexError>)
        requires
            old(self).wf(),
        ensures
            final(self).wf(),
            match r {
                Ok(_) => parts@.wf() && parts@.id < old(self)@.next_pair_id && !old(
                    self,
                )@.has_pair(parts@.id) && final(self)@ == (DexView {
                    pairs: old(self)@.pairs.push(parts@),
                    ..old(self)@
                }),
                Err(e) => e == DexError::InvalidLedger && final(self)@ == old(self)@ && !(
                parts@.wf() && parts@.id < old(self)@.next_pair_id && !old(self)@.has_pair(
                    parts@.id,
                )),
            },
    {
        if parts.id >= self.next_pair_id || self.find_pair(parts.id).is_some() {
            return Err(DexError::InvalidLedger);
        }
        let pair: Pair = match Pair::restore(parts) {
            Some(pair) => pair,
            None => {
                return Err(DexError::InvalidLedger);
            },
        };
        self.pairs.push(pair);
        proof {
            assert(self@.pairs =~= old(self)@.pairs.push(pair@));
            assert forall|k: int| 0 <= k < self@.pairs.len() implies (#[trigger] self@.pairs[k]).wf()
                && self@.pairs[k].id < self@.next_pair_id by {
                if k < old(self)@.pairs.len() {
                    assert(old(self)@.pairs[k].wf());
                }
            }
            assert forall|k: int, j: int| 0 <= k < j < self@.pairs.len() implies (
            #[trigger] self@.pairs[k]).id != (#[trigger] self@.pairs[j]).id by {
                if j < old(self)@.pairs.len() {
                    assert(old(self)@.pairs[k].id != old(self)@.pairs[j].id);
                } else {
                    assert(old(self)@.pairs[k].id != parts@.id);
                }
            }
        }
        Ok(())
    }

    /// Takes a pair out of the registry, as plain values for a host to
    /// keep.
    pub fn take_pair(&mut self, pair_id: u64) -> (r: Option<PairParts>)
        requires
            old(self).wf(),
        ensures
            final(self).wf(),
            match r {
                Some(parts) => old(self)@.has_pair(pair_id) && parts@ == old(self)@.pair(pair_id)
                    && parts@.wf() && final(self)@ == (DexView {
                    pairs: old(self)@.pairs.remove(old(self)@.pair_index(pair_id)),
                    ..old(self)@
                }),
                None => !old(self)@.has_pair(pair_id) && final(self)@ == old(self)@,
            },
    {
        let i: usize = match self.find_pair(pair_id) {
            Some(i) => i,
            None => {
                return None;
            },
        };
        let pair: Pair = self.pairs.remove(i);
        proof {
            assert(old(self)@.pairs[i as int].wf());
            assert(self@.pairs =~= old(self)@.pairs.remove(i as int));
            assert forall|k: int| 0 <= k < self@.pairs.len() implies (#[trigger] self@.pairs[k]).wf()
                && self@.pairs[k].id < self@.next_pair_id by {
                if k < i {
                    assert(old(self)@.pairs[k].wf());
                } else {
                    assert(old(self)@.pairs[k + 1].wf());
                }
            }
            assert forall|k: int, j: int| 0 <= k < j < self@.pairs.len() implies (
            #[trigger] self@.pairs[k]).id != (#[trigger] self@.pairs[j]).id by {
                let kk = if k < i {
                    k
                } else {
                    k + 1
                };
                let jj = if j < i {
                    j
                } else {
                    j + 1
                };
                assert(old(self)@.pairs[kk].id != old(self)@.pairs[jj].id);
            }
        }
        Some(pair.into_parts())
    }
}

} // verus!
