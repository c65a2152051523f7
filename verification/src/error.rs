//! The ways in which an operation of the engine is refused.

use vstd::prelude::*;

verus! {

/// Why an operation was refused. A refused operation changes nothing.
#[derive(Clone, Copy, Debug, PartialEq, Eq, Structural)]
pub enum DexError {
    /// No pair has the given identifier.
    PairNotFound,
    /// The pair is switched off.
    PairInactive,
    /// The caller is not the administrator.
    Unauthorized,
    /// An amount is zero where a positive one is needed.
    InvalidAmount,
    /// One of the two assets of the pair did not arrive.
    MissingAsset,
    /// The swap would pay out nothing, or the whole reserve.
    InvalidOutput,
    /// Nothing is left of the swap's output after the fee.
    OutputTooSmall,
    /// The result is below the minimum that the caller set.
    SlippageExceeded,
    /// The first deposit is not above the locked minimum.
    InitialLiquidityTooSmall,
    /// Matching the pool's ratio rounded one side, or the shares, to zero.
    AmountsTooSmallToMatch,
    /// More shares are to be burned than the holder has.
    InsufficientShares,
    /// The shares burned pay out nothing on either side.
    WithdrawalTooSmall,
    /// Nothing is there to be claimed or withdrawn.
    NothingToClaim,
    /// The fee rate is not between one and ten percent.
    InvalidFee,
    /// The two assets of a pair are the same.
    InvalidAssets,
    /// The pair still holds reserves, shares, deposits or fees.
    PairNotEmpty,
    /// Stored values do not make up a ledger that keeps its invariant.
    InvalidLedger,
}

} // verus!
