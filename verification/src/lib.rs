//! A verified accounting engine for a constant-product market maker.
//!
//! The engine keeps many independent trading pairs. Each pair holds two
//! reserves, the shares of those who provided them, a fee-per-share index
//! for each asset, and the deposits that wait to be matched. Accounts swap
//! one asset for the other along the constant product of the reserves,
//! provide liquidity in one call or in two phases and receive shares for
//! it, and are paid their part of the swap fees when they next touch their
//! position.
//!
//! Every amount is an arbitrary-precision natural number ([`BigNat`]), and
//! every division rounds down. Every operation is specified over a
//! mathematical model of the state ([`ledger::PairView`],
//! [`dex::DexView`]) and proved against it: the contract of an operation
//! says exactly which state it leaves and what it hands out, or why it is
//! refused, and a refused operation changes nothing. What holds of the
//! model whatever is done to it stands in [`laws`].
//!
//! The fee of a swap is split between the platform and the holders by the
//! blended rule of [`curve::owner_portion`]: the platform takes a tenth of
//! the fee, and of the other nine tenths the part that its own shares are
//! of all shares.
//!
//! The engine neither receives nor sends assets. An operation takes what a
//! call brought as plain values and returns the amounts that are to be
//! sent; [`PairParts`] is the state of a pair as plain values, for a host
//! that keeps it in a storage of its own.

pub mod bignat;
pub mod curve;
pub mod dex;
pub mod error;
pub mod laws;
pub mod ledger;
pub mod pair;
pub mod payment;

pub use bignat::BigNat;
pub use dex::Dex;
pub use error::DexError;
pub use ledger::{AccountId, ShareClass};
pub use pair::{
    Amounts, FinalizeReceipt, LpInfo, LpPosition, LpPositionInfo, MintReceipt, Pair, PairInfo,
    PairParts, PendingDeposit, PendingInfo, RemoveReceipt, Transfer,
};
pub use payment::Payment;
