//! The unified error taxonomy of the settlement core.

use vstd::prelude::*;

verus! {

/// Every failure of the settlement core.  Arithmetic variants carry a small
/// tag naming the originating site, so that an aborted settlement can be
/// diagnosed from the error value alone.
#[derive(Clone, Debug, PartialEq, Eq)]
pub enum FlashSwapError {
    /// The caller of an administrator-only entry point is not the administrator.
    CallerIsNotOwner,
    /// The borrowed amount handed to the orchestrator is zero.
    AmountIsZero,
    /// The first and last asset of the path differ, so the borrow cannot be repaid.
    PathAcyclic,
    /// The path is too short to describe a swap chain.
    InvalidPath,
    /// Two adjacent path entries name the same asset.
    IdenticalAddresses,
    /// The input amount of a priced hop is zero.
    InsufficientAmount,
    /// A priced pool has an empty reserve on at least one side.
    InsufficientLiquidity,
    /// No pool is known for the requested token pair.
    PairNotFound,
    /// The amount received at the end of the chain does not exceed the borrowed amount.
    NoProfit,
    /// The initiating swap call was rejected at the transport level.
    SwapCallFailed,
    AddOverflow(u8),
    CastOverflow(u8),
    DivByZero(u8),
    MulOverflow(u8),
    SubUnderflow(u8),
    /// A raw cross-contract failure mapped into the taxonomy, with its message.
    CrossContractCallFailed(String),
}

} // verus!
