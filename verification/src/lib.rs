//! Settlement core of a flash-swap router.
//!
//! Given a cyclic chain of two-asset liquidity pools, the library computes the
//! output amount of every hop under a fee-adjusted constant-product pricing
//! rule, checks that walking the whole chain is profitable on the borrowed
//! asset, and produces the exact swap and transfer instructions of the
//! two-phase (initiate / callback-settle) protocol.  A thin unverified driver
//! performs the cross-contract calls that the instructions describe and feeds
//! the answers (reserves, registry results, callback payloads) back in as
//! plain values.

use vstd::prelude::*;

pub mod codec;
pub mod errors;
pub mod executor;
pub mod orchestrator;
pub mod pricing;
pub mod state;
pub mod wide;

pub use codec::SwapCallData;
pub use errors::FlashSwapError;
pub use orchestrator::{FlashSwapPlan, SettlePlan, SwapStep, TransferStep};
pub use state::FlashSwap;

verus! {

/// Identifier of an account (a token contract, a pool contract, or a user).
/// Identifiers are opaque but totally ordered; the order decides which of a
/// pool's two token slots an asset occupies.
pub type AccountId = u128;

/// Trading fees are expressed in parts per thousand of the input amount.
pub const TRADING_FEE_DENOM: u128 = 1000;

} // verus!
