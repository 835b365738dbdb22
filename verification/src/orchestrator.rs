//! The two-phase flash-swap protocol: initiation and callback settlement.
//!
//! Both entry points are pure decisions: they validate, price, and return
//! the instructions the unverified driver must carry out — the initiating
//! swap with its payload, and later the settlement transfers and hops.  Any
//! error aborts the whole unit of work; the driver performs nothing of a plan
//! it did not receive.

use vstd::prelude::*;

use crate::codec::{decode_payload, encode_payload, parse_payload, payload_bytes, SwapCallData};
use crate::errors::FlashSwapError;
use crate::executor::slot_amounts;
use crate::state::FlashSwap;
use crate::AccountId;

verus! {

/// One swap instruction for the driver: which pool to invoke, how much it
/// must emit on each token slot, and who receives the output.
#[derive(Clone, Copy, PartialEq, Eq, Structural, Debug)]
pub struct SwapStep {
    pub pair: AccountId,
    pub amount_0_out: u128,
    pub amount_1_out: u128,
    pub to: AccountId,
}

/// One token transfer instruction for the driver.
#[derive(Clone, Copy, PartialEq, Eq, Structural, Debug)]
pub struct TransferStep {
    pub token: AccountId,
    pub to: AccountId,
    pub amount: u128,
}

/// Everything the driver needs to initiate a flash swap: the priced amounts,
/// the first pool's swap (whose output is directed at the orchestrator), and
/// the payload the pool must hand back to the callback entry point.
pub struct FlashSwapPlan {
    pub amounts_out: Vec<u128>,
    pub pair: AccountId,
    pub amount_0_out: u128,
    pub amount_1_out: u128,
    pub payload: Vec<u8>,
}

/// Everything the settlement callback asks the driver to perform, in order:
/// pre-pay the next pool, run the interior hops, repay the lending pool.
pub struct SettlePlan {
    pub prepay: TransferStep,
    pub hops: Vec<SwapStep>,
    pub repay: TransferStep,
}

impl FlashSwap {
    /// The amounts a flash swap settles on: the caller-supplied sequence,
    /// or — when only the borrow amount was supplied — the freshly priced one.
    pub open spec fn flashswap_amounts(
        self,
        amounts: Seq<u128>,
        path: Seq<AccountId>,
        reserves: Seq<(u128, u128)>,
    ) -> Result<Seq<u128>, FlashSwapError> {
        if amounts.len() == 1 {
            self.amounts_out_spec(amounts[0], path, reserves)
        } else {
            Ok(amounts)
        }
    }

    /// The full behaviour of `flashswap`: which inputs are rejected, with
    /// which error, and the amount sequence a successful initiation carries.
    pub open spec fn flashswap_spec(
        self,
        caller: AccountId,
        amounts: Seq<u128>,
        path: Seq<AccountId>,
        reserves: Seq<(u128, u128)>,
    ) -> Result<Seq<u128>, FlashSwapError> {
        if caller != self.spec_owner() {
            Err(FlashSwapError::CallerIsNotOwner)
        } else if amounts[0] == 0 {
            Err(FlashSwapError::AmountIsZero)
        } else if path.len() <= 2 {
            Err(FlashSwapError::InvalidPath)
        } else if path[0] != path[path.len() - 1] {
            Err(FlashSwapError::PathAcyclic)
        } else {
            match self.flashswap_amounts(amounts, path, reserves) {
                Err(e) => Err(e),
                Ok(out) => {
                    if out[out.len() - 1] <= amounts[0] {
                        Err(FlashSwapError::NoProfit)
                    } else if self.cached(path[0], path[1]) is None {
                        Err(FlashSwapError::PairNotFound)
                    } else {
                        Ok(out)
                    }
                },
            }
        }
    }

    /// Initiates a flash swap along the cyclic `path`.  Validates the caller,
    /// the borrow amount and the path shape; prices the chain (or accepts the
    /// caller's pre-computed amounts); enforces the profitability invariant;
    /// and returns the first pool's swap instruction, whose output is
    /// directed at the orchestrator itself and whose payload carries the
    /// whole plan to the settlement callback.
    ///
    /// Every pair the plan touches must already be resolved into the cache;
    /// the driver resolves them (and fetches `pool_reserves`, one raw pair
    /// per hop) before initiating.
    pub fn flashswap(
        &self,
        caller: AccountId,
        amounts: Vec<u128>,
        path: Vec<AccountId>,
        pool_reserves: &Vec<(u128, u128)>,
    ) -> (r: Result<FlashSwapPlan, FlashSwapError>)
        requires
            amounts@.len() >= 1,
            amounts@.len() == 1 ==> path@.len() == pool_reserves@.len() + 1,
        ensures
            r matches Err(e) ==> self.flashswap_spec(caller, amounts@, path@, pool_reserves@)
                == Err::<Seq<u128>, FlashSwapError>(e),
            r matches Ok(plan) ==> self.flashswap_spec(caller, amounts@, path@, pool_reserves@)
                == Ok::<Seq<u128>, FlashSwapError>(plan.amounts_out@) && plan.amounts_out@.len()
                >= 2 && plan.pair == (self.cached(path@[0], path@[1])->0).0 && (
            plan.amount_0_out,
            plan.amount_1_out,
            ) == slot_amounts(path@[0], path@[1], plan.amounts_out@[1]) && plan.payload@
                == payload_bytes(path@, plan.amounts_out@),
    {
        if caller != self.owner() {
            return Err(FlashSwapError::CallerIsNotOwner);
        }
        let amount = amounts[0];
        if amount == 0 {
            return Err(FlashSwapError::AmountIsZero);
        }
        if path.len() <= 2 {
            return Err(FlashSwapError::InvalidPath);
        }
        if path[0] != path[path.len() - 1] {
            return Err(FlashSwapError::PathAcyclic);
        }

        let amounts_out = if amounts.len() == 1 {
            match self.calculate_amounts_out(amount, &path, pool_reserves) {
                Ok(v) => v,
                Err(e) => {
                    return Err(e);
                },
            }
        } else {
            amounts
        };

        let received = amounts_out[amounts_out.len() - 1];
        if received <= amount {
            return Err(FlashSwapError::NoProfit);
        }

        let borrow_token_id = path[0];
        let paired_token_id = path[1];
        let pair = match self.get_pair_safe(borrow_token_id, paired_token_id) {
            Ok(p) => p,
            Err(e) => {
                return Err(e);
            },
        };

        let amount_out = amounts_out[1];
        let (amount_0_out, amount_1_out) = if borrow_token_id < paired_token_id {
            (0u128, amount_out)
        } else {
            (amount_out, 0u128)
        };

        let data = SwapCallData { path, amounts_out };
        let payload = encode_payload(&data);
        let SwapCallData { path: _, amounts_out } = data;
        Ok(FlashSwapPlan { amounts_out, pair, amount_0_out, amount_1_out, payload })
    }

    /// The full behaviour of the settlement callback `swap_call`.
    ///
    /// A payload that does not decode, a caller other than the lending pool,
    /// and delivered amounts that do not match the priced hop are integrity
    /// failures of the callback protocol, reported as `SwapCallFailed`; the
    /// driver treats every error of the callback as a fatal abort of the
    /// whole unit of work.
    pub open spec fn settle_spec(
        self,
        caller: AccountId,
        self_id: AccountId,
        amount_0: u128,
        amount_1: u128,
        bytes: Seq<u8>,
    ) -> Result<(TransferStep, Seq<SwapStep>, TransferStep), FlashSwapError> {
        match parse_payload(bytes) {
            None => Err(FlashSwapError::SwapCallFailed),
            Some((path, amounts)) => {
                if path.len() < 3 || amounts.len() < path.len() {
                    Err(FlashSwapError::InvalidPath)
                } else if path[0] != path[path.len() - 1] {
                    Err(FlashSwapError::PathAcyclic)
                } else if amounts[0] >= amounts[amounts.len() - 1] {
                    Err(FlashSwapError::NoProfit)
                } else {
                    match self.cached(path[0], path[1]) {
                        None => Err(FlashSwapError::PairNotFound),
                        Some(pf) => {
                            if caller != pf.0 {
                                Err(FlashSwapError::SwapCallFailed)
                            } else if amount_0 != amounts[1] && amount_1 != amounts[1] {
                                Err(FlashSwapError::SwapCallFailed)
                            } else {
                                match self.cached(path[1], path[2]) {
                                    None => Err(FlashSwapError::PairNotFound),
                                    Some(nf) => {
                                        match self.swap_steps_spec(amounts, path, self_id) {
                                            Err(e) => Err(e),
                                            Ok(steps) => Ok(
                                                (
                                                    TransferStep {
                                                        token: path[1],
                                                        to: nf.0,
                                                        amount: amounts[1],
                                                    },
                                                    steps,
                                                    TransferStep {
                                                        token: path[0],
                                                        to: pf.0,
                                                        amount: amounts[0],
                                                    },
                                                ),
                                            ),
                                        }
                                    },
                                }
                            }
                        },
                    }
                }
            },
        }
    }

    /// Settles an initiated flash swap.  Invoked (through the driver) by the
    /// lending pool in the middle of its swap, with the payload it got from
    /// `flashswap` and the two amounts it delivered.  Re-validates the
    /// decoded plan against tampering, asserts that the caller is exactly the
    /// pool owed repayment, and returns the settlement instructions: pre-pay
    /// the next pool, run the interior hops (their proceeds ending at the
    /// orchestrator `self_id`), and repay the borrowed amount.
    pub fn swap_call(
        &self,
        caller: AccountId,
        self_id: AccountId,
        amount_0: u128,
        amount_1: u128,
        data: &Vec<u8>,
    ) -> (r: Result<SettlePlan, FlashSwapError>)
        ensures
            r matches Err(e) ==> self.settle_spec(caller, self_id, amount_0, amount_1, data@)
                matches Err(e2) && e == e2,
            r matches Ok(plan) ==> self.settle_spec(caller, self_id, amount_0, amount_1, data@)
                matches Ok(t) && plan.prepay == t.0 && plan.hops@ == t.1 && plan.repay == t.2,
    {
        let decoded = match decode_payload(data) {
            None => {
                return Err(FlashSwapError::SwapCallFailed);
            },
            Some(d) => d,
        };
        let path = decoded.path;
        let amounts_out = decoded.amounts_out;

        if path.len() < 3 || amounts_out.len() < path.len() {
            return Err(FlashSwapError::InvalidPath);
        }
        if path[0] != path[path.len() - 1] {
            return Err(FlashSwapError::PathAcyclic);
        }
        if amounts_out[0] >= amounts_out[amounts_out.len() - 1] {
            return Err(FlashSwapError::NoProfit);
        }

        let borrow_token_id = path[0];
        let paired_token_id = path[1];
        let pair_id = match self.get_pair_safe(borrow_token_id, paired_token_id) {
            Ok(p) => p,
            Err(e) => {
                return Err(e);
            },
        };
        if caller != pair_id {
            return Err(FlashSwapError::SwapCallFailed);
        }
        if amount_0 != amounts_out[1] && amount_1 != amounts_out[1] {
            return Err(FlashSwapError::SwapCallFailed);
        }
        let next_pair = match self.get_pair_safe(paired_token_id, path[2]) {
            Ok(p) => p,
            Err(e) => {
                return Err(e);
            },
        };
        let hops = match self.swap(&amounts_out, &path, self_id) {
            Ok(v) => v,
            Err(e) => {
                return Err(e);
            },
        };
        Ok(
            SettlePlan {
                prepay: TransferStep {
                    token: paired_token_id,
                    to: next_pair,
                    amount: amounts_out[1],
                },
                hops,
                repay: TransferStep { token: borrow_token_id, to: pair_id, amount: amounts_out[0] },
            },
        )
    }

    /// Two-phase coherence: when the orchestrator initiates a flash swap
    /// with freshly priced amounts, its own settlement callback accepts what
    /// the lending pool hands back — the initiation payload, verbatim, and
    /// the priced first-hop output on the slot the plan directed it to — and
    /// the settlement instructions can all be built.
    pub proof fn lemma_initiate_then_settle(
        self,
        caller: AccountId,
        self_id: AccountId,
        amounts: Seq<u128>,
        path: Seq<AccountId>,
        reserves: Seq<(u128, u128)>,
    )
        requires
            amounts.len() == 1,
            path.len() < 0x10000000000000000,
            self.flashswap_spec(caller, amounts, path, reserves) is Ok,
        ensures
            ({
                let out = self.flashswap_spec(caller, amounts, path, reserves)->Ok_0;
                let pool = (self.cached(path[0], path[1])->0).0;
                let slots = slot_amounts(path[0], path[1], out[1]);
                self.settle_spec(pool, self_id, slots.0, slots.1, payload_bytes(path, out)) is Ok
            }),
    {
        let out = self.flashswap_spec(caller, amounts, path, reserves)->Ok_0;
        let pool = (self.cached(path[0], path[1])->0).0;
        let slots = slot_amounts(path[0], path[1], out[1]);
        self.lemma_amounts_rec_ok_shape(seq![amounts[0]], path, reserves, 0);
        assert(out.len() == path.len());
        assert(out[0] == amounts[0]) by {
            assert(out.subrange(0, 1)[0] == out[0]);
        }
        crate::codec::lemma_payload_round_trip(path, out);
        self.lemma_swap_steps_ok(out, path, self_id, 1);
        assert(slots.0 == out[1] || slots.1 == out[1]);
    }

    /// Sweeps a token: instructs the driver to transfer the orchestrator's
    /// whole balance of `token` to the administrator.  Administrator-only.
    pub fn draw(&self, caller: AccountId, token: AccountId, balance: u128) -> (r: Result<
        TransferStep,
        FlashSwapError,
    >)
        ensures
            caller != self.spec_owner() ==> r == Err::<TransferStep, FlashSwapError>(
                FlashSwapError::CallerIsNotOwner,
            ),
            caller == self.spec_owner() ==> r == Ok::<TransferStep, FlashSwapError>(
                (TransferStep { token, to: self.spec_owner(), amount: balance }),
            ),
    {
        if caller != self.owner() {
            return Err(FlashSwapError::CallerIsNotOwner);
        }
        Ok(TransferStep { token, to: self.owner(), amount: balance })
    }
}

} // verus!
