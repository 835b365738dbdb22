use std::collections::HashMap;

use flashswap::codec::{encode_payload, SwapCallData};
use flashswap::errors::FlashSwapError;
use flashswap::state::FlashSwap;

const OWNER: u128 = 1;
const FACTORY: u128 = 99;
const ORCH: u128 = 900;

const A: u128 = 1;
const B: u128 = 2;

const POOL_AB: u128 = 10;

fn orchestrator_with_pool() -> FlashSwap {
    let mut fs = FlashSwap::new(FACTORY, OWNER);
    fs.add_pair_to_cache(OWNER, POOL_AB, A, B, 3).unwrap();
    fs
}

fn payload(path: Vec<u128>, amounts_out: Vec<u128>) -> Vec<u8> {
    encode_payload(&SwapCallData { path, amounts_out })
}

#[test]
fn swap_call_rejects_garbage_payload() {
    let fs = orchestrator_with_pool();
    let r = fs.swap_call(POOL_AB, ORCH, 0, 99, &vec![1, 2, 3]);
    assert_eq!(r.err(), Some(FlashSwapError::SwapCallFailed));
}

#[test]
fn swap_call_rejects_short_decoded_path() {
    let fs = orchestrator_with_pool();
    let r = fs.swap_call(POOL_AB, ORCH, 0, 99, &payload(vec![A, B], vec![100, 118]));
    assert_eq!(r.err(), Some(FlashSwapError::InvalidPath));
}

#[test]
fn swap_call_rejects_short_amounts() {
    let fs = orchestrator_with_pool();
    // Fewer amounts than path entries cannot drive the hops.
    let r = fs.swap_call(POOL_AB, ORCH, 0, 99, &payload(vec![A, B, A], vec![100, 118]));
    assert_eq!(r.err(), Some(FlashSwapError::InvalidPath));
}

#[test]
fn swap_call_rejects_acyclic_payload() {
    let fs = orchestrator_with_pool();
    let r = fs.swap_call(POOL_AB, ORCH, 0, 99, &payload(vec![A, B, B + 5], vec![100, 99, 118]));
    assert_eq!(r.err(), Some(FlashSwapError::PathAcyclic));
}

#[test]
fn swap_call_rejects_tampered_profit() {
    let fs = orchestrator_with_pool();
    let r = fs.swap_call(POOL_AB, ORCH, 0, 99, &payload(vec![A, B, A], vec![118, 99, 100]));
    assert_eq!(r.err(), Some(FlashSwapError::NoProfit));
}

#[test]
fn swap_call_rejects_foreign_caller() {
    let fs = orchestrator_with_pool();
    let r = fs.swap_call(77, ORCH, 0, 99, &payload(vec![A, B, A], vec![100, 99, 118]));
    assert_eq!(r.err(), Some(FlashSwapError::SwapCallFailed));
}

#[test]
fn swap_call_rejects_mismatched_delivery() {
    let fs = orchestrator_with_pool();
    // Neither delivered amount equals the priced hop output 99.
    let r = fs.swap_call(POOL_AB, ORCH, 0, 98, &payload(vec![A, B, A], vec![100, 99, 118]));
    assert_eq!(r.err(), Some(FlashSwapError::SwapCallFailed));
}

#[test]
fn swap_call_produces_settlement_plan() {
    let fs = orchestrator_with_pool();
    let plan = fs.swap_call(POOL_AB, ORCH, 0, 99, &payload(vec![A, B, A], vec![100, 99, 118])).unwrap();
    // Pre-pay the next hop's pool with the intermediate token.
    assert_eq!(plan.prepay.token, B);
    assert_eq!(plan.prepay.to, POOL_AB);
    assert_eq!(plan.prepay.amount, 99);
    // One interior hop: B -> A emits 118 on A's slot, paid to the orchestrator.
    assert_eq!(plan.hops.len(), 1);
    assert_eq!(plan.hops[0].pair, POOL_AB);
    assert_eq!((plan.hops[0].amount_0_out, plan.hops[0].amount_1_out), (118, 0));
    assert_eq!(plan.hops[0].to, ORCH);
    // Repay the borrowed amount to the lending pool.
    assert_eq!(plan.repay.token, A);
    assert_eq!(plan.repay.to, POOL_AB);
    assert_eq!(plan.repay.amount, 100);
}

#[test]
fn minimal_cycle_settles_with_profit() {
    // End to end over a simulated balance sheet: borrow 100 of A, swap to B
    // and back along [A, B, A], settle, and keep the profit.
    let fs = orchestrator_with_pool();

    let plan = fs
        .flashswap(OWNER, vec![100], vec![A, B, A], &vec![(100_000, 100_000), (120_000, 100_000)])
        .unwrap();
    let received = *plan.amounts_out.last().unwrap();
    assert_eq!(plan.amounts_out, vec![100, 99, 118]);
    assert!(received > 100);

    let mut balances: HashMap<u128, u128> = HashMap::new();

    // The lending pool performs the initiating swap: it emits the hop output
    // to the orchestrator and invokes the callback with the payload.
    *balances.entry(B).or_insert(0) += plan.amount_1_out;
    let settle = fs
        .swap_call(plan.pair, ORCH, plan.amount_0_out, plan.amount_1_out, &plan.payload)
        .unwrap();

    // The driver executes the settlement plan against the balance sheet.
    *balances.get_mut(&settle.prepay.token).unwrap() -= settle.prepay.amount;
    for hop in &settle.hops {
        let emitted = if hop.amount_0_out > 0 { hop.amount_0_out } else { hop.amount_1_out };
        if hop.to == ORCH {
            *balances.entry(if hop.amount_0_out > 0 { A } else { B }).or_insert(0) += emitted;
        }
    }
    *balances.get_mut(&settle.repay.token).unwrap() -= settle.repay.amount;

    // All borrowed B was forwarded, and the A profit is received - borrowed.
    assert_eq!(balances[&B], 0);
    assert_eq!(balances[&A], received - 100);
}
