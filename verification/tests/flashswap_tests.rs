use flashswap::errors::FlashSwapError;
use flashswap::state::FlashSwap;

const OWNER: u128 = 1;
const FACTORY: u128 = 99;
const ORCH: u128 = 900;

const A: u128 = 1;
const B: u128 = 2;
const C: u128 = 3;

const POOL_AB: u128 = 10;
const POOL_BC: u128 = 11;
const POOL_CA: u128 = 12;

fn orchestrator_with_pool() -> FlashSwap {
    let mut fs = FlashSwap::new(FACTORY, OWNER);
    fs.add_pair_to_cache(OWNER, POOL_AB, A, B, 3).unwrap();
    fs
}

#[test]
fn flashswap_rejects_non_owner() {
    let fs = orchestrator_with_pool();
    let r = fs.flashswap(5, vec![100], vec![A, B, A], &vec![(1, 1), (1, 1)]);
    assert_eq!(r.err(), Some(FlashSwapError::CallerIsNotOwner));
}

#[test]
fn flashswap_rejects_zero_amount() {
    let fs = orchestrator_with_pool();
    let r = fs.flashswap(OWNER, vec![0], vec![A, B, A], &vec![(1, 1), (1, 1)]);
    assert_eq!(r.err(), Some(FlashSwapError::AmountIsZero));
}

#[test]
fn flashswap_rejects_short_path() {
    let fs = orchestrator_with_pool();
    let r = fs.flashswap(OWNER, vec![100], vec![A, B], &vec![(1, 1)]);
    assert_eq!(r.err(), Some(FlashSwapError::InvalidPath));
    let r = fs.flashswap(OWNER, vec![100, 99, 118], vec![A], &vec![]);
    assert_eq!(r.err(), Some(FlashSwapError::InvalidPath));
}

#[test]
fn flashswap_rejects_acyclic_path() {
    let fs = orchestrator_with_pool();
    let r = fs.flashswap(OWNER, vec![100], vec![A, B, C], &vec![(1, 1), (1, 1)]);
    assert_eq!(r.err(), Some(FlashSwapError::PathAcyclic));
}

#[test]
fn flashswap_rejects_unprofitable_supplied_amounts() {
    let fs = orchestrator_with_pool();
    // Last amount equal to the borrow is not a profit.
    let r = fs.flashswap(OWNER, vec![100, 99, 100], vec![A, B, A], &vec![]);
    assert_eq!(r.err(), Some(FlashSwapError::NoProfit));
}

#[test]
fn flashswap_rejects_unprofitable_priced_chain() {
    // Both hops against the same flat reserves: fees eat the cycle.
    let fs = orchestrator_with_pool();
    let r = fs.flashswap(
        OWNER,
        vec![100],
        vec![A, B, A],
        &vec![(100_000, 100_000), (100_000, 100_000)],
    );
    assert_eq!(r.err(), Some(FlashSwapError::NoProfit));
}

#[test]
fn flashswap_rejects_degenerate_hop() {
    let mut fs = orchestrator_with_pool();
    fs.add_pair_to_cache(OWNER, POOL_AB, A, A, 3).unwrap();
    let r = fs.flashswap(OWNER, vec![100], vec![A, A, A], &vec![(1, 1), (1, 1)]);
    assert_eq!(r.err(), Some(FlashSwapError::IdenticalAddresses));
}

#[test]
fn flashswap_rejects_drained_pool() {
    let fs = orchestrator_with_pool();
    let r = fs.flashswap(OWNER, vec![100], vec![A, B, A], &vec![(0, 100_000), (1, 1)]);
    assert_eq!(r.err(), Some(FlashSwapError::InsufficientLiquidity));
}

#[test]
fn flashswap_rejects_unresolved_pair() {
    let fs = FlashSwap::new(FACTORY, OWNER);
    let r = fs.flashswap(OWNER, vec![100, 99, 118], vec![A, B, A], &vec![]);
    assert_eq!(r.err(), Some(FlashSwapError::PairNotFound));
}

#[test]
fn flashswap_accepts_supplied_amounts_verbatim() {
    let fs = orchestrator_with_pool();
    let plan = fs.flashswap(OWNER, vec![100, 99, 118], vec![A, B, A], &vec![]).unwrap();
    assert_eq!(plan.amounts_out, vec![100, 99, 118]);
    assert_eq!(plan.pair, POOL_AB);
    // A < B: the output leaves on the second slot.
    assert_eq!((plan.amount_0_out, plan.amount_1_out), (0, 99));
}

#[test]
fn flashswap_prices_chain_when_only_borrow_given() {
    let fs = orchestrator_with_pool();
    // Hop 1: 100 -> 99 against (100000, 100000), fee 3.
    // Hop 2: 99 B -> 118 A against raw (A: 120000, B: 100000), fee 3.
    let plan = fs
        .flashswap(OWNER, vec![100], vec![A, B, A], &vec![(100_000, 100_000), (120_000, 100_000)])
        .unwrap();
    assert_eq!(plan.amounts_out, vec![100, 99, 118]);
}

#[test]
fn swap_builds_interior_hop_instructions() {
    let mut fs = FlashSwap::new(FACTORY, OWNER);
    fs.add_pair_to_cache(OWNER, POOL_AB, A, B, 3).unwrap();
    fs.add_pair_to_cache(OWNER, POOL_BC, B, C, 3).unwrap();
    fs.add_pair_to_cache(OWNER, POOL_CA, C, A, 3).unwrap();
    let steps = fs.swap(&vec![100, 99, 98, 105], &vec![A, B, C, A], ORCH).unwrap();
    assert_eq!(steps.len(), 2);
    // Hop B -> C: emits 98 on C's slot (B < C), forwards to the next pool.
    assert_eq!(steps[0].pair, POOL_BC);
    assert_eq!((steps[0].amount_0_out, steps[0].amount_1_out), (0, 98));
    assert_eq!(steps[0].to, POOL_CA);
    // Hop C -> A: emits 105 on A's slot (C > A), pays the payee.
    assert_eq!(steps[1].pair, POOL_CA);
    assert_eq!((steps[1].amount_0_out, steps[1].amount_1_out), (105, 0));
    assert_eq!(steps[1].to, ORCH);
}

#[test]
fn swap_rejects_repeated_adjacent_asset() {
    let fs = orchestrator_with_pool();
    let r = fs.swap(&vec![100, 99, 98, 105], &vec![A, B, B, A], ORCH);
    assert_eq!(r.err(), Some(FlashSwapError::IdenticalAddresses));
}

#[test]
fn swap_rejects_uncached_interior_pair() {
    let fs = orchestrator_with_pool();
    let r = fs.swap(&vec![100, 99, 98, 105], &vec![A, B, C, A], ORCH);
    assert_eq!(r.err(), Some(FlashSwapError::PairNotFound));
}

#[test]
fn get_reserves_orients_by_token_order() {
    let fs = orchestrator_with_pool();
    assert_eq!(fs.get_reserves(A, B, 70, 30), Ok((70, 30, 3)));
    assert_eq!(fs.get_reserves(B, A, 70, 30), Ok((30, 70, 3)));
    assert_eq!(fs.get_reserves(A, A, 70, 30), Err(FlashSwapError::IdenticalAddresses));
    assert_eq!(fs.get_reserves(A, C, 70, 30), Err(FlashSwapError::PairNotFound));
}

#[test]
fn calculate_amounts_out_short_path() {
    let fs = orchestrator_with_pool();
    let r = fs.calculate_amounts_out(100, &vec![A], &vec![]);
    assert_eq!(r.err(), Some(FlashSwapError::InvalidPath));
}

#[test]
fn calculate_amounts_out_single_hop() {
    let fs = orchestrator_with_pool();
    let r = fs.calculate_amounts_out(100, &vec![A, B], &vec![(100_000, 100_000)]).unwrap();
    assert_eq!(r, vec![100, 99]);
}
