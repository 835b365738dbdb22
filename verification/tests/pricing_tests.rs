use flashswap::errors::FlashSwapError;
use flashswap::state::FlashSwap;

fn orchestrator() -> FlashSwap {
    FlashSwap::new(99, 1)
}

#[test]
fn amount_out_exact_small_pool() {
    let fs = orchestrator();
    // 1000 in against (5000, 5000), no fee: 1000 * 1000 * 5000 / (5000 * 1000 + 1000 * 1000)
    assert_eq!(fs.get_amount_out(1000, 5000, 5000, 0), Ok(833));
}

#[test]
fn amount_out_exact_with_fee() {
    let fs = orchestrator();
    // 100 in against (100000, 100000), fee 3 per mille:
    // 100 * 997 * 100000 / (100000 * 1000 + 100 * 997) = 9970000000 / 100099700
    assert_eq!(fs.get_amount_out(100, 100_000, 100_000, 3), Ok(99));
}

#[test]
fn amount_out_zero_amount_rejected() {
    let fs = orchestrator();
    assert_eq!(fs.get_amount_out(0, 5, 7, 10), Err(FlashSwapError::InsufficientAmount));
    assert_eq!(fs.get_amount_out(0, 0, 0, 255), Err(FlashSwapError::InsufficientAmount));
}

#[test]
fn amount_out_empty_reserve_rejected() {
    let fs = orchestrator();
    assert_eq!(fs.get_amount_out(5, 0, 7, 10), Err(FlashSwapError::InsufficientLiquidity));
    assert_eq!(fs.get_amount_out(5, 7, 0, 10), Err(FlashSwapError::InsufficientLiquidity));
}

#[test]
fn amount_out_wide_numerator_overflow() {
    let fs = orchestrator();
    // amount * (1000 - fee) * reserve_out exceeds 256 bits.
    assert_eq!(
        fs.get_amount_out(u128::MAX, u128::MAX, u128::MAX, 0),
        Err(FlashSwapError::MulOverflow(13))
    );
}

#[test]
fn amount_out_huge_inputs_still_exact() {
    let fs = orchestrator();
    // Large but in range: quotient is strictly below reserve_out.
    let r = fs.get_amount_out(u128::MAX / 2000, 1, 1_000_000, 255).unwrap();
    assert!(r < 1_000_000);
}

#[test]
fn amount_out_monotone_in_amount() {
    let fs = orchestrator();
    let mut prev: u128 = 0;
    for amount in [1u128, 10, 100, 1000, 10_000, 100_000, 1_000_000] {
        let out = fs.get_amount_out(amount, 100_000, 100_000, 3).unwrap();
        assert!(out >= prev);
        prev = out;
    }
}

#[test]
fn amount_out_below_constant_product_price() {
    let fs = orchestrator();
    // out * reserve_in < amount * reserve_out, even with no fee.
    for fee in [0u8, 3, 30, 255] {
        let out = fs.get_amount_out(777, 12_345, 67_890, fee).unwrap();
        assert!(out as u128 * 12_345 < 777 * 67_890);
    }
}

#[test]
fn amount_out_fee_never_gains() {
    let fs = orchestrator();
    let free = fs.get_amount_out(50_000, 100_000, 100_000, 0).unwrap();
    let taxed = fs.get_amount_out(50_000, 100_000, 100_000, 100).unwrap();
    assert!(taxed < free);
}
