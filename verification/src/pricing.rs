//! The fee-adjusted constant-product pricing rule.
//!
//! For an input of `amount_in` against reserves `(reserve_0, reserve_1)` and a
//! fee of `fee` parts per thousand, the output is
//! `amount_in * (1000 - fee) * reserve_1 / (reserve_0 * 1000 + amount_in * (1000 - fee))`,
//! with truncating division.

use vstd::arithmetic::div_mod::lemma_fundamental_div_mod;
use vstd::prelude::*;

use crate::errors::FlashSwapError;
use crate::state::FlashSwap;
use crate::wide::{
    limbs_to_u128, pow2_128, pow2_256, wide_checked_add,
    wide_checked_mul, wide_div, wide_mul,
};
use crate::TRADING_FEE_DENOM;

verus! {

/// The fee leaves this fraction (in parts per thousand) of the input amount.
pub open spec fn fee_factor(fee: u8) -> int {
    TRADING_FEE_DENOM - fee
}

/// The input amount scaled by the fee factor.
pub open spec fn in_with_fee(amount_in: u128, fee: u8) -> int {
    amount_in * fee_factor(fee)
}

pub open spec fn out_numerator(amount_in: u128, reserve_1: u128, fee: u8) -> int {
    in_with_fee(amount_in, fee) * reserve_1
}

pub open spec fn out_denominator(amount_in: u128, reserve_0: u128, fee: u8) -> int {
    reserve_0 * TRADING_FEE_DENOM + in_with_fee(amount_in, fee)
}

/// The priced output amount, as an unbounded integer.
pub open spec fn amount_out_value(amount_in: u128, reserve_0: u128, reserve_1: u128, fee: u8) -> int {
    out_numerator(amount_in, reserve_1, fee) / out_denominator(amount_in, reserve_0, fee)
}

/// The full behaviour of the pricing rule: which inputs are rejected, with
/// which error, and the exact output for the rest.
pub open spec fn amount_out_spec(amount_in: u128, reserve_0: u128, reserve_1: u128, fee: u8) -> Result<
    u128,
    FlashSwapError,
> {
    if amount_in == 0 {
        Err(FlashSwapError::InsufficientAmount)
    } else if reserve_0 == 0 || reserve_1 == 0 {
        Err(FlashSwapError::InsufficientLiquidity)
    } else if out_numerator(amount_in, reserve_1, fee) >= pow2_256() {
        Err(FlashSwapError::MulOverflow(13))
    } else {
        Ok(amount_out_value(amount_in, reserve_0, reserve_1, fee) as u128)
    }
}

impl FlashSwap {
    /// Prices one hop.  Rejects a zero input and empty reserves; the widened
    /// numerator can genuinely exceed 256 bits, which is reported as
    /// `MulOverflow`.  The remaining guards of the computation — overflow of
    /// the widened sum, a zero denominator, and a quotient too wide for the
    /// amount type — are proved unreachable, so the success case returns
    /// exactly the priced value.
    pub fn get_amount_out(
        &self,
        amount_in: u128,
        reserve_0: u128,
        reserve_1: u128,
        fee: u8,
    ) -> (r: Result<u128, FlashSwapError>)
        ensures
            r == amount_out_spec(amount_in, reserve_0, reserve_1, fee),
            r matches Ok(v) ==> v == amount_out_value(amount_in, reserve_0, reserve_1, fee),
    {
        if amount_in == 0 {
            return Err(FlashSwapError::InsufficientAmount);
        }
        if reserve_0 == 0 || reserve_1 == 0 {
            return Err(FlashSwapError::InsufficientLiquidity);
        }

        let amount_in_with_fee = wide_mul(amount_in, TRADING_FEE_DENOM - (fee as u128));

        let numerator = match wide_checked_mul(amount_in_with_fee, reserve_1) {
            Some(n) => n,
            None => {
                return Err(FlashSwapError::MulOverflow(13));
            },
        };

        let denominator = match wide_checked_add(
            wide_mul(reserve_0, TRADING_FEE_DENOM),
            amount_in_with_fee,
        ) {
            Some(d) => d,
            None => {
                proof {
                    lemma_denominator_fits(amount_in, reserve_0, fee);
                }
                return Err(FlashSwapError::AddOverflow(2));
            },
        };

        if denominator.0 == 0 && denominator.1 == 0 && denominator.2 == 0 && denominator.3 == 0 {
            proof {
                lemma_mul_lower_bound(reserve_0 as int, TRADING_FEE_DENOM as int);
            }
            return Err(FlashSwapError::DivByZero(7));
        }

        proof {
            lemma_mul_lower_bound(reserve_0 as int, TRADING_FEE_DENOM as int);
            assert(in_with_fee(amount_in, fee) >= 0) by {
                lemma_mul_lower_bound(amount_in as int, fee_factor(fee));
            }
        }
        let quotient = wide_div(numerator, denominator);

        let amount_out: u128 = match limbs_to_u128(quotient) {
            Some(v) => v,
            None => {
                proof {
                    lemma_quotient_fits(amount_in, reserve_0, reserve_1, fee);
                }
                return Err(FlashSwapError::CastOverflow(4));
            },
        };

        proof {
            lemma_quotient_fits(amount_in, reserve_0, reserve_1, fee);
        }
        Ok(amount_out)
    }
}

/// The product of two non-negative factors is non-negative, and at least
/// either factor when the other is at least one.
proof fn lemma_mul_lower_bound(x: int, y: int)
    requires
        x >= 0,
        y >= 0,
    ensures
        x * y >= 0,
        x >= 1 && y >= 1 ==> x * y >= x && x * y >= y,
{
    broadcast use vstd::arithmetic::mul::group_mul_properties;

}

/// Truncating division is monotone across cross-multiplied fractions: if
/// `n1/d1 <= n2/d2` holds of the exact rationals, it holds of the quotients.
proof fn lemma_div_cross(n1: int, d1: int, n2: int, d2: int)
    requires
        n1 >= 0,
        d1 > 0,
        d2 > 0,
        n1 * d2 <= n2 * d1,
    ensures
        n1 / d1 <= n2 / d2,
{
    let q1 = n1 / d1;
    let q2 = n2 / d2;
    let r1 = n1 % d1;
    let r2 = n2 % d2;
    lemma_fundamental_div_mod(n1, d1);
    lemma_fundamental_div_mod(n2, d2);
    vstd::arithmetic::div_mod::lemma_mod_bound(n1, d1);
    vstd::arithmetic::div_mod::lemma_mod_bound(n2, d2);
    assert(q1 * d2 <= n2) by (nonlinear_arith)
        requires
            n1 == d1 * q1 + r1,
            n2 == d2 * q2 + r2,
            0 <= r1,
            n1 * d2 <= n2 * d1,
            d1 > 0,
            d2 > 0,
    ;
    assert(q1 <= q2) by (nonlinear_arith)
        requires
            q1 * d2 <= n2,
            n2 == d2 * q2 + r2,
            r2 < d2,
            d2 > 0,
    ;
}

/// The priced output never falls when the input grows: for live reserves and
/// a fixed fee, `amount_out_value` is monotonically non-decreasing in the
/// input amount.
pub proof fn lemma_amount_out_monotone(
    amount_1: u128,
    amount_2: u128,
    reserve_0: u128,
    reserve_1: u128,
    fee: u8,
)
    requires
        amount_1 <= amount_2,
        reserve_0 > 0,
        reserve_1 > 0,
    ensures
        amount_out_value(amount_1, reserve_0, reserve_1, fee) <= amount_out_value(
            amount_2,
            reserve_0,
            reserve_1,
            fee,
        ),
{
    let k = fee_factor(fee);
    let w1 = in_with_fee(amount_1, fee);
    let w2 = in_with_fee(amount_2, fee);
    let base = reserve_0 * TRADING_FEE_DENOM;
    assert(w1 <= w2) by {
        vstd::arithmetic::mul::lemma_mul_inequality(amount_1 as int, amount_2 as int, k);
    }
    assert(w1 >= 0) by {
        lemma_mul_lower_bound(amount_1 as int, k);
    }
    assert(base >= 1000) by {
        lemma_mul_lower_bound(reserve_0 as int, TRADING_FEE_DENOM as int);
    }
    assert(out_numerator(amount_1, reserve_1, fee) * out_denominator(amount_2, reserve_0, fee)
        <= out_numerator(amount_2, reserve_1, fee) * out_denominator(
        amount_1,
        reserve_0,
        fee,
    )) by (nonlinear_arith)
        requires
            0 <= w1 <= w2,
            base >= 0,
            out_numerator(amount_1, reserve_1, fee) == w1 * reserve_1,
            out_numerator(amount_2, reserve_1, fee) == w2 * reserve_1,
            out_denominator(amount_1, reserve_0, fee) == base + w1,
            out_denominator(amount_2, reserve_0, fee) == base + w2,
    ;
    assert(out_numerator(amount_1, reserve_1, fee) >= 0) by {
        lemma_mul_lower_bound(w1, reserve_1 as int);
    }
    lemma_div_cross(
        out_numerator(amount_1, reserve_1, fee),
        out_denominator(amount_1, reserve_0, fee),
        out_numerator(amount_2, reserve_1, fee),
        out_denominator(amount_2, reserve_0, fee),
    );
}

/// A higher fee never yields more: for live reserves and a fixed input,
/// `amount_out_value` is monotonically non-increasing in the fee.
pub proof fn lemma_amount_out_fee_monotone(
    amount_in: u128,
    reserve_0: u128,
    reserve_1: u128,
    fee_1: u8,
    fee_2: u8,
)
    requires
        fee_1 <= fee_2,
        reserve_0 > 0,
        reserve_1 > 0,
    ensures
        amount_out_value(amount_in, reserve_0, reserve_1, fee_2) <= amount_out_value(
            amount_in,
            reserve_0,
            reserve_1,
            fee_1,
        ),
{
    let w1 = in_with_fee(amount_in, fee_1);
    let w2 = in_with_fee(amount_in, fee_2);
    let base = reserve_0 * TRADING_FEE_DENOM;
    assert(w2 <= w1) by {
        vstd::arithmetic::mul::lemma_mul_inequality(fee_factor(fee_2), fee_factor(fee_1), amount_in as int);
        vstd::arithmetic::mul::lemma_mul_is_commutative(amount_in as int, fee_factor(fee_2));
        vstd::arithmetic::mul::lemma_mul_is_commutative(amount_in as int, fee_factor(fee_1));
    }
    assert(w2 >= 0) by {
        lemma_mul_lower_bound(amount_in as int, fee_factor(fee_2));
    }
    assert(base >= 1000) by {
        lemma_mul_lower_bound(reserve_0 as int, TRADING_FEE_DENOM as int);
    }
    assert(out_numerator(amount_in, reserve_1, fee_2) * out_denominator(amount_in, reserve_0, fee_1)
        <= out_numerator(amount_in, reserve_1, fee_1) * out_denominator(
        amount_in,
        reserve_0,
        fee_2,
    )) by (nonlinear_arith)
        requires
            0 <= w2 <= w1,
            base >= 0,
            out_numerator(amount_in, reserve_1, fee_1) == w1 * reserve_1,
            out_numerator(amount_in, reserve_1, fee_2) == w2 * reserve_1,
            out_denominator(amount_in, reserve_0, fee_1) == base + w1,
            out_denominator(amount_in, reserve_0, fee_2) == base + w2,
    ;
    assert(out_numerator(amount_in, reserve_1, fee_2) >= 0) by {
        lemma_mul_lower_bound(w2, reserve_1 as int);
    }
    lemma_div_cross(
        out_numerator(amount_in, reserve_1, fee_2),
        out_denominator(amount_in, reserve_0, fee_2),
        out_numerator(amount_in, reserve_1, fee_1),
        out_denominator(amount_in, reserve_0, fee_1),
    );
}

/// The fee-free constant-product price is a strict upper bound: the output is
/// strictly below `amount_in * reserve_1 / reserve_0` as an exact fraction.
pub proof fn lemma_amount_out_upper_bound(
    amount_in: u128,
    reserve_0: u128,
    reserve_1: u128,
    fee: u8,
)
    requires
        amount_in > 0,
        reserve_0 > 0,
        reserve_1 > 0,
    ensures
        amount_out_value(amount_in, reserve_0, reserve_1, fee) * reserve_0 < amount_in * reserve_1,
{
    let w = in_with_fee(amount_in, fee);
    let n = out_numerator(amount_in, reserve_1, fee);
    let d = out_denominator(amount_in, reserve_0, fee);
    let q = amount_out_value(amount_in, reserve_0, reserve_1, fee);
    let base = reserve_0 * TRADING_FEE_DENOM;
    assert(w >= 1 && w <= amount_in * 1000) by {
        lemma_mul_lower_bound(amount_in as int, fee_factor(fee));
        vstd::arithmetic::mul::lemma_mul_left_inequality(
            amount_in as int,
            fee_factor(fee),
            TRADING_FEE_DENOM as int,
        );
    }
    assert(base >= 1000 && base >= reserve_0) by {
        lemma_mul_lower_bound(reserve_0 as int, TRADING_FEE_DENOM as int);
    }
    lemma_fundamental_div_mod(n, d);
    vstd::arithmetic::div_mod::lemma_mod_bound(n, d);
    lemma_quotient_fits(amount_in, reserve_0, reserve_1, fee);
    if q == 0 {
        assert(amount_in * reserve_1 >= 1) by {
            lemma_mul_lower_bound(amount_in as int, reserve_1 as int);
        }
        assert(q * reserve_0 == 0) by {
            vstd::arithmetic::mul::lemma_mul_basics(reserve_0 as int);
        }
    } else {
        assert(q * reserve_0 * 1000 < amount_in * reserve_1 * 1000) by (nonlinear_arith)
            requires
                n == d * q + n % d,
                n % d >= 0,
                n == w * reserve_1,
                d == base + w,
                base == reserve_0 * 1000,
                1 <= w <= amount_in * 1000,
                q >= 1,
                reserve_1 >= 1,
        ;
        assert(q * reserve_0 < amount_in * reserve_1) by (nonlinear_arith)
            requires
                q * reserve_0 * 1000 < amount_in * reserve_1 * 1000,
        ;
    }
}

/// The widened denominator always fits in 256 bits.
proof fn lemma_denominator_fits(amount_in: u128, reserve_0: u128, fee: u8)
    ensures
        out_denominator(amount_in, reserve_0, fee) < pow2_256(),
{
    assert(reserve_0 * TRADING_FEE_DENOM <= (pow2_128() - 1) * 1000) by {
        vstd::arithmetic::mul::lemma_mul_inequality(reserve_0 as int, pow2_128() - 1, 1000);
    }
    assert(amount_in * fee_factor(fee) <= (pow2_128() - 1) * 1000) by {
        vstd::arithmetic::mul::lemma_mul_upper_bound(
            amount_in as int,
            pow2_128() - 1,
            fee_factor(fee),
            1000,
        );
    }
}

/// When both reserves are live, the quotient is strictly below `reserve_1`,
/// so it always fits back into the amount type.
proof fn lemma_quotient_fits(amount_in: u128, reserve_0: u128, reserve_1: u128, fee: u8)
    requires
        amount_in > 0,
        reserve_0 > 0,
        reserve_1 > 0,
    ensures
        0 <= amount_out_value(amount_in, reserve_0, reserve_1, fee) < reserve_1,
{
    let w = in_with_fee(amount_in, fee);
    let n = out_numerator(amount_in, reserve_1, fee);
    let d = out_denominator(amount_in, reserve_0, fee);
    let q = amount_out_value(amount_in, reserve_0, reserve_1, fee);
    assert(w >= 1) by {
        lemma_mul_lower_bound(amount_in as int, fee_factor(fee));
    }
    assert(reserve_0 * TRADING_FEE_DENOM >= 1000) by {
        lemma_mul_lower_bound(reserve_0 as int, TRADING_FEE_DENOM as int);
    }
    assert(n < d * reserve_1) by {
        vstd::arithmetic::mul::lemma_mul_strict_inequality(w, d, reserve_1 as int);
    }
    lemma_fundamental_div_mod(n, d);
    assert(d * q <= n) by {
        assert(n == d * q + n % d);
        vstd::arithmetic::div_mod::lemma_mod_bound(n, d);
    }
    assert(q < reserve_1) by {
        assert(d * q < d * reserve_1);
        vstd::arithmetic::mul::lemma_mul_strict_inequality_converse(
            q,
            reserve_1 as int,
            d,
        );
    }
    assert(q >= 0) by {
        vstd::arithmetic::div_mod::lemma_div_pos_is_pos(n, d);
    }
}

} // verus!
