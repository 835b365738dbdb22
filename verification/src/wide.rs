//! 256-bit arithmetic for the pricing formula.
//!
//! The widened multiply, add and divide are performed by
//! `primitive_types::U256`; each call sits behind a trusted wrapper whose
//! contract states the exact integer result over the four little-endian
//! 64-bit limbs that cross the boundary.  Reading a result back into the
//! amount type is verified code.

use vstd::prelude::*;

verus! {

/// A 256-bit unsigned value as four 64-bit limbs, least significant first.
/// This mirrors the in-memory layout of `primitive_types::U256`.
pub type Limbs = (u64, u64, u64, u64);

pub open spec fn pow2_64() -> int {
    0x10000000000000000
}

pub open spec fn pow2_128() -> int {
    pow2_64() * pow2_64()
}

pub open spec fn pow2_192() -> int {
    pow2_128() * pow2_64()
}

pub open spec fn pow2_256() -> int {
    pow2_128() * pow2_128()
}

/// The integer a quadruple of limbs stands for.
pub open spec fn limbs_val(x: Limbs) -> int {
    x.0 + x.1 * pow2_64() + x.2 * pow2_128() + x.3 * pow2_192()
}

/// Relies on `primitive_types::U256`: `From<u128>` places the value in the two
/// low limbs, and `Mul` computes the exact product, which cannot overflow
/// 256 bits when both factors are 128-bit values.
#[verifier::external_body]
pub(crate) fn wide_mul(a: u128, b: u128) -> (r: Limbs)
    ensures
        limbs_val(r) == a * b,
{
    let p = primitive_types::U256::from(a) * primitive_types::U256::from(b);
    (p.0[0], p.0[1], p.0[2], p.0[3])
}

/// Relies on `primitive_types::U256::checked_mul`: the product when it fits in
/// 256 bits, `None` otherwise.
#[verifier::external_body]
pub(crate) fn wide_checked_mul(a: Limbs, b: u128) -> (r: Option<Limbs>)
    ensures
        r matches Some(v) ==> limbs_val(v) == limbs_val(a) * b,
        r is None <==> limbs_val(a) * b >= pow2_256(),
{
    let x = primitive_types::U256([a.0, a.1, a.2, a.3]);
    match x.checked_mul(primitive_types::U256::from(b)) {
        Some(p) => Some((p.0[0], p.0[1], p.0[2], p.0[3])),
        None => None,
    }
}

/// Relies on `primitive_types::U256::checked_add`: the sum when it fits in
/// 256 bits, `None` otherwise.
#[verifier::external_body]
pub(crate) fn wide_checked_add(a: Limbs, b: Limbs) -> (r: Option<Limbs>)
    ensures
        r matches Some(v) ==> limbs_val(v) == limbs_val(a) + limbs_val(b),
        r is None <==> limbs_val(a) + limbs_val(b) >= pow2_256(),
{
    let x = primitive_types::U256([a.0, a.1, a.2, a.3]);
    match x.checked_add(primitive_types::U256([b.0, b.1, b.2, b.3])) {
        Some(s) => Some((s.0[0], s.0[1], s.0[2], s.0[3])),
        None => None,
    }
}

/// Relies on `primitive_types::U256::div_mod` (through `Div`): the truncating
/// quotient.  `div_mod` panics on a zero divisor, which the precondition
/// rules out.
#[verifier::external_body]
pub(crate) fn wide_div(n: Limbs, d: Limbs) -> (r: Limbs)
    requires
        limbs_val(d) > 0,
    ensures
        limbs_val(r) == limbs_val(n) / limbs_val(d),
{
    let q = primitive_types::U256([n.0, n.1, n.2, n.3]) / primitive_types::U256([d.0, d.1, d.2, d.3]);
    (q.0[0], q.0[1], q.0[2], q.0[3])
}

/// Reads a 256-bit value back into a `u128`; `None` when it does not fit.
pub(crate) fn limbs_to_u128(x: Limbs) -> (r: Option<u128>)
    ensures
        r matches Some(v) ==> v == limbs_val(x),
        r is None <==> limbs_val(x) >= pow2_128(),
{
    if x.2 == 0 && x.3 == 0 {
        Some((x.0 as u128) + (x.1 as u128) * 0x10000000000000000u128)
    } else {
        proof {
            if x.2 >= 1 {
                vstd::arithmetic::mul::lemma_mul_inequality(1, x.2 as int, pow2_128());
            }
            if x.3 >= 1 {
                vstd::arithmetic::mul::lemma_mul_inequality(1, x.3 as int, pow2_192());
            }
        }
        None
    }
}

} // verus!
