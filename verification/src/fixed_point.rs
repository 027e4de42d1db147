//! Fixed-point multiply/divide through `soroban-fixed-point-math`, and the
//! round-to-nearest division of the protocol's own precision math.
use vstd::prelude::*;
use soroban_fixed_point_math::{FixedPoint, SorobanFixedPoint};
use soroban_sdk::Env;

verus! {

/// `floor(x * y / d)` when the product fits in `u128` and `d != 0`.
pub open spec fn mul_div_floor_spec(x: int, y: int, d: int) -> Option<u128> {
    if 0 <= x * y <= u128::MAX && d > 0 {
        Some(((x * y) / d) as u128)
    } else {
        None
    }
}

/// `floor(x * d / y)` over `i128` when the product fits and `y > 0`.
pub open spec fn i128_div_floor_spec(x: int, y: int, d: int) -> Option<i128> {
    if i128::MIN <= x * d <= i128::MAX && y > 0 {
        Some(((x * d) / y) as i128)
    } else {
        None
    }
}

/// `<u128 as FixedPoint>::fixed_mul_floor` of soroban-fixed-point-math.
/// Its source multiplies with `checked_mul` and divides with `checked_div`,
/// so it returns the floored quotient exactly when the product fits in `u128`
/// and the denominator is non-zero, and `None` otherwise.
#[verifier::external_body]
pub(crate) fn u128_fixed_mul_floor(x: u128, y: u128, denominator: u128) -> (r: Option<u128>)
    ensures
        r == mul_div_floor_spec(x as int, y as int, denominator as int),
{
    x.fixed_mul_floor(y, denominator)
}

/// The Soroban environment, which carries the host's 256-bit integers.
#[verifier::external_type_specification]
#[verifier::external_body]
pub struct ExEnv(soroban_sdk::Env);

/// `ceil(n / d)` for `n >= 0` and `d > 0`.
pub open spec fn ceil_div(n: int, d: int) -> int {
    (n + d - 1) / d
}

/// `<u128 as SorobanFixedPoint>::fixed_mul_floor` of soroban-fixed-point-math.
/// Its source computes `floor(x * y / denominator)` with `checked_mul` and
/// `checked_div`, and when the product overflows `u128` retries with the host's
/// 256-bit integers; it panics when the denominator is 0 or the quotient does not
/// fit in `u128`, which `requires` leaves out.
#[verifier::external_body]
pub(crate) fn u128_wide_mul_floor(env: &Env, x: u128, y: u128, denominator: u128) -> (r: u128)
    requires
        denominator > 0,
        (x * y) / (denominator as int) <= u128::MAX,
    ensures
        r == (x * y) / (denominator as int),
{
    SorobanFixedPoint::fixed_mul_floor(&x, env, &y, &denominator)
}

/// `<u128 as SorobanFixedPoint>::fixed_mul_ceil` of soroban-fixed-point-math.
/// Its source computes the checked product and adds one to the quotient when the
/// Euclidean remainder is positive, retrying with the host's 256-bit integers when
/// the product overflows `u128`: the ceiling of `x * y / denominator`. It panics
/// when the denominator is 0 or the result does not fit in `u128`, which `requires`
/// leaves out.
#[verifier::external_body]
pub(crate) fn u128_wide_mul_ceil(env: &Env, x: u128, y: u128, denominator: u128) -> (r: u128)
    requires
        denominator > 0,
        ceil_div(x * y, denominator as int) <= u128::MAX,
    ensures
        r == ceil_div(x * y, denominator as int),
{
    SorobanFixedPoint::fixed_mul_ceil(&x, env, &y, &denominator)
}

/// `<i128 as FixedPoint>::fixed_div_floor` of soroban-fixed-point-math.
/// For a non-negative divisor `y` its source computes `floor(x * denominator / y)`
/// when `x * denominator` fits in `i128` and `y != 0`, and `None` otherwise.
#[verifier::external_body]
pub(crate) fn i128_fixed_div_floor(x: i128, y: i128, denominator: i128) -> (r: Option<i128>)
    requires
        y >= 0,
    ensures
        r == i128_div_floor_spec(x as int, y as int, denominator as int),
{
    x.fixed_div_floor(y, denominator)
}

/// Round-half-up of `x * denominator / y`.
pub open spec fn div_round_spec(x: int, y: int, denominator: int) -> int {
    (2 * x * denominator + y) / (2 * y)
}

proof fn lemma_round_half_up(p: int, y: int, q: int, r: int)
    requires
        y > 0,
        0 <= r < y,
        p == q * y + r,
    ensures
        (2 * p + y) / (2 * y) == if 2 * r >= y { q + 1 } else { q },
{
    let res = if 2 * r >= y { q + 1 } else { q };
    let rem = if 2 * r >= y { 2 * r - y } else { 2 * r + y };
    assert(2 * p + y == res * (2 * y) + rem) by (nonlinear_arith)
        requires
            p == q * y + r,
            res == if 2 * r >= y { q + 1 } else { q },
            rem == if 2 * r >= y { 2 * r - y } else { 2 * r + y },
    ;
    assert(0 <= rem < 2 * y);
    vstd::arithmetic::div_mod::lemma_fundamental_div_mod_converse(2 * p + y, 2 * y, res, rem);
}

/// Computes `x * denominator / y` rounded to the nearest integer (halves round up).
/// Returns `None` when `y == 0` or `x * denominator` does not fit in `u128`.
pub fn fixed_div_round(x: u128, y: u128, denominator: u128) -> (r: Option<u128>)
    ensures
        r is Some <==> (y > 0 && x * denominator <= u128::MAX),
        r matches Some(v) ==> v == div_round_spec(x as int, y as int, denominator as int),
{
    if y == 0 {
        return None;
    }
    match x.checked_mul(denominator) {
        None => None,
        Some(p) => {
            let q = p / y;
            let rem = p % y;
            proof {
                vstd::arithmetic::div_mod::lemma_fundamental_div_mod(p as int, y as int);
                lemma_round_half_up(p as int, y as int, q as int, rem as int);
                assert(p as int * 2 == 2 * x * denominator) by (nonlinear_arith)
                    requires p == x * denominator;
            }
            if rem >= y - rem {
                assert(q < u128::MAX) by (nonlinear_arith)
                    requires q == p / y, y > 0, rem >= y - rem, rem == p % y, p <= u128::MAX;
                Some(q + 1)
            } else {
                Some(q)
            }
        },
    }
}

} // verus!
