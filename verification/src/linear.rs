//! The linear price-to-allocation mapping shared by both calculators.
use vstd::prelude::*;
use crate::constants::PRICE_PRECISION;

verus! {

/// `a * b`, saturating at `u128::MAX`.
pub open spec fn saturating_mul_spec(a: int, b: int) -> int {
    if a * b > u128::MAX { u128::MAX as int } else { a * b }
}

/// The oracle price clamped first to at most `upper`, then to at least `lower`.
pub open spec fn clamp_price(price: int, lower: int, upper: int) -> int {
    let p = if price < upper { price } else { upper };
    if p > lower { p } else { lower }
}

/// Share of the price range `[lower, upper]` below the clamped price, in
/// `PRICE_PRECISION` units: `(clamp(price) - lower) * PRICE_PRECISION / (upper - lower)`,
/// with a saturating product, and 0 for an empty range.
pub open spec fn linear_fraction(price: int, lower: int, upper: int) -> int {
    let num = clamp_price(price, lower, upper) - lower;
    if upper <= lower {
        0
    } else {
        saturating_mul_spec(num, PRICE_PRECISION as int) / (upper - lower)
    }
}

/// Computes the linear allocation of `oracle_price` within `[lower, upper]`.
pub fn linear_fraction_of(oracle_price: u128, lower: u128, upper: u128) -> (r: u128)
    ensures
        r == linear_fraction(oracle_price as int, lower as int, upper as int),
        r <= PRICE_PRECISION,
{
    // Clamp oracle price
    let price = oracle_price.min(upper).max(lower);
    // (price - lower) / (upper - lower)
    let numerator = price.saturating_sub(lower);
    let denominator = upper.saturating_sub(lower);
    if denominator == 0 {
        return 0;
    }
    let scaled = match numerator.checked_mul(PRICE_PRECISION) {
        Some(v) => v,
        None => u128::MAX,
    };
    let fraction = scaled / denominator;
    proof {
        lemma_linear_fraction_bounded(oracle_price as int, lower as int, upper as int);
    }
    fraction
}

/// The allocation never exceeds 100%.
pub proof fn lemma_linear_fraction_bounded(price: int, lower: int, upper: int)
    requires
        0 <= price,
        0 <= lower,
        0 <= upper <= u128::MAX,
    ensures
        0 <= linear_fraction(price, lower, upper) <= PRICE_PRECISION,
{
    if upper > lower {
        let num = clamp_price(price, lower, upper) - lower;
        let den = upper - lower;
        let s = saturating_mul_spec(num, PRICE_PRECISION as int);
        assert(0 <= num <= den);
        assert(0 <= s <= den * PRICE_PRECISION) by (nonlinear_arith)
            requires
                0 <= num <= den,
                s == saturating_mul_spec(num, PRICE_PRECISION as int),
        ;
        assert(s / den <= PRICE_PRECISION) by (nonlinear_arith)
            requires 0 <= s <= den * PRICE_PRECISION, den > 0;
        assert(s / den >= 0) by (nonlinear_arith)
            requires 0 <= s, den > 0;
    }
}

/// A higher oracle price never lowers the allocation.
pub proof fn lemma_linear_fraction_monotonic(p1: int, p2: int, lower: int, upper: int)
    requires
        0 <= p1 <= p2,
        0 <= lower,
    ensures
        linear_fraction(p1, lower, upper) <= linear_fraction(p2, lower, upper),
{
    if upper > lower {
        let n1 = clamp_price(p1, lower, upper) - lower;
        let n2 = clamp_price(p2, lower, upper) - lower;
        assert(0 <= n1 <= n2);
        let s1 = saturating_mul_spec(n1, PRICE_PRECISION as int);
        let s2 = saturating_mul_spec(n2, PRICE_PRECISION as int);
        assert(s1 <= s2) by (nonlinear_arith)
            requires
                0 <= n1 <= n2,
                s1 == saturating_mul_spec(n1, PRICE_PRECISION as int),
                s2 == saturating_mul_spec(n2, PRICE_PRECISION as int),
        ;
        assert(0 <= s1) by (nonlinear_arith)
            requires 0 <= n1, s1 == saturating_mul_spec(n1, PRICE_PRECISION as int);
        vstd::arithmetic::div_mod::lemma_div_is_ordered(s1, s2, upper - lower);
    }
}

/// At or below the lower bound the allocation is 0; at or above the upper bound it is
/// 100%, provided the range times `PRICE_PRECISION` does not saturate.
pub proof fn lemma_linear_fraction_at_bounds(price: int, lower: int, upper: int)
    requires
        0 <= lower < upper,
        0 <= price,
        (upper - lower) * PRICE_PRECISION <= u128::MAX,
    ensures
        price <= lower ==> linear_fraction(price, lower, upper) == 0,
        price >= upper ==> linear_fraction(price, lower, upper) == PRICE_PRECISION,
{
    let den = upper - lower;
    if price >= upper {
        assert((den * PRICE_PRECISION) / den == PRICE_PRECISION) by (nonlinear_arith)
            requires den > 0;
    }
}

} // verus!
