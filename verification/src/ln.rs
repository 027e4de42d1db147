//! Logarithmic payoff mapping in 1e7 fixed-point precision (Stellar's 7 decimals).
use vstd::prelude::*;
use vstd::arithmetic::power2::{pow2, lemma_pow2_unfold, lemma_pow2_pos, lemma2_to64, lemma2_to64_rest, lemma_pow2_adds, lemma_pow2_strictly_increases};
use vstd::arithmetic::div_mod::lemma_div_denominator;

verus! {

/// The fixed-point scale: `ONE` represents 1.0.
pub const ONE: i128 = 10_000_000;

/// ln(2) scaled by 1e7.
pub const LN2_1E7: i128 = 6_931_472;

/// Division that truncates toward zero, as Rust's `/` on signed integers does.
pub open spec fn trunc_div(n: int, d: int) -> int {
    if n >= 0 { n / d } else { -((-n) / d) }
}

/// Fixed-point product of two 1e7-scaled values.
pub open spec fn fmul_spec(a: int, b: int) -> int {
    trunc_div(a * b, ONE as int)
}

/// Multiplies two 1e7-scaled values, truncating toward zero.
pub fn fmul(a: i128, b: i128) -> (r: i128)
    requires
        i128::MIN <= a * b <= i128::MAX,
    ensures
        r == fmul_spec(a as int, b as int),
{
    (a * b) / ONE
}

/// Number of halvings that bring `x` below `2 * ONE`.
pub open spec fn halvings(x: nat) -> nat
    decreases x,
{
    if x >= 2 * ONE { 1 + halvings(x / 2) } else { 0 }
}

/// Number of doublings that bring a positive `x` above `ONE / 2`.
pub open spec fn doublings(x: nat) -> nat
    decreases (if x <= ONE / 2 { ONE - x } else { 0 }),
{
    if 0 < x <= ONE / 2 { 1 + doublings(2 * x) } else { 0 }
}

/// Binary exponent `k` of the normalisation `x ~ v * 2^k` with `ONE / 2 < v < 2 * ONE`.
pub open spec fn norm_exp(x: nat) -> int {
    if x > ONE / 2 { halvings(x) as int } else { -(doublings(x) as int) }
}

/// Mantissa `v` of the normalisation of `x` into `(ONE / 2, 2 * ONE)`.
pub open spec fn norm_mantissa(x: nat) -> nat {
    if x > ONE / 2 { x / pow2(halvings(x)) } else { x * pow2(doublings(x)) }
}

/// Four-term Taylor series of ln(1 + t/ONE), scaled by ONE, with every product
/// and division truncating toward zero.
pub open spec fn ln_series(t: int) -> int {
    let t2 = fmul_spec(t, t);
    let t3 = fmul_spec(t2, t);
    let t4 = fmul_spec(t3, t);
    t - trunc_div(t2, 2) + trunc_div(t3, 3) - trunc_div(t4, 4)
}

/// The value `flog` computes: 0 for non-positive input, otherwise
/// the series on the mantissa plus `k * ln(2)`.
pub open spec fn flog_spec(x: int) -> int {
    if x <= 0 {
        0
    } else {
        ln_series(norm_mantissa(x as nat) - ONE) + LN2_1E7 * norm_exp(x as nat)
    }
}

proof fn lemma_pow2_127()
    ensures
        pow2(127) == 0x8000_0000_0000_0000_0000_0000_0000_0000,
{
    lemma2_to64();
    lemma2_to64_rest();
    lemma_pow2_adds(64, 63);
}

proof fn lemma_pow2_23()
    ensures
        pow2(23) == 8388608,
{
    lemma2_to64();
}

/// A fixed-point product of two values below 1.0 in size fits and stays below 1.0.
proof fn lemma_fmul_small(a: int, b: int)
    requires
        -ONE < a < ONE,
        -ONE < b < ONE,
    ensures
        -ONE * ONE < a * b < ONE * ONE,
        -ONE < fmul_spec(a, b) < ONE,
{
    assert(-ONE * ONE < a * b < ONE * ONE) by (nonlinear_arith)
        requires -ONE < a < ONE, -ONE < b < ONE;
    let p = a * b;
    if p >= 0 {
        assert(p / (ONE as int) < ONE) by (nonlinear_arith) requires 0 <= p < ONE * ONE;
        assert(p / (ONE as int) >= 0) by (nonlinear_arith) requires 0 <= p;
    } else {
        assert((-p) / (ONE as int) < ONE) by (nonlinear_arith) requires 0 < -p < ONE * ONE;
        assert((-p) / (ONE as int) >= 0) by (nonlinear_arith) requires 0 < -p;
    }
}

/// Approximates the natural logarithm of a 1e7-scaled value, scaled by 1e7.
///
/// The input is first brought by powers of two into `(0.5, 2.0)`: halved while
/// at least 2.0, doubled while at most 0.5. The logarithm of that mantissa is
/// taken with a four-term Taylor series and `k * ln(2)` is added for the binary
/// exponent `k`. Non-positive inputs give 0.
pub fn flog(x: i128) -> (r: i128)
    ensures
        r == flog_spec(x as int),
{
    if x <= 0 {
        return 0;
    }
    let mut v = x;
    let mut k: i32 = 0;
    proof {
        lemma2_to64();
        assert(x as int / pow2(0) as int == x);
    }
    while v >= 2 * ONE
        invariant
            x > 0,
            v > 0,
            0 <= k,
            v as int == x as int / pow2(k as nat) as int,
            halvings(x as nat) == k + halvings(v as nat),
            x > ONE / 2 ==> v > ONE / 2,
            pow2(k as nat) <= x,
        decreases v,
    {
        proof {
            lemma_pow2_pos(k as nat);
            lemma_pow2_unfold((k + 1) as nat);
            lemma_div_denominator(x as int, pow2(k as nat) as int, 2);
            assert(pow2((k + 1) as nat) == pow2(k as nat) * 2);
            assert(v as int * pow2(k as nat) <= x) by (nonlinear_arith)
                requires
                    v as int == x as int / pow2(k as nat) as int,
                    pow2(k as nat) > 0,
                    x > 0,
            {
            }
            assert(pow2(k as nat) * 2 <= v as int * pow2(k as nat)) by (nonlinear_arith)
                requires
                    v >= 2,
                    pow2(k as nat) > 0,
            {
            }
            if k >= 126 {
                lemma_pow2_127();
                if k > 126 {
                    lemma_pow2_strictly_increases(127, (k + 1) as nat);
                }
                assert(false);
            }
        }
        v = v / 2;
        k = k + 1;
    }
    assert(halvings(v as nat) == 0);
    let ghost kd: int = k as int;
    let mut j: i32 = 0;
    assert(v * pow2(0) == v) by {
        lemma2_to64();
    }
    while v <= ONE / 2
        invariant
            x > 0,
            v > 0,
            v < 2 * ONE,
            0 <= j,
            k == kd - j,
            x > ONE / 2 ==> (j == 0 && v > ONE / 2 && v as int == x as int / pow2(kd as nat) as int
                && halvings(x as nat) == kd),
            x <= ONE / 2 ==> (kd == 0 && v as int == x as int * pow2(j as nat) as int
                && doublings(x as nat) == j + doublings(v as nat)),
            pow2(j as nat) <= v,
        decreases 2 * ONE - v,
    {
        proof {
            lemma_pow2_unfold((j + 1) as nat);
            assert(pow2((j + 1) as nat) == pow2(j as nat) * 2);
            if x <= ONE / 2 {
                assert(doublings(v as nat) == 1 + doublings((2 * v) as nat));
                assert(v as int * 2 == x as int * pow2((j + 1) as nat) as int) by (nonlinear_arith)
                    requires
                        v as int == x as int * pow2(j as nat) as int,
                        pow2((j + 1) as nat) == pow2(j as nat) * 2,
                {
                }
            }
            if j >= 23 {
                lemma_pow2_23();
                if j > 23 {
                    lemma_pow2_strictly_increases(23, j as nat);
                }
                assert(false);
            }
        }
        v = v * 2;
        k = k - 1;
        j = j + 1;
    }
    proof {
        if x <= ONE / 2 {
            assert(doublings(v as nat) == 0);
        }
        assert(norm_mantissa(x as nat) == v);
        assert(norm_exp(x as nat) == k);
    }
    let t = v - ONE;
    proof {
        lemma_fmul_small(t as int, t as int);
    }
    let t2 = fmul(t, t);
    proof {
        lemma_fmul_small(t2 as int, t as int);
    }
    let t3 = fmul(t2, t);
    proof {
        lemma_fmul_small(t3 as int, t as int);
    }
    let t4 = fmul(t3, t);
    let ln_v = t - t2 / 2 + t3 / 3 - t4 / 4;
    ln_v + LN2_1E7 * (k as i128)
}

/// Doubling a value of at least 1.0 adds exactly ln(2) to its logarithm.
pub proof fn lemma_flog_doubling(x: int)
    requires
        x >= ONE,
    ensures
        flog_spec(2 * x) == flog_spec(x) + LN2_1E7,
{
    let h = halvings(x as nat);
    assert(halvings((2 * x) as nat) == 1 + h) by {
        assert((2 * x) as nat / 2 == x as nat);
    }
    lemma_pow2_unfold(h + 1);
    lemma_pow2_pos(h);
    lemma_div_denominator(2 * x, 2, pow2(h) as int);
    assert((2 * x) / 2 == x);
}

/// The logarithm of 1.0 is exactly zero.
pub proof fn lemma_flog_one()
    ensures
        flog_spec(ONE as int) == 0,
{
    assert(halvings(ONE as nat) == 0);
    lemma2_to64();
    assert(ONE as nat / pow2(0) == ONE);
    assert(norm_mantissa(ONE as nat) == ONE);
    assert(norm_exp(ONE as nat) == 0);
    assert(ln_series(0) == 0);
}

/// The logarithm of a power of two times 1.0 is that many times ln(2).
pub proof fn lemma_flog_powers_of_two(n: nat)
    requires
        ONE * pow2(n) <= i128::MAX,
    ensures
        flog_spec(ONE * pow2(n)) == LN2_1E7 * n,
    decreases n,
{
    if n == 0 {
        lemma_flog_one();
        lemma2_to64();
    } else {
        lemma_pow2_unfold(n);
        lemma_pow2_pos((n - 1) as nat);
        assert(ONE * pow2(n) == 2 * (ONE * pow2((n - 1) as nat))) by (nonlinear_arith)
            requires pow2(n) == 2 * pow2((n - 1) as nat);
        assert(ONE * pow2((n - 1) as nat) >= ONE) by (nonlinear_arith)
            requires pow2((n - 1) as nat) > 0;
        lemma_flog_powers_of_two((n - 1) as nat);
        lemma_flog_doubling(ONE * pow2((n - 1) as nat));
    }
}

/// Halving a value of at least 1.0 lands its mantissa in `[1.0, 2.0)`.
proof fn lemma_halvings_range(x: nat)
    requires
        x >= ONE,
    ensures
        ONE <= x / pow2(halvings(x)) < 2 * ONE,
    decreases x,
{
    if x >= 2 * ONE {
        let h = halvings(x / 2);
        lemma_halvings_range(x / 2);
        lemma_pow2_unfold(h + 1);
        lemma_pow2_pos(h);
        lemma_div_denominator(x as int, 2, pow2(h) as int);
        assert(pow2(h + 1) == 2 * pow2(h));
        assert(halvings(x) == 1 + h);
        assert(x as int / (2 * pow2(h)) as int == (x as int / 2) / pow2(h) as int);
        assert(x / pow2(halvings(x)) == (x / 2) / pow2(h));
        assert(x / 2 >= ONE);
    } else {
        lemma2_to64();
        assert(halvings(x) == 0);
        assert(x / pow2(0) == x);
    }
}

/// Doubling a value of at most 0.5 lands its mantissa in `(0.5, 1.0]`.
proof fn lemma_doublings_range(x: nat)
    requires
        0 < x <= ONE / 2,
    ensures
        ONE / 2 < x * pow2(doublings(x)) <= ONE,
        doublings(x) >= 1,
    decreases ONE - x,
{
    let d = doublings((2 * x) as nat);
    lemma_pow2_unfold(d + 1);
    if 2 * x <= ONE / 2 {
        lemma_doublings_range((2 * x) as nat);
    } else {
        lemma2_to64();
    }
    assert(doublings(x) == d + 1);
    assert(x * pow2(d + 1) == (2 * x) * pow2(d)) by (nonlinear_arith)
        requires pow2(d + 1) == 2 * pow2(d);
}

/// The series is non-negative for `0 <= t < ONE` and negative for `-ONE < t < 0`.
proof fn lemma_series_sign(t: int)
    requires
        -ONE < t < ONE,
    ensures
        t >= 0 ==> ln_series(t) >= 0,
        t < 0 ==> ln_series(t) < 0,
{
    let t2 = fmul_spec(t, t);
    let t3 = fmul_spec(t2, t);
    let t4 = fmul_spec(t3, t);
    lemma_fmul_small(t, t);
    lemma_fmul_small(t2, t);
    lemma_fmul_small(t3, t);
    assert(t * t >= 0) by (nonlinear_arith);
    if t >= 0 {
        assert(0 <= t2 <= t) by (nonlinear_arith)
            requires t2 == (t * t) / (ONE as int), 0 <= t < ONE, t * t >= 0;
        assert(t2 * t >= 0) by (nonlinear_arith) requires t2 >= 0, t >= 0;
        assert(0 <= t3 <= t2) by (nonlinear_arith)
            requires t3 == (t2 * t) / (ONE as int), 0 <= t < ONE, 0 <= t2, t2 * t >= 0;
        assert(t3 * t >= 0) by (nonlinear_arith) requires t3 >= 0, t >= 0;
        assert(0 <= t4 <= t3) by (nonlinear_arith)
            requires t4 == (t3 * t) / (ONE as int), 0 <= t < ONE, 0 <= t3, t3 * t >= 0;
        assert(t4 / 4 <= t3 / 3) by (nonlinear_arith) requires 0 <= t4 <= t3;
        assert(t2 / 2 <= t) by (nonlinear_arith) requires 0 <= t2 <= t;
    } else {
        assert(t2 >= 0);
        assert(t2 * t <= 0) by (nonlinear_arith) requires t2 >= 0, t < 0;
        assert(t3 <= 0);
        assert(t3 * t >= 0) by (nonlinear_arith) requires t3 <= 0, t < 0;
        assert(t4 >= 0);
        assert(trunc_div(t3, 3) <= 0);
    }
}

/// `flog` is non-negative from 1.0 up and negative between 0 and 1.0.
pub proof fn lemma_flog_sign(x: int)
    requires
        x > 0,
    ensures
        x >= ONE ==> flog_spec(x) >= 0,
        x < ONE ==> flog_spec(x) < 0,
{
    if x >= ONE {
        lemma_halvings_range(x as nat);
        lemma_series_sign(norm_mantissa(x as nat) - ONE);
    } else if x > ONE / 2 {
        lemma2_to64();
        assert(halvings(x as nat) == 0);
        assert(norm_mantissa(x as nat) == x);
        lemma_series_sign(x - ONE);
    } else {
        lemma_doublings_range(x as nat);
        assert(norm_exp(x as nat) == -(doublings(x as nat) as int));
        lemma_series_sign(norm_mantissa(x as nat) - ONE);
        assert(ln_series(norm_mantissa(x as nat) - ONE) <= 0) by {
            if norm_mantissa(x as nat) == ONE {
                assert(ln_series(0) == 0);
            }
        }
    }
}

} // verus!
