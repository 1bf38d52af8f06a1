//! Fixed-point scalar arithmetic.
//!
//! Every geometric quantity in this crate is a fixed-point number: an `i64`
//! whose real value is the stored value divided by `FX_ONE`. All operations
//! saturate at `FX_MAX` instead of overflowing, and products and quotients
//! round toward zero, so every operation is total and has an exact
//! mathematical description.

use vstd::prelude::*;

verus! {

/// The fixed-point unit: stored values are multiples of `1 / FX_ONE`.
pub const FX_ONE: i64 = 65536;

/// Saturation bound of every arithmetic result (2^62).
pub const FX_MAX: i64 = 0x4000_0000_0000_0000;

/// Absolute value on mathematical integers.
pub open spec fn sabs(a: int) -> int {
    if a < 0 {
        -a
    } else {
        a
    }
}

/// Division rounding toward zero, the rounding used by all fixed-point ops.
pub open spec fn tdiv(a: int, b: int) -> int {
    if (a < 0) == (b < 0) {
        sabs(a) / sabs(b)
    } else {
        -(sabs(a) / sabs(b))
    }
}

/// Clamp a mathematical integer into the representable range.
pub open spec fn sat(a: int) -> int {
    if a > FX_MAX as int {
        FX_MAX as int
    } else if a < -(FX_MAX as int) {
        -(FX_MAX as int)
    } else {
        a
    }
}

/// Saturating fixed-point addition.
pub open spec fn fx_add(a: int, b: int) -> int {
    sat(a + b)
}

/// Saturating fixed-point subtraction.
pub open spec fn fx_sub(a: int, b: int) -> int {
    sat(a - b)
}

/// Saturating fixed-point negation.
pub open spec fn fx_neg(a: int) -> int {
    sat(-a)
}

/// Saturating fixed-point multiplication: the product rescaled by `FX_ONE`,
/// rounded toward zero.
pub open spec fn fx_mul(a: int, b: int) -> int {
    sat(tdiv(a * b, FX_ONE as int))
}

/// Saturating fixed-point division: `a / b` rescaled by `FX_ONE`,
/// rounded toward zero.
pub open spec fn fx_div(a: int, b: int) -> int {
    sat(tdiv(a * FX_ONE, b))
}

/// Exact integer square root, floor(sqrt(n)).
pub open spec fn isqrt(n: int) -> int
    decreases n,
{
    if n <= 0 {
        0
    } else {
        let r = 2 * isqrt(n / 4);
        if (r + 1) * (r + 1) <= n {
            r + 1
        } else {
            r
        }
    }
}

/// Fixed-point square root: `isqrt` of the value rescaled so the result
/// is again a fixed-point number. Nonpositive inputs give zero.
pub open spec fn fx_sqrt(a: int) -> int {
    if a <= 0 {
        0
    } else {
        isqrt(a * FX_ONE)
    }
}

pub open spec fn fx_min(a: int, b: int) -> int {
    if a < b {
        a
    } else {
        b
    }
}

pub open spec fn fx_max(a: int, b: int) -> int {
    if a > b {
        a
    } else {
        b
    }
}

/// Clamp `a` into `[lo, hi]` (callers keep `lo <= hi`).
pub open spec fn fx_clamp(a: int, lo: int, hi: int) -> int {
    if a < lo {
        lo
    } else if a > hi {
        hi
    } else {
        a
    }
}

/// Truncating division of an `i128` by a positive constant, on which the
/// executable multiplication and division are built.
fn tdiv_i128(a: i128, b: i128) -> (r: i128)
    requires
        0 < b,
        a != i128::MIN,
    ensures
        r == tdiv(a as int, b as int),
{
    if a >= 0 {
        let q: u128 = (a as u128) / (b as u128);
        proof {
            assert(q == sabs(a as int) / sabs(b as int));
        }
        q as i128
    } else {
        let q: u128 = ((-a) as u128) / (b as u128);
        proof {
            assert(q == sabs(a as int) / sabs(b as int));
            assert(q <= (-a) as u128) by {
                vstd::arithmetic::div_mod::lemma_div_nonincreasing((-a) as int, b as int);
                vstd::arithmetic::div_mod::lemma_div_pos_is_pos((-a) as int, b as int);
            }
        }
        -(q as i128)
    }
}

/// Clamp an `i128` into the representable fixed-point range.
fn sat_i128(a: i128) -> (r: i64)
    ensures
        r == sat(a as int),
{
    if a > FX_MAX as i128 {
        FX_MAX
    } else if a < -(FX_MAX as i128) {
        -FX_MAX
    } else {
        a as i64
    }
}

/// Saturating addition.
pub fn fadd(a: i64, b: i64) -> (r: i64)
    ensures
        r == fx_add(a as int, b as int),
{
    sat_i128(a as i128 + b as i128)
}

/// Saturating subtraction.
pub fn fsub(a: i64, b: i64) -> (r: i64)
    ensures
        r == fx_sub(a as int, b as int),
{
    sat_i128(a as i128 - b as i128)
}

/// Saturating negation.
pub fn fneg(a: i64) -> (r: i64)
    ensures
        r == fx_neg(a as int),
{
    sat_i128(-(a as i128))
}

/// Saturating fixed-point multiplication.
pub fn fmul(a: i64, b: i64) -> (r: i64)
    ensures
        r == fx_mul(a as int, b as int),
{
    proof {
        vstd::arithmetic::mul::lemma_mul_upper_bound(
            sabs(a as int),
            9223372036854775808,
            sabs(b as int),
            9223372036854775808,
        );
        assert(sabs(a as int) * sabs(b as int) == sabs(a as int * b as int)) by (nonlinear_arith);
    }
    let p: i128 = (a as i128) * (b as i128);
    sat_i128(tdiv_i128(p, FX_ONE as i128))
}

/// Saturating fixed-point division, rounding toward zero.
pub fn fdiv(a: i64, b: i64) -> (r: i64)
    requires
        b != 0,
    ensures
        r == fx_div(a as int, b as int),
{
    let n: i128 = (a as i128) * (FX_ONE as i128);
    proof {
        assert(sabs(n as int) <= 9223372036854775808 * 65536) by (nonlinear_arith)
            requires
                n == (a as int) * 65536,
                -9223372036854775808 <= a as int <= 9223372036854775807,
        {}
    }
    if b >= 0 {
        sat_i128(tdiv_i128(n, b as i128))
    } else {
        proof {
            assert(tdiv(n as int, b as int) == -tdiv(n as int, -(b as int))) by {
                assert(sabs(b as int) == sabs(-(b as int)));
            }
            assert(-tdiv(n as int, -(b as int)) == tdiv(-(n as int), -(b as int)));
            assert(sat(tdiv(-(n as int), -(b as int))) == fx_div(a as int, b as int)) by {
                assert(sabs(-(n as int)) == sabs(n as int));
            }
        }
        sat_i128(tdiv_i128(-n, -(b as i128)))
    }
}

pub fn fmin(a: i64, b: i64) -> (r: i64)
    ensures
        r == fx_min(a as int, b as int),
{
    if a < b {
        a
    } else {
        b
    }
}

pub fn fmax(a: i64, b: i64) -> (r: i64)
    ensures
        r == fx_max(a as int, b as int),
{
    if a > b {
        a
    } else {
        b
    }
}

pub fn fclamp(a: i64, lo: i64, hi: i64) -> (r: i64)
    ensures
        r == fx_clamp(a as int, lo as int, hi as int),
{
    if a < lo {
        lo
    } else if a > hi {
        hi
    } else {
        a
    }
}

/// `isqrt(n)` squares to at most `n`, and is the largest such value.
pub proof fn lemma_isqrt_bounds(n: int)
    requires
        n >= 0,
    ensures
        isqrt(n) >= 0,
        isqrt(n) * isqrt(n) <= n,
        n < (isqrt(n) + 1) * (isqrt(n) + 1),
    decreases n,
{
    if n > 0 {
        lemma_isqrt_bounds(n / 4);
        let s = isqrt(n / 4);
        let r = 2 * s;
        assert(r * r <= 4 * (n / 4)) by (nonlinear_arith)
            requires
                s * s <= n / 4,
                r == 2 * s,
        {}
        assert(4 * (n / 4) <= n) by {
            vstd::arithmetic::div_mod::lemma_fundamental_div_mod(n, 4);
        }
        if (r + 1) * (r + 1) <= n {
            // isqrt(n) == r + 1; upper bound comes from (s+1)^2 > n/4
            assert(n < (r + 2) * (r + 2)) by (nonlinear_arith)
                requires
                    n / 4 < (s + 1) * (s + 1),
                    n <= 4 * (n / 4) + 3,
                    r == 2 * s,
            {}
            assert(n <= 4 * (n / 4) + 3) by {
                vstd::arithmetic::div_mod::lemma_fundamental_div_mod(n, 4);
            }
        } else {
        }
    }
}

/// The integer square root is the unique `r` with `r^2 <= n < (r+1)^2`.
pub proof fn lemma_isqrt_unique(n: int, r: int)
    requires
        n >= 0,
        r >= 0,
        r * r <= n,
        n < (r + 1) * (r + 1),
    ensures
        r == isqrt(n),
{
    lemma_isqrt_bounds(n);
    let s = isqrt(n);
    if r < s {
        assert((r + 1) * (r + 1) <= s * s) by (nonlinear_arith)
            requires
                0 <= r,
                r + 1 <= s,
        {}
    }
    if s < r {
        assert((s + 1) * (s + 1) <= r * r) by (nonlinear_arith)
            requires
                0 <= s,
                s + 1 <= r,
        {}
    }
}

/// Fixed-point square root; nonpositive inputs give zero.
pub fn fsqrt(a: i64) -> (r: i64)
    ensures
        r == fx_sqrt(a as int),
{
    if a <= 0 {
        return 0;
    }
    proof {
        assert((a as u128) * (FX_ONE as u128) == a as int * FX_ONE as int);
    }
    let n: u128 = (a as u128) * (FX_ONE as u128);
    proof {
        assert(n < 1099511627776u128 * 1099511627776u128);
    }
    let mut lo: u128 = 0;
    let mut hi: u128 = 1099511627776;
    while lo + 1 < hi
        invariant
            lo < hi,
            hi <= 1099511627776u128,
            lo * lo <= n,
            n < hi * hi,
        decreases hi - lo,
    {
        let mid: u128 = lo + (hi - lo) / 2;
        proof {
            assert(lo < mid < hi) by {
                assert((hi - lo) / 2 >= 1) by (nonlinear_arith)
                    requires
                        hi - lo >= 2,
                {}
                assert((hi - lo) / 2 < hi - lo) by (nonlinear_arith)
                    requires
                        hi - lo >= 2,
                {}
            }
            assert(mid * mid < 1099511627776u128 * 1099511627776u128) by (nonlinear_arith)
                requires
                    mid < 1099511627776u128,
            {}
        }
        if mid * mid <= n {
            lo = mid;
        } else {
            hi = mid;
        }
    }
    proof {
        assert(hi == lo + 1);
        lemma_isqrt_unique(n as int, lo as int);
    }
    lo as i64
}

/// ln 2 in fixed point.
pub const FX_LN2: i64 = 45426;

/// Halve `m` until it is below twice one, collecting `ln 2` per halving:
/// the normalization step of the logarithm. The fuel bounds the number of
/// halvings; 64 of them reduce any 64-bit value.
pub open spec fn spec_ln_shift(m: int, fuel: nat) -> (int, int)
    decreases fuel,
{
    if fuel == 0 || m < 2 * FX_ONE {
        (m, 0)
    } else {
        let (m2, acc) = spec_ln_shift(m / 2, (fuel - 1) as nat);
        (m2, acc + FX_LN2)
    }
}

/// The series part of the logarithm on `[1, 2)`: `ln(1 + u)` as twice the
/// inverse hyperbolic tangent of `u / (2 + u)`.
pub open spec fn spec_ln_series(u: int) -> int {
    let z = fx_div(u, fx_add(u, 2 * FX_ONE));
    let z2 = fx_mul(z, z);
    let z3 = fx_mul(z2, z);
    let z5 = fx_mul(z3, z2);
    let a = fx_add(z, fx_add(fx_div(z3, 3 * FX_ONE), fx_div(z5, 5 * FX_ONE)));
    fx_add(a, a)
}

/// The natural logarithm of a unit sample `xi` in `(0, FX_ONE]`: never
/// positive, and very negative for a zero or negative argument.
pub open spec fn spec_ln_unit(xi: int) -> int {
    if xi <= 0 {
        -(FX_MAX as int)
    } else {
        let y = fx_div(FX_ONE as int, xi);
        let (m, acc) = spec_ln_shift(y, 64);
        fx_neg(fx_add(acc, spec_ln_series(fx_sub(m, FX_ONE as int))))
    }
}

/// The natural logarithm of a unit sample, used for the scatter distance
/// inside a participating medium.
pub fn fln_unit(xi: i64) -> (r: i64)
    ensures
        r == spec_ln_unit(xi as int),
{
    if xi <= 0 {
        return -FX_MAX;
    }
    let y0 = fdiv(FX_ONE, xi);
    let mut m = y0;
    let mut acc: i64 = 0;
    let mut fuel: u32 = 64;
    proof {
        lemma_fx_div_sign(FX_ONE as int, xi as int);
    }
    while fuel > 0 && m >= 2 * FX_ONE
        invariant
            0 <= m,
            fuel <= 64,
            acc == (64 - fuel) * FX_LN2,
            spec_ln_shift(y0 as int, 64).0 == spec_ln_shift(m as int, fuel as nat).0,
            spec_ln_shift(y0 as int, 64).1 == acc + spec_ln_shift(m as int, fuel as nat).1,
        decreases fuel,
    {
        m = m / 2;
        acc = acc + FX_LN2;
        fuel = fuel - 1;
    }
    let u = fsub(m, FX_ONE);
    let z = fdiv(u, fadd(u, 2 * FX_ONE));
    let z2 = fmul(z, z);
    let z3 = fmul(z2, z);
    let z5 = fmul(z3, z2);
    let a = fadd(z, fadd(fdiv(z3, 3 * FX_ONE), fdiv(z5, 5 * FX_ONE)));
    fneg(fadd(acc, fadd(a, a)))
}

/// Truncating division is antisymmetric in its numerator.
pub proof fn lemma_tdiv_neg(a: int, b: int)
    requires
        b != 0,
    ensures
        tdiv(-a, b) == -tdiv(a, b),
{
    assert(sabs(-a) == sabs(a));
}

/// Truncating division by a positive divisor is monotone in the numerator.
pub proof fn lemma_tdiv_mono(a: int, b: int, d: int)
    requires
        a <= b,
        d > 0,
    ensures
        tdiv(a, d) <= tdiv(b, d),
{
    if a >= 0 {
        vstd::arithmetic::div_mod::lemma_div_is_ordered(a, b, d);
    } else if b < 0 {
        vstd::arithmetic::div_mod::lemma_div_is_ordered(-b, -a, d);
    } else {
        vstd::arithmetic::div_mod::lemma_div_pos_is_pos(-a, d);
        vstd::arithmetic::div_mod::lemma_div_pos_is_pos(b, d);
    }
}

/// Fixed-point division by a fixed divisor is monotone in the numerator,
/// with the direction given by the divisor's sign.
pub proof fn lemma_fx_div_mono(a: int, b: int, d: int)
    requires
        a <= b,
        d != 0,
    ensures
        d > 0 ==> fx_div(a, d) <= fx_div(b, d),
        d < 0 ==> fx_div(b, d) <= fx_div(a, d),
{
    assert(a * FX_ONE <= b * FX_ONE);
    if d > 0 {
        lemma_tdiv_mono(a * FX_ONE, b * FX_ONE, d);
    } else {
        assert(sabs(d) == sabs(-d));
        assert(tdiv(a * FX_ONE, d) == -tdiv(a * FX_ONE, -d));
        assert(tdiv(b * FX_ONE, d) == -tdiv(b * FX_ONE, -d));
        lemma_tdiv_mono(a * FX_ONE, b * FX_ONE, -d);
    }
}

/// Saturation preserves order.
pub proof fn lemma_sat_mono(a: int, b: int)
    requires
        a <= b,
    ensures
        sat(a) <= sat(b),
{
}

/// Multiplying by a nonnegative factor is monotone.
pub proof fn lemma_fx_mul_mono(a: int, b: int, c: int)
    requires
        a <= b,
        c >= 0,
    ensures
        fx_mul(a, c) <= fx_mul(b, c),
{
    assert(a * c <= b * c) by (nonlinear_arith)
        requires
            a <= b,
            c >= 0,
    {}
    lemma_tdiv_mono(a * c, b * c, FX_ONE as int);
}

/// The product of nonnegative factors is monotone in both.
pub proof fn lemma_fx_mul_mono_both(a1: int, a2: int, b1: int, b2: int)
    requires
        0 <= a1 <= a2,
        0 <= b1 <= b2,
    ensures
        fx_mul(a1, b1) <= fx_mul(a2, b2),
{
    assert(a1 * b1 <= a2 * b2) by (nonlinear_arith)
        requires
            0 <= a1 <= a2,
            0 <= b1 <= b2,
    {}
    lemma_tdiv_mono(a1 * b1, a2 * b2, FX_ONE as int);
}

/// The rescaled square of a value bounded by one is bounded by one.
pub proof fn lemma_fx_mul_square_le_one(a: int)
    requires
        -(FX_ONE as int) <= a <= FX_ONE as int,
    ensures
        0 <= fx_mul(a, a) <= FX_ONE as int,
{
    lemma_fx_mul_sign(a, a);
    assert(a * a <= FX_ONE as int * FX_ONE as int) by (nonlinear_arith)
        requires
            -(FX_ONE as int) <= a <= FX_ONE as int,
    {}
    lemma_tdiv_mono(a * a, FX_ONE as int * FX_ONE as int, FX_ONE as int);
    assert(tdiv(FX_ONE as int * FX_ONE as int, FX_ONE as int) == FX_ONE as int) by {
        vstd::arithmetic::div_mod::lemma_div_multiples_vanish(FX_ONE as int, FX_ONE as int);
    }
}

/// The product of values with equal signs is nonnegative, with opposite
/// signs nonpositive, after rescaling.
pub proof fn lemma_fx_mul_sign(a: int, b: int)
    ensures
        a >= 0 && b >= 0 ==> fx_mul(a, b) >= 0,
        a <= 0 && b >= 0 ==> fx_mul(a, b) <= 0,
        a >= 0 && b <= 0 ==> fx_mul(a, b) <= 0,
        a <= 0 && b <= 0 ==> fx_mul(a, b) >= 0,
{
    assert(a >= 0 && b >= 0 ==> a * b >= 0) by (nonlinear_arith);
    assert(a <= 0 && b >= 0 ==> a * b <= 0) by (nonlinear_arith);
    assert(a >= 0 && b <= 0 ==> a * b <= 0) by (nonlinear_arith);
    assert(a <= 0 && b <= 0 ==> a * b >= 0) by (nonlinear_arith);
    if a * b >= 0 {
        vstd::arithmetic::div_mod::lemma_div_pos_is_pos(a * b, FX_ONE as int);
    } else {
        vstd::arithmetic::div_mod::lemma_div_pos_is_pos(-(a * b), FX_ONE as int);
    }
}

/// The quotient keeps the numerator's sign for a positive divisor.
pub proof fn lemma_fx_div_sign(a: int, b: int)
    requires
        b > 0,
    ensures
        a >= 0 ==> fx_div(a, b) >= 0,
        a <= 0 ==> fx_div(a, b) <= 0,
{
    assert(a >= 0 ==> a * FX_ONE >= 0) by (nonlinear_arith);
    assert(a <= 0 ==> a * FX_ONE <= 0) by (nonlinear_arith);
    if a * FX_ONE >= 0 {
        vstd::arithmetic::div_mod::lemma_div_pos_is_pos(a * FX_ONE, b);
    } else {
        vstd::arithmetic::div_mod::lemma_div_pos_is_pos(-(a * FX_ONE), b);
    }
}

/// `isqrt(n) <= m` whenever `n <= m^2`.
pub proof fn lemma_isqrt_le(n: int, m: int)
    requires
        0 <= n,
        0 <= m,
        n <= m * m,
    ensures
        isqrt(n) <= m,
{
    lemma_isqrt_bounds(n);
    if isqrt(n) > m {
        assert((m + 1) * (m + 1) <= isqrt(n) * isqrt(n)) by (nonlinear_arith)
            requires
                0 <= m,
                m + 1 <= isqrt(n),
        {}
        assert(m * m < (m + 1) * (m + 1)) by (nonlinear_arith)
            requires
                0 <= m,
        {}
    }
}

/// Square roots are never negative.
pub proof fn lemma_fx_sqrt_nonneg(a: int)
    ensures
        fx_sqrt(a) >= 0,
{
    if a > 0 {
        assert(a * FX_ONE >= 0) by (nonlinear_arith)
            requires
                a > 0,
        {}
        lemma_isqrt_bounds(a * FX_ONE);
    }
}

/// `isqrt(n) >= m` whenever `m^2 <= n`.
pub proof fn lemma_isqrt_ge(n: int, m: int)
    requires
        0 <= m,
        m * m <= n,
    ensures
        isqrt(n) >= m,
{
    lemma_isqrt_bounds(n);
    if isqrt(n) < m {
        assert((isqrt(n) + 1) * (isqrt(n) + 1) <= m * m) by (nonlinear_arith)
            requires
                0 <= isqrt(n),
                isqrt(n) + 1 <= m,
        {}
    }
}

/// Negating one factor negates the rescaled product.
pub proof fn lemma_fx_mul_neg_left(a: int, b: int)
    ensures
        fx_mul(-a, b) == -fx_mul(a, b),
{
    assert((-a) * b == -(a * b)) by (nonlinear_arith);
    lemma_tdiv_neg(a * b, FX_ONE as int);
}

} // verus!
