use ray_tracing_rust::fixed::{
    fadd, fclamp, fdiv, fln_unit, fmax, fmin, fmul, fneg, fsqrt, fsub, FX_MAX, FX_ONE,
};

#[test]
fn add_and_sub_are_exact_in_range() {
    assert_eq!(fadd(3 * FX_ONE, 4 * FX_ONE), 7 * FX_ONE);
    assert_eq!(fsub(3 * FX_ONE, 4 * FX_ONE), -FX_ONE);
    assert_eq!(fneg(5 * FX_ONE), -5 * FX_ONE);
}

#[test]
fn add_saturates_at_the_bound() {
    assert_eq!(fadd(FX_MAX, FX_MAX), FX_MAX);
    assert_eq!(fsub(-FX_MAX, FX_MAX), -FX_MAX);
    assert_eq!(fneg(i64::MIN), FX_MAX);
}

#[test]
fn mul_rescales_products() {
    // 1.5 * 2 == 3
    assert_eq!(fmul(3 * FX_ONE / 2, 2 * FX_ONE), 3 * FX_ONE);
    // 0.5 * 0.5 == 0.25
    assert_eq!(fmul(FX_ONE / 2, FX_ONE / 2), FX_ONE / 4);
    // sign handling rounds toward zero
    assert_eq!(fmul(-FX_ONE / 2, FX_ONE / 2), -(FX_ONE / 4));
    assert_eq!(fmul(1, 1), 0);
}

#[test]
fn div_rescales_quotients() {
    assert_eq!(fdiv(3 * FX_ONE, 2 * FX_ONE), 3 * FX_ONE / 2);
    assert_eq!(fdiv(FX_ONE, -2 * FX_ONE), -(FX_ONE / 2));
    assert_eq!(fdiv(-FX_ONE, -2 * FX_ONE), FX_ONE / 2);
    // truncation toward zero
    assert_eq!(fdiv(FX_ONE, 3 * FX_ONE), 21845);
    assert_eq!(fdiv(-FX_ONE, 3 * FX_ONE), -21845);
}

#[test]
fn sqrt_is_exact_on_squares() {
    assert_eq!(fsqrt(FX_ONE), FX_ONE);
    assert_eq!(fsqrt(4 * FX_ONE), 2 * FX_ONE);
    assert_eq!(fsqrt(FX_ONE / 4), FX_ONE / 2);
    assert_eq!(fsqrt(0), 0);
    assert_eq!(fsqrt(-FX_ONE), 0);
}

#[test]
fn sqrt_rounds_down() {
    // sqrt(2) = 1.41421... -> 92681 in fixed point
    let r = fsqrt(2 * FX_ONE);
    assert_eq!(r, 92681);
}

#[test]
fn min_max_clamp() {
    assert_eq!(fmin(3, 5), 3);
    assert_eq!(fmax(3, 5), 5);
    assert_eq!(fclamp(7, 0, 5), 5);
    assert_eq!(fclamp(-7, 0, 5), 0);
    assert_eq!(fclamp(3, 0, 5), 3);
}

#[test]
fn ln_of_one_is_zero_and_decreases() {
    assert_eq!(fln_unit(FX_ONE), 0);
    let half = fln_unit(FX_ONE / 2);
    // ln(0.5) = -0.6931... -> about -45426
    assert!((half + 45426).abs() < 200, "ln(1/2) was {half}");
    let tenth = fln_unit(FX_ONE / 10);
    assert!(tenth < half);
    assert!(fln_unit(0) <= -FX_MAX);
}
