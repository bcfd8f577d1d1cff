use flick_effects::{fx_add, fx_sub, fx_mul, fx_div, sin_milli, cos_milli, FX_MAX, PI_MILLI,
    HALF_PI_MILLI, TAU_MILLI};

#[test]
fn products_carry_the_milli_scale() {
    // 1.5 * 2 = 3.
    assert_eq!(fx_mul(1500, 2000), 3000);
    assert_eq!(fx_mul(-1500, 2000), -3000);
    assert_eq!(fx_mul(1500, -2000), -3000);
    assert_eq!(fx_mul(-1500, -2000), 3000);
    // Truncation toward zero.
    assert_eq!(fx_mul(1, 1), 0);
    assert_eq!(fx_mul(-1, 1), 0);
}

#[test]
fn quotients_carry_the_milli_scale() {
    // 1 / 3 in milli-units.
    assert_eq!(fx_div(1000, 3000), 333);
    assert_eq!(fx_div(-1000, 3000), -333);
    assert_eq!(fx_div(3000, 1500), 2000);
}

#[test]
fn sums_clip_at_the_band_edge() {
    assert_eq!(fx_add(FX_MAX, FX_MAX), FX_MAX);
    assert_eq!(fx_sub(-FX_MAX, FX_MAX), -FX_MAX);
    assert_eq!(fx_add(1, 2), 3);
    assert_eq!(fx_sub(1, 2), -1);
}

#[test]
fn sinusoid_hits_the_cardinal_points() {
    assert_eq!(sin_milli(0), 0);
    assert_eq!(sin_milli(HALF_PI_MILLI), 1000);
    assert_eq!(sin_milli(PI_MILLI), 0);
    assert_eq!(sin_milli(PI_MILLI + HALF_PI_MILLI), -1000);
    assert_eq!(sin_milli(TAU_MILLI), 0);
    assert_eq!(cos_milli(0), 1000);
    assert_eq!(cos_milli(PI_MILLI), -1000);
}

#[test]
fn sinusoid_wraps_negative_arguments() {
    assert_eq!(sin_milli(-HALF_PI_MILLI), -1000);
    assert_eq!(sin_milli(-TAU_MILLI), 0);
    assert!(sin_milli(123_456_789) <= 1000);
    assert!(sin_milli(-123_456_789) >= -1000);
}

#[test]
fn sinusoid_stays_within_one() {
    let mut x: i64 = -10_000;
    while x <= 10_000 {
        let s = sin_milli(x);
        assert!((-1000..=1000).contains(&s));
        x += 7;
    }
}
