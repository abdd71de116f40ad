use chladni::fixed::{
    fx_add, fx_sub, fx_mul, fx_abs, fx_clamp, fx_half_nonneg, fx_floor_nonneg, fx_frac_nonneg, Fx,
    FX_SCALE, FX_HALF,
};

fn fx(raw: i64) -> Fx {
    Fx { raw }
}

#[test]
fn add_and_sub_are_exact_in_range() {
    assert_eq!(fx_add(fx(3 * FX_SCALE), fx(-FX_SCALE)).raw, 2 * FX_SCALE);
    assert_eq!(fx_sub(fx(FX_HALF), fx(FX_SCALE)).raw, -FX_HALF);
}

#[test]
fn add_saturates_at_the_raw_range() {
    assert_eq!(fx_add(fx(i64::MAX), fx(1)).raw, i64::MAX);
    assert_eq!(fx_add(fx(i64::MIN), fx(-1)).raw, i64::MIN);
    assert_eq!(fx_sub(fx(i64::MIN), fx(1)).raw, i64::MIN);
}

#[test]
fn mul_scales_the_product_back() {
    // 1.5 * 2.0 == 3.0
    assert_eq!(fx_mul(fx(98304), fx(131072)).raw, 196608);
    // -1.5 * 0.5 == -0.75
    assert_eq!(fx_mul(fx(-98304), fx(32768)).raw, -49152);
}

#[test]
fn mul_truncates_toward_zero() {
    // the smallest positive step squared rounds down to zero
    assert_eq!(fx_mul(fx(1), fx(1)).raw, 0);
    // and so does its negative: truncation is toward zero, not down
    assert_eq!(fx_mul(fx(-1), fx(1)).raw, 0);
}

#[test]
fn mul_saturates_on_overflow() {
    assert_eq!(fx_mul(fx(i64::MAX), fx(i64::MAX)).raw, i64::MAX);
    assert_eq!(fx_mul(fx(i64::MAX), fx(i64::MIN)).raw, i64::MIN);
}

#[test]
fn abs_is_exact_and_saturates_at_min() {
    assert_eq!(fx_abs(fx(-196608)).raw, 196608);
    assert_eq!(fx_abs(fx(196608)).raw, 196608);
    assert_eq!(fx_abs(fx(i64::MIN)).raw, i64::MAX);
}

#[test]
fn clamp_pins_to_the_extent() {
    assert_eq!(fx_clamp(fx(10), fx(0), fx(5)).raw, 5);
    assert_eq!(fx_clamp(fx(-10), fx(0), fx(5)).raw, 0);
    assert_eq!(fx_clamp(fx(3), fx(0), fx(5)).raw, 3);
}

#[test]
fn floor_and_frac_split_a_coordinate() {
    let c = fx(3 * FX_SCALE + 12345);
    assert_eq!(fx_floor_nonneg(c), 3);
    assert_eq!(fx_frac_nonneg(c).raw, 12345);
    assert_eq!(fx_half_nonneg(fx(196608)).raw, 98304);
}
