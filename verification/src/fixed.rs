//! Saturating fixed-point scalars.
//!
//! A scalar is an `i64` raw value standing for `raw / FX_SCALE` units. Every
//! operation saturates at the representable range instead of overflowing, so
//! each one is total and has an exact integer-level specification.

use vstd::prelude::*;

verus! {

/// Raw steps in one unit: a scalar's value is `raw / FX_SCALE`.
pub const FX_SCALE: i64 = 65536;

/// One half of a unit, in raw steps.
pub const FX_HALF: i64 = 32768;

/// The fixed integration timestep `dt`, in raw steps (1/1024 of a unit).
pub const FX_DT: i64 = 64;

/// A saturating fixed-point scalar.
#[derive(Clone, Copy, PartialEq, Eq, Structural, Debug)]
pub struct Fx {
    pub raw: i64,
}

impl View for Fx {
    type V = int;

    open spec fn view(&self) -> int {
        self.raw as int
    }
}

/// Clamp a mathematical integer into the representable raw range.
pub open spec fn i64_sat(v: int) -> int {
    if v > i64::MAX as int {
        i64::MAX as int
    } else if v < i64::MIN as int {
        i64::MIN as int
    } else {
        v
    }
}

pub open spec fn abs_int(v: int) -> int {
    if v < 0 {
        -v
    } else {
        v
    }
}

pub open spec fn sat_add(a: int, b: int) -> int {
    i64_sat(a + b)
}

pub open spec fn sat_sub(a: int, b: int) -> int {
    i64_sat(a - b)
}

pub open spec fn sat_abs(a: int) -> int {
    i64_sat(abs_int(a))
}

/// Division truncating toward zero, for a positive divisor.
pub open spec fn tdiv(a: int, d: int) -> int {
    if a >= 0 {
        a / d
    } else {
        -((-a) / d)
    }
}

/// The raw value of a fixed-point product: the double-width raw product,
/// scaled back down truncating toward zero, then saturated.
pub open spec fn sat_mul(a: int, b: int) -> int {
    i64_sat(tdiv(a * b, FX_SCALE as int))
}

pub open spec fn clamp_int(v: int, lo: int, hi: int) -> int {
    if v < lo {
        lo
    } else if v > hi {
        hi
    } else {
        v
    }
}

/// A product with a zero factor is zero, through scaling and saturation.
pub proof fn lemma_sat_mul_zero(b: int)
    ensures
        sat_mul(0, b) == 0,
        sat_mul(b, 0) == 0,
{
    assert(0 * b == 0) by (nonlinear_arith);
    assert(b * 0 == 0) by (nonlinear_arith);
}

/// A product of non-negative factors stays non-negative through scaling and
/// saturation.
pub proof fn lemma_sat_mul_nonneg(a: int, b: int)
    requires
        a >= 0,
        b >= 0,
    ensures
        sat_mul(a, b) >= 0,
{
    assert(a * b >= 0) by (nonlinear_arith)
        requires
            a >= 0,
            b >= 0,
    ;
    vstd::arithmetic::div_mod::lemma_div_pos_is_pos(a * b, FX_SCALE as int);
}

/// Viscous damping alone never speeds a value up: when the accumulated
/// acceleration is exactly the damping term `-(v * damping)` and the damping
/// coefficient is at most one unit per timestep (raw `1024 * FX_SCALE`), the
/// velocity update `v + acc * dt` cannot increase the velocity's magnitude.
pub proof fn lemma_damping_step_shrinks(v: int, damping: int)
    requires
        i64::MIN as int <= v <= i64::MAX as int,
        0 <= damping <= 67108864,
    ensures
        abs_int(sat_add(v, sat_mul(sat_sub(0, sat_mul(v, damping)), FX_DT as int))) <= abs_int(v),
{
    let s = FX_SCALE as int;
    let d = damping;
    let hi = i64::MAX as int;
    if v == 0 {
        lemma_sat_mul_zero(d);
        lemma_sat_mul_zero(FX_DT as int);
    } else if v > 0 {
        assert(v * d >= 0) by (nonlinear_arith)
            requires
                v > 0,
                d >= 0,
        ;
        let m_exact = (v * d) / s;
        vstd::arithmetic::div_mod::lemma_div_pos_is_pos(v * d, s);
        assert(sat_mul(v, d) == i64_sat(m_exact));
        let m = i64_sat(m_exact);
        assert(0 <= m <= m_exact && m <= hi);
        assert(sat_sub(0, m) == -m);
        let e = (m * 64) / s;
        vstd::arithmetic::div_mod::lemma_div_pos_is_pos(m * 64, s);
        vstd::arithmetic::div_mod::lemma_div_is_ordered(m * 64, hi * 64, s);
        assert(e <= (hi * 64) / s);
        assert(sat_mul(-m, FX_DT as int) == i64_sat(-e)) by {
            assert(tdiv(-m * 64, s) == -e);
        }
        // e is at most v, so the update moves toward zero without crossing it
        if m_exact > hi {
            vstd::arithmetic::div_mod::lemma_fundamental_div_mod(v * d, s);
            assert(v * d >= s * (hi + 1)) by (nonlinear_arith)
                requires
                    v * d == s * m_exact + (v * d) % s,
                    (v * d) % s >= 0,
                    m_exact >= hi + 1,
                    s >= 1,
            ;
            assert(v >= 9007199254740992) by (nonlinear_arith)
                requires
                    v * d >= s * (hi + 1),
                    s * (hi + 1) == 0x80000000000000000000,
                    0 <= d <= 67108864,
                    v > 0,
            ;
        } else {
            vstd::arithmetic::div_mod::lemma_fundamental_div_mod(v * d, s);
            assert(m * 64 <= v * s) by (nonlinear_arith)
                requires
                    m == m_exact,
                    v * d == s * m_exact + (v * d) % s,
                    (v * d) % s >= 0,
                    0 <= d,
                    64 * d <= s * s,
                    v > 0,
                    s >= 1,
            ;
            vstd::arithmetic::div_mod::lemma_div_is_ordered(m * 64, v * s, s);
            assert((s * v) / s == v) by {
                vstd::arithmetic::div_mod::lemma_div_multiples_vanish(v, s);
            }
            assert(v * s == s * v) by (nonlinear_arith);
        }
        assert(0 <= e <= v);
        assert(sat_add(v, i64_sat(-e)) == v - e);
    } else {
        let u = -v;
        assert(v * d <= 0 && -(v * d) == u * d) by (nonlinear_arith)
            requires
                v < 0,
                d >= 0,
                u == -v,
        ;
        let mm = (u * d) / s;
        vstd::arithmetic::div_mod::lemma_div_pos_is_pos(u * d, s);
        assert(tdiv(v * d, s) == -mm);
        assert(sat_mul(v, d) == i64_sat(-mm));
        let a = i64_sat(0 - i64_sat(-mm));
        assert(sat_sub(0, sat_mul(v, d)) == a);
        assert(0 <= a <= hi && a <= mm);
        let e = (a * 64) / s;
        vstd::arithmetic::div_mod::lemma_div_pos_is_pos(a * 64, s);
        vstd::arithmetic::div_mod::lemma_div_is_ordered(a * 64, hi * 64, s);
        assert(e <= (hi * 64) / s);
        assert(sat_mul(a, FX_DT as int) == e) by {
            assert(tdiv(a * 64, s) == e);
        }
        if mm > hi {
            vstd::arithmetic::div_mod::lemma_fundamental_div_mod(u * d, s);
            assert(u * d >= s * (hi + 1)) by (nonlinear_arith)
                requires
                    u * d == s * mm + (u * d) % s,
                    (u * d) % s >= 0,
                    mm >= hi + 1,
                    s >= 1,
            ;
            assert(u >= 9007199254740992) by (nonlinear_arith)
                requires
                    u * d >= s * (hi + 1),
                    s * (hi + 1) == 0x80000000000000000000,
                    0 <= d <= 67108864,
                    u > 0,
            ;
        } else {
            vstd::arithmetic::div_mod::lemma_fundamental_div_mod(u * d, s);
            assert(a * 64 <= u * s) by (nonlinear_arith)
                requires
                    a == mm,
                    u * d == s * mm + (u * d) % s,
                    (u * d) % s >= 0,
                    0 <= d,
                    64 * d <= s * s,
                    u > 0,
                    s >= 1,
            ;
            vstd::arithmetic::div_mod::lemma_div_is_ordered(a * 64, u * s, s);
            assert((s * u) / s == u) by {
                vstd::arithmetic::div_mod::lemma_div_multiples_vanish(u, s);
            }
            assert(u * s == s * u) by (nonlinear_arith);
        }
        assert(0 <= e <= u);
        assert(sat_add(v, e) == v + e);
    }
}

/// Narrow a double-width intermediate back to the raw range, saturating.
fn sat_narrow(s: i128) -> (r: i64)
    ensures
        r as int == i64_sat(s as int),
{
    if s > i64::MAX as i128 {
        i64::MAX
    } else if s < i64::MIN as i128 {
        i64::MIN
    } else {
        s as i64
    }
}

pub fn fx_add(a: Fx, b: Fx) -> (r: Fx)
    ensures
        r@ == sat_add(a@, b@),
{
    let s: i128 = a.raw as i128 + b.raw as i128;
    Fx { raw: sat_narrow(s) }
}

pub fn fx_sub(a: Fx, b: Fx) -> (r: Fx)
    ensures
        r@ == sat_sub(a@, b@),
{
    let s: i128 = a.raw as i128 - b.raw as i128;
    Fx { raw: sat_narrow(s) }
}

pub fn fx_abs(a: Fx) -> (r: Fx)
    ensures
        r@ == sat_abs(a@),
{
    if a.raw >= 0 {
        a
    } else {
        let s: i128 = -(a.raw as i128);
        Fx { raw: sat_narrow(s) }
    }
}

/// The magnitude of a raw value, wide enough to hold `|i64::MIN|`.
fn mag(x: i64) -> (r: u128)
    ensures
        r as int == abs_int(x as int),
{
    if x >= 0 {
        x as u128
    } else {
        (-(x as i128)) as u128
    }
}

pub fn fx_mul(a: Fx, b: Fx) -> (r: Fx)
    ensures
        r@ == sat_mul(a@, b@),
{
    let neg: bool = (a.raw < 0) != (b.raw < 0);
    let am: u128 = mag(a.raw);
    let bm: u128 = mag(b.raw);
    proof {
        let aa = a@;
        let bb = b@;
        assert(am as int * bm as int == abs_int(aa * bb)) by (nonlinear_arith)
            requires
                am as int == abs_int(aa),
                bm as int == abs_int(bb),
        ;
        assert(am as int * bm as int <= 0x8000000000000000 * 0x8000000000000000)
            by (nonlinear_arith)
            requires
                am as int <= 0x8000000000000000,
                bm as int <= 0x8000000000000000,
        ;
    }
    let m: u128 = am * bm;
    let q: u128 = m / (FX_SCALE as u128);
    proof {
        let p = a@ * b@;
        assert(q as int == abs_int(p) / (FX_SCALE as int));
        if !neg {
            assert(p >= 0) by (nonlinear_arith)
                requires
                    (a@ < 0) == (b@ < 0),
                    p == a@ * b@,
            ;
            assert(q as int == tdiv(p, FX_SCALE as int));
        } else {
            assert(p <= 0) by (nonlinear_arith)
                requires
                    (a@ < 0) != (b@ < 0),
                    p == a@ * b@,
            ;
            assert(-(q as int) == tdiv(p, FX_SCALE as int));
        }
    }
    let raw: i64 = if neg {
        if q > i64::MAX as u128 {
            i64::MIN
        } else {
            -(q as i64)
        }
    } else {
        if q > i64::MAX as u128 {
            i64::MAX
        } else {
            q as i64
        }
    };
    Fx { raw }
}

pub fn fx_clamp(v: Fx, lo: Fx, hi: Fx) -> (r: Fx)
    requires
        lo@ <= hi@,
    ensures
        r@ == clamp_int(v@, lo@, hi@),
{
    if v.raw < lo.raw {
        lo
    } else if v.raw > hi.raw {
        hi
    } else {
        v
    }
}

/// Halve a non-negative scalar, rounding down.
pub fn fx_half_nonneg(a: Fx) -> (r: Fx)
    requires
        a@ >= 0,
    ensures
        r@ == a@ / 2,
{
    Fx { raw: ((a.raw as u64) / 2) as i64 }
}

/// The whole-unit part of a non-negative coordinate.
pub fn fx_floor_nonneg(a: Fx) -> (r: u64)
    requires
        a@ >= 0,
    ensures
        r as int == a@ / (FX_SCALE as int),
{
    (a.raw as u64) / (FX_SCALE as u64)
}

/// The fractional raw part of a non-negative coordinate, in `[0, FX_SCALE)`.
pub fn fx_frac_nonneg(a: Fx) -> (r: Fx)
    requires
        a@ >= 0,
    ensures
        r@ == a@ % (FX_SCALE as int),
        0 <= r@ < FX_SCALE as int,
{
    Fx { raw: ((a.raw as u64) % (FX_SCALE as u64)) as i64 }
}

} // verus!
