//! Fixed-point arithmetic and the quintic smoothstep interpolation.
//!
//! Scalars are `i64` values in units of `1 / ONE`; a weight of `ONE`
//! stands for the real number one. Division by a positive divisor rounds
//! toward zero (`sdiv`), so interpolating with either extreme weight
//! returns the corresponding endpoint exactly.

use vstd::arithmetic::div_mod::{
    lemma_div_by_multiple, lemma_div_pos_is_pos, lemma_fundamental_div_mod, lemma_mod_bound,
    lemma_multiply_divide_le,
};
use vstd::prelude::*;

verus! {

/// The fixed-point unit. A sample `v` stands for the real number `v / ONE`.
pub const ONE: i64 = 65536;

/// Magnitude cap on the samples `interpolate` accepts; it keeps every
/// product in the blend inside `i64`.
pub const BLEND_LIMIT: i64 = 0x2000_0000_0000;

/// Division by a positive divisor, rounded toward zero.
pub open spec fn sdiv(n: int, d: int) -> int {
    if n >= 0 {
        n / d
    } else {
        -((-n) / d)
    }
}

/// The quintic smoothstep weight `w^3 * (w * (w * 6 - 15) + 10)`, carried
/// out in fixed point: `w` ranges over `[0, ONE]` and so does the result.
/// Every division here has a nonnegative dividend, so `/` rounds down.
pub open spec fn smoothstep_spec(w: int) -> int {
    let u = (w * w) / (ONE as int);
    let u2 = (u * w) / (ONE as int);
    let q = 6 * w * w - 15 * (ONE as int) * w + 10 * (ONE as int) * (ONE as int);
    (u2 * q) / ((ONE as int) * (ONE as int))
}

/// Blend from `a0` toward `a1` by the fixed-point weight `s` in `[0, ONE]`.
pub open spec fn lerp_spec(a0: int, a1: int, s: int) -> int {
    a0 + sdiv((a1 - a0) * s, ONE as int)
}

/// Interpolate between `a0` and `a1` by the smoothstepped weight `w`.
pub open spec fn interpolate_spec(a0: int, a1: int, w: int) -> int {
    lerp_spec(a0, a1, smoothstep_spec(w))
}

/// Division by a positive divisor, rounded toward zero.
pub fn sdiv64(n: i64, d: i64) -> (r: i64)
    requires
        0 < d,
        i64::MIN < n,
    ensures
        r == sdiv(n as int, d as int),
{
    if n >= 0 {
        n / d
    } else {
        -((-n) / d)
    }
}

/// `|sdiv(n, d)| <= m` whenever `|n| <= m * d`.
pub proof fn lemma_sdiv_bound(n: int, d: int, m: int)
    requires
        0 < d,
        0 <= m,
        -(m * d) <= n <= m * d,
    ensures
        -m <= sdiv(n, d) <= m,
{
    assert(m * d == d * m) by (nonlinear_arith);
    if n >= 0 {
        lemma_div_pos_is_pos(n, d);
        lemma_multiply_divide_le(n, d, m);
    } else {
        lemma_div_pos_is_pos(-n, d);
        lemma_multiply_divide_le(-n, d, m);
    }
}

/// `sdiv` of an exact multiple recovers the factor.
pub proof fn lemma_sdiv_exact(b: int, d: int)
    requires
        0 < d,
    ensures
        sdiv(b * d, d) == b,
{
    if b >= 0 {
        lemma_div_by_multiple(b, d);
    } else {
        lemma_div_by_multiple(-b, d);
        assert((-b) * d == -(b * d)) by (nonlinear_arith);
    }
}

/// The polynomial factor `6 w^2 - 15 ONE w + 10 ONE^2` of the smoothstep
/// is positive, and at most `10 ONE^2`, for `w` in `[0, ONE]`.
proof fn lemma_quintic_factor(w: int, q: int)
    requires
        0 <= w <= ONE as int,
        q == 6 * w * w - 15 * (ONE as int) * w + 10 * (ONE as int) * (ONE as int),
    ensures
        0 < q <= 10 * (ONE as int) * (ONE as int),
{
    assert(24 * q == (12 * w - 15 * (ONE as int)) * (12 * w - 15 * (ONE as int)) + 15 * (
    ONE as int) * (ONE as int)) by (nonlinear_arith)
        requires
            q == 6 * w * w - 15 * (ONE as int) * w + 10 * (ONE as int) * (ONE as int),
    ;
    assert((12 * w - 15 * (ONE as int)) * (12 * w - 15 * (ONE as int)) >= 0) by (nonlinear_arith);
    assert(q <= 10 * (ONE as int) * (ONE as int)) by (nonlinear_arith)
        requires
            q == 6 * w * w - 15 * (ONE as int) * w + 10 * (ONE as int) * (ONE as int) && 0 <= w
                <= ONE as int,
    ;
}

/// The smoothstep weight stays inside `[0, ONE]`; it is exactly `0` at
/// `w == 0` and exactly `ONE` at `w == ONE`.
pub proof fn lemma_smoothstep_range(w: int)
    requires
        0 <= w <= ONE as int,
    ensures
        0 <= smoothstep_spec(w) <= ONE as int,
        w == 0 ==> smoothstep_spec(w) == 0,
        w == ONE as int ==> smoothstep_spec(w) == ONE as int,
{
    let ww = w * w;
    let u = ww / (ONE as int);
    let uw = u * w;
    let u2 = uw / (ONE as int);
    let q = 6 * w * w - 15 * (ONE as int) * w + 10 * (ONE as int) * (ONE as int);
    assert(0 <= ww && ww <= (ONE as int) * (ONE as int)) by (nonlinear_arith)
        requires
            ww == w * w && 0 <= w <= ONE as int,
    ;
    lemma_div_pos_is_pos(ww, ONE as int);
    lemma_multiply_divide_le(ww, ONE as int, ONE as int);
    assert(0 <= uw && uw <= (ONE as int) * (ONE as int)) by (nonlinear_arith)
        requires
            uw == u * w && 0 <= u <= ONE as int && 0 <= w <= ONE as int,
    ;
    lemma_div_pos_is_pos(uw, ONE as int);
    lemma_multiply_divide_le(uw, ONE as int, ONE as int);
    lemma_quintic_factor(w, q);
    // Chain the floor divisions: ONE^2 * u2 <= w^3.
    lemma_fundamental_div_mod(ww, ONE as int);
    lemma_mod_bound(ww, ONE as int);
    lemma_fundamental_div_mod(uw, ONE as int);
    lemma_mod_bound(uw, ONE as int);
    assert((ONE as int) * ((ONE as int) * u2) <= w * w * w) by (nonlinear_arith)
        requires
            0 <= w && 0 <= u && (ONE as int) * u2 <= uw && uw == u * w && (ONE as int) * u <= ww
                && ww == w * w,
    ;
    // The quintic never exceeds one: ONE^5 - w^3 * q factors as
    // (ONE - w)^3 * (6 w^2 + 3 ONE w + ONE^2), which is nonnegative.
    assert(w * w * w * q <= (ONE as int) * (ONE as int) * (ONE as int) * (ONE as int) * (
    ONE as int)) by (nonlinear_arith)
        requires
            q == 6 * w * w - 15 * (ONE as int) * w + 10 * (ONE as int) * (ONE as int) && 0 <= w
                <= ONE as int,
    ;
    assert(u2 * q * ((ONE as int) * (ONE as int)) <= (ONE as int) * (ONE as int) * (ONE as int) * (
    ONE as int) * (ONE as int)) by (nonlinear_arith)
        requires
            q > 0 && (ONE as int) * ((ONE as int) * u2) <= w * w * w && w * w * w * q <= (
            ONE as int) * (ONE as int) * (ONE as int) * (ONE as int) * (ONE as int),
    ;
    assert(u2 * q <= ((ONE as int) * (ONE as int)) * (ONE as int)) by (nonlinear_arith)
        requires
            u2 * q * ((ONE as int) * (ONE as int)) <= (ONE as int) * (ONE as int) * (ONE as int) * (
            ONE as int) * (ONE as int),
    ;
    assert(0 <= u2 * q) by (nonlinear_arith)
        requires
            0 <= u2 && 0 < q,
    ;
    lemma_div_pos_is_pos(u2 * q, (ONE as int) * (ONE as int));
    lemma_multiply_divide_le(u2 * q, (ONE as int) * (ONE as int), ONE as int);
    if w == 0 {
        assert(ww == 0) by (nonlinear_arith)
            requires
                ww == w * w && w == 0,
        ;
        assert(u2 * q == 0) by (nonlinear_arith)
            requires
                u2 == 0,
        ;
    }
    if w == ONE as int {
        assert(ww == (ONE as int) * (ONE as int)) by (nonlinear_arith)
            requires
                ww == w * w && w == ONE as int,
        ;
        assert(u == ONE as int) by {
            lemma_div_by_multiple(ONE as int, ONE as int);
        }
        assert(uw == (ONE as int) * (ONE as int)) by (nonlinear_arith)
            requires
                uw == u * w && u == ONE as int && w == ONE as int,
        ;
        assert(u2 == ONE as int) by {
            lemma_div_by_multiple(ONE as int, ONE as int);
        }
        assert(q == (ONE as int) * (ONE as int)) by (nonlinear_arith)
            requires
                q == 6 * w * w - 15 * (ONE as int) * w + 10 * (ONE as int) * (ONE as int) && w
                    == ONE as int,
        ;
        assert(u2 * q == (ONE as int) * ((ONE as int) * (ONE as int))) by (nonlinear_arith)
            requires
                u2 == ONE as int && q == (ONE as int) * (ONE as int),
        ;
        assert(((ONE as int) * ((ONE as int) * (ONE as int))) / ((ONE as int) * (ONE as int))
            == ONE as int) by {
            lemma_div_by_multiple(ONE as int, (ONE as int) * (ONE as int));
        }
    }
}

/// The blend lands between its endpoints; with `s == 0` it is `a0`
/// exactly, and with `s == ONE` it is `a1` exactly.
pub proof fn lemma_lerp_range(a0: int, a1: int, s: int)
    requires
        0 <= s <= ONE as int,
    ensures
        a0 <= a1 ==> a0 <= lerp_spec(a0, a1, s) <= a1,
        a1 <= a0 ==> a1 <= lerp_spec(a0, a1, s) <= a0,
        s == 0 ==> lerp_spec(a0, a1, s) == a0,
        s == ONE as int ==> lerp_spec(a0, a1, s) == a1,
{
    let delta = a1 - a0;
    if delta >= 0 {
        assert(0 <= delta * s && delta * s <= delta * (ONE as int)) by (nonlinear_arith)
            requires
                0 <= s <= ONE as int && delta >= 0,
        ;
        lemma_sdiv_bound(delta * s, ONE as int, delta);
    } else {
        assert((-delta) * (-(ONE as int)) <= delta * s && delta * s <= 0) by (nonlinear_arith)
            requires
                0 <= s <= ONE as int && delta < 0,
        ;
        assert(-((-delta) * (ONE as int)) == (-delta) * (-(ONE as int))) by (nonlinear_arith);
        lemma_sdiv_bound(delta * s, ONE as int, -delta);
    }
    if s == 0 {
        assert(delta * s == 0) by (nonlinear_arith)
            requires
                s == 0,
        ;
        assert(sdiv(0, ONE as int) == 0) by {
            lemma_div_by_multiple(0, ONE as int);
            assert(0 * (ONE as int) == 0) by (nonlinear_arith);
        }
    }
    if s == ONE as int {
        lemma_sdiv_exact(delta, ONE as int);
        assert(delta * s == delta * (ONE as int));
    }
}

/// The fixed-point quintic smoothstep weight.
pub fn smoothstep(w: i64) -> (s: i64)
    requires
        0 <= w <= ONE,
    ensures
        s == smoothstep_spec(w as int),
        0 <= s <= ONE,
{
    proof {
        lemma_smoothstep_range(w as int);
        assert(0 <= (w as int) * (w as int) <= (ONE as int) * (ONE as int)) by (nonlinear_arith)
            requires
                0 <= w as int <= ONE as int,
        ;
    }
    let ww: i64 = w * w;
    let u: i64 = ww / ONE;
    proof {
        lemma_div_pos_is_pos(ww as int, ONE as int);
        lemma_multiply_divide_le(ww as int, ONE as int, ONE as int);
        assert(0 <= (u as int) * (w as int) <= (ONE as int) * (ONE as int)) by (nonlinear_arith)
            requires
                0 <= u as int <= ONE as int && 0 <= w as int <= ONE as int,
        ;
    }
    let uw: i64 = u * w;
    let u2: i64 = uw / ONE;
    proof {
        lemma_div_pos_is_pos(uw as int, ONE as int);
        lemma_multiply_divide_le(uw as int, ONE as int, ONE as int);
    }
    let q: i64 = 6 * ww - 15 * ONE * w + 10 * ONE * ONE;
    proof {
        assert(q as int == 6 * (w as int) * (w as int) - 15 * (ONE as int) * (w as int) + 10 * (
        ONE as int) * (ONE as int)) by (nonlinear_arith)
            requires
                q as int == 6 * (ww as int) - 15 * (ONE as int) * (w as int) + 10 * (ONE as int) * (
                ONE as int) && ww as int == (w as int) * (w as int),
        ;
        lemma_quintic_factor(w as int, q as int);
        assert(0 <= (u2 as int) * (q as int) <= (ONE as int) * (10 * (ONE as int) * (ONE as int)))
            by (nonlinear_arith)
            requires
                0 <= u2 as int <= ONE as int && 0 < q as int <= 10 * (ONE as int) * (ONE as int),
        ;
    }
    (u2 * q) / (ONE * ONE)
}

/// Interpolate between two fixed-point samples by a weight `w` in
/// `[0, ONE]`, with the quintic smoothstep easing.
pub fn interpolate(a0: i64, a1: i64, w: i64) -> (r: i64)
    requires
        0 <= w <= ONE,
        -BLEND_LIMIT <= a0 <= BLEND_LIMIT,
        -BLEND_LIMIT <= a1 <= BLEND_LIMIT,
    ensures
        r == interpolate_spec(a0 as int, a1 as int, w as int),
        a0 <= a1 ==> a0 <= r <= a1,
        a1 <= a0 ==> a1 <= r <= a0,
{
    proof {
        lemma_smoothstep_range(w as int);
        lemma_lerp_range(a0 as int, a1 as int, smoothstep_spec(w as int));
    }
    let s = smoothstep(w);
    proof {
        assert(-(2 * (BLEND_LIMIT as int) * (ONE as int)) <= (a1 as int - a0 as int) * (s as int)
            <= 2 * (BLEND_LIMIT as int) * (ONE as int)) by (nonlinear_arith)
            requires
                -(2 * (BLEND_LIMIT as int)) <= a1 as int - a0 as int <= 2 * (BLEND_LIMIT as int)
                    && 0 <= s as int <= ONE as int,
        ;
    }
    let d = sdiv64((a1 - a0) * s, ONE);
    a0 + d
}

/// Interpolating identical endpoints returns that value, whatever the
/// weight.
pub proof fn lemma_interpolate_identical(a: int, w: int)
    requires
        0 <= w <= ONE as int,
    ensures
        interpolate_spec(a, a, w) == a,
{
    lemma_smoothstep_range(w);
    lemma_lerp_range(a, a, smoothstep_spec(w));
}

/// The extreme weights return the endpoints exactly: weight `0` gives
/// `a0` and weight `ONE` gives `a1`, with no rounding error.
pub proof fn lemma_interpolate_endpoints(a0: int, a1: int)
    ensures
        interpolate_spec(a0, a1, 0) == a0,
        interpolate_spec(a0, a1, ONE as int) == a1,
{
    lemma_smoothstep_range(0);
    lemma_smoothstep_range(ONE as int);
    lemma_lerp_range(a0, a1, smoothstep_spec(0));
    lemma_lerp_range(a0, a1, smoothstep_spec(ONE as int));
}

} // verus!
