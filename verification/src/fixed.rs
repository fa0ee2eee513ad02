//! Exact fixed-point arithmetic for the simulation engine.
//!
//! A physical quantity is held as an `i64` counting millionths of its unit
//! (`SCALE` counts per unit).  The engine's formulas then become integer
//! expressions of the form `a * b / d`, computed exactly with 128-bit
//! intermediates and rounded toward zero.

use vstd::prelude::*;
use vstd::arithmetic::div_mod::lemma_fundamental_div_mod;
use vstd::arithmetic::div_mod::lemma_div_is_ordered;
use vstd::arithmetic::div_mod::lemma_div_pos_is_pos;
use vstd::arithmetic::div_mod::lemma_remainder_lower;
use vstd::arithmetic::div_mod::lemma_remainder_upper;

verus! {

/// Number of fixed-point counts in one physical unit.
pub const SCALE: i64 = 1_000_000;

/// Largest magnitude the engine lets a continuous quantity reach, in
/// fixed-point counts: a guard for the representable range, far beyond any
/// physically plausible column water vapor value.
pub const FP_LIMIT: i64 = 1_000_000_000_000_000;

/// Largest magnitude allowed for the levels `lo` and `hi` of a response
/// curve, in fixed-point counts.
pub const PARAM_MAX: i64 = 1_000_000_000_000;

/// Largest step size `h` the engine accepts, in fixed-point counts.
pub const STEP_MAX: i64 = 1_000_000_000;

/// Mathematical value of `a * b / d` rounded toward zero, for `d > 0`.
pub open spec fn muldiv_s(a: int, b: int, d: int) -> int {
    if a * b >= 0 {
        (a * b) / d
    } else {
        -((-(a * b)) / d)
    }
}

/// Compute `a * b / d` with a 128-bit intermediate, rounding toward zero.
pub fn muldiv(a: i64, b: i64, d: i64) -> (r: i64)
    requires
        d > 0,
        a > i64::MIN,
        b > i64::MIN,
        -(i64::MAX as int) <= muldiv_s(a as int, b as int, d as int) <= i64::MAX as int,
    ensures
        r == muldiv_s(a as int, b as int, d as int),
{
    let am: u128 = (if a >= 0 { a } else { -a }) as u128;
    let bm: u128 = (if b >= 0 { b } else { -b }) as u128;
    let dm: u128 = d as u128;
    proof {
        assert(am * bm <= 0x7fffffffffffffff * 0x7fffffffffffffff) by (nonlinear_arith)
            requires
                am <= 0x7fffffffffffffff,
                bm <= 0x7fffffffffffffff,
        ;
    }
    let pm: u128 = am * bm;
    let m: u128 = pm / dm;
    let ghost p: int = a as int * b as int;
    proof {
        assert(pm == if p >= 0 { p } else { -p }) by (nonlinear_arith)
            requires
                am == (if a >= 0 { a as int } else { -(a as int) }),
                bm == (if b >= 0 { b as int } else { -(b as int) }),
                pm == am * bm,
                p == a as int * b as int,
        ;
        if p >= 0 {
            assert(m == muldiv_s(a as int, b as int, d as int));
        } else {
            assert(m == (-p) / (d as int));
            assert(muldiv_s(a as int, b as int, d as int) == -((-p) / (d as int)));
        }
        assert(m <= i64::MAX as int);
    }
    if (a < 0) != (b < 0) {
        proof {
            assert(p <= 0) by (nonlinear_arith)
                requires
                    p == a as int * b as int,
                    (a < 0 && b >= 0) || (a >= 0 && b < 0),
            ;
            if p == 0 {
                assert(m == 0) by {
                    assert(pm == 0);
                    assert(0int / d as int == 0) by (nonlinear_arith)
                        requires
                            d > 0,
                    ;
                }
            }
        }
        -(m as i64)
    } else {
        proof {
            assert(p >= 0) by (nonlinear_arith)
                requires
                    p == a as int * b as int,
                    (a < 0 && b < 0) || (a >= 0 && b >= 0),
            ;
        }
        m as i64
    }
}

/// Mathematical integer square root: the greatest `r` with `r * r <= x`
/// (and `0` for negative arguments).
pub open spec fn sqrt_s(x: int) -> int
    decreases x,
{
    if x <= 0 {
        0
    } else {
        let r = sqrt_s(x - 1);
        if (r + 1) * (r + 1) <= x {
            r + 1
        } else {
            r
        }
    }
}

/// The defining property of `sqrt_s`.
pub proof fn lemma_sqrt_s_props(x: int)
    requires
        0 <= x,
    ensures
        0 <= sqrt_s(x),
        sqrt_s(x) * sqrt_s(x) <= x,
        x < (sqrt_s(x) + 1) * (sqrt_s(x) + 1),
    decreases x,
{
    if x > 0 {
        lemma_sqrt_s_props(x - 1);
        let r = sqrt_s(x - 1);
        if (r + 1) * (r + 1) <= x {
            assert(x < (r + 2) * (r + 2)) by (nonlinear_arith)
                requires
                    0 <= r,
                    x - 1 < (r + 1) * (r + 1),
            ;
        }
    }
}

/// Any `r` with `r * r <= x < (r + 1) * (r + 1)` is the integer square root.
pub proof fn lemma_sqrt_s_unique(x: int, r: int)
    requires
        0 <= r,
        r * r <= x,
        x < (r + 1) * (r + 1),
    ensures
        r == sqrt_s(x),
{
    lemma_sqrt_s_props(x);
    let s = sqrt_s(x);
    assert(r == s) by (nonlinear_arith)
        requires
            0 <= r,
            0 <= s,
            r * r <= x,
            x < (r + 1) * (r + 1),
            s * s <= x,
            x < (s + 1) * (s + 1),
    ;
}

/// Integer square root: the greatest `r` with `r * r <= x`.
pub fn isqrt(x: u64) -> (r: u64)
    ensures
        r * r <= x,
        x < (r + 1) * (r + 1),
{
    if x == 0 {
        return 0;
    }
    if x < 4 {
        return 1;
    }
    let mut lo: u64 = 0;
    let mut hi: u64 = 0x1_0000_0000;
    proof {
        assert((0x1_0000_0000int) * (0x1_0000_0000int) > x);
    }
    while lo + 1 < hi
        invariant
            lo < hi,
            hi <= 0x1_0000_0000,
            lo * lo <= x,
            x < hi * hi,
        decreases hi - lo,
    {
        let mid: u64 = lo + (hi - lo) / 2;
        proof {
            assert(mid as int * mid as int <= 0x1_0000_0000 * 0x1_0000_0000) by (nonlinear_arith)
                requires
                    0 <= mid <= 0x1_0000_0000,
            ;
        }
        let sq: u128 = (mid as u128) * (mid as u128);
        if sq <= x as u128 {
            lo = mid;
        } else {
            hi = mid;
        }
    }
    lo
}

/// Rounding toward zero never increases the magnitude of a quotient:
/// for non-negative numerators it is ordinary floor division.
/// If `a * d <= c * b` with non-negative numerators and positive
/// denominators, then `a / b <= c / d`.
pub proof fn lemma_frac_le(a: int, b: int, c: int, d: int)
    requires
        0 <= a,
        0 < b,
        0 <= c,
        0 < d,
        a * d <= c * b,
    ensures
        a / b <= c / d,
{
    let q1 = a / b;
    let r1 = a % b;
    let q2 = c / d;
    let r2 = c % d;
    lemma_fundamental_div_mod(a, b);
    lemma_fundamental_div_mod(c, d);
    lemma_remainder_lower(a, b);
    lemma_remainder_upper(a, b);
    lemma_remainder_lower(c, d);
    lemma_remainder_upper(c, d);
    lemma_div_pos_is_pos(a, b);
    lemma_div_pos_is_pos(c, d);
    assert(q1 <= q2) by (nonlinear_arith)
        requires
            a == b * q1 + r1,
            c == d * q2 + r2,
            0 <= r1 < b,
            0 <= r2 < d,
            0 < b,
            0 < d,
            0 <= q1,
            0 <= q2,
            a * d <= c * b,
    ;
}

/// For `0 <= a` and `0 <= b <= d` the product-quotient `a * b / d` stays
/// between `0` and `a`.
proof fn lemma_muldiv_s_bounds_nn(a: int, b: int, d: int)
    requires
        0 <= a,
        0 < d,
        0 <= b <= d,
    ensures
        0 <= muldiv_s(a, b, d) <= a,
{
    assert(0 <= a * b <= a * d) by (nonlinear_arith)
        requires
            0 <= a,
            0 <= b <= d,
    ;
    lemma_div_pos_is_pos(a * b, d);
    lemma_div_is_ordered(a * b, a * d, d);
    lemma_div_of_mul(a, d);
}

/// For `0 <= b <= d` the truncated product-quotient `a * b / d` stays
/// between `0` and `a` when `a >= 0`, and between `a` and `0` when `a < 0`.
pub proof fn lemma_muldiv_s_bounds(a: int, b: int, d: int)
    requires
        0 < d,
        0 <= b <= d,
    ensures
        0 <= a ==> 0 <= muldiv_s(a, b, d) <= a,
        a < 0 ==> a <= muldiv_s(a, b, d) <= 0,
{
    if 0 <= a {
        lemma_muldiv_s_bounds_nn(a, b, d);
    } else {
        let n = -a;
        assert(muldiv_s(a, b, d) == -muldiv_s(n, b, d)) by {
            lemma_mul_flip_sign(a, b);
        }
        lemma_muldiv_s_bounds_nn(n, b, d);
    }
}

/// `(a * d) / d == a` for positive `d`.
pub proof fn lemma_div_of_mul(a: int, d: int)
    requires
        0 < d,
    ensures
        (a * d) / d == a,
{
    assert(a * d == a * d + 0) by (nonlinear_arith);
    vstd::arithmetic::div_mod::lemma_fundamental_div_mod_converse(a * d, d, a, 0);
}

/// Negating one factor negates the product.
pub proof fn lemma_mul_flip_sign(a: int, b: int)
    ensures
        (-a) * b == -(a * b),
{
    assert((-a) * b == -(a * b)) by (nonlinear_arith);
}

/// A magnitude bound on the truncated product-quotient from magnitude
/// bounds on its factors.
pub proof fn lemma_muldiv_s_mag(a: int, b: int, d: int, aa: int, bb: int)
    requires
        0 < d,
        0 <= aa,
        0 <= bb,
        -aa <= a <= aa,
        -bb <= b <= bb,
    ensures
        -((aa * bb) / d) <= muldiv_s(a, b, d) <= (aa * bb) / d,
{
    let p = a * b;
    assert(-(aa * bb) <= p <= aa * bb) by (nonlinear_arith)
        requires
            p == a * b,
            -aa <= a <= aa,
            -bb <= b <= bb,
            0 <= aa,
            0 <= bb,
    ;
    lemma_div_pos_is_pos(aa * bb, d);
    if p >= 0 {
        lemma_div_pos_is_pos(p, d);
        lemma_div_is_ordered(p, aa * bb, d);
    } else {
        lemma_div_pos_is_pos(-p, d);
        lemma_div_is_ordered(-p, aa * bb, d);
    }
}

/// Monotone case of `lemma_muldiv_s_monotone_mid`, for `a >= 0`.
proof fn lemma_muldiv_s_monotone_mid_nn(a: int, b1: int, b2: int, d: int)
    requires
        0 <= a,
        0 < d,
        0 <= b1 <= b2,
    ensures
        muldiv_s(a, b1, d) <= muldiv_s(a, b2, d),
{
    assert(0 <= a * b1 <= a * b2) by (nonlinear_arith)
        requires
            0 <= a,
            0 <= b1 <= b2,
    ;
    lemma_div_is_ordered(a * b1, a * b2, d);
}

/// The truncated product-quotient is monotone in its middle argument when
/// the first argument is non-negative, and antitone when it is negative.
pub proof fn lemma_muldiv_s_monotone_mid(a: int, b1: int, b2: int, d: int)
    requires
        0 < d,
        0 <= b1 <= b2,
    ensures
        0 <= a ==> muldiv_s(a, b1, d) <= muldiv_s(a, b2, d),
        a < 0 ==> muldiv_s(a, b2, d) <= muldiv_s(a, b1, d),
{
    if 0 <= a {
        lemma_muldiv_s_monotone_mid_nn(a, b1, b2, d);
    } else {
        let n = -a;
        lemma_mul_flip_sign(a, b1);
        lemma_mul_flip_sign(a, b2);
        lemma_muldiv_s_monotone_mid_nn(n, b1, b2, d);
    }
}

} // verus!
