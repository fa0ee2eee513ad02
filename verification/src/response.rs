//! Bounded, monotone response curves.
//!
//! Every response of the model — transition rates, drift terms, diffusion
//! scales — shares one shape: a smooth S-curve rising (or falling) from the
//! level `lo` to the level `hi`, centered at `mid` and stretched by `width`.
//! In fixed-point form the curve is
//! `lo + (hi - lo) * (SCALE + sig(z)) / (2 * SCALE)` with
//! `z = (q - mid) * SCALE / width`, where `sig` is a fixed-point sigmoid:
//! an odd, monotone map of the whole line into `(-SCALE, SCALE)` with
//! `sig(0) == 0`.  A non-positive `width` degenerates the curve to the
//! constant `lo`.

use vstd::prelude::*;
use vstd::arithmetic::div_mod::lemma_div_is_ordered;
use vstd::arithmetic::div_mod::lemma_div_of0;
use vstd::arithmetic::div_mod::lemma_div_pos_is_pos;
use vstd::arithmetic::div_mod::lemma_multiply_divide_lt;
use vstd::arithmetic::div_mod::lemma_div_denominator;
use vstd::arithmetic::div_mod::lemma_hoist_over_denominator;
use crate::fixed::FP_LIMIT;
use crate::fixed::PARAM_MAX;
use crate::fixed::SCALE;
use crate::fixed::muldiv;
use crate::fixed::muldiv_s;
use crate::fixed::lemma_frac_le;
use crate::fixed::lemma_div_of_mul;
use crate::fixed::lemma_mul_flip_sign;
use crate::fixed::lemma_muldiv_s_bounds;
use crate::state::State;

verus! {

/// Saturation cap for the sigmoid argument: beyond this magnitude the curve
/// is flat to within one fixed-point count, so the argument is clamped here
/// to keep the arithmetic in range.
pub const ARG_CAP: i64 = 10_000_000_000_000;

/// The four constants that shape one response curve.
#[derive(Copy, Clone, Debug, PartialEq, Eq, Structural)]
pub struct ResponseParams {
    /// Level approached far below `mid` (and the constant value when
    /// `width <= 0`).
    pub lo: i64,
    /// Level approached far above `mid`.
    pub hi: i64,
    /// Center of the transition, in fixed-point counts of the continuous
    /// variable.
    pub mid: i64,
    /// Stretch of the transition; non-positive means a constant curve.
    pub width: i64,
}

impl ResponseParams {
    /// The constants stay in the range whose arithmetic the engine has
    /// proved free of overflow.
    pub open spec fn valid(self) -> bool {
        &&& -PARAM_MAX <= self.lo <= PARAM_MAX
        &&& -PARAM_MAX <= self.hi <= PARAM_MAX
        &&& -FP_LIMIT <= self.mid <= FP_LIMIT
        &&& -FP_LIMIT <= self.width <= FP_LIMIT
    }

    /// Both levels are non-negative, so the whole curve is: required of
    /// diffusion scales.
    pub open spec fn nonneg(self) -> bool {
        self.lo >= 0 && self.hi >= 0
    }

    /// A curve with the given levels, center and stretch.
    pub fn new(lo: i64, hi: i64, mid: i64, width: i64) -> (p: ResponseParams)
        ensures
            p == (ResponseParams { lo, hi, mid, width }),
    {
        ResponseParams { lo, hi, mid, width }
    }

    /// The constant curve at `level`.
    pub fn constant(level: i64) -> (p: ResponseParams)
        ensures
            p == (ResponseParams { lo: level, hi: level, mid: 0i64, width: 0i64 }),
    {
        ResponseParams { lo: level, hi: level, mid: 0, width: 0 }
    }
}

/// The sigmoid argument `(d * SCALE) / width`, rounded toward zero and
/// clamped to `[-ARG_CAP, ARG_CAP]`.
pub open spec fn arg_s(d: int, width: int) -> int {
    let z = muldiv_s(d, SCALE as int, width);
    if z > ARG_CAP {
        ARG_CAP as int
    } else if z < -ARG_CAP {
        -ARG_CAP as int
    } else {
        z
    }
}

/// The fixed-point sigmoid `sign(z) * (SCALE * |z|) / (SCALE + |z|)`:
/// odd, monotone, zero at zero, strictly inside `(-SCALE, SCALE)`.
pub open spec fn sig_s(z: int) -> int {
    if z >= 0 {
        (SCALE * z) / (SCALE + z)
    } else {
        -((SCALE * (-z)) / (SCALE + (-z)))
    }
}

/// The full response curve at `q`.
pub open spec fn scaled_response_s(p: ResponseParams, q: int) -> int {
    if p.width <= 0 {
        p.lo as int
    } else {
        p.lo + muldiv_s(
            p.hi - p.lo,
            SCALE + sig_s(arg_s(q - p.mid, p.width as int)),
            2 * SCALE,
        )
    }
}

/// Compute the clamped sigmoid argument.
fn arg(d: i64, width: i64) -> (z: i64)
    requires
        0 < width,
        -2 * (FP_LIMIT as int) <= d <= 2 * (FP_LIMIT as int),
    ensures
        z == arg_s(d as int, width as int),
        -ARG_CAP <= z <= ARG_CAP,
{
    let dm: u128 = (if d >= 0 { d } else { -d }) as u128;
    proof {
        assert(dm * (SCALE as u128) <= 2000000000000000 * 1000000) by (nonlinear_arith)
            requires
                dm <= 2000000000000000,
        ;
    }
    let m: u128 = dm * (SCALE as u128) / (width as u128);
    let ghost p: int = d as int * SCALE as int;
    proof {
        assert(dm as int * SCALE as int == if p >= 0 { p } else { -p }) by (nonlinear_arith)
            requires
                dm == (if d >= 0 { d as int } else { -(d as int) }),
                p == d as int * SCALE as int,
        ;
        if p >= 0 {
            assert(d >= 0) by (nonlinear_arith)
                requires
                    p == d as int * SCALE as int,
                    p >= 0,
            ;
            assert(m == muldiv_s(d as int, SCALE as int, width as int));
        } else {
            assert(d < 0) by (nonlinear_arith)
                requires
                    p == d as int * SCALE as int,
                    p < 0,
            ;
            assert(m == (-p) / (width as int));
            assert(muldiv_s(d as int, SCALE as int, width as int) == -((-p) / (width as int)));
        }
    }
    let mc: u128 = if m > ARG_CAP as u128 {
        ARG_CAP as u128
    } else {
        m
    };
    let zc: i64 = mc as i64;
    if d < 0 {
        -zc
    } else {
        proof {
            if d == 0 {
                assert(muldiv_s(0, SCALE as int, width as int) == 0) by {
                    assert(0int * SCALE as int == 0) by (nonlinear_arith);
                    lemma_div_of0(width as int);
                }
            }
        }
        zc
    }
}

/// Compute the fixed-point sigmoid.
fn sigmoid(z: i64) -> (s: i64)
    requires
        -ARG_CAP <= z <= ARG_CAP,
    ensures
        s == sig_s(z as int),
        -SCALE < s < SCALE,
{
    let zm: i64 = if z >= 0 { z } else { -z };
    proof {
        lemma_sig_bounds(z as int);
        if z >= 0 {
            assert(SCALE as int * z as int >= 0) by (nonlinear_arith)
                requires
                    z >= 0,
            ;
            assert(muldiv_s(SCALE as int, z as int, SCALE as int + zm as int) == sig_s(z as int))
                by (nonlinear_arith)
                requires
                    z >= 0,
                    zm == z,
                    SCALE as int * z as int >= 0,
            ;
        } else {
            lemma_mul_flip_sign(-(z as int), SCALE as int);
            assert(SCALE as int * z as int == z as int * SCALE as int) by (nonlinear_arith);
            assert(SCALE as int * (-(z as int)) == (-(z as int)) * SCALE as int)
                by (nonlinear_arith);
        }
        lemma_muldiv_s_bounds(SCALE as int, zm as int, SCALE as int + zm as int);
    }
    muldiv(SCALE, z, SCALE + zm)
}

/// The sigmoid maps every integer strictly inside `(-SCALE, SCALE)`;
/// non-negative arguments map to non-negative values, negative arguments to
/// non-positive ones, and zero to zero.
pub proof fn lemma_sig_bounds(z: int)
    ensures
        -SCALE < sig_s(z) < SCALE,
        z >= 0 ==> sig_s(z) >= 0,
        z < 0 ==> sig_s(z) <= 0,
        sig_s(0) == 0,
{
    assert(SCALE as int * 0 == 0) by (nonlinear_arith);
    lemma_div_of0(SCALE as int);
    if z >= 0 {
        assert(SCALE as int * z >= 0) by (nonlinear_arith)
            requires
                z >= 0,
        ;
        lemma_div_pos_is_pos(SCALE * z, SCALE + z);
        assert(SCALE as int * z < (SCALE + z) * SCALE) by (nonlinear_arith)
            requires
                z >= 0,
        ;
        lemma_multiply_divide_lt(SCALE * z, SCALE + z, SCALE as int);
    } else {
        let y = -z;
        assert(SCALE as int * y >= 0) by (nonlinear_arith)
            requires
                y > 0,
        ;
        lemma_div_pos_is_pos(SCALE * y, SCALE + y);
        assert(SCALE as int * y < (SCALE + y) * SCALE) by (nonlinear_arith)
            requires
                y > 0,
        ;
        lemma_multiply_divide_lt(SCALE * y, SCALE + y, SCALE as int);
    }
}

/// The sigmoid is monotone.
pub proof fn lemma_sig_monotone(z1: int, z2: int)
    requires
        z1 <= z2,
    ensures
        sig_s(z1) <= sig_s(z2),
{
    if 0 <= z1 {
        assert(SCALE as int * z1 >= 0 && SCALE as int * z2 >= 0) by (nonlinear_arith)
            requires
                0 <= z1 <= z2,
        ;
        assert((SCALE as int * z1) * (SCALE + z2) <= (SCALE as int * z2) * (SCALE + z1))
            by (nonlinear_arith)
            requires
                0 <= z1 <= z2,
        ;
        lemma_frac_le(SCALE * z1, SCALE + z1, SCALE * z2, SCALE + z2);
    } else if z2 < 0 {
        let y1 = -z1;
        let y2 = -z2;
        assert(SCALE as int * y1 >= 0 && SCALE as int * y2 >= 0) by (nonlinear_arith)
            requires
                0 < y2 <= y1,
        ;
        assert((SCALE as int * y2) * (SCALE + y1) <= (SCALE as int * y1) * (SCALE + y2))
            by (nonlinear_arith)
            requires
                0 < y2 <= y1,
        ;
        lemma_frac_le(SCALE * y2, SCALE + y2, SCALE * y1, SCALE + y1);
    } else {
        lemma_sig_bounds(z1);
        lemma_sig_bounds(z2);
    }
}

/// The clamped sigmoid argument is monotone in `d`.
pub proof fn lemma_arg_monotone(d1: int, d2: int, width: int)
    requires
        0 < width,
        d1 <= d2,
    ensures
        arg_s(d1, width) <= arg_s(d2, width),
{
    lemma_muldiv_first_monotone(d1, d2, SCALE as int, width);
}

/// The truncated product-quotient is monotone in its first argument when
/// the middle argument is positive.
proof fn lemma_muldiv_first_monotone(a1: int, a2: int, b: int, d: int)
    requires
        0 < b,
        0 < d,
        a1 <= a2,
    ensures
        muldiv_s(a1, b, d) <= muldiv_s(a2, b, d),
{
    if 0 <= a1 {
        assert(0 <= a1 * b <= a2 * b) by (nonlinear_arith)
            requires
                0 <= a1 <= a2,
                0 < b,
        ;
        lemma_div_is_ordered(a1 * b, a2 * b, d);
    } else if a2 < 0 {
        assert(0 <= (-a2) * b <= (-a1) * b) by (nonlinear_arith)
            requires
                a1 <= a2 < 0,
                0 < b,
        ;
        lemma_mul_flip_sign(-a1, b);
        lemma_mul_flip_sign(-a2, b);
        lemma_div_is_ordered((-a2) * b, (-a1) * b, d);
    } else {
        assert(a1 * b < 0 && a2 * b >= 0) by (nonlinear_arith)
            requires
                a1 < 0 <= a2,
                0 < b,
        ;
        lemma_div_pos_is_pos((-(a1 * b)), d);
        lemma_div_pos_is_pos(a2 * b, d);
    }
}

/// The response curve stays within the band spanned by its two levels.
pub proof fn lemma_scaled_response_bounded(p: ResponseParams, q: int)
    ensures
        p.lo <= p.hi ==> p.lo <= scaled_response_s(p, q) <= p.hi,
        p.hi < p.lo ==> p.hi <= scaled_response_s(p, q) <= p.lo,
{
    if p.width > 0 {
        let z = arg_s(q - p.mid, p.width as int);
        lemma_sig_bounds(z);
        let t = SCALE + sig_s(z);
        lemma_muldiv_s_bounds(p.hi - p.lo, t, 2 * SCALE);
    }
}

/// The response curve is monotone in `q`: rising when `lo <= hi`, falling
/// when `hi < lo`.
pub proof fn lemma_scaled_response_monotone(p: ResponseParams, q1: int, q2: int)
    requires
        q1 <= q2,
    ensures
        p.lo <= p.hi ==> scaled_response_s(p, q1) <= scaled_response_s(p, q2),
        p.hi < p.lo ==> scaled_response_s(p, q2) <= scaled_response_s(p, q1),
{
    if p.width > 0 {
        let z1 = arg_s(q1 - p.mid, p.width as int);
        let z2 = arg_s(q2 - p.mid, p.width as int);
        lemma_arg_monotone(q1 - p.mid, q2 - p.mid, p.width as int);
        lemma_sig_monotone(z1, z2);
        lemma_sig_bounds(z1);
        lemma_sig_bounds(z2);
        crate::fixed::lemma_muldiv_s_monotone_mid(
            p.hi - p.lo,
            SCALE + sig_s(z1),
            SCALE + sig_s(z2),
            2 * SCALE,
        );
    }
}

/// At the center `q == mid` the curve sits exactly halfway between its two
/// levels, up to the one-count rounding of fixed-point division.
pub proof fn lemma_scaled_response_mid(p: ResponseParams)
    requires
        p.width > 0,
    ensures
        p.lo <= p.hi ==> scaled_response_s(p, p.mid as int) == (p.lo + p.hi) / 2,
        p.hi < p.lo ==> scaled_response_s(p, p.mid as int) == p.lo - (p.lo - p.hi) / 2,
{
    let w = p.width as int;
    assert(arg_s(0, w) == 0) by {
        assert(0int * SCALE as int == 0) by (nonlinear_arith);
        lemma_div_of0(w);
    }
    lemma_sig_bounds(0);
    let r = p.hi - p.lo;
    if r >= 0 {
        assert(muldiv_s(r, SCALE as int, 2 * SCALE) == r / 2) by {
            assert(r * SCALE as int >= 0) by (nonlinear_arith)
                requires
                    r >= 0,
            ;
            lemma_halving(r);
        }
        assert(p.lo + r / 2 == (p.lo + p.hi) / 2) by {
            lemma_hoist_over_denominator(r, p.lo as int, 2nat);
            assert(r + p.lo as int * 2 == p.lo + p.hi) by (nonlinear_arith)
                requires
                    r == p.hi - p.lo,
            ;
        }
    } else {
        let n = -r;
        lemma_mul_flip_sign(n, SCALE as int);
        assert(muldiv_s(r, SCALE as int, 2 * SCALE) == -(n / 2)) by {
            assert(n * SCALE as int >= 0) by (nonlinear_arith)
                requires
                    n > 0,
            ;
            lemma_halving(n);
        }
    }
}

/// `(r * SCALE) / (2 * SCALE) == r / 2` for `r >= 0`.
proof fn lemma_halving(r: int)
    requires
        r >= 0,
    ensures
        (r * SCALE as int) / (2 * SCALE as int) == r / 2,
{
    assert(r * SCALE as int >= 0) by (nonlinear_arith)
        requires
            r >= 0,
    ;
    assert(2 * SCALE as int == SCALE as int * 2) by (nonlinear_arith);
    lemma_div_denominator(r * SCALE as int, SCALE as int, 2);
    lemma_div_of_mul(r, SCALE as int);
}

/// Evaluate the response curve at `q`.
pub fn scaled_response(p: &ResponseParams, q: i64) -> (r: i64)
    requires
        p.valid(),
        -FP_LIMIT <= q <= FP_LIMIT,
    ensures
        r == scaled_response_s(*p, q as int),
        p.lo <= p.hi ==> p.lo <= r <= p.hi,
        p.hi < p.lo ==> p.hi <= r <= p.lo,
{
    proof {
        lemma_scaled_response_bounded(*p, q as int);
    }
    if p.width <= 0 {
        return p.lo;
    }
    let d: i64 = q - p.mid;
    let z: i64 = arg(d, p.width);
    let s: i64 = sigmoid(z);
    let t: i64 = SCALE + s;
    let range: i64 = p.hi - p.lo;
    proof {
        lemma_muldiv_s_bounds(range as int, t as int, 2 * SCALE as int);
    }
    let m: i64 = muldiv(range, t, 2 * SCALE);
    p.lo + m
}

/// The six named response curves a model variant supplies.
#[derive(Copy, Clone, Debug, PartialEq, Eq, Structural)]
pub struct ResponseFunctionSet {
    /// Transition intensity out of the non-precipitating regime.
    pub rate_to_precip: ResponseParams,
    /// Transition intensity out of the precipitating regime.
    pub rate_to_not_precip: ResponseParams,
    /// Upward drift of the continuous value while not precipitating.
    pub evaporation_drift: ResponseParams,
    /// Depletion rate of the continuous value while precipitating.
    pub precipitation_drift: ResponseParams,
    /// Squared noise scale while not precipitating.
    pub diffusion_scale_not_precip: ResponseParams,
    /// Squared noise scale while precipitating.
    pub diffusion_scale_precip: ResponseParams,
}

impl ResponseFunctionSet {
    /// All six curves are in range and the diffusion scales can never go
    /// negative, so every square root the integrator takes is defined.
    pub open spec fn valid(self) -> bool {
        &&& self.rate_to_precip.valid()
        &&& self.rate_to_not_precip.valid()
        &&& self.evaporation_drift.valid()
        &&& self.precipitation_drift.valid()
        &&& self.diffusion_scale_not_precip.valid()
        &&& self.diffusion_scale_precip.valid()
        &&& self.diffusion_scale_not_precip.nonneg()
        &&& self.diffusion_scale_precip.nonneg()
    }

    /// The transition intensity governing departure from `st`.
    pub open spec fn rate_params_s(self, st: State) -> ResponseParams {
        match st {
            State::NotPrecipitating => self.rate_to_precip,
            State::Precipitating => self.rate_to_not_precip,
        }
    }

    /// The transition intensity governing departure from `st`.
    pub fn rate_params(&self, st: State) -> (p: ResponseParams)
        ensures
            p == self.rate_params_s(st),
    {
        match st {
            State::NotPrecipitating => self.rate_to_precip,
            State::Precipitating => self.rate_to_not_precip,
        }
    }

    /// The drift curve used in `st`; its sign convention (depletion while
    /// precipitating) is applied by the integrator, not here.
    pub open spec fn drift_params_s(self, st: State) -> ResponseParams {
        match st {
            State::NotPrecipitating => self.evaporation_drift,
            State::Precipitating => self.precipitation_drift,
        }
    }

    /// The drift curve used in `st`.
    pub fn drift_params(&self, st: State) -> (p: ResponseParams)
        ensures
            p == self.drift_params_s(st),
    {
        match st {
            State::NotPrecipitating => self.evaporation_drift,
            State::Precipitating => self.precipitation_drift,
        }
    }

    /// The squared noise scale used in `st`.
    pub open spec fn diffusion_params_s(self, st: State) -> ResponseParams {
        match st {
            State::NotPrecipitating => self.diffusion_scale_not_precip,
            State::Precipitating => self.diffusion_scale_precip,
        }
    }

    /// The squared noise scale used in `st`.
    pub fn diffusion_params(&self, st: State) -> (p: ResponseParams)
        ensures
            p == self.diffusion_params_s(st),
    {
        match st {
            State::NotPrecipitating => self.diffusion_scale_not_precip,
            State::Precipitating => self.diffusion_scale_precip,
        }
    }

    /// The exact constant tuples of the sigmoid model variant.
    pub open spec fn model_2011_s() -> ResponseFunctionSet {
        ResponseFunctionSet {
            rate_to_precip: ResponseParams { lo: 0i64, hi: 1_000_000i64, mid: 61_000_000i64, width: 2_000_000i64 },
            rate_to_not_precip: ResponseParams { lo: 4_000_000i64, hi: 0i64, mid: 61_000_000i64, width: 2_000_000i64 },
            evaporation_drift: ResponseParams { lo: 400_000i64, hi: 400_000i64, mid: 0i64, width: 0i64 },
            precipitation_drift: ResponseParams { lo: 3_000_000i64, hi: 3_000_000i64, mid: 64_500_000i64, width: 1_000_000i64 },
            diffusion_scale_not_precip: ResponseParams { lo: 2_000_000i64, hi: 2_000_000i64, mid: 0i64, width: 0i64 },
            diffusion_scale_precip: ResponseParams { lo: 16_000_000i64, hi: 64_040_000i64, mid: 64_500_000i64, width: 1_000_000i64 },
        }
    }

    /// The exact constant tuples of the constant model variant.
    pub open spec fn model_2014_s() -> ResponseFunctionSet {
        ResponseFunctionSet {
            rate_to_precip: ResponseParams { lo: 0i64, hi: 0i64, mid: 0i64, width: 0i64 },
            rate_to_not_precip: ResponseParams { lo: 0i64, hi: 0i64, mid: 0i64, width: 0i64 },
            evaporation_drift: ResponseParams { lo: 200_000i64, hi: 200_000i64, mid: 0i64, width: 0i64 },
            precipitation_drift: ResponseParams { lo: 5_000_000i64, hi: 5_000_000i64, mid: 0i64, width: 0i64 },
            diffusion_scale_not_precip: ResponseParams { lo: 2_000_000i64, hi: 2_000_000i64, mid: 0i64, width: 0i64 },
            diffusion_scale_precip: ResponseParams { lo: 36_000_000i64, hi: 36_000_000i64, mid: 0i64, width: 0i64 },
        }
    }

    /// The model variant with sigmoid-shaped rates and diffusion: rates
    /// centered at 61 units, precipitation drift and diffusion rising near
    /// 64.5 units, constant evaporation drift.  Returns exactly the
    /// constant tuples of `model_2011_s`.
    pub fn model_2011() -> (m: ResponseFunctionSet)
        ensures
            m == Self::model_2011_s(),
            m.valid(),
    {
        ResponseFunctionSet {
            rate_to_precip: ResponseParams::new(0, 1_000_000, 61_000_000, 2_000_000),
            rate_to_not_precip: ResponseParams::new(4_000_000, 0, 61_000_000, 2_000_000),
            evaporation_drift: ResponseParams::constant(400_000),
            precipitation_drift: ResponseParams::new(
                3_000_000,
                3_000_000,
                64_500_000,
                1_000_000,
            ),
            diffusion_scale_not_precip: ResponseParams::constant(2_000_000),
            diffusion_scale_precip: ResponseParams::new(
                16_000_000,
                64_040_000,
                64_500_000,
                1_000_000,
            ),
        }
    }

    /// The model variant with constant drift and diffusion, meant to be
    /// paired with a threshold-crossing transition policy.  Returns exactly
    /// the constant tuples of `model_2014_s`.
    pub fn model_2014() -> (m: ResponseFunctionSet)
        ensures
            m == Self::model_2014_s(),
            m.valid(),
    {
        ResponseFunctionSet {
            rate_to_precip: ResponseParams::constant(0),
            rate_to_not_precip: ResponseParams::constant(0),
            evaporation_drift: ResponseParams::constant(200_000),
            precipitation_drift: ResponseParams::constant(5_000_000),
            diffusion_scale_not_precip: ResponseParams::constant(2_000_000),
            diffusion_scale_precip: ResponseParams::constant(36_000_000),
        }
    }
}

} // verus!
