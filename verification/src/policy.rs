//! Transition policies: when does the column switch regime?
//!
//! Two interchangeable strategies decide, once per step and after the
//! continuous value has been updated, whether a transition fires.
//!
//! * **Stochastic rate**: the per-step switching probability is
//!   `1 - exp(-h * rate(q))`, approximated in fixed point by a rational
//!   decay with the same value at zero, the same bounds and the same
//!   monotonicity; the step's uniform draw `u` (a count in `[1, SCALE]`,
//!   standing for a value in `(0, 1]`) fires the transition iff
//!   `u <= probability`.
//! * **Threshold crossing**: the column leaves the non-precipitating regime
//!   once `q` reaches the upper boundary, and leaves the precipitating
//!   regime once `q` falls to the lower boundary; no randomness is
//!   consumed by the test.

use vstd::prelude::*;
use vstd::arithmetic::div_mod::lemma_div_of0;
use crate::fixed::FP_LIMIT;
use crate::fixed::SCALE;
use crate::fixed::STEP_MAX;
use crate::fixed::PARAM_MAX;
use crate::fixed::muldiv;
use crate::fixed::muldiv_s;
use crate::fixed::lemma_div_of_mul;
use crate::fixed::lemma_muldiv_s_bounds;
use crate::fixed::lemma_muldiv_s_mag;
use crate::response::ResponseFunctionSet;
use crate::response::scaled_response;
use crate::response::scaled_response_s;
use crate::response::lemma_scaled_response_bounded;
use crate::state::State;

verus! {

/// How the engine decides that a regime switch fires.
#[derive(Copy, Clone, Debug, PartialEq, Eq, Structural)]
pub enum TransitionPolicy {
    /// Probabilistic switching driven by the state-dependent rate curves.
    StochasticRate,
    /// Deterministic switching at fixed boundaries of the continuous value.
    ThresholdCrossing { q_low: i64, q_high: i64 },
}

impl TransitionPolicy {
    /// Threshold boundaries must be ordered and representable.
    pub open spec fn valid(self) -> bool {
        match self {
            TransitionPolicy::StochasticRate => true,
            TransitionPolicy::ThresholdCrossing { q_low, q_high } => {
                &&& q_low < q_high
                &&& -FP_LIMIT <= q_low
                &&& q_high <= FP_LIMIT
            },
        }
    }
}

/// Fixed-point exponential decay: a rational stand-in for
/// `SCALE * exp(-x / SCALE)` with `expneg_s(0) == SCALE`, values in
/// `[0, SCALE]` and monotone decay.
pub open spec fn expneg_s(x: int) -> int {
    (SCALE as int * SCALE as int) / (SCALE + x)
}

/// Compute the fixed-point exponential decay.
pub fn expneg(x: i64) -> (r: i64)
    requires
        0 <= x <= 2 * (FP_LIMIT as int),
    ensures
        r == expneg_s(x as int),
        0 <= r <= SCALE,
        x == 0 ==> r == SCALE,
{
    proof {
        lemma_expneg_bounds(x as int);
        assert(muldiv_s(SCALE as int, SCALE as int, SCALE as int + x as int) == expneg_s(
            x as int,
        )) by {
            assert(SCALE as int * SCALE as int >= 0) by (nonlinear_arith);
        }
    }
    muldiv(SCALE, SCALE, SCALE + x)
}

/// The decay starts at exactly `SCALE` and never leaves `[0, SCALE]`.
pub proof fn lemma_expneg_bounds(x: int)
    requires
        0 <= x,
    ensures
        0 <= expneg_s(x) <= SCALE,
        x == 0 ==> expneg_s(x) == SCALE,
{
    lemma_muldiv_s_bounds(SCALE as int, SCALE as int, SCALE + x);
    assert(muldiv_s(SCALE as int, SCALE as int, SCALE + x) == expneg_s(x)) by {
        assert(SCALE as int * SCALE as int >= 0) by (nonlinear_arith);
    }
    if x == 0 {
        lemma_div_of_mul(SCALE as int, SCALE as int);
    }
}

/// The decay never rises: a larger rate term gives a larger switching
/// probability.
pub proof fn lemma_expneg_antitone(x1: int, x2: int)
    requires
        0 <= x1 <= x2,
    ensures
        expneg_s(x2) <= expneg_s(x1),
{
    vstd::arithmetic::div_mod::lemma_div_is_ordered_by_denominator(
        SCALE as int * SCALE as int,
        SCALE + x1,
        SCALE + x2,
    );
}

/// The per-step switching probability, in fixed-point counts of
/// probability: `SCALE - expneg_s(h * rate / SCALE)`, and zero whenever the
/// rate term is not positive.
pub open spec fn switch_prob_s(h: int, rate: int) -> int {
    let x = muldiv_s(h, rate, SCALE as int);
    if x <= 0 {
        0
    } else {
        SCALE - expneg_s(x)
    }
}

/// Does the threshold policy fire in regime `st` at value `q`?
pub open spec fn threshold_fires_s(st: State, q: int, q_low: int, q_high: int) -> bool {
    match st {
        State::NotPrecipitating => q >= q_high,
        State::Precipitating => q <= q_low,
    }
}

/// Does a transition fire this step?  `q` is the continuous value after the
/// step's update, `u` the step's uniform draw in `[1, SCALE]` (ignored by
/// the threshold policy).
pub open spec fn fires_s(
    policy: TransitionPolicy,
    funcs: ResponseFunctionSet,
    st: State,
    q: int,
    h: int,
    u: int,
) -> bool {
    match policy {
        TransitionPolicy::StochasticRate => u <= switch_prob_s(
            h,
            scaled_response_s(funcs.rate_params_s(st), q),
        ),
        TransitionPolicy::ThresholdCrossing { q_low, q_high } => threshold_fires_s(
            st,
            q,
            q_low as int,
            q_high as int,
        ),
    }
}

/// Evaluate the configured policy for one step.
pub fn transition_fires(
    policy: &TransitionPolicy,
    funcs: &ResponseFunctionSet,
    st: State,
    q: i64,
    h: i64,
    u: i64,
) -> (fired: bool)
    requires
        funcs.valid(),
        policy.valid(),
        -FP_LIMIT <= q <= FP_LIMIT,
        0 < h <= STEP_MAX,
        1 <= u <= SCALE,
    ensures
        fired == fires_s(*policy, *funcs, st, q as int, h as int, u as int),
{
    match policy {
        TransitionPolicy::StochasticRate => {
            let rp = funcs.rate_params(st);
            let rate = scaled_response(&rp, q);
            proof {
                lemma_muldiv_s_mag(
                    h as int,
                    rate as int,
                    SCALE as int,
                    STEP_MAX as int,
                    PARAM_MAX as int,
                );
                assert((STEP_MAX as int * PARAM_MAX as int) / SCALE as int <= 2 * (
                FP_LIMIT as int));
            }
            let x = muldiv(h, rate, SCALE);
            if x <= 0 {
                false
            } else {
                let decay = expneg(x);
                u <= SCALE - decay
            }
        },
        TransitionPolicy::ThresholdCrossing { q_low, q_high } => {
            match st {
                State::NotPrecipitating => q >= *q_high,
                State::Precipitating => q <= *q_low,
            }
        },
    }
}

/// A step whose rate term is not positive cannot fire under the
/// stochastic-rate policy: its switching probability is zero, whatever the
/// step's uniform draw.
pub proof fn lemma_zero_prob_never_fires(
    funcs: ResponseFunctionSet,
    st: State,
    q: int,
    h: int,
    u: int,
)
    requires
        scaled_response_s(funcs.rate_params_s(st), q) <= 0,
        0 <= h,
        1 <= u,
    ensures
        !fires_s(TransitionPolicy::StochasticRate, funcs, st, q, h, u),
{
    let rate = scaled_response_s(funcs.rate_params_s(st), q);
    assert(h * rate <= 0) by (nonlinear_arith)
        requires
            0 <= h,
            rate <= 0,
    ;
    if h * rate == 0 {
        lemma_div_of0(SCALE as int);
    } else {
        vstd::arithmetic::div_mod::lemma_div_pos_is_pos(-(h * rate), SCALE as int);
    }
    assert(muldiv_s(h, rate, SCALE as int) <= 0);
}

/// A stochastic-rate policy whose rate curve is identically zero never
/// fires: the switching probability of every step is zero, whatever the
/// step's uniform draw.
pub proof fn lemma_zero_rate_never_fires(
    funcs: ResponseFunctionSet,
    st: State,
    q: int,
    h: int,
    u: int,
)
    requires
        funcs.rate_params_s(st).lo == 0,
        funcs.rate_params_s(st).hi == 0,
        0 <= h,
        1 <= u,
    ensures
        !fires_s(TransitionPolicy::StochasticRate, funcs, st, q, h, u),
{
    lemma_scaled_response_bounded(funcs.rate_params_s(st), q);
    lemma_zero_prob_never_fires(funcs, st, q, h, u);
}

/// The regime reached after the threshold policy has processed the first
/// `i` samples of `qs`, starting from `st0`: each sample in turn either
/// fires (and flips the regime) or leaves it unchanged.
pub open spec fn threshold_states_after(
    st0: State,
    qs: Seq<int>,
    q_low: int,
    q_high: int,
    i: int,
) -> State
    decreases i,
{
    if i <= 0 {
        st0
    } else {
        let prev = threshold_states_after(st0, qs, q_low, q_high, i - 1);
        if threshold_fires_s(prev, qs[i - 1], q_low, q_high) {
            prev.spec_flip()
        } else {
            prev
        }
    }
}

/// Characterization behind `lemma_threshold_single_crossing`: along a
/// monotonically increasing sample path that first reaches the upper
/// boundary at index `k`, the regime is `NotPrecipitating` up to and
/// including step `k` and `Precipitating` ever after.
proof fn lemma_threshold_states_shape(qs: Seq<int>, q_low: int, q_high: int, k: int, i: int)
    requires
        q_low < q_high,
        0 <= k < qs.len(),
        forall|a: int, b: int| 0 <= a <= b < qs.len() ==> qs[a] <= qs[b],
        qs[k] >= q_high,
        forall|j: int| 0 <= j < k ==> qs[j] < q_high,
        0 <= i <= qs.len(),
    ensures
        threshold_states_after(State::NotPrecipitating, qs, q_low, q_high, i) == (if i <= k {
            State::NotPrecipitating
        } else {
            State::Precipitating
        }),
    decreases i,
{
    if i > 0 {
        lemma_threshold_states_shape(qs, q_low, q_high, k, i - 1);
        if i - 1 > k {
            assert(qs[k] <= qs[i - 1]);
        }
    }
}

/// A monotonically increasing sample path that first reaches the upper
/// boundary at index `k` triggers exactly one transition under the
/// threshold policy — out of `NotPrecipitating`, at step `k` — and none
/// before or after.
pub proof fn lemma_threshold_single_crossing(qs: Seq<int>, q_low: int, q_high: int, k: int)
    requires
        q_low < q_high,
        0 <= k < qs.len(),
        forall|a: int, b: int| 0 <= a <= b < qs.len() ==> qs[a] <= qs[b],
        qs[k] >= q_high,
        forall|j: int| 0 <= j < k ==> qs[j] < q_high,
    ensures
        forall|i: int|
            0 <= i < qs.len() ==> (threshold_fires_s(
                threshold_states_after(State::NotPrecipitating, qs, q_low, q_high, i),
                qs[i],
                q_low,
                q_high,
            ) <==> i == k),
        forall|i: int|
            0 <= i <= qs.len() ==> threshold_states_after(
                State::NotPrecipitating,
                qs,
                q_low,
                q_high,
                i,
            ) == (if i <= k {
                State::NotPrecipitating
            } else {
                State::Precipitating
            }),
{
    assert forall|i: int| 0 <= i <= qs.len() implies threshold_states_after(
        State::NotPrecipitating,
        qs,
        q_low,
        q_high,
        i,
    ) == (if i <= k {
        State::NotPrecipitating
    } else {
        State::Precipitating
    }) by {
        lemma_threshold_states_shape(qs, q_low, q_high, k, i);
    }
    assert forall|i: int| 0 <= i < qs.len() implies (threshold_fires_s(
        threshold_states_after(State::NotPrecipitating, qs, q_low, q_high, i),
        qs[i],
        q_low,
        q_high,
    ) <==> i == k) by {
        lemma_threshold_states_shape(qs, q_low, q_high, k, i);
        if i < k {
            assert(qs[i] < q_high);
        } else if i > k {
            assert(qs[k] <= qs[i]);
        }
    }
}

} // verus!
