//! The stochastic state machine: a discretized SDE integrator with regime
//! switching and event bookkeeping.
//!
//! One call to `sample` advances the continuous value by one Euler–Maruyama
//! step, accumulates the precipitation integral while precipitating, records
//! the new value in the in-progress sample buffer, and asks the configured
//! transition policy whether the regime switches; on a switch the finished
//! event — its summary and its sample path — moves into the chronological
//! history and the regime flips.  `get_history` flushes the trailing
//! partial event exactly once and hands the history out read-only.
//!
//! The whole step is a pure function `step_model` of the machine's ghost
//! model and the step's two random draws; `sample` is proved to realize it
//! for some pair of draws, so every path property of the integrator can be
//! proved once about `step_model`.

use vstd::prelude::*;
use crate::fixed::FP_LIMIT;
use crate::fixed::PARAM_MAX;
use crate::fixed::SCALE;
use crate::fixed::STEP_MAX;
use crate::fixed::isqrt;
use crate::fixed::muldiv;
use crate::fixed::muldiv_s;
use crate::fixed::sqrt_s;
use crate::fixed::lemma_muldiv_s_mag;
use crate::fixed::lemma_sqrt_s_unique;
use crate::policy::TransitionPolicy;
use crate::policy::fires_s;
use crate::policy::transition_fires;
use crate::response::ResponseFunctionSet;
use crate::response::scaled_response;
use crate::response::scaled_response_s;
use crate::rng::RandomSource;
use crate::state::State;
use crate::state::StateHistory;

verus! {

/// Lower edge of the physically plausible range of the continuous value;
/// leaving the range is reported as a divergence diagnostic, not an error.
pub const PLAUSIBLE_MIN: i64 = 25_000_000;

/// Upper edge of the physically plausible range of the continuous value.
pub const PLAUSIBLE_MAX: i64 = 120_000_000;

/// Why construction of a machine was refused.
#[derive(Copy, Clone, Debug, PartialEq, Eq, Structural)]
pub enum ConfigError {
    /// The step size was zero, negative, or beyond `STEP_MAX`.
    InvalidStepSize,
    /// The initial continuous value was outside `[-FP_LIMIT, FP_LIMIT]`.
    InitialValueOutOfRange,
    /// A response-curve constant was out of range, or a diffusion scale
    /// could go negative.
    InvalidResponseFunctions,
    /// Threshold boundaries not ordered `q_low < q_high`, or out of range.
    InvalidThresholds,
}

/// Ghost model of a machine: the fields the contracts speak of.
#[verifier::ext_equal]
pub ghost struct EngineModel {
    /// Current regime.
    pub state: State,
    /// Current continuous value, fixed point.
    pub q: i64,
    /// Step size, fixed point.
    pub h: i64,
    /// Cached integer square root of `h * SCALE`.
    pub sqrt_h: i64,
    /// Precipitation integral of the in-progress event.
    pub prec: i64,
    /// Samples of the in-progress event.
    pub event: Seq<i64>,
    /// Finished events, in chronological order.
    pub history: Seq<(StateHistory, Seq<i64>)>,
    /// The injected response curves.
    pub funcs: ResponseFunctionSet,
    /// The injected transition policy.
    pub policy: TransitionPolicy,
    /// How many steps have left the plausible range.
    pub divergences: u64,
    /// How many steps have been taken.
    pub steps: nat,
}

/// `x` clamped to `[-lim, lim]`.
pub open spec fn clamp_s(x: int, lim: int) -> int {
    if x > lim {
        lim
    } else if x < -lim {
        -lim
    } else {
        x
    }
}

/// The signed drift at `q`: evaporation raises the value while not
/// precipitating, precipitation depletes it.
pub open spec fn signed_drift_s(funcs: ResponseFunctionSet, st: State, q: int) -> int {
    match st {
        State::NotPrecipitating => scaled_response_s(funcs.evaporation_drift, q),
        State::Precipitating => -scaled_response_s(funcs.precipitation_drift, q),
    }
}

/// The summary a finished event is tagged with: the accumulated
/// precipitation integral, or zero for a non-precipitating event.
pub open spec fn finalize_summary_s(st: State, prec: i64) -> StateHistory {
    match st {
        State::Precipitating => StateHistory::Precipitating(prec),
        State::NotPrecipitating => StateHistory::NotPrecipitating(0),
    }
}

/// The new continuous value of one step from model `m` with centered draw
/// `g`: the Euler–Maruyama update
/// `q + drift(q) * h + sqrt(diffusion(q)) * sqrt(h) * g`, clamped to the
/// representable range.
pub open spec fn step_q_s(m: EngineModel, g: int) -> int {
    let qprev = m.q as int;
    let drift = signed_drift_s(m.funcs, m.state, qprev);
    let diff = scaled_response_s(m.funcs.diffusion_params_s(m.state), qprev);
    let w = muldiv_s(m.sqrt_h as int, g, SCALE as int);
    let delta = muldiv_s(drift, m.h as int, SCALE as int) + muldiv_s(
        sqrt_s(diff * (SCALE as int)),
        w,
        SCALE as int,
    );
    clamp_s(qprev + delta, FP_LIMIT as int)
}

/// The precipitation integral after one step from model `m`: unchanged
/// while not precipitating, otherwise grown by `precipitation_drift(q) * h`
/// and clamped to the representable range.
pub open spec fn step_prec_s(m: EngineModel) -> int {
    match m.state {
        State::NotPrecipitating => m.prec as int,
        State::Precipitating => clamp_s(
            m.prec + muldiv_s(
                scaled_response_s(m.funcs.precipitation_drift, m.q as int),
                m.h as int,
                SCALE as int,
            ),
            FP_LIMIT as int,
        ),
    }
}

/// One full step of the machine from model `m`, with centered draw `g` and
/// uniform draw `u`: update the continuous value, accumulate the
/// precipitation integral, record the sample, count a divergence if the new
/// value left the plausible range, then fire the transition policy and, if
/// it fires, finalize the event and flip the regime.
pub open spec fn step_model(m: EngineModel, g: int, u: int) -> EngineModel {
    let qn = step_q_s(m, g);
    let precn = step_prec_s(m);
    let divs: u64 = if (qn < PLAUSIBLE_MIN || qn > PLAUSIBLE_MAX) && m.divergences < u64::MAX {
        (m.divergences + 1) as u64
    } else {
        m.divergences
    };
    let event2 = m.event.push(qn as i64);
    if fires_s(m.policy, m.funcs, m.state, qn, m.h as int, u) {
        EngineModel {
            state: m.state.spec_flip(),
            q: qn as i64,
            prec: 0,
            event: Seq::empty(),
            history: m.history.push((finalize_summary_s(m.state, precn as i64), event2)),
            divergences: divs,
            steps: m.steps + 1,
            ..m
        }
    } else {
        EngineModel {
            q: qn as i64,
            prec: precn as i64,
            event: event2,
            divergences: divs,
            steps: m.steps + 1,
            ..m
        }
    }
}

/// Total number of samples stored in a history.
pub open spec fn sum_lens(h: Seq<(StateHistory, Seq<i64>)>) -> nat
    decreases h.len(),
{
    if h.len() == 0 {
        0
    } else {
        sum_lens(h.drop_last()) + h.last().1.len()
    }
}

/// Total number of samples a model holds: the history plus the in-progress
/// buffer.
pub open spec fn total_samples(m: EngineModel) -> nat {
    sum_lens(m.history) + m.event.len()
}

/// Appending one event grows the stored sample count by that event's length.
pub proof fn lemma_sum_lens_push(h: Seq<(StateHistory, Seq<i64>)>, e: (StateHistory, Seq<i64>))
    ensures
        sum_lens(h.push(e)) == sum_lens(h) + e.1.len(),
{
    assert(h.push(e).drop_last() =~= h);
    assert(h.push(e).last() == e);
}

/// Well-formedness of a model: a valid configuration, all continuous
/// quantities in range, the cached square root faithful, the accumulator
/// conventions of the two regimes, and the sample-conservation invariant.
pub open spec fn wf_model(m: EngineModel) -> bool {
    &&& m.funcs.valid()
    &&& m.policy.valid()
    &&& 0 < m.h <= STEP_MAX
    &&& m.sqrt_h == sqrt_s(m.h as int * SCALE as int)
    &&& -FP_LIMIT <= m.q <= FP_LIMIT
    &&& -FP_LIMIT <= m.prec <= FP_LIMIT
    &&& (m.state is NotPrecipitating ==> m.prec == 0)
    &&& (m.event.len() == 0 ==> m.prec == 0)
    &&& total_samples(m) == m.steps + 1
    &&& (forall|i: int| 0 <= i < m.history.len() ==> (#[trigger] m.history[i]).1.len() >= 1)
    &&& (forall|i: int|
        0 <= i < m.history.len() ==> ((#[trigger] m.history[i]).0 is NotPrecipitating
            ==> m.history[i].0.spec_total() == 0))
}

/// The stochastic-rate configuration whose switching probability is
/// identically zero: both rate curves pinned to the zero level.
pub open spec fn zero_rate_s(m: EngineModel) -> bool {
    &&& m.policy is StochasticRate
    &&& m.funcs.rate_to_precip.lo == 0
    &&& m.funcs.rate_to_precip.hi == 0
    &&& m.funcs.rate_to_not_precip.lo == 0
    &&& m.funcs.rate_to_not_precip.hi == 0
}

/// Law: one step stores exactly one new sample, wherever the step's draws
/// fall — the event buffer either grows by one, or moves wholesale into the
/// history with the new sample included.
pub proof fn lemma_step_conserves_samples(m: EngineModel, g: int, u: int)
    ensures
        total_samples(step_model(m, g, u)) == total_samples(m) + 1,
        step_model(m, g, u).steps == m.steps + 1,
{
    let qn = step_q_s(m, g);
    let event2 = m.event.push(qn as i64);
    if fires_s(m.policy, m.funcs, m.state, qn, m.h as int, u) {
        lemma_sum_lens_push(
            m.history,
            (finalize_summary_s(m.state, step_prec_s(m) as i64), event2),
        );
    }
}

/// Law: under a zero-rate stochastic configuration no step ever fires a
/// transition, whatever the draws: the history and the regime are left
/// unchanged.
pub proof fn lemma_zero_rate_step(m: EngineModel, g: int, u: int)
    requires
        zero_rate_s(m),
        0 <= m.h,
        1 <= u,
    ensures
        step_model(m, g, u).history == m.history,
        step_model(m, g, u).state == m.state,
        zero_rate_s(step_model(m, g, u)),
{
    let qn = step_q_s(m, g);
    crate::policy::lemma_zero_rate_never_fires(m.funcs, m.state, qn, m.h as int, u);
}

/// The read-only shape of a stored history: each event keeps its summary
/// and its sample path.
pub open spec fn hist_view(h: Seq<(StateHistory, Vec<i64>)>) -> Seq<(StateHistory, Seq<i64>)> {
    h.map_values(|e: (StateHistory, Vec<i64>)| (e.0, e.1@))
}

/// The stochastic state machine.
pub struct MarkovChain {
    state: State,
    q: i64,
    h: i64,
    sqrt_h: i64,
    prec: i64,
    event: Vec<i64>,
    history: Vec<(StateHistory, Vec<i64>)>,
    funcs: ResponseFunctionSet,
    policy: TransitionPolicy,
    divergences: u64,
    rng: RandomSource,
    steps: Ghost<nat>,
}

impl View for MarkovChain {
    type V = EngineModel;

    closed spec fn view(&self) -> EngineModel {
        EngineModel {
            state: self.state,
            q: self.q,
            h: self.h,
            sqrt_h: self.sqrt_h,
            prec: self.prec,
            event: self.event@,
            history: hist_view(self.history@),
            funcs: self.funcs,
            policy: self.policy,
            divergences: self.divergences,
            steps: self.steps@,
        }
    }
}

/// The configuration fault a construction request carries, if any, checked
/// in a fixed order.
pub open spec fn config_error_s(
    q: i64,
    h: i64,
    funcs: ResponseFunctionSet,
    policy: TransitionPolicy,
) -> Option<ConfigError> {
    if !(0 < h <= STEP_MAX) {
        Some(ConfigError::InvalidStepSize)
    } else if !(-FP_LIMIT <= q <= FP_LIMIT) {
        Some(ConfigError::InitialValueOutOfRange)
    } else if !funcs.valid() {
        Some(ConfigError::InvalidResponseFunctions)
    } else if !policy.valid() {
        Some(ConfigError::InvalidThresholds)
    } else {
        None
    }
}

impl MarkovChain {
    /// The machine's invariant.
    pub open spec fn wf(self) -> bool {
        wf_model(self@)
    }

    /// Build a machine, or refuse the configuration.  Succeeds exactly when
    /// the step size is in `(0, STEP_MAX]`, the initial value is
    /// representable, the response curves are valid with non-negative
    /// diffusion scales, and any threshold boundaries are ordered.  The
    /// fresh machine has taken no steps: its buffer holds the one initial
    /// sample and its history is empty.
    pub fn new(
        state: State,
        q: i64,
        h: i64,
        funcs: ResponseFunctionSet,
        policy: TransitionPolicy,
        seed: u64,
    ) -> (r: Result<MarkovChain, ConfigError>)
        ensures
            (r is Ok) == (config_error_s(q, h, funcs, policy) is None),
            r is Err ==> Some(r->Err_0) == config_error_s(q, h, funcs, policy),
            r is Ok ==> {
                let m = (r->Ok_0)@;
                &&& (r->Ok_0).wf()
                &&& m.state == state
                &&& m.q == q
                &&& m.h == h
                &&& m.prec == 0
                &&& m.event =~= seq![q]
                &&& m.history =~= Seq::<(StateHistory, Seq<i64>)>::empty()
                &&& m.funcs == funcs
                &&& m.policy == policy
                &&& m.divergences == 0
                &&& m.steps == 0
            },
    {
        if !(0 < h && h <= STEP_MAX) {
            return Err(ConfigError::InvalidStepSize);
        }
        if !(-FP_LIMIT <= q && q <= FP_LIMIT) {
            return Err(ConfigError::InitialValueOutOfRange);
        }
        if !funcs_valid(&funcs) {
            return Err(ConfigError::InvalidResponseFunctions);
        }
        if !policy_valid(&policy) {
            return Err(ConfigError::InvalidThresholds);
        }
        let hs: u64 = (h as u64) * (SCALE as u64);
        let root: u64 = isqrt(hs);
        proof {
            assert(root <= 31_622_776) by (nonlinear_arith)
                requires
                    root * root <= hs,
                    hs <= 1_000_000_000_000_000,
            ;
            lemma_sqrt_s_unique(hs as int, root as int);
        }
        let sqrt_h: i64 = root as i64;
        let mut event: Vec<i64> = Vec::new();
        event.push(q);
        let mc = MarkovChain {
            state,
            q,
            h,
            sqrt_h,
            prec: 0,
            event,
            history: Vec::new(),
            funcs,
            policy,
            divergences: 0,
            rng: RandomSource::from_seed(seed),
            steps: Ghost(0nat),
        };
        proof {
            assert(hist_view(mc.history@) =~= Seq::<(StateHistory, Seq<i64>)>::empty());
        }
        Ok(mc)
    }

    /// Advance one step with the given draws: the deterministic core of
    /// `sample`, usable on its own to drive the machine with a chosen
    /// draw sequence.  `g` is the centered unit-variance draw, `u` the
    /// uniform probability draw.
    pub fn advance(&mut self, g: i64, u: i64)
        requires
            old(self).wf(),
            -6 * (SCALE as int) <= g <= 6 * (SCALE as int),
            1 <= u <= SCALE,
        ensures
            final(self).wf(),
            final(self)@ == step_model(old(self)@, g as int, u as int),
    {
        proof {
            crate::fixed::lemma_sqrt_s_props(self.h as int * SCALE as int);
            assert(self.sqrt_h <= 31_622_776) by (nonlinear_arith)
                requires
                    (self.sqrt_h as int) * (self.sqrt_h as int) <= (self.h as int) * (
                    SCALE as int),
                    self.sqrt_h >= 0,
                    (self.h as int) * (SCALE as int) <= 1_000_000_000_000_000,
            ;
        }
        let qprev = self.q;
        let dp = self.funcs.drift_params(self.state);
        let drift_resp = scaled_response(&dp, qprev);
        let drift: i64 = match self.state {
            State::NotPrecipitating => drift_resp,
            State::Precipitating => -drift_resp,
        };
        proof {
            lemma_muldiv_s_mag(
                drift as int,
                self.h as int,
                SCALE as int,
                PARAM_MAX as int,
                STEP_MAX as int,
            );
        }
        let dterm = muldiv(drift, self.h, SCALE);
        let diffp = self.funcs.diffusion_params(self.state);
        let diff = scaled_response(&diffp, qprev);
        let ds: u64 = (diff as u64) * (SCALE as u64);
        let root_u: u64 = isqrt(ds);
        proof {
            assert(root_u <= 1_000_000_000) by (nonlinear_arith)
                requires
                    root_u * root_u <= ds,
                    ds <= 1_000_000_000_000_000_000,
            ;
            lemma_sqrt_s_unique(ds as int, root_u as int);
        }
        let root: i64 = root_u as i64;
        proof {
            // `sqrt_h` is at most the square root of `STEP_MAX * SCALE`.
            lemma_muldiv_s_mag(self.sqrt_h as int, g as int, SCALE as int, 31_622_776, 6_000_000);
        }
        let w = muldiv(self.sqrt_h, g, SCALE);
        proof {
            // `|w|` is at most `31_622_776 * 6_000_000 / SCALE`.
            lemma_muldiv_s_mag(root as int, w as int, SCALE as int, 1_000_000_000, 189_736_656);
        }
        let nterm = muldiv(root, w, SCALE);
        let qraw: i64 = qprev + dterm + nterm;
        let qn: i64 = if qraw > FP_LIMIT {
            FP_LIMIT
        } else if qraw < -FP_LIMIT {
            -FP_LIMIT
        } else {
            qraw
        };
        if (qn < PLAUSIBLE_MIN || qn > PLAUSIBLE_MAX) && self.divergences < u64::MAX {
            self.divergences = self.divergences + 1;
        }
        if let State::Precipitating = self.state {
            let pd = scaled_response(&self.funcs.precipitation_drift, qprev);
            proof {
                lemma_muldiv_s_mag(
                    pd as int,
                    self.h as int,
                    SCALE as int,
                    PARAM_MAX as int,
                    STEP_MAX as int,
                );
            }
            let pinc = muldiv(pd, self.h, SCALE);
            let praw: i64 = self.prec + pinc;
            self.prec = if praw > FP_LIMIT {
                FP_LIMIT
            } else if praw < -FP_LIMIT {
                -FP_LIMIT
            } else {
                praw
            };
        }
        self.q = qn;
        self.event.push(qn);
        let fired = transition_fires(&self.policy, &self.funcs, self.state, qn, self.h, u);
        proof {
            assert(qn == step_q_s(old(self)@, g as int));
            assert(self.prec == step_prec_s(old(self)@));
        }
        if fired {
            let summary = match self.state {
                State::Precipitating => StateHistory::Precipitating(self.prec),
                State::NotPrecipitating => StateHistory::NotPrecipitating(0),
            };
            let mut ev: Vec<i64> = Vec::new();
            core::mem::swap(&mut ev, &mut self.event);
            self.history.push((summary, ev));
            self.prec = 0;
            self.state = self.state.flip();
        }
        proof {
            self.steps@ = self.steps@ + 1;
        }
        proof {
            let m2 = step_model(old(self)@, g as int, u as int);
            assert(hist_view(self.history@) =~= m2.history);
            assert(self@ =~= m2);
            lemma_step_conserves_samples(old(self)@, g as int, u as int);
        }
    }

    /// Draw the step's randomness and advance one step.  The machine after
    /// the call is `step_model` of the machine before it, for some pair of
    /// draws in range; properties that hold of `step_model` for every draw
    /// therefore hold of every call.
    pub fn sample(&mut self)
        requires
            old(self).wf(),
        ensures
            final(self).wf(),
            exists|g: int, u: int|
                {
                    &&& -6 * (SCALE as int) <= g <= 6 * (SCALE as int)
                    &&& 1 <= u <= SCALE
                    &&& final(self)@ == step_model(old(self)@, g, u)
                },
            final(self)@.steps == old(self)@.steps + 1,
            total_samples(final(self)@) == total_samples(old(self)@) + 1,
            final(self)@.h == old(self)@.h,
            final(self)@.funcs == old(self)@.funcs,
            final(self)@.policy == old(self)@.policy,
            zero_rate_s(old(self)@) ==> final(self)@.history == old(self)@.history
                && final(self)@.state == old(self)@.state,
    {
        let g = self.rng.draw_gauss();
        // Only the stochastic policy consumes a uniform draw; the threshold
        // test is deterministic and ignores `u`.
        let u: i64 = match self.policy {
            TransitionPolicy::StochasticRate => self.rng.draw_unit(),
            TransitionPolicy::ThresholdCrossing { .. } => 1,
        };
        let ghost before = self@;
        self.advance(g, u);
        proof {
            lemma_step_conserves_samples(before, g as int, u as int);
            if zero_rate_s(before) {
                lemma_zero_rate_step(before, g as int, u as int);
            }
        }
    }

    /// Perform exactly `n` steps, sequentially.
    pub fn simulate(&mut self, n: usize)
        requires
            old(self).wf(),
        ensures
            final(self).wf(),
            final(self)@.steps == old(self)@.steps + n,
            total_samples(final(self)@) == total_samples(old(self)@) + n,
            final(self)@.h == old(self)@.h,
            final(self)@.funcs == old(self)@.funcs,
            final(self)@.policy == old(self)@.policy,
            zero_rate_s(old(self)@) ==> final(self)@.history == old(self)@.history
                && final(self)@.state == old(self)@.state,
    {
        let mut i: usize = 0;
        while i < n
            invariant
                0 <= i <= n,
                self.wf(),
                self@.steps == old(self)@.steps + i,
                total_samples(self@) == total_samples(old(self)@) + i,
                self@.h == old(self)@.h,
                self@.funcs == old(self)@.funcs,
                self@.policy == old(self)@.policy,
                zero_rate_s(old(self)@) ==> self@.history == old(self)@.history && self@.state
                    == old(self)@.state,
            decreases n - i,
        {
            self.sample();
            i = i + 1;
        }
    }

    /// Flush the in-progress buffer into the history — exactly once: a
    /// second call with no intervening `sample` finds the buffer empty and
    /// changes nothing — and return the history read-only.  After the call
    /// the history holds every sample the machine has produced: one per
    /// step, plus the initial value.
    pub fn get_history(&mut self) -> (h: &Vec<(StateHistory, Vec<i64>)>)
        requires
            old(self).wf(),
        ensures
            final(self).wf(),
            hist_view(h@) == final(self)@.history,
            final(self)@.event.len() == 0,
            final(self)@.history == (if old(self)@.event.len() == 0 {
                old(self)@.history
            } else {
                old(self)@.history.push(
                    (finalize_summary_s(old(self)@.state, old(self)@.prec), old(self)@.event),
                )
            }),
            sum_lens(final(self)@.history) == old(self)@.steps + 1,
            final(self)@.state == old(self)@.state,
            final(self)@.q == old(self)@.q,
            final(self)@.h == old(self)@.h,
            final(self)@.funcs == old(self)@.funcs,
            final(self)@.policy == old(self)@.policy,
            final(self)@.divergences == old(self)@.divergences,
            final(self)@.steps == old(self)@.steps,
    {
        if self.event.len() > 0 {
            let summary = match self.state {
                State::Precipitating => StateHistory::Precipitating(self.prec),
                State::NotPrecipitating => StateHistory::NotPrecipitating(0),
            };
            let mut ev: Vec<i64> = Vec::new();
            core::mem::swap(&mut ev, &mut self.event);
            proof {
                lemma_sum_lens_push(hist_view(old(self).history@), (summary, ev@));
            }
            self.history.push((summary, ev));
            self.prec = 0;
            proof {
                assert(hist_view(self.history@) =~= hist_view(old(self).history@).push(
                    (summary, ev@),
                ));
            }
        }
        &self.history
    }

    /// The current regime.
    pub fn state(&self) -> (st: State)
        ensures
            st == self@.state,
    {
        self.state
    }

    /// The current continuous value, fixed point.
    pub fn current_value(&self) -> (q: i64)
        ensures
            q == self@.q,
    {
        self.q
    }

    /// How many steps have left the physically plausible range
    /// `[PLAUSIBLE_MIN, PLAUSIBLE_MAX]`: the divergence diagnostic.
    pub fn divergence_count(&self) -> (n: u64)
        ensures
            n == self@.divergences,
    {
        self.divergences
    }
}

/// Exec mirror of `ResponseFunctionSet::valid`.
fn funcs_valid(f: &ResponseFunctionSet) -> (ok: bool)
    ensures
        ok == f.valid(),
{
    params_valid(&f.rate_to_precip) && params_valid(&f.rate_to_not_precip) && params_valid(
        &f.evaporation_drift,
    ) && params_valid(&f.precipitation_drift) && params_valid(&f.diffusion_scale_not_precip)
        && params_valid(&f.diffusion_scale_precip) && f.diffusion_scale_not_precip.lo >= 0
        && f.diffusion_scale_not_precip.hi >= 0 && f.diffusion_scale_precip.lo >= 0
        && f.diffusion_scale_precip.hi >= 0
}

/// Exec mirror of `ResponseParams::valid`.
fn params_valid(p: &crate::response::ResponseParams) -> (ok: bool)
    ensures
        ok == p.valid(),
{
    -PARAM_MAX <= p.lo && p.lo <= PARAM_MAX && -PARAM_MAX <= p.hi && p.hi <= PARAM_MAX
        && -FP_LIMIT <= p.mid && p.mid <= FP_LIMIT && -FP_LIMIT <= p.width && p.width <= FP_LIMIT
}

/// Exec mirror of `TransitionPolicy::valid`.
fn policy_valid(p: &TransitionPolicy) -> (ok: bool)
    ensures
        ok == p.valid(),
{
    match p {
        TransitionPolicy::StochasticRate => true,
        TransitionPolicy::ThresholdCrossing { q_low, q_high } => {
            *q_low < *q_high && -FP_LIMIT <= *q_low && *q_high <= FP_LIMIT
        },
    }
}

} // verus!
