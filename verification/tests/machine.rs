use cwv_markov::ConfigError;
use cwv_markov::FP_LIMIT;
use cwv_markov::MarkovChain;
use cwv_markov::ResponseFunctionSet;
use cwv_markov::ResponseParams;
use cwv_markov::State;
use cwv_markov::StateHistory;
use cwv_markov::TransitionPolicy;

// One fixed-point unit is a million counts.
const UNIT: i64 = 1_000_000;

fn sum_of_lengths(history: &[(StateHistory, Vec<i64>)]) -> usize {
    history.iter().map(|e| e.1.len()).sum()
}

fn zero_rate_funcs() -> ResponseFunctionSet {
    let mut f = ResponseFunctionSet::model_2011();
    f.rate_to_precip = ResponseParams::constant(0);
    f.rate_to_not_precip = ResponseParams::constant(0);
    f
}

fn threshold_policy() -> TransitionPolicy {
    TransitionPolicy::ThresholdCrossing { q_low: 62 * UNIT, q_high: 65 * UNIT }
}

// A deterministic configuration: constant drift, no noise, no rates.
fn deterministic_drift_funcs(drift: i64) -> ResponseFunctionSet {
    ResponseFunctionSet {
        rate_to_precip: ResponseParams::constant(0),
        rate_to_not_precip: ResponseParams::constant(0),
        evaporation_drift: ResponseParams::constant(drift),
        precipitation_drift: ResponseParams::constant(0),
        diffusion_scale_not_precip: ResponseParams::constant(0),
        diffusion_scale_precip: ResponseParams::constant(0),
    }
}

#[test]
fn sample_count_is_steps_plus_one() {
    let mut mc = MarkovChain::new(
        State::NotPrecipitating,
        61 * UNIT,
        10_000,
        ResponseFunctionSet::model_2011(),
        TransitionPolicy::StochasticRate,
        42,
    )
    .unwrap();
    mc.simulate(1000);
    let history = mc.get_history();
    assert_eq!(sum_of_lengths(history), 1001);
}

#[test]
fn zero_steps_keep_only_the_initial_sample() {
    let mut mc = MarkovChain::new(
        State::NotPrecipitating,
        61 * UNIT,
        10_000,
        ResponseFunctionSet::model_2011(),
        TransitionPolicy::StochasticRate,
        1,
    )
    .unwrap();
    mc.simulate(0);
    let history = mc.get_history();
    assert_eq!(history.len(), 1);
    assert_eq!(sum_of_lengths(history), 1);
    assert_eq!(history[0].1[0], 61 * UNIT);
}

#[test]
fn get_history_is_idempotent() {
    let mut mc = MarkovChain::new(
        State::NotPrecipitating,
        61 * UNIT,
        10_000,
        ResponseFunctionSet::model_2011(),
        TransitionPolicy::StochasticRate,
        7,
    )
    .unwrap();
    mc.simulate(500);
    let first: Vec<(StateHistory, Vec<i64>)> =
        mc.get_history().iter().map(|e| (e.0, e.1.clone())).collect();
    let second: Vec<(StateHistory, Vec<i64>)> =
        mc.get_history().iter().map(|e| (e.0, e.1.clone())).collect();
    assert_eq!(first, second);
}

#[test]
fn zero_rate_never_transitions() {
    let mut mc = MarkovChain::new(
        State::NotPrecipitating,
        61 * UNIT,
        10_000,
        zero_rate_funcs(),
        TransitionPolicy::StochasticRate,
        99,
    )
    .unwrap();
    mc.simulate(10_000);
    assert_eq!(mc.state(), State::NotPrecipitating);
    let history = mc.get_history();
    // No transition ever fired: the flush makes exactly one event holding
    // every sample.
    assert_eq!(history.len(), 1);
    assert_eq!(history[0].1.len(), 10_001);
    assert!(matches!(history[0].0, StateHistory::NotPrecipitating(0)));
}

#[test]
fn threshold_crossing_fires_exactly_once() {
    // Drift 0.3 units per unit time, step size 1.0, no noise: the value
    // rises deterministically 61.0, 61.3, ... and first reaches 65.0 at
    // step 14 (65.2).
    let mut mc = MarkovChain::new(
        State::NotPrecipitating,
        61 * UNIT,
        UNIT,
        deterministic_drift_funcs(300_000),
        threshold_policy(),
        5,
    )
    .unwrap();
    mc.simulate(20);
    assert_eq!(mc.state(), State::Precipitating);
    let history = mc.get_history();
    assert_eq!(history.len(), 2);
    // The finished non-precipitating event: initial sample plus 14 steps.
    assert!(matches!(history[0].0, StateHistory::NotPrecipitating(0)));
    assert_eq!(history[0].1.len(), 15);
    assert_eq!(history[0].1[0], 61 * UNIT);
    assert_eq!(*history[0].1.last().unwrap(), 65_200_000);
    for (i, q) in history[0].1.iter().enumerate() {
        assert_eq!(*q, 61 * UNIT + 300_000 * i as i64);
        if i < 14 {
            assert!(*q < 65 * UNIT);
        }
    }
    // After the switch nothing moves (zero drift, zero noise), so the value
    // never falls back to the lower boundary: no second transition.
    assert!(matches!(history[1].0, StateHistory::Precipitating(0)));
    assert_eq!(history[1].1.len(), 6);
    assert_eq!(sum_of_lengths(history), 21);
}

#[test]
fn saturated_rate_transitions_every_step() {
    // An enormous rate makes the per-step switching probability one: every
    // step fires, whatever the draws.
    let mut f = deterministic_drift_funcs(0);
    f.rate_to_precip = ResponseParams::constant(1_000_000_000_000);
    f.rate_to_not_precip = ResponseParams::constant(1_000_000_000_000);
    let mut mc = MarkovChain::new(
        State::NotPrecipitating,
        61 * UNIT,
        UNIT,
        f,
        TransitionPolicy::StochasticRate,
        11,
    )
    .unwrap();
    mc.simulate(10);
    let history = mc.get_history();
    assert_eq!(history.len(), 10);
    assert_eq!(history[0].1.len(), 2);
    for e in history.iter().skip(1) {
        assert_eq!(e.1.len(), 1);
    }
    assert_eq!(sum_of_lengths(history), 11);
}

#[test]
fn precipitation_integral_accumulates() {
    // Precipitating regime, depletion rate 5.0, step 1.0, no noise: each
    // step adds 5.0 to the integral and subtracts 5.0 from the value.
    let mut f = deterministic_drift_funcs(0);
    f.precipitation_drift = ResponseParams::constant(5 * UNIT);
    let mut mc = MarkovChain::new(
        State::Precipitating,
        90 * UNIT,
        UNIT,
        f,
        TransitionPolicy::ThresholdCrossing { q_low: 62 * UNIT, q_high: 95 * UNIT },
        11,
    )
    .unwrap();
    mc.simulate(3);
    let history = mc.get_history();
    // 90 -> 85 -> 80 -> 75, never reaching the lower boundary 62.
    assert_eq!(history.len(), 1);
    assert_eq!(history[0].1, vec![90 * UNIT, 85 * UNIT, 80 * UNIT, 75 * UNIT]);
    match history[0].0 {
        StateHistory::Precipitating(total) => assert_eq!(total, 15 * UNIT),
        StateHistory::NotPrecipitating(_) => panic!("wrong regime tag"),
    }
}

#[test]
fn threshold_depletion_switches_back() {
    // Start precipitating just above the lower boundary: one depletion step
    // crosses it and the regime flips back.
    let mut f = deterministic_drift_funcs(0);
    f.precipitation_drift = ResponseParams::constant(5 * UNIT);
    let mut mc = MarkovChain::new(
        State::Precipitating,
        63 * UNIT,
        UNIT,
        f,
        threshold_policy(),
        3,
    )
    .unwrap();
    mc.simulate(1);
    assert_eq!(mc.state(), State::NotPrecipitating);
    assert_eq!(mc.current_value(), 58 * UNIT);
    let history = mc.get_history();
    assert_eq!(history.len(), 1);
    assert_eq!(history[0].1, vec![63 * UNIT, 58 * UNIT]);
    match history[0].0 {
        StateHistory::Precipitating(total) => assert_eq!(total, 5 * UNIT),
        StateHistory::NotPrecipitating(_) => panic!("wrong regime tag"),
    }
}

#[test]
fn advance_applies_the_noise_term_exactly() {
    // Diffusion scale 4.0 and step size 1.0 make the noise coefficient
    // sqrt(4.0) * sqrt(1.0) = 2.0 exactly, so a chosen draw g moves the
    // value by exactly 2 * g.
    let mut f = deterministic_drift_funcs(0);
    f.diffusion_scale_not_precip = ResponseParams::constant(4 * UNIT);
    let mut mc = MarkovChain::new(
        State::NotPrecipitating,
        61 * UNIT,
        UNIT,
        f,
        threshold_policy(),
        9,
    )
    .unwrap();
    mc.advance(500_000, 1);
    assert_eq!(mc.current_value(), 62 * UNIT);
    mc.advance(-250_000, 1);
    assert_eq!(mc.current_value(), 61_500_000);
    assert_eq!(mc.state(), State::NotPrecipitating);
}

#[test]
fn same_seed_reproduces_the_run() {
    let make = || {
        MarkovChain::new(
            State::NotPrecipitating,
            61 * UNIT,
            10_000,
            ResponseFunctionSet::model_2011(),
            TransitionPolicy::StochasticRate,
            123,
        )
        .unwrap()
    };
    let mut a = make();
    let mut b = make();
    a.simulate(2000);
    b.simulate(2000);
    let ha: Vec<(StateHistory, Vec<i64>)> =
        a.get_history().iter().map(|e| (e.0, e.1.clone())).collect();
    let hb: Vec<(StateHistory, Vec<i64>)> =
        b.get_history().iter().map(|e| (e.0, e.1.clone())).collect();
    assert_eq!(ha, hb);
}

#[test]
fn divergence_is_counted_and_value_clamped() {
    // A drift of a million units per step leaves any plausible range at
    // once; the count grows by one per diverging step and the value is
    // clamped at the representable limit.
    let mut mc = MarkovChain::new(
        State::NotPrecipitating,
        61 * UNIT,
        1_000_000_000,
        deterministic_drift_funcs(1_000_000_000_000),
        TransitionPolicy::StochasticRate,
        0,
    )
    .unwrap();
    assert_eq!(mc.divergence_count(), 0);
    mc.simulate(1);
    assert_eq!(mc.divergence_count(), 1);
    assert_eq!(mc.current_value(), FP_LIMIT);
    mc.simulate(2);
    assert_eq!(mc.divergence_count(), 3);
}

#[test]
fn construction_rejects_bad_step_size() {
    let r = MarkovChain::new(
        State::NotPrecipitating,
        61 * UNIT,
        0,
        ResponseFunctionSet::model_2011(),
        TransitionPolicy::StochasticRate,
        0,
    );
    assert_eq!(r.err(), Some(ConfigError::InvalidStepSize));
    let r = MarkovChain::new(
        State::NotPrecipitating,
        61 * UNIT,
        -5,
        ResponseFunctionSet::model_2011(),
        TransitionPolicy::StochasticRate,
        0,
    );
    assert_eq!(r.err(), Some(ConfigError::InvalidStepSize));
    let r = MarkovChain::new(
        State::NotPrecipitating,
        61 * UNIT,
        1_000_000_001,
        ResponseFunctionSet::model_2011(),
        TransitionPolicy::StochasticRate,
        0,
    );
    assert_eq!(r.err(), Some(ConfigError::InvalidStepSize));
}

#[test]
fn construction_rejects_bad_initial_value() {
    let r = MarkovChain::new(
        State::NotPrecipitating,
        FP_LIMIT + 1,
        10_000,
        ResponseFunctionSet::model_2011(),
        TransitionPolicy::StochasticRate,
        0,
    );
    assert_eq!(r.err(), Some(ConfigError::InitialValueOutOfRange));
}

#[test]
fn construction_rejects_negative_diffusion() {
    let mut f = ResponseFunctionSet::model_2011();
    f.diffusion_scale_precip = ResponseParams::constant(-2 * UNIT);
    let r = MarkovChain::new(
        State::NotPrecipitating,
        61 * UNIT,
        10_000,
        f,
        TransitionPolicy::StochasticRate,
        0,
    );
    assert_eq!(r.err(), Some(ConfigError::InvalidResponseFunctions));
}

#[test]
fn construction_rejects_unordered_thresholds() {
    let r = MarkovChain::new(
        State::NotPrecipitating,
        61 * UNIT,
        10_000,
        ResponseFunctionSet::model_2014(),
        TransitionPolicy::ThresholdCrossing { q_low: 65 * UNIT, q_high: 62 * UNIT },
        0,
    );
    assert_eq!(r.err(), Some(ConfigError::InvalidThresholds));
    let r = MarkovChain::new(
        State::NotPrecipitating,
        61 * UNIT,
        10_000,
        ResponseFunctionSet::model_2014(),
        TransitionPolicy::ThresholdCrossing { q_low: 62 * UNIT, q_high: 62 * UNIT },
        0,
    );
    assert_eq!(r.err(), Some(ConfigError::InvalidThresholds));
}

#[test]
fn end_to_end_model_2014() {
    let mut mc = MarkovChain::new(
        State::NotPrecipitating,
        61 * UNIT,
        10_000,
        ResponseFunctionSet::model_2014(),
        threshold_policy(),
        2024,
    )
    .unwrap();
    mc.simulate(100_000);
    let transitions = {
        let history = mc.get_history();
        assert_eq!(sum_of_lengths(history), 100_001);
        // Regime tags alternate, starting from the non-precipitating start.
        let mut expected = State::NotPrecipitating;
        let mut count = 0usize;
        for e in history.iter() {
            match e.0 {
                StateHistory::NotPrecipitating(total) => {
                    assert_eq!(expected, State::NotPrecipitating);
                    assert_eq!(total, 0);
                }
                StateHistory::Precipitating(total) => {
                    assert_eq!(expected, State::Precipitating);
                    assert!(total >= 0);
                }
            }
            assert!(!e.1.is_empty());
            expected = match expected {
                State::NotPrecipitating => State::Precipitating,
                State::Precipitating => State::NotPrecipitating,
            };
            count += 1;
        }
        count
    };
    assert!(transitions >= 1);
}

#[test]
fn summary_total_accessor() {
    assert_eq!(StateHistory::Precipitating(42).total(), 42);
    assert_eq!(StateHistory::NotPrecipitating(0).total(), 0);
}
